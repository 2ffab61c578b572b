//! The token-level logic of the `scatter`/`gather` attributes and of
//! `ident_concat`.
//!
//! `scatter` and `gather` rewrite an attributed item into a call of the
//! declarative form of the macro:
//!
//! `<crate path>::__support::<macro>_parse!(#[<macro>(<attribute>)] <item>);`
//!
//! where the crate path is the one given as `crate_path = ...` among the
//! attribute's arguments, or `::<crate>` by default.

use vstd::prelude::*;

use crate::tokens::{
    clone_token, clone_tokens, lemma_group_view, token_view, views, Delimiter, Group, Ident, Punct,
    Spacing, Span, TokenTree, TokenView,
};

verus! {

/// Whether `t` is the identifier `name`.
pub open spec fn is_ident_named(t: TokenView, name: Seq<char>) -> bool {
    t matches TokenView::Ident(n, _) && n == name
}

/// Whether `t` is the punctuation character `c`.
pub open spec fn is_punct(t: TokenView, c: char) -> bool {
    t matches TokenView::Punct(ch, _, _) && ch == c
}

/// The tokens of `a` from index `j` up to the first `,` (or the end).
pub open spec fn path_until_comma(a: Seq<TokenView>, j: int) -> Seq<TokenView>
    decreases a.len() - j,
{
    if j < 0 || j >= a.len() || is_punct(a[j], ',') {
        Seq::empty()
    } else {
        seq![a[j]] + path_until_comma(a, j + 1)
    }
}

/// The crate path given among the attribute's arguments `a`, scanning from
/// index `i`: after an identifier `crate_path`, the next token is taken; if it
/// is `=`, the path is what follows, up to the next `,`; otherwise the scan
/// goes on after it.
pub open spec fn crate_path_from(a: Seq<TokenView>, i: int) -> Option<Seq<TokenView>>
    decreases a.len() - i,
{
    if i < 0 || i >= a.len() {
        None
    } else if is_ident_named(a[i], "crate_path"@) {
        if i + 1 < a.len() && is_punct(a[i + 1], '=') {
            Some(path_until_comma(a, i + 2))
        } else if i + 2 <= a.len() {
            crate_path_from(a, i + 2)
        } else {
            None
        }
    } else {
        crate_path_from(a, i + 1)
    }
}

/// The crate path is found wherever it stands among the attribute's
/// arguments: if the first identifier `crate_path` of the attribute stands
/// at index `i` and is followed by `=`, the crate path is the tokens after
/// the `=` up to the next `,` (or the end), whatever arguments and commas
/// come before it.
pub proof fn law_crate_path_found_at_first_occurrence(a: Seq<TokenView>, i: int)
    requires
        0 <= i,
        i + 1 < a.len(),
        is_ident_named(a[i], "crate_path"@),
        is_punct(a[i + 1], '='),
        forall|j: int| 0 <= j < i ==> !is_ident_named(#[trigger] a[j], "crate_path"@),
    ensures
        crate_path_from(a, 0) == Some(path_until_comma(a, i + 2)),
{
    lemma_crate_path_skips_other_tokens(a, 0, i);
}

/// Arguments before the crate path that hold no `crate_path` identifier do
/// not change which crate path is found: `crate_path_from(p + b, 0)` is
/// `crate_path_from(b, 0)`, read in `b`.
pub proof fn law_crate_path_after_other_arguments(p: Seq<TokenView>, b: Seq<TokenView>)
    requires
        forall|j: int| 0 <= j < p.len() ==> !is_ident_named(#[trigger] p[j], "crate_path"@),
    ensures
        crate_path_from(p + b, 0) == crate_path_from(b, 0),
{
    let a = p + b;
    lemma_crate_path_skips_other_tokens(a, 0, p.len() as int);
    lemma_crate_path_shift(p, b, 0);
}

/// The call `generate` produces starts with the crate path given among the
/// attribute's arguments, wherever it stands there (see
/// [`law_crate_path_found_at_first_occurrence`]), followed by `::`.
pub proof fn law_generated_call_starts_with_crate_path(
    macro_type: Seq<char>,
    macro_crate: Seq<char>,
    attribute: Seq<TokenView>,
    item: Seq<TokenView>,
    span: Span,
    i: int,
)
    requires
        0 <= i,
        i + 1 < attribute.len(),
        is_ident_named(attribute[i], "crate_path"@),
        is_punct(attribute[i + 1], '='),
        forall|j: int| 0 <= j < i ==> !is_ident_named(#[trigger] attribute[j], "crate_path"@),
    ensures
        ({
            let path = path_until_comma(attribute, i + 2);
            let out = generated(macro_type, macro_crate, attribute, item, span);
            &&& out.len() >= path.len() + 2
            &&& out.subrange(0, path.len() as int) == path
            &&& out.subrange(path.len() as int, path.len() + 2int) == path_sep(span)
        }),
{
    law_crate_path_found_at_first_occurrence(attribute, i);
    let path = path_until_comma(attribute, i + 2);
    let out = generated(macro_type, macro_crate, attribute, item, span);
    assert(out.subrange(0, path.len() as int) =~= path);
    assert(out.subrange(path.len() as int, path.len() + 2int) =~= path_sep(span));
}

/// Scanning from `k` over tokens with no `crate_path` identifier before `i`
/// finds what scanning from `i` finds.
proof fn lemma_crate_path_skips_other_tokens(a: Seq<TokenView>, k: int, i: int)
    requires
        0 <= k <= i <= a.len(),
        forall|j: int| k <= j < i ==> !is_ident_named(#[trigger] a[j], "crate_path"@),
    ensures
        crate_path_from(a, k) == crate_path_from(a, i),
    decreases i - k,
{
    if k < i {
        assert(!is_ident_named(a[k], "crate_path"@));
        lemma_crate_path_skips_other_tokens(a, k + 1, i);
    }
}

/// Scanning `p + b` from `p.len() + j` is scanning `b` from `j`.
proof fn lemma_crate_path_shift(p: Seq<TokenView>, b: Seq<TokenView>, j: int)
    requires
        0 <= j,
    ensures
        crate_path_from(p + b, p.len() + j) == crate_path_from(b, j),
    decreases b.len() - j,
{
    let a = p + b;
    let n = p.len() as int;
    if j < b.len() {
        assert(a[n + j] == b[j]);
        if is_ident_named(b[j], "crate_path"@) {
            if j + 1 < b.len() && is_punct(b[j + 1], '=') {
                assert(a[n + j + 1] == b[j + 1]);
                lemma_path_until_comma_shift(p, b, j + 2);
            } else if j + 2 <= b.len() {
                if j + 1 < b.len() {
                    assert(a[n + j + 1] == b[j + 1]);
                }
                lemma_crate_path_shift(p, b, j + 2);
            }
        } else {
            lemma_crate_path_shift(p, b, j + 1);
        }
    }
}

proof fn lemma_path_until_comma_shift(p: Seq<TokenView>, b: Seq<TokenView>, j: int)
    requires
        0 <= j,
    ensures
        path_until_comma(p + b, p.len() + j) == path_until_comma(b, j),
    decreases b.len() - j,
{
    if j < b.len() {
        assert((p + b)[p.len() + j] == b[j]);
        lemma_path_until_comma_shift(p, b, j + 1);
    }
}

pub open spec fn punct_view(c: char, spacing: Spacing, span: Span) -> TokenView {
    TokenView::Punct(c, spacing, span)
}

/// `::` as two punctuation tokens.
pub open spec fn path_sep(span: Span) -> Seq<TokenView> {
    seq![punct_view(':', Spacing::Joint, span), punct_view(':', Spacing::Alone, span)]
}

/// The attribute `#[macro_type]`, or `#[macro_type(attribute)]` where the
/// attribute has arguments, followed by the item.
pub open spec fn generated_inner(
    macro_type: Seq<char>,
    attribute: Seq<TokenView>,
    item: Seq<TokenView>,
    span: Span,
) -> Seq<TokenView> {
    let name = TokenView::Ident(macro_type, span);
    let body = if attribute.len() == 0 {
        seq![name]
    } else {
        seq![name, TokenView::Group(Delimiter::Parenthesis, attribute, span)]
    };
    seq![punct_view('#', Spacing::Alone, span), TokenView::Group(Delimiter::Bracket, body, span)] + item
}

/// What `generate` produces (see the module documentation).
pub open spec fn generated(
    macro_type: Seq<char>,
    macro_crate: Seq<char>,
    attribute: Seq<TokenView>,
    item: Seq<TokenView>,
    span: Span,
) -> Seq<TokenView> {
    let prefix = match crate_path_from(attribute, 0) {
        Some(path) => path,
        None => path_sep(span) + seq![TokenView::Ident(macro_crate, span)],
    };
    prefix + path_sep(span) + seq![TokenView::Ident("__support"@, span)] + path_sep(span) + seq![
        TokenView::Ident(macro_type + "_parse"@, span),
        punct_view('!', Spacing::Alone, span),
        TokenView::Group(
            Delimiter::Parenthesis,
            generated_inner(macro_type, attribute, item, span),
            span,
        ),
        punct_view(';', Spacing::Alone, span),
    ]
}

fn punct(c: char, spacing: Spacing, span: Span) -> (t: TokenTree)
    ensures
        token_view(t) == punct_view(c, spacing, span),
{
    TokenTree::Punct(Punct { ch: c, spacing, span })
}

fn ident(name: String, span: Span) -> (t: TokenTree)
    ensures
        token_view(t) == TokenView::Ident(name@, span),
{
    TokenTree::Ident(Ident { name, span })
}

fn group(delimiter: Delimiter, stream: Vec<TokenTree>, span: Span) -> (t: TokenTree)
    ensures
        token_view(t) == TokenView::Group(delimiter, views(stream@), span),
{
    let g = Group { delimiter, stream, span };
    proof {
        lemma_group_view(g);
    }
    TokenTree::Group(g)
}

/// Append `t` to `out`, tracking the values.
fn push_token(out: &mut Vec<TokenTree>, t: TokenTree)
    ensures
        views(final(out)@) == views(old(out)@).push(token_view(t)),
{
    out.push(t);
    assert(views(final(out)@) =~= views(old(out)@).push(token_view(t)));
}

/// Append copies of the tokens of `ts` to `out`.
fn push_tokens(out: &mut Vec<TokenTree>, ts: &Vec<TokenTree>)
    ensures
        views(final(out)@) == views(old(out)@) + views(ts@),
{
    let n = ts.len();
    let ghost all = views(ts@);
    let mut i: usize = 0;
    while i < n
        invariant
            i <= n == ts@.len(),
            views(ts@) == all,
            views(out@) == views(old(out)@) + all.subrange(0, i as int),
        decreases n - i,
    {
        let t = clone_token(&ts[i]);
        push_token(out, t);
        assert(all[i as int] == token_view(ts@[i as int]));
        assert(views(out@) =~= views(old(out)@) + all.subrange(0, i + 1));
        i += 1;
    }
    assert(all.subrange(0, n as int) =~= all);
}

/// Whether `t` is the identifier `crate_path`.
fn is_crate_path_keyword(t: &TokenTree) -> (r: bool)
    ensures
        r == is_ident_named(token_view(*t), "crate_path"@),
{
    match t {
        TokenTree::Ident(i) => i.name == String::from_str("crate_path"),
        _ => false,
    }
}

/// Whether `t` is the punctuation character `c`.
fn is_punct_char(t: &TokenTree, c: char) -> (r: bool)
    ensures
        r == is_punct(token_view(*t), c),
{
    match t {
        TokenTree::Punct(p) => p.ch == c,
        _ => false,
    }
}

/// The crate path among the attribute's arguments (see [`crate_path_from`]).
fn parse_crate_path(attribute: &Vec<TokenTree>) -> (r: Option<Vec<TokenTree>>)
    ensures
        match (r, crate_path_from(views(attribute@), 0)) {
            (Some(p), Some(q)) => views(p@) == q,
            (None, None) => true,
            _ => false,
        },
{
    let ghost a = views(attribute@);
    let n = attribute.len();
    let mut i: usize = 0;
    while i < n
        invariant
            n == attribute@.len() == a.len(),
            a == views(attribute@),
            crate_path_from(a, 0) == crate_path_from(a, i as int),
        decreases n - i,
    {
        assert(a[i as int] == token_view(attribute@[i as int]));
        if is_crate_path_keyword(&attribute[i]) {
            if i + 1 < n {
                assert(a[i + 1] == token_view(attribute@[i + 1]));
                if is_punct_char(&attribute[i + 1], '=') {
                    let mut path: Vec<TokenTree> = Vec::new();
                    let mut j = i + 2;
                    while j < n && !is_punct_char(&attribute[j], ',')
                        invariant
                            i + 2 <= j <= n,
                            n == attribute@.len() == a.len(),
                            a == views(attribute@),
                            path_until_comma(a, i + 2) == views(path@) + path_until_comma(a, j as int),
                        decreases n - j,
                    {
                        assert(a[j as int] == token_view(attribute@[j as int]));
                        let t = clone_token(&attribute[j]);
                        let ghost before = views(path@);
                        push_token(&mut path, t);
                        assert(views(path@) + path_until_comma(a, j + 1) =~= before + (seq![a[j as int]] + path_until_comma(a, j + 1)));
                        j += 1;
                    }
                    proof {
                        if j < n {
                            assert(a[j as int] == token_view(attribute@[j as int]));
                        }
                        assert(views(path@) + Seq::<TokenView>::empty() =~= views(path@));
                    }
                    return Some(path);
                }
            }
            i = if i + 1 < n { i + 2 } else { n };
        } else {
            i += 1;
        }
    }
    None
}

/// Rewrite an attributed item into a call of the declarative form of the
/// macro `macro_type` of the crate `macro_crate` (see the module
/// documentation). New tokens carry the span `call_site`.
pub fn generate(
    macro_type: &str,
    macro_crate: &str,
    attribute: Vec<TokenTree>,
    item: Vec<TokenTree>,
    call_site: Span,
) -> (out: Vec<TokenTree>)
    ensures
        views(out@) == generated(macro_type@, macro_crate@, views(attribute@), views(item@), call_site),
{
    let crate_path = parse_crate_path(&attribute);
    let ghost attr_views = views(attribute@);
    let ghost item_views = views(item@);

    let mut body: Vec<TokenTree> = Vec::new();
    push_token(&mut body, ident(String::from_str(macro_type), call_site));
    if attribute.len() > 0 {
        push_token(&mut body, group(Delimiter::Parenthesis, attribute, call_site));
    }
    let mut inner: Vec<TokenTree> = Vec::new();
    push_token(&mut inner, punct('#', Spacing::Alone, call_site));
    push_token(&mut inner, group(Delimiter::Bracket, body, call_site));
    push_tokens(&mut inner, &item);
    proof {
        if attr_views.len() == 0 {
            assert(views(body@) =~= seq![TokenView::Ident(macro_type@, call_site)]);
        } else {
            assert(views(body@) =~= seq![
                TokenView::Ident(macro_type@, call_site),
                TokenView::Group(Delimiter::Parenthesis, attr_views, call_site),
            ]);
        }
        assert(views(inner@) =~= generated_inner(macro_type@, attr_views, item_views, call_site));
    }

    let mut invoke: Vec<TokenTree> = match crate_path {
        Some(path) => path,
        None => {
            let mut v: Vec<TokenTree> = Vec::new();
            push_token(&mut v, punct(':', Spacing::Joint, call_site));
            push_token(&mut v, punct(':', Spacing::Alone, call_site));
            push_token(&mut v, ident(String::from_str(macro_crate), call_site));
            assert(views(v@) =~= path_sep(call_site) + seq![TokenView::Ident(macro_crate@, call_site)]);
            v
        },
    };
    let ghost prefix = views(invoke@);
    let mut parse_name = String::from_str(macro_type);
    parse_name.append("_parse");
    push_token(&mut invoke, punct(':', Spacing::Joint, call_site));
    push_token(&mut invoke, punct(':', Spacing::Alone, call_site));
    push_token(&mut invoke, ident(String::from_str("__support"), call_site));
    push_token(&mut invoke, punct(':', Spacing::Joint, call_site));
    push_token(&mut invoke, punct(':', Spacing::Alone, call_site));
    push_token(&mut invoke, ident(parse_name, call_site));
    push_token(&mut invoke, punct('!', Spacing::Alone, call_site));
    push_token(&mut invoke, group(Delimiter::Parenthesis, inner, call_site));
    push_token(&mut invoke, punct(';', Spacing::Alone, call_site));
    assert(views(invoke@) =~= generated(macro_type@, macro_crate@, attr_views, item_views, call_site));
    invoke
}

/// Why `ident_concat` rejects its input (each a compile error for the macro's
/// user).
#[derive(PartialEq, Eq, Structural, Clone, Copy)]
pub enum IdentConcatError {
    /// "pre_group: Expected a group"
    ExpectedPreGroup,
    /// "name_group: Expected a group"
    ExpectedNameGroup,
    /// "post_group: Expected a group"
    ExpectedPostGroup,
    /// The name group starts with no identifier, so the name would be empty,
    /// which is no identifier.
    EmptyName,
}

/// The concatenation of the identifiers at the start of `s`, up to the first
/// token that is not an identifier.
pub open spec fn leading_ident_names(s: Seq<TokenView>) -> Seq<char>
    decreases s.len(),
{
    if s.len() == 0 {
        Seq::empty()
    } else {
        match s[0] {
            TokenView::Ident(n, _) => n + leading_ident_names(s.drop_first()),
            _ => Seq::empty(),
        }
    }
}

/// The contents of `t` if it is a group.
pub open spec fn group_contents(t: TokenView) -> Option<Seq<TokenView>> {
    match t {
        TokenView::Group(_, s, _) => Some(s),
        _ => None,
    }
}

/// What `ident_concat` gives for the tokens `items`: the tokens of the first
/// group, then one identifier named by the concatenation of the identifiers
/// that start the second group, then the tokens of the third group.
pub open spec fn ident_concat_result(items: Seq<TokenView>, span: Span) -> Result<Seq<TokenView>, IdentConcatError> {
    if items.len() < 1 || group_contents(items[0]) is None {
        Err(IdentConcatError::ExpectedPreGroup)
    } else if items.len() < 2 || group_contents(items[1]) is None {
        Err(IdentConcatError::ExpectedNameGroup)
    } else if items.len() < 3 || group_contents(items[2]) is None {
        Err(IdentConcatError::ExpectedPostGroup)
    } else {
        let name = leading_ident_names(group_contents(items[1])->0);
        if name.len() == 0 {
            Err(IdentConcatError::EmptyName)
        } else {
            Ok(
                group_contents(items[0])->0 + seq![TokenView::Ident(name, span)] + group_contents(items[2])->0,
            )
        }
    }
}

/// The name is the identifiers that start the name group, joined with
/// nothing between them: an identifier `n` in front adds `n` in front of the
/// name; any other token in front ends the name there.
pub proof fn law_name_joins_leading_identifiers(t: TokenView, s: Seq<TokenView>)
    ensures
        t matches TokenView::Ident(n, _) ==> leading_ident_names(seq![t] + s) == n
            + leading_ident_names(s),
        !(t is Ident) ==> leading_ident_names(seq![t] + s).len() == 0,
{
    assert((seq![t] + s).drop_first() =~= s);
}

/// `t` with its delimiter replaced by `d`, where it is a group.
pub open spec fn with_delimiter(t: TokenView, d: Delimiter) -> TokenView {
    match t {
        TokenView::Group(_, s, sp) => TokenView::Group(d, s, sp),
        _ => t,
    }
}

/// Groups of any delimiter serve: three groups `(pre) (name parts) (post)`,
/// whatever their delimiters, give the tokens of `pre`, one identifier made
/// of the identifiers that start the name group, then the tokens of `post`
/// (an error only where the name group starts with no identifier).
pub proof fn law_ident_concat_takes_groups_of_any_delimiter(
    d0: Delimiter,
    d1: Delimiter,
    d2: Delimiter,
    pre: Seq<TokenView>,
    parts: Seq<TokenView>,
    post: Seq<TokenView>,
    spans: (Span, Span, Span),
    rest: Seq<TokenView>,
    span: Span,
)
    ensures
        ident_concat_result(
            seq![
                TokenView::Group(d0, pre, spans.0),
                TokenView::Group(d1, parts, spans.1),
                TokenView::Group(d2, post, spans.2),
            ] + rest,
            span,
        ) == if leading_ident_names(parts).len() == 0 {
            Err::<Seq<TokenView>, IdentConcatError>(IdentConcatError::EmptyName)
        } else {
            Ok(pre + seq![TokenView::Ident(leading_ident_names(parts), span)] + post)
        },
{
    let items = seq![
        TokenView::Group(d0, pre, spans.0),
        TokenView::Group(d1, parts, spans.1),
        TokenView::Group(d2, post, spans.2),
    ] + rest;
    assert(items[0] == TokenView::Group(d0, pre, spans.0));
    assert(items[1] == TokenView::Group(d1, parts, spans.1));
    assert(items[2] == TokenView::Group(d2, post, spans.2));
}

/// The delimiters of the groups do not matter: replacing the delimiter of
/// any token of the input leaves the result of `ident_concat` unchanged.
pub proof fn law_ident_concat_ignores_delimiters(items: Seq<TokenView>, k: int, d: Delimiter, span: Span)
    requires
        0 <= k < items.len(),
    ensures
        ident_concat_result(items.update(k, with_delimiter(items[k], d)), span)
            == ident_concat_result(items, span),
{
    let other = items.update(k, with_delimiter(items[k], d));
    assert forall|j: int| 0 <= j < items.len() implies #[trigger] group_contents(other[j])
        == group_contents(items[j]) by {
        if j == k {
            match items[k] {
                TokenView::Group(_, s, sp) => {},
                _ => {},
            }
        }
    }
    if items.len() >= 1 {
        assert(group_contents(other[0]) == group_contents(items[0]));
    }
    if items.len() >= 2 {
        assert(group_contents(other[1]) == group_contents(items[1]));
    }
    if items.len() >= 3 {
        assert(group_contents(other[2]) == group_contents(items[2]));
    }
}

/// Whether `t` is an identifier.
fn is_ident(t: &TokenTree) -> (r: bool)
    ensures
        r == (token_view(*t) is Ident),
{
    match t {
        TokenTree::Ident(_) => true,
        _ => false,
    }
}

/// The stream of `t` if it is a group.
fn as_group(t: &TokenTree) -> (r: Option<&Vec<TokenTree>>)
    ensures
        match r {
            Some(s) => group_contents(token_view(*t)) == Some(views(s@)),
            None => group_contents(token_view(*t)) is None,
        },
{
    match t {
        TokenTree::Group(g) => {
            proof {
                lemma_group_view(*g);
            }
            Some(&g.stream)
        },
        _ => None,
    }
}

/// Concatenate identifiers: `ident_concat!((pre) (name parts) (post))` gives
/// the tokens `pre`, then one identifier made of the identifiers that start
/// the name group, then the tokens `post`. The new identifier carries the
/// span `call_site`.
pub fn ident_concat(items: &Vec<TokenTree>, call_site: Span) -> (r: Result<Vec<TokenTree>, IdentConcatError>)
    ensures
        match (r, ident_concat_result(views(items@), call_site)) {
            (Ok(out), Ok(expected)) => views(out@) == expected,
            (Err(e), Err(f)) => e == f,
            _ => false,
        },
{
    let ghost iv = views(items@);
    if items.len() < 1 {
        return Err(IdentConcatError::ExpectedPreGroup);
    }
    assert(iv[0] == token_view(items@[0]));
    let pre = match as_group(&items[0]) {
        Some(s) => s,
        None => {
            return Err(IdentConcatError::ExpectedPreGroup);
        },
    };
    if items.len() < 2 {
        return Err(IdentConcatError::ExpectedNameGroup);
    }
    assert(iv[1] == token_view(items@[1]));
    let name_group = match as_group(&items[1]) {
        Some(s) => s,
        None => {
            return Err(IdentConcatError::ExpectedNameGroup);
        },
    };
    if items.len() < 3 {
        return Err(IdentConcatError::ExpectedPostGroup);
    }
    assert(iv[2] == token_view(items@[2]));
    let post = match as_group(&items[2]) {
        Some(s) => s,
        None => {
            return Err(IdentConcatError::ExpectedPostGroup);
        },
    };

    let ghost nv = views(name_group@);
    let mut name = String::new();
    let mut k: usize = 0;
    proof {
        assert(nv.subrange(0, nv.len() as int) =~= nv);
        assert(name@ + leading_ident_names(nv) =~= leading_ident_names(nv));
    }
    while k < name_group.len() && is_ident(&name_group[k])
        invariant
            k <= name_group@.len(),
            nv == views(name_group@),
            leading_ident_names(nv) == name@ + leading_ident_names(nv.subrange(k as int, nv.len() as int)),
        decreases name_group@.len() - k,
    {
        let ghost rest = nv.subrange(k as int, nv.len() as int);
        assert(rest[0] == token_view(name_group@[k as int]));
        assert(rest.drop_first() =~= nv.subrange(k + 1, nv.len() as int));
        if let TokenTree::Ident(i) = &name_group[k] {
            let ghost before = name@;
            name.append(i.name.as_str());
            assert(before + (i.name@ + leading_ident_names(rest.drop_first())) =~= name@ + leading_ident_names(rest.drop_first()));
        }
        k += 1;
    }
    proof {
        let rest = nv.subrange(k as int, nv.len() as int);
        if k == name_group@.len() {
            assert(rest =~= Seq::<TokenView>::empty());
        } else {
            assert(rest[0] == token_view(name_group@[k as int]));
        }
        assert(leading_ident_names(rest) == Seq::<char>::empty());
        assert(name@ + Seq::<char>::empty() =~= name@);
    }
    if name.unicode_len() == 0 {
        return Err(IdentConcatError::EmptyName);
    }
    let ghost name_view = name@;
    let mut out = clone_tokens(pre);
    push_token(&mut out, ident(name, call_site));
    push_tokens(&mut out, post);
    assert(views(out@) =~= views(pre@) + seq![TokenView::Ident(name_view, call_site)] + views(post@));
    Ok(out)
}

} // verus!
