//! A model of the compiler's token trees, as the attribute macros see them.
//!
//! A token's span is a handle ([`Span`]); what the compiler knows of a span's
//! source location is held apart, in a table of [`Location`]s indexed by the
//! handle.

use vstd::prelude::*;

verus! {

/// The delimiter of a token group.
#[derive(PartialEq, Eq, Structural, Clone, Copy)]
pub enum Delimiter {
    Parenthesis,
    Brace,
    Bracket,
    /// An invisible delimiter.
    Invisible,
}

/// Whether a punctuation character is joined to the token that follows it.
#[derive(PartialEq, Eq, Structural, Clone, Copy)]
pub enum Spacing {
    Joint,
    Alone,
}

/// A handle on a region of source code.
#[derive(PartialEq, Eq, Structural, Clone, Copy)]
pub struct Span {
    pub id: usize,
}

/// The source location of a span.
pub struct Location {
    /// The source file, as the compiler names it.
    pub file: String,
    pub line: u64,
    pub column: u64,
    /// The path of the source file on the local disk, where it has one.
    pub local_file: Option<String>,
}

/// A delimited group of tokens.
pub struct Group {
    pub delimiter: Delimiter,
    pub stream: Vec<TokenTree>,
    pub span: Span,
}

/// An identifier.
pub struct Ident {
    pub name: String,
    pub span: Span,
}

/// A punctuation character.
pub struct Punct {
    pub ch: char,
    pub spacing: Spacing,
    pub span: Span,
}

/// A literal, by its source text.
pub struct Literal {
    pub text: String,
    pub span: Span,
}

/// A single token or a delimited group of tokens.
pub enum TokenTree {
    Group(Group),
    Ident(Ident),
    Punct(Punct),
    Literal(Literal),
}

/// The value of a token tree, with the contents of groups as sequences.
pub enum TokenView {
    Group(Delimiter, Seq<TokenView>, Span),
    Ident(Seq<char>, Span),
    Punct(char, Spacing, Span),
    Literal(Seq<char>, Span),
}

/// The value of `t`.
pub open spec fn token_view(t: TokenTree) -> TokenView
    decreases t,
{
    match t {
        TokenTree::Group(g) => {
            proof {
                broadcast use vstd::std_specs::vec::axiom_vec_decreases_to_view;

            }
            TokenView::Group(
                g.delimiter,
                Seq::new(
                    g.stream@.len(),
                    |i: int|
                        if 0 <= i < g.stream@.len() {
                            token_view(g.stream@[i])
                        } else {
                            TokenView::Literal(Seq::empty(), g.span)
                        },
                ),
                g.span,
            )
        },
        TokenTree::Ident(i) => TokenView::Ident(i.name@, i.span),
        TokenTree::Punct(p) => TokenView::Punct(p.ch, p.spacing, p.span),
        TokenTree::Literal(l) => TokenView::Literal(l.text@, l.span),
    }
}

/// The values of the tokens of `ts`.
pub open spec fn views(ts: Seq<TokenTree>) -> Seq<TokenView> {
    Seq::new(ts.len(), |i: int| token_view(ts[i]))
}

/// The value of a group token: its delimiter, the values of its contents and
/// its span.
pub proof fn lemma_group_view(g: Group)
    ensures
        token_view(TokenTree::Group(g)) == TokenView::Group(g.delimiter, views(g.stream@), g.span),
{
    if let TokenView::Group(_, a, _) = token_view(TokenTree::Group(g)) {
        assert(a =~= views(g.stream@));
    }
}

/// A deep copy of `t`.
pub fn clone_token(t: &TokenTree) -> (r: TokenTree)
    ensures
        token_view(r) == token_view(*t),
    decreases t,
{
    match t {
        TokenTree::Group(g) => {
            let stream = clone_tokens(&g.stream);
            let r = TokenTree::Group(Group { delimiter: g.delimiter, stream, span: g.span });
            proof {
                assert(views(stream@).len() == stream@.len());
                assert(views(g.stream@).len() == g.stream@.len());
                assert(stream@.len() == g.stream@.len());
                assert forall|i: int| 0 <= i < stream@.len() implies token_view(stream@[i]) == token_view(g.stream@[i]) by {
                    assert(views(stream@)[i] == token_view(stream@[i]));
                    assert(views(g.stream@)[i] == token_view(g.stream@[i]));
                }
                if let TokenView::Group(_, a, _) = token_view(r) {
                    if let TokenView::Group(_, b, _) = token_view(*t) {
                        assert(a =~= b);
                    }
                }
            }
            r
        },
        TokenTree::Ident(i) => TokenTree::Ident(Ident { name: i.name.clone(), span: i.span }),
        TokenTree::Punct(p) => TokenTree::Punct(Punct { ch: p.ch, spacing: p.spacing, span: p.span }),
        TokenTree::Literal(l) => TokenTree::Literal(Literal { text: l.text.clone(), span: l.span }),
    }
}

/// A deep copy of the tokens of `v`.
pub fn clone_tokens(v: &Vec<TokenTree>) -> (r: Vec<TokenTree>)
    ensures
        views(r@) == views(v@),
    decreases v,
{
    let mut r: Vec<TokenTree> = Vec::new();
    let mut i: usize = 0;
    while i < v.len()
        invariant
            i <= v@.len(),
            r@.len() == i,
            forall|k: int| 0 <= k < i ==> token_view(#[trigger] r@[k]) == token_view(v@[k]),
        decreases v@.len() - i,
    {
        proof {
            broadcast use vstd::std_specs::vec::axiom_vec_index_decreases;

        }
        r.push(clone_token(&v[i]));
        i += 1;
    }
    assert(views(r@) =~= views(v@));
    r
}

/// The span of a token.
pub open spec fn span_of(t: TokenTree) -> Span {
    match t {
        TokenTree::Group(g) => g.span,
        TokenTree::Ident(i) => i.span,
        TokenTree::Punct(p) => p.span,
        TokenTree::Literal(l) => l.span,
    }
}

/// The tokens of `ts` in the order of a depth-first walk: each token, then,
/// for a group, the walk of the group's contents.
pub open spec fn deep_seq(ts: Seq<TokenTree>) -> Seq<TokenTree>
    decreases ts,
{
    if ts.len() == 0 {
        Seq::empty()
    } else {
        let rest = ts.drop_first();
        match ts[0] {
            TokenTree::Group(g) => {
                proof {
                    broadcast use vstd::std_specs::vec::axiom_vec_decreases_to_view;

                    assert(decreases_to!(ts => ts[0]));
                }
                seq![ts[0]] + deep_seq(g.stream@) + deep_seq(rest)
            },
            _ => seq![ts[0]] + deep_seq(rest),
        }
    }
}

/// The tokens of one level of a walk: the contents of `v` from index `i` on.
pub open spec fn frame_seq(v: Seq<TokenTree>, i: int) -> Seq<TokenTree> {
    deep_seq(v.subrange(i, v.len() as int))
}

/// What remains of a walk whose stack holds `frames` (the top is last).
pub open spec fn stack_seq(frames: Seq<(&Vec<TokenTree>, usize)>) -> Seq<TokenTree>
    decreases frames.len(),
{
    if frames.len() == 0 {
        Seq::empty()
    } else {
        let top = frames.last();
        frame_seq(top.0@, top.1 as int) + stack_seq(frames.drop_last())
    }
}

/// A depth-first walk over a token stream that yields every token, groups
/// included, each group followed by its contents.
/// One step of a deep walk: with tokens left, the step yields the first and
/// drops it; with none left, it yields nothing and none are left after.
pub open spec fn walk_step(before: Seq<TokenTree>, after: Seq<TokenTree>, out: Option<TokenTree>) -> bool {
    if before.len() == 0 {
        out is None && after.len() == 0
    } else {
        out == Some(before[0]) && after == before.drop_first()
    }
}

/// A run of steps of a deep walk over `tokens`: `rems[j]` is what remains
/// before the `j`-th call of `next`, which yields `outs[j]`.
pub open spec fn walk_run(tokens: Seq<TokenTree>, rems: Seq<Seq<TokenTree>>, outs: Seq<Option<TokenTree>>) -> bool {
    &&& rems.len() == outs.len() + 1
    &&& rems[0] == deep_seq(tokens)
    &&& forall|j: int| #![trigger outs[j]] 0 <= j < outs.len() ==> walk_step(rems[j], rems[j + 1], outs[j])
}

/// A deep walk yields the tokens in pre-order, each group before the tokens
/// of its stream, and then nothing: over any run of calls of `next` from a
/// new walk over `tokens`, the `j`-th call yields the `j`-th token of
/// `deep_seq(tokens)` while there is one, and `None` at and after the end.
pub proof fn law_deep_walk_yields_preorder(
    tokens: Seq<TokenTree>,
    rems: Seq<Seq<TokenTree>>,
    outs: Seq<Option<TokenTree>>,
)
    requires
        walk_run(tokens, rems, outs),
    ensures
        forall|j: int|
            #![trigger outs[j]]
            0 <= j < outs.len() ==> outs[j] == (if j < deep_seq(tokens).len() {
                Some(deep_seq(tokens)[j])
            } else {
                None::<TokenTree>
            }),
{
    assert forall|j: int| #![trigger outs[j]] 0 <= j < outs.len() implies outs[j] == (if j < deep_seq(
        tokens,
    ).len() {
        Some(deep_seq(tokens)[j])
    } else {
        None::<TokenTree>
    }) by {
        lemma_walk_prefix(tokens, rems, outs, j);
        assert(walk_step(rems[j], rems[j + 1], outs[j]));
        if j < deep_seq(tokens).len() {
            assert(rems[j][0] == deep_seq(tokens)[j]);
        }
    }
}

/// After `k` steps of a deep walk, what remains is the walk's tokens from
/// position `k` on (nothing, once `k` reaches their number).
proof fn lemma_walk_prefix(
    tokens: Seq<TokenTree>,
    rems: Seq<Seq<TokenTree>>,
    outs: Seq<Option<TokenTree>>,
    k: int,
)
    requires
        walk_run(tokens, rems, outs),
        0 <= k <= outs.len(),
    ensures
        k <= deep_seq(tokens).len() ==> rems[k] == deep_seq(tokens).subrange(k, deep_seq(tokens).len() as int),
        k >= deep_seq(tokens).len() ==> rems[k].len() == 0,
    decreases k,
{
    let d = deep_seq(tokens);
    if k == 0 {
        assert(d.subrange(0, d.len() as int) =~= d);
    } else {
        lemma_walk_prefix(tokens, rems, outs, k - 1);
        assert(walk_step(rems[k - 1], rems[k], outs[k - 1]));
        if k <= d.len() {
            assert(d.subrange(k - 1, d.len() as int).drop_first() =~= d.subrange(k, d.len() as int));
        }
    }
}

pub struct TokenTreeDeepIterator<'a> {
    stack: Vec<(&'a Vec<TokenTree>, usize)>,
}

impl<'a> TokenTreeDeepIterator<'a> {
    /// The tokens the walk has yet to yield, in order.
    pub closed spec fn remaining(&self) -> Seq<TokenTree> {
        stack_seq(self.stack@)
    }

    /// Every level of the walk is within its stream.
    pub closed spec fn wf(&self) -> bool {
        forall|k: int| 0 <= k < self.stack@.len() ==> #[trigger] self.stack@[k].1 <= self.stack@[k].0@.len()
    }

    /// A walk over `tokens`.
    pub fn new(tokens: &'a Vec<TokenTree>) -> (it: Self)
        ensures
            it.wf(),
            it.remaining() == deep_seq(tokens@),
    {
        let mut stack = Vec::new();
        stack.push((tokens, 0));
        proof {
            assert(tokens@.subrange(0, tokens@.len() as int) =~= tokens@);
            assert(stack@.drop_last() =~= Seq::<(&Vec<TokenTree>, usize)>::empty());
            assert(stack@.last() == (tokens, 0usize));
            assert(stack_seq(stack@.drop_last()) == Seq::<TokenTree>::empty());
            assert(deep_seq(tokens@) + Seq::<TokenTree>::empty() =~= deep_seq(tokens@));
        }
        Self { stack }
    }

    /// The next token of the walk.
    pub fn next(&mut self) -> (r: Option<&'a TokenTree>)
        requires
            old(self).wf(),
        ensures
            final(self).wf(),
            old(self).remaining().len() == 0 ==> r is None && final(self).remaining().len() == 0,
            old(self).remaining().len() > 0 ==> {
                &&& r matches Some(t) && *t == old(self).remaining()[0]
                &&& final(self).remaining() == old(self).remaining().drop_first()
            },
            walk_step(
                old(self).remaining(),
                final(self).remaining(),
                match r {
                    Some(t) => Some(*t),
                    None => None,
                },
            ),
    {
        loop
            invariant
                self.wf(),
                stack_seq(self.stack@) == old(self).remaining(),
            decreases self.stack@.len(),
        {
            let ghost frames = self.stack@;
            let popped = self.stack.pop();
            match popped {
                None => {
                    return None;
                },
                Some(frame) => {
                    let (v, i) = frame;
                    proof {
                        assert(frames.drop_last() =~= self.stack@);
                        assert(frames[frames.len() - 1].1 <= frames[frames.len() - 1].0@.len());
                    }
                    if i >= v.len() {
                        proof {
                            assert(v@.subrange(i as int, v@.len() as int) =~= Seq::<TokenTree>::empty());
                            assert(stack_seq(frames) =~= stack_seq(self.stack@));
                        }
                        continue;
                    }
                    let token = &v[i];
                    self.stack.push((v, i + 1));
                    let ghost tail = v@.subrange(i as int, v@.len() as int);
                    proof {
                        assert(tail[0] == v@[i as int]);
                        assert(tail.drop_first() =~= v@.subrange(i + 1, v@.len() as int));
                        assert(self.stack@.drop_last() =~= frames.drop_last());
                    }
                    match token {
                        TokenTree::Group(group) => {
                            let ghost below = self.stack@;
                            self.stack.push((&group.stream, 0));
                            proof {
                                let rest = stack_seq(frames.drop_last());
                                assert(self.stack@.drop_last() =~= below);
                                assert(group.stream@.subrange(0, group.stream@.len() as int) =~= group.stream@);
                                assert(below.drop_last() =~= frames.drop_last());
                                assert(stack_seq(below) == frame_seq(v@, i + 1) + rest);
                                assert(stack_seq(self.stack@) == deep_seq(group.stream@) + stack_seq(below));
                                assert(deep_seq(tail) == seq![tail[0]] + deep_seq(group.stream@) + deep_seq(tail.drop_first()));
                                assert(old(self).remaining() == deep_seq(tail) + rest);
                                assert(stack_seq(self.stack@) =~= old(self).remaining().drop_first());
                            }
                        },
                        _ => {
                            proof {
                                assert(stack_seq(self.stack@) =~= old(self).remaining().drop_first());
                            }
                        },
                    }
                    return Some(token);
                },
            }
        }
    }
}

/// `ToString::to_string` on a `char`: the string of that one character.
#[verifier::external_body]
pub(crate) fn char_to_string(c: char) -> (s: String)
    ensures
        s@ == seq![c],
{
    c.to_string()
}

/// A stable, position-independent identity of a single token: its text for
/// identifiers, punctuation and literals, and for a group its opening
/// delimiter (the group's contents are visited on their own).
pub open spec fn token_content_spec(t: TokenTree) -> Seq<char> {
    match t {
        TokenTree::Group(g) => match g.delimiter {
            Delimiter::Parenthesis => seq!['('],
            Delimiter::Brace => seq!['{'],
            Delimiter::Bracket => seq!['['],
            Delimiter::Invisible => Seq::empty(),
        },
        TokenTree::Ident(i) => i.name@,
        TokenTree::Punct(p) => seq![p.ch],
        TokenTree::Literal(l) => l.text@,
    }
}

/// The identity of `token` (see [`token_content_spec`]).
pub fn token_content(token: &TokenTree) -> (s: String)
    ensures
        s@ == token_content_spec(*token),
{
    match token {
        TokenTree::Group(group) => match group.delimiter {
            Delimiter::Parenthesis => char_to_string('('),
            Delimiter::Brace => char_to_string('{'),
            Delimiter::Bracket => char_to_string('['),
            Delimiter::Invisible => String::new(),
        },
        TokenTree::Ident(ident) => ident.name.clone(),
        TokenTree::Punct(punct) => char_to_string(punct.ch),
        TokenTree::Literal(literal) => literal.text.clone(),
    }
}

} // verus!
