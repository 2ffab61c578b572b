use link_section::hash::location_hash;
use link_section::scatter::{generate, ident_concat, IdentConcatError};
use link_section::tokens::{
    clone_tokens, token_content, Delimiter, Group, Ident, Literal, Location, Punct, Spacing, Span,
    TokenTree, TokenTreeDeepIterator,
};

const SITE: Span = Span { id: 0 };

fn ident(name: &str, id: usize) -> TokenTree {
    TokenTree::Ident(Ident { name: name.to_string(), span: Span { id } })
}

fn punct(c: char, spacing: Spacing, id: usize) -> TokenTree {
    TokenTree::Punct(Punct { ch: c, spacing, span: Span { id } })
}

fn literal(text: &str, id: usize) -> TokenTree {
    TokenTree::Literal(Literal { text: text.to_string(), span: Span { id } })
}

fn group(delimiter: Delimiter, stream: Vec<TokenTree>, id: usize) -> TokenTree {
    TokenTree::Group(Group { delimiter, stream, span: Span { id } })
}

/// A compact rendering: identifiers and literals by text, punctuation by its
/// character (`'` after a joint one), groups by their delimiters.
fn render(ts: &[TokenTree]) -> String {
    let mut out = Vec::new();
    for t in ts {
        out.push(match t {
            TokenTree::Ident(i) => i.name.clone(),
            TokenTree::Literal(l) => l.text.clone(),
            TokenTree::Punct(p) => match p.spacing {
                Spacing::Joint => format!("{}'", p.ch),
                Spacing::Alone => p.ch.to_string(),
            },
            TokenTree::Group(g) => {
                let (open, close) = match g.delimiter {
                    Delimiter::Parenthesis => ("(", ")"),
                    Delimiter::Brace => ("{", "}"),
                    Delimiter::Bracket => ("[", "]"),
                    Delimiter::Invisible => ("«", "»"),
                };
                format!("{}{}{}", open, render(&g.stream), close)
            }
        });
    }
    out.join(" ")
}

fn location(file: &str, line: u64, column: u64, local: Option<&str>) -> Location {
    Location {
        file: file.to_string(),
        line,
        column,
        local_file: local.map(|s| s.to_string()),
    }
}

#[test]
fn deep_iterator_walks_depth_first() {
    let tokens = vec![
        ident("a", 1),
        group(Delimiter::Brace, vec![ident("b", 2), group(Delimiter::Parenthesis, vec![ident("c", 3)], 4)], 5),
        ident("d", 6),
    ];
    let mut it = TokenTreeDeepIterator::new(&tokens);
    let mut seen = Vec::new();
    while let Some(t) = it.next() {
        seen.push(token_content(t));
    }
    assert_eq!(seen, vec!["a", "{", "b", "(", "c", "d"]);
    assert!(it.next().is_none());
}

#[test]
fn token_content_by_kind() {
    assert_eq!(token_content(&ident("name", 0)), "name");
    assert_eq!(token_content(&punct('#', Spacing::Alone, 0)), "#");
    assert_eq!(token_content(&literal("\"s\"", 0)), "\"s\"");
    assert_eq!(token_content(&group(Delimiter::Bracket, vec![ident("x", 0)], 0)), "[");
    assert_eq!(token_content(&group(Delimiter::Parenthesis, vec![], 0)), "(");
    assert_eq!(token_content(&group(Delimiter::Brace, vec![], 0)), "{");
    assert_eq!(token_content(&group(Delimiter::Invisible, vec![], 0)), "");
}

fn record_location(last: u64, line: u64, column: u64, file: &str) -> Vec<u8> {
    let mut b = last.to_be_bytes().to_vec();
    b.extend_from_slice(&line.to_be_bytes());
    b.extend_from_slice(&column.to_be_bytes());
    b.extend_from_slice(file.as_bytes());
    b
}

fn record_content(last: u64, content: &str) -> Vec<u8> {
    let mut b = last.to_be_bytes().to_vec();
    b.extend_from_slice(content.as_bytes());
    b
}

#[test]
fn location_hash_chains_token_locations() {
    let tokens = vec![ident("foo", 0)];
    let locations = vec![location("a.rs", 3, 7, Some("/src/crate/a.rs"))];
    let expected = xxhash_rust::xxh3::xxh3_64(&record_location(0, 3, 7, "a.rs"));
    assert_eq!(location_hash(&tokens, &locations, None), expected);
    assert_ne!(expected, 0);

    let nested = vec![group(Delimiter::Parenthesis, vec![ident("x", 1)], 0)];
    let locs = vec![location("g.rs", 1, 2, None), location("g.rs", 1, 3, None)];
    let h1 = xxhash_rust::xxh3::xxh3_64(&record_location(0, 1, 2, "g.rs"));
    let h2 = xxhash_rust::xxh3::xxh3_64(&record_location(h1, 1, 3, "g.rs"));
    assert_eq!(location_hash(&nested, &locs, None), h2);
}

#[test]
fn location_hash_of_an_empty_stream_is_zero() {
    assert_eq!(location_hash(&vec![], &vec![], Some("/src")), 0);
}

#[test]
fn ignored_tokens_contribute_their_content() {
    let tokens = vec![ident("foo", 0)];
    let locations = vec![location("a.rs", 3, 7, Some("/src/crate/a.rs"))];
    let by_content = xxhash_rust::xxh3::xxh3_64(&record_content(0, "foo"));
    assert_eq!(location_hash(&tokens, &locations, Some("/src/crate")), by_content);
    // A string prefix that is not a path prefix does not ignore the token.
    let by_location = xxhash_rust::xxh3::xxh3_64(&record_location(0, 3, 7, "a.rs"));
    assert_eq!(location_hash(&tokens, &locations, Some("/src/cra")), by_location);
    // No local file: never ignored.
    let remote = vec![location("a.rs", 3, 7, None)];
    assert_eq!(location_hash(&tokens, &remote, Some("/src")), by_location);
}

#[test]
fn moving_ignored_tokens_keeps_the_hash() {
    let tokens = vec![ident("a", 0), punct('+', Spacing::Alone, 1), ident("b", 2)];
    let before = vec![
        location("lib.rs", 10, 1, Some("/dep/lib.rs")),
        location("user.rs", 4, 2, Some("/app/user.rs")),
        location("lib.rs", 10, 5, Some("/dep/lib.rs")),
    ];
    let after = vec![
        location("lib.rs", 90, 9, Some("/dep/lib.rs")),
        location("user.rs", 4, 2, Some("/app/user.rs")),
        location("other.rs", 1, 1, Some("/dep/other.rs")),
    ];
    assert_eq!(
        location_hash(&tokens, &before, Some("/dep")),
        location_hash(&tokens, &after, Some("/dep"))
    );
    assert_ne!(
        location_hash(&tokens, &before, None),
        location_hash(&tokens, &after, None)
    );
}

#[test]
fn generate_without_arguments() {
    let item = vec![ident("fn", 1), ident("f", 2), group(Delimiter::Parenthesis, vec![], 3), group(Delimiter::Brace, vec![], 4)];
    let out = generate("scatter", "scattered_collect", vec![], item, SITE);
    assert_eq!(
        render(&out),
        ":' : scattered_collect :' : __support :' : scatter_parse ! (# [scatter] fn f () {}) ;"
    );
}

#[test]
fn generate_with_arguments() {
    let attribute = vec![ident("unsafe", 1)];
    let out = generate("gather", "scattered_collect", attribute, vec![ident("x", 2)], SITE);
    assert_eq!(
        render(&out),
        ":' : scattered_collect :' : __support :' : gather_parse ! (# [gather (unsafe)] x) ;"
    );
}

#[test]
fn generate_with_a_crate_path() {
    let attribute = vec![
        ident("crate_path", 1),
        punct('=', Spacing::Alone, 2),
        ident("my", 3),
        punct(':', Spacing::Joint, 4),
        punct(':', Spacing::Alone, 5),
        ident("krate", 6),
        punct(',', Spacing::Alone, 7),
        ident("other", 8),
    ];
    let out = generate("scatter", "scattered_collect", attribute, vec![ident("x", 9)], SITE);
    assert_eq!(
        render(&out),
        "my :' : krate :' : __support :' : scatter_parse ! (# [scatter (crate_path = my :' : krate , other)] x) ;"
    );
}

#[test]
fn crate_path_without_equals_is_skipped() {
    let attribute = vec![
        ident("crate_path", 1),
        ident("oops", 2),
        ident("crate_path", 3),
        punct('=', Spacing::Alone, 4),
        ident("p", 5),
    ];
    let out = generate("scatter", "c", attribute, vec![], SITE);
    assert_eq!(
        render(&out),
        "p :' : __support :' : scatter_parse ! (# [scatter (crate_path oops crate_path = p)]) ;"
    );
}

#[test]
fn ident_concat_joins_the_leading_identifiers() {
    let items = vec![
        group(Delimiter::Parenthesis, vec![ident("static", 1)], 2),
        group(Delimiter::Parenthesis, vec![ident("FOO", 3), ident("_BAR", 4), punct('-', Spacing::Alone, 5), ident("BAZ", 6)], 7),
        group(Delimiter::Parenthesis, vec![punct(':', Spacing::Alone, 8), ident("u8", 9)], 10),
    ];
    let out = ident_concat(&items, SITE).ok().unwrap();
    assert_eq!(render(&out), "static FOO_BAR : u8");
}

#[test]
fn ident_concat_errors() {
    let g = |v: Vec<TokenTree>| group(Delimiter::Parenthesis, v, 0);
    assert!(ident_concat(&vec![], SITE).err() == Some(IdentConcatError::ExpectedPreGroup));
    assert!(ident_concat(&vec![ident("a", 0)], SITE).err() == Some(IdentConcatError::ExpectedPreGroup));
    assert!(ident_concat(&vec![g(vec![])], SITE).err() == Some(IdentConcatError::ExpectedNameGroup));
    assert!(ident_concat(&vec![g(vec![]), ident("a", 0)], SITE).err() == Some(IdentConcatError::ExpectedNameGroup));
    assert!(ident_concat(&vec![g(vec![]), g(vec![ident("a", 0)])], SITE).err() == Some(IdentConcatError::ExpectedPostGroup));
    assert!(ident_concat(&vec![g(vec![]), g(vec![ident("a", 0)]), ident("b", 0)], SITE).err() == Some(IdentConcatError::ExpectedPostGroup));
    assert!(ident_concat(&vec![g(vec![]), g(vec![literal("1", 0)]), g(vec![])], SITE).err() == Some(IdentConcatError::EmptyName));
}

#[test]
fn clone_tokens_copies_deeply() {
    let tokens = vec![group(Delimiter::Bracket, vec![ident("a", 1), literal("2", 2)], 3)];
    let copy = clone_tokens(&tokens);
    assert_eq!(render(&copy), render(&tokens));
}
