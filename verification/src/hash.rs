//! The location hash: a hash of where every token of a stream comes from,
//! used to give items that macros generate names that are unique and stable.

use vstd::prelude::*;
use vstd::utf8::encode_utf8;

use crate::tokens::{
    deep_seq, span_of, token_content, token_content_spec, Delimiter, Group, Location, TokenTree,
    TokenTreeDeepIterator,
};

verus! {

/// The XXH3 64-bit hash (seed 0) of `input`.
pub uninterp spec fn xxh3_64_of(input: Seq<u8>) -> u64;

/// `xxhash_rust::xxh3::xxh3_64`: the XXH3 64-bit hash with the default seed
/// and secret; a function of the input bytes alone.
#[verifier::external_body]
fn xxh3_64(input: &[u8]) -> (h: u64)
    ensures
        h == xxh3_64_of(input@),
{
    xxhash_rust::xxh3::xxh3_64(input)
}

/// Whether the path `path` starts with the path `base`, compared component
/// by component by the target's path syntax.
pub uninterp spec fn path_has_prefix(path: Seq<char>, base: Seq<char>) -> bool;

/// `std::path::Path::starts_with`: a lexical, component-wise comparison of
/// the two paths; a function of the two strings alone on a given target.
#[verifier::external_body]
fn path_starts_with(path: &str, base: &str) -> (r: bool)
    ensures
        r == path_has_prefix(path@, base@),
{
    std::path::Path::new(path).starts_with(base)
}

/// The big-endian bytes of `x`.
pub open spec fn u64_be_bytes(x: u64) -> Seq<u8> {
    seq![
        (x / 0x100000000000000) as u8,
        (x / 0x1000000000000 % 256) as u8,
        (x / 0x10000000000 % 256) as u8,
        (x / 0x100000000 % 256) as u8,
        (x / 0x1000000 % 256) as u8,
        (x / 0x10000 % 256) as u8,
        (x / 0x100 % 256) as u8,
        (x % 256) as u8,
    ]
}

fn push_u64_be(buffer: &mut Vec<u8>, x: u64)
    ensures
        final(buffer)@ == old(buffer)@ + u64_be_bytes(x),
{
    buffer.push((x / 0x100000000000000) as u8);
    buffer.push((x / 0x1000000000000 % 256) as u8);
    buffer.push((x / 0x10000000000 % 256) as u8);
    buffer.push((x / 0x100000000 % 256) as u8);
    buffer.push((x / 0x1000000 % 256) as u8);
    buffer.push((x / 0x10000 % 256) as u8);
    buffer.push((x / 0x100 % 256) as u8);
    buffer.push((x % 256) as u8);
    assert(final(buffer)@ =~= old(buffer)@ + u64_be_bytes(x));
}

fn push_bytes(buffer: &mut Vec<u8>, bytes: &[u8])
    ensures
        final(buffer)@ == old(buffer)@ + bytes@,
{
    let mut i: usize = 0;
    while i < bytes.len()
        invariant
            i <= bytes@.len(),
            buffer@ == old(buffer)@ + bytes@.subrange(0, i as int),
        decreases bytes@.len() - i,
    {
        buffer.push(bytes[i]);
        i += 1;
        assert(buffer@ =~= old(buffer)@ + bytes@.subrange(0, i as int));
    }
    assert(bytes@.subrange(0, i as int) =~= bytes@);
}

/// Whether a token at `loc` contributes its content rather than its
/// location: its local file lies under the ignored base directory.
pub open spec fn is_ignored(loc: Location, ignore_base: Option<Seq<char>>) -> bool {
    match ignore_base {
        Some(base) => match loc.local_file {
            Some(file) => path_has_prefix(file@, base),
            None => false,
        },
        None => false,
    }
}

/// The bytes hashed for token `t` after the hash `last`: `last` big-endian,
/// then either the token's content (for an ignored token) or its line and
/// column big-endian and its file name.
pub open spec fn token_record(
    last: u64,
    t: TokenTree,
    locations: Seq<Location>,
    ignore_base: Option<Seq<char>>,
) -> Seq<u8> {
    let loc = locations[span_of(t).id as int];
    u64_be_bytes(last) + if is_ignored(loc, ignore_base) {
        encode_utf8(token_content_spec(t))
    } else {
        u64_be_bytes(loc.line) + u64_be_bytes(loc.column) + encode_utf8(loc.file@)
    }
}

/// The hash chained over `ts` from `last`: each token's record hashed in turn.
pub open spec fn hash_chain(
    last: u64,
    ts: Seq<TokenTree>,
    locations: Seq<Location>,
    ignore_base: Option<Seq<char>>,
) -> u64
    decreases ts.len(),
{
    if ts.len() == 0 {
        last
    } else {
        hash_chain(
            xxh3_64_of(token_record(last, ts[0], locations, ignore_base)),
            ts.drop_first(),
            locations,
            ignore_base,
        )
    }
}

/// The view of an optional base directory.
pub open spec fn base_view(ignore_base: Option<&str>) -> Option<Seq<char>> {
    match ignore_base {
        Some(b) => Some(b@),
        None => None,
    }
}

/// Whether every token of the walk over `tokens` has a known location.
pub open spec fn locations_cover(tokens: Seq<TokenTree>, locations: Seq<Location>) -> bool {
    forall|k: int| 0 <= k < deep_seq(tokens).len() ==> #[trigger] span_of(deep_seq(tokens)[k]).id < locations.len()
}

/// Hashes the location (file, line, column) of every token of `tokens`, in
/// the order of a depth-first walk, chaining each hash into the next. A token
/// whose local source file lies under `ignore_base` contributes its content
/// instead of its location, so that the hash is stable against edits of that
/// source while still telling different tokens apart.
pub fn location_hash(
    tokens: &Vec<TokenTree>,
    locations: &Vec<Location>,
    ignore_base: Option<&str>,
) -> (h: u64)
    requires
        locations_cover(tokens@, locations@),
    ensures
        h == hash_chain(0, deep_seq(tokens@), locations@, base_view(ignore_base)),
{
    let mut iterator = TokenTreeDeepIterator::new(tokens);
    let mut buffer: Vec<u8> = Vec::with_capacity(1024);
    let mut last_hash: u64 = 0;
    loop
        invariant
            iterator.wf(),
            locations_cover(tokens@, locations@),
            deep_seq(tokens@).len() >= iterator.remaining().len(),
            iterator.remaining() == deep_seq(tokens@).subrange(
                deep_seq(tokens@).len() - iterator.remaining().len(),
                deep_seq(tokens@).len() as int,
            ),
            hash_chain(0, deep_seq(tokens@), locations@, base_view(ignore_base))
                == hash_chain(last_hash, iterator.remaining(), locations@, base_view(ignore_base)),
        decreases iterator.remaining().len(),
    {
        let ghost before = iterator.remaining();
        let next = iterator.next();
        let token = match next {
            Some(token) => token,
            None => {
                return last_hash;
            },
        };
        proof {
            let all = deep_seq(tokens@);
            let k = all.len() - before.len();
            assert(before[0] == all[k]);
            assert(iterator.remaining() =~= all.subrange(k + 1, all.len() as int));
        }
        let span = match token {
            TokenTree::Group(g) => g.span,
            TokenTree::Ident(i) => i.span,
            TokenTree::Punct(p) => p.span,
            TokenTree::Literal(l) => l.span,
        };
        let loc = &locations[span.id];
        buffer.clear();
        push_u64_be(&mut buffer, last_hash);
        let ignored = match ignore_base {
            Some(base) => match &loc.local_file {
                Some(file) => path_starts_with(file.as_str(), base),
                None => false,
            },
            None => false,
        };
        if ignored {
            let content = token_content(token);
            push_bytes(&mut buffer, content.as_str().as_bytes());
        } else {
            push_u64_be(&mut buffer, loc.line);
            push_u64_be(&mut buffer, loc.column);
            push_bytes(&mut buffer, loc.file.as_str().as_bytes());
        }
        proof {
            assert(buffer@ =~= token_record(last_hash, *token, locations@, base_view(ignore_base)));
        }
        last_hash = xxh3_64(buffer.as_slice());
    }
}

/// The hash is chained token by token: hashing `s1` then `s2` from `last`
/// is hashing `s2` from the hash of `s1`.
pub proof fn law_hash_chain_composes(
    last: u64,
    s1: Seq<TokenTree>,
    s2: Seq<TokenTree>,
    locations: Seq<Location>,
    ignore_base: Option<Seq<char>>,
)
    ensures
        hash_chain(last, s1 + s2, locations, ignore_base) == hash_chain(
            hash_chain(last, s1, locations, ignore_base),
            s2,
            locations,
            ignore_base,
        ),
    decreases s1.len(),
{
    if s1.len() == 0 {
        assert(s1 + s2 =~= s2);
    } else {
        assert((s1 + s2)[0] == s1[0]);
        assert((s1 + s2).drop_first() =~= s1.drop_first() + s2);
        law_hash_chain_composes(
            xxh3_64_of(token_record(last, s1[0], locations, ignore_base)),
            s1.drop_first(),
            s2,
            locations,
            ignore_base,
        );
    }
}

/// An ignored token is hashed by its content: after the previous hash (8
/// bytes, big-endian), its record holds exactly the UTF-8 text of the token's
/// content, for every kind of token, groups (their delimiter) included.
pub proof fn law_ignored_token_hashes_its_content(
    last: u64,
    t: TokenTree,
    locations: Seq<Location>,
    ignore_base: Option<Seq<char>>,
)
    requires
        is_ignored(locations[span_of(t).id as int], ignore_base),
    ensures
        token_record(last, t, locations, ignore_base).len() >= 8,
        token_record(last, t, locations, ignore_base).subrange(0, 8) == u64_be_bytes(last),
        vstd::utf8::decode_utf8(
            token_record(last, t, locations, ignore_base).subrange(
                8,
                token_record(last, t, locations, ignore_base).len() as int,
            ),
        ) == token_content_spec(t),
{
    let r = token_record(last, t, locations, ignore_base);
    let e = encode_utf8(token_content_spec(t));
    assert(r.subrange(0, 8) =~= u64_be_bytes(last));
    assert(r.subrange(8, r.len() as int) =~= e);
    vstd::utf8::encode_utf8_decode_utf8(token_content_spec(t));
}

/// Ignored tokens with different contents give different records after the
/// same previous hash: hashing content keeps genuinely different tokens
/// apart.
pub proof fn law_ignored_tokens_stay_distinct(
    last: u64,
    t1: TokenTree,
    t2: TokenTree,
    locations: Seq<Location>,
    ignore_base: Option<Seq<char>>,
)
    requires
        is_ignored(locations[span_of(t1).id as int], ignore_base),
        is_ignored(locations[span_of(t2).id as int], ignore_base),
        token_content_spec(t1) != token_content_spec(t2),
    ensures
        token_record(last, t1, locations, ignore_base) != token_record(last, t2, locations, ignore_base),
{
    law_ignored_token_hashes_its_content(last, t1, locations, ignore_base);
    law_ignored_token_hashes_its_content(last, t2, locations, ignore_base);
}

/// Ignored groups with different visible delimiters (parentheses, braces,
/// brackets) give different records after the same previous hash, so two
/// streams that differ only in such a delimiter are hashed from different
/// bytes.
pub proof fn law_ignored_groups_keep_their_delimiters(
    last: u64,
    g1: Group,
    g2: Group,
    locations: Seq<Location>,
    ignore_base: Option<Seq<char>>,
)
    requires
        is_ignored(locations[span_of(TokenTree::Group(g1)).id as int], ignore_base),
        is_ignored(locations[span_of(TokenTree::Group(g2)).id as int], ignore_base),
        g1.delimiter != g2.delimiter,
        g1.delimiter != Delimiter::Invisible,
        g2.delimiter != Delimiter::Invisible,
    ensures
        token_record(last, TokenTree::Group(g1), locations, ignore_base) != token_record(
            last,
            TokenTree::Group(g2),
            locations,
            ignore_base,
        ),
{
    law_ignored_token_hashes_its_content(last, TokenTree::Group(g1), locations, ignore_base);
    law_ignored_token_hashes_its_content(last, TokenTree::Group(g2), locations, ignore_base);
    let c1 = token_content_spec(TokenTree::Group(g1));
    let c2 = token_content_spec(TokenTree::Group(g2));
    assert(c1.len() == 1 && c2.len() == 1);
    assert(c1[0] != c2[0]);
}

/// A token outside the ignored base is hashed by its location: after the
/// previous hash, its record holds its line and its column, each as 8
/// big-endian bytes, then the UTF-8 text of its file name.
pub proof fn law_located_token_hashes_its_location(
    last: u64,
    t: TokenTree,
    locations: Seq<Location>,
    ignore_base: Option<Seq<char>>,
)
    requires
        !is_ignored(locations[span_of(t).id as int], ignore_base),
    ensures
        ({
            let r = token_record(last, t, locations, ignore_base);
            let loc = locations[span_of(t).id as int];
            &&& r.len() >= 24
            &&& r.subrange(0, 8) == u64_be_bytes(last)
            &&& r.subrange(8, 16) == u64_be_bytes(loc.line)
            &&& r.subrange(16, 24) == u64_be_bytes(loc.column)
            &&& vstd::utf8::decode_utf8(r.subrange(24, r.len() as int)) == loc.file@
        }),
{
    let r = token_record(last, t, locations, ignore_base);
    let loc = locations[span_of(t).id as int];
    assert(r.subrange(0, 8) =~= u64_be_bytes(last));
    assert(r.subrange(8, 16) =~= u64_be_bytes(loc.line));
    assert(r.subrange(16, 24) =~= u64_be_bytes(loc.column));
    assert(r.subrange(24, r.len() as int) =~= encode_utf8(loc.file@));
    vstd::utf8::encode_utf8_decode_utf8(loc.file@);
}

/// `u64_be_bytes` is the big-endian encoding: read back most significant
/// byte first, its 8 bytes give the number.
pub proof fn law_u64_be_bytes_reads_back(x: u64)
    ensures
        crate::aix::be(u64_be_bytes(x), 0, 8) == x,
{
    let b = u64_be_bytes(x);
    reveal_with_fuel(crate::aix::be, 9);
    let (b0, b1, b2, b3, b4, b5, b6, b7) = (b[0], b[1], b[2], b[3], b[4], b[5], b[6], b[7]);
    assert(b0 as u64 * 0x100000000000000 + b1 as u64 * 0x1000000000000 + b2 as u64 * 0x10000000000
        + b3 as u64 * 0x100000000 + b4 as u64 * 0x1000000 + b5 as u64 * 0x10000 + b6 as u64 * 0x100
        + b7 as u64 == x) by (bit_vector)
        requires
            b0 as u64 == x / 0x100000000000000,
            b1 as u64 == x / 0x1000000000000 % 256,
            b2 as u64 == x / 0x10000000000 % 256,
            b3 as u64 == x / 0x100000000 % 256,
            b4 as u64 == x / 0x1000000 % 256,
            b5 as u64 == x / 0x10000 % 256,
            b6 as u64 == x / 0x100 % 256,
            b7 as u64 == x % 256,
    ;
}

/// Whether token `t` gives the same record under the location tables `l1`
/// and `l2`: it is ignored under both or under neither, and where it is not
/// ignored its line, column and file agree.
pub open spec fn same_record_inputs(
    t: TokenTree,
    l1: Seq<Location>,
    l2: Seq<Location>,
    ignore_base: Option<Seq<char>>,
) -> bool {
    let a = l1[span_of(t).id as int];
    let b = l2[span_of(t).id as int];
    &&& is_ignored(a, ignore_base) == is_ignored(b, ignore_base)
    &&& !is_ignored(a, ignore_base) ==> a.line == b.line && a.column == b.column && a.file@ == b.file@
}

proof fn lemma_hash_chain_same_inputs(
    last: u64,
    ts: Seq<TokenTree>,
    l1: Seq<Location>,
    l2: Seq<Location>,
    ignore_base: Option<Seq<char>>,
)
    requires
        forall|k: int| 0 <= k < ts.len() ==> #[trigger] same_record_inputs(ts[k], l1, l2, ignore_base),
    ensures
        hash_chain(last, ts, l1, ignore_base) == hash_chain(last, ts, l2, ignore_base),
    decreases ts.len(),
{
    if ts.len() > 0 {
        assert(same_record_inputs(ts[0], l1, l2, ignore_base));
        assert(token_record(last, ts[0], l1, ignore_base) == token_record(last, ts[0], l2, ignore_base));
        let next = xxh3_64_of(token_record(last, ts[0], l1, ignore_base));
        assert forall|k: int| 0 <= k < ts.drop_first().len() implies #[trigger] same_record_inputs(
            ts.drop_first()[k],
            l1,
            l2,
            ignore_base,
        ) by {
            assert(ts.drop_first()[k] == ts[k + 1]);
        }
        lemma_hash_chain_same_inputs(next, ts.drop_first(), l1, l2, ignore_base);
    }
}

/// The location hash depends on a token's location only where the token is
/// not ignored: moving the ignored tokens (those whose source lies under the
/// ignored base) to other files, lines or columns leaves the hash of a
/// stream unchanged, as long as they stay ignored.
pub proof fn law_location_hash_ignores_moved_tokens(
    tokens: Seq<TokenTree>,
    l1: Seq<Location>,
    l2: Seq<Location>,
    ignore_base: Option<Seq<char>>,
)
    requires
        forall|k: int| 0 <= k < deep_seq(tokens).len() ==> #[trigger] same_record_inputs(
            deep_seq(tokens)[k],
            l1,
            l2,
            ignore_base,
        ),
    ensures
        hash_chain(0, deep_seq(tokens), l1, ignore_base) == hash_chain(0, deep_seq(tokens), l2, ignore_base),
{
    lemma_hash_chain_same_inputs(0, deep_seq(tokens), l1, l2, ignore_base);
}

} // verus!
