//! Laws of the request builder that relate several of its functions; each is
//! proved here once and for all inputs.

use vstd::prelude::*;
use crate::encoding::{encode_ascii, lemma_decode_encode, lemma_encode_ascii_free, percent_decode,
    plain_text};
use crate::params::keys_unique;
use crate::request::{api_prefix, plain_component_of, plain_query_of, query_of, url_of};

verus! {

/// The character `c` does not occur in `s`.
pub open spec fn free_of(s: Seq<char>, c: char) -> bool {
    forall|i: int| 0 <= i < s.len() ==> (#[trigger] s[i]) != c
}

/// Index of the first occurrence of `c` in `s`; the length when `c` is
/// absent.
pub open spec fn first_at(s: Seq<char>, c: char) -> nat
    decreases s.len(),
{
    if s.len() == 0 {
        0
    } else if s[0] == c {
        0
    } else {
        1 + first_at(s.drop_first(), c)
    }
}

/// Splitting `s` on `c`: the fragments between occurrences, in order.
pub open spec fn split_on(s: Seq<char>, c: char) -> Seq<Seq<char>>
    decreases s.len(),
{
    if first_at(s, c) >= s.len() {
        seq![s]
    } else {
        seq![s.take(first_at(s, c) as int)] + split_on(s.skip(first_at(s, c) as int + 1), c)
    }
}

/// Joining fragments with `c` between each two.
pub open spec fn join_on(cs: Seq<Seq<char>>, c: char) -> Seq<char>
    decreases cs.len(),
{
    if cs.len() == 0 {
        Seq::empty()
    } else if cs.len() == 1 {
        cs[0]
    } else {
        cs[0] + seq![c] + join_on(cs.drop_first(), c)
    }
}

pub proof fn lemma_first_at_absent(s: Seq<char>, c: char)
    requires
        free_of(s, c),
    ensures
        first_at(s, c) == s.len(),
    decreases s.len(),
{
    if s.len() == 0 {
    } else {
        assert((#[trigger] s[0]) != c);
        assert(free_of(s.drop_first(), c));
        lemma_first_at_absent(s.drop_first(), c);
    }
}

pub proof fn lemma_first_at_concat(a: Seq<char>, c: char, rest: Seq<char>)
    requires
        free_of(a, c),
    ensures
        first_at(a + seq![c] + rest, c) == a.len(),
    decreases a.len(),
{
    let s = a + seq![c] + rest;
    if a.len() == 0 {
        assert(s[0] == c);
    } else {
        assert(s[0] == (#[trigger] a[0]));
        assert(s.drop_first() =~= a.drop_first() + seq![c] + rest);
        assert(free_of(a.drop_first(), c));
        lemma_first_at_concat(a.drop_first(), c, rest);
    }
}

/// Splitting a string that opens with a separator-free fragment and a
/// separator peels that fragment off.
pub proof fn lemma_split_on_prepend(a: Seq<char>, c: char, rest: Seq<char>)
    requires
        free_of(a, c),
    ensures
        split_on(a + seq![c] + rest, c) == seq![a] + split_on(rest, c),
{
    let s = a + seq![c] + rest;
    lemma_first_at_concat(a, c, rest);
    assert(s.take(a.len() as int) =~= a);
    assert(s.skip(a.len() as int + 1) =~= rest);
    assert(split_on(s, c) =~= seq![a] + split_on(rest, c));
}

/// Splitting undoes joining when no fragment holds the separator.
pub proof fn lemma_split_join(cs: Seq<Seq<char>>, c: char)
    requires
        cs.len() >= 1,
        forall|k: int| 0 <= k < cs.len() ==> free_of(#[trigger] cs[k], c),
    ensures
        split_on(join_on(cs, c), c) == cs,
    decreases cs.len(),
{
    if cs.len() == 1 {
        assert(free_of(#[trigger] cs[0], c));
        lemma_first_at_absent(cs[0], c);
        assert(split_on(join_on(cs, c), c) =~= cs);
    } else {
        assert(free_of(#[trigger] cs[0], c));
        assert(forall|k: int|
            0 <= k < cs.drop_first().len() ==> free_of(#[trigger] cs.drop_first()[k], c));
        lemma_split_on_prepend(cs[0], c, join_on(cs.drop_first(), c));
        lemma_split_join(cs.drop_first(), c);
        assert(split_on(join_on(cs, c), c) =~= cs);
    }
}

/// Appending one more fragment to a join.
pub proof fn lemma_join_push(cs: Seq<Seq<char>>, c: char, x: Seq<char>)
    requires
        cs.len() >= 1,
    ensures
        join_on(cs.push(x), c) == join_on(cs, c) + seq![c] + x,
    decreases cs.len(),
{
    if cs.len() == 1 {
        assert(cs.push(x).drop_first() =~= seq![x]);
        assert(cs.push(x)[0] == cs[0]);
        assert(join_on(seq![x], c) == seq![x][0]);
        assert(seq![x][0] == x);
        assert(join_on(cs.push(x), c) =~= cs[0] + seq![c] + x);
    } else {
        assert(cs.push(x).drop_first() =~= cs.drop_first().push(x));
        lemma_join_push(cs.drop_first(), c, x);
        assert(join_on(cs.push(x), c) =~= join_on(cs, c) + seq![c] + x);
    }
}

/// The components of the plain query string: the access-token fragment, then
/// one fragment per pair, in order.
pub open spec fn plain_query_components(
    pairs: Seq<(Seq<char>, Seq<char>)>,
    token: Seq<char>,
) -> Seq<Seq<char>> {
    seq!["access_token="@ + token] + pairs.map_values(
        |p: (Seq<char>, Seq<char>)| plain_component_of(p),
    )
}

/// The plain query string is its components joined with `&`.
pub proof fn lemma_plain_query_is_join(pairs: Seq<(Seq<char>, Seq<char>)>, token: Seq<char>)
    ensures
        plain_query_of(pairs, token) == join_on(plain_query_components(pairs, token), '&'),
    decreases pairs.len(),
{
    reveal_strlit("&");
    if pairs.len() == 0 {
        assert(plain_query_components(pairs, token) =~= seq!["access_token="@ + token]);
    } else {
        let b = pairs.drop_last();
        lemma_plain_query_is_join(b, token);
        lemma_join_push(plain_query_components(b, token), '&', plain_component_of(pairs.last()));
        assert(plain_query_components(pairs, token) =~= plain_query_components(b, token).push(
            plain_component_of(pairs.last()),
        ));
        assert("&"@ =~= seq!['&']);
        assert(plain_query_of(pairs, token) =~= join_on(
            plain_query_components(pairs, token),
            '&',
        ));
    }
}

/// Law: every key/value pair appears in the query string exactly once,
/// percent-encoded, and nowhere else. For parameters and token of plain text
/// (ASCII, free of the unescaped `%`, `&` and `=`), splitting the query
/// string on `&` yields the access-token fragment followed by exactly one
/// `<key>=<value>` fragment per map entry, in insertion order and pairwise
/// distinct, and percent-decoding a fragment's two sides recovers the entry
/// exactly. Values outside plain text are excluded because the conservative
/// set passes `%`, `&` and `=` through, which makes the query string
/// ambiguous (a value `a&b=c` emits fragments another map also emits).
pub proof fn lemma_query_pairs_roundtrip(pairs: Seq<(Seq<char>, Seq<char>)>, token: Seq<char>)
    requires
        keys_unique(pairs),
        forall|k: int|
            0 <= k < pairs.len() ==> plain_text((#[trigger] pairs[k]).0) && plain_text(
                pairs[k].1,
            ),
        plain_text(token),
    ensures
        ({
            let comps = split_on(plain_query_of(pairs, token), '&');
            &&& comps.len() == pairs.len() + 1
            &&& comps[0] == "access_token="@ + token
            &&& (forall|k: int|
                0 <= k < pairs.len() ==> #[trigger] comps[k + 1] == plain_component_of(pairs[k]))
            &&& (forall|k: int|
                0 <= k < pairs.len() ==> percent_decode(
                    (#[trigger] comps[k + 1]).take(first_at(comps[k + 1], '=') as int),
                ) == pairs[k].0 && percent_decode(
                    comps[k + 1].skip(first_at(comps[k + 1], '=') as int + 1),
                ) == pairs[k].1)
            &&& (forall|a: int, b: int|
                1 <= a < b < comps.len() ==> (#[trigger] comps[a]) != (#[trigger] comps[b]))
        }),
{
    reveal_strlit("=");
    assert("="@ =~= seq!['=']);
    let cs = plain_query_components(pairs, token);
    lemma_plain_query_is_join(pairs, token);
    lemma_access_token_free_of_amp();
    assert(free_of("access_token="@ + token, '&')) by {
        let a = "access_token="@ + token;
        assert forall|i: int| 0 <= i < a.len() implies (#[trigger] a[i]) != '&' by {
            if i < "access_token="@.len() {
                assert(a[i] == "access_token="@[i]);
            } else {
                assert(a[i] == token[i - "access_token="@.len()]);
            }
        }
    }
    assert forall|k: int| 0 <= k < cs.len() implies free_of(#[trigger] cs[k], '&') by {
        if k == 0 {
            assert(cs[0] == "access_token="@ + token);
        } else {
            let p = pairs[k - 1];
            assert(plain_text((#[trigger] pairs[k - 1]).0) && plain_text(pairs[k - 1].1));
            lemma_encode_ascii_free(p.0, '&');
            lemma_encode_ascii_free(p.1, '&');
            assert(cs[k] == plain_component_of(p));
            let c0 = encode_ascii(p.0);
            let c1 = encode_ascii(p.1);
            assert(cs[k] =~= c0 + seq!['='] + c1);
            assert forall|i: int| 0 <= i < cs[k].len() implies (#[trigger] cs[k][i]) != '&' by {
                if i < c0.len() {
                    assert(cs[k][i] == c0[i]);
                } else if i == c0.len() {
                    assert(cs[k][i] == '=');
                } else {
                    assert(cs[k][i] == c1[i - c0.len() - 1]);
                }
            }
        }
    }
    lemma_split_join(cs, '&');
    let comps = split_on(plain_query_of(pairs, token), '&');
    assert(comps == cs);
    assert(comps.len() == pairs.len() + 1);
    assert(comps[0] == "access_token="@ + token);
    assert forall|k: int| 0 <= k < pairs.len() implies #[trigger] comps[k + 1]
        == plain_component_of(pairs[k]) by {
        assert(cs[k + 1] == pairs.map_values(|p: (Seq<char>, Seq<char>)| plain_component_of(p))[k]);
    }
    assert forall|k: int| 0 <= k < pairs.len() implies percent_decode(
        (#[trigger] comps[k + 1]).take(first_at(comps[k + 1], '=') as int),
    ) == pairs[k].0 && percent_decode(
        comps[k + 1].skip(first_at(comps[k + 1], '=') as int + 1),
    ) == pairs[k].1 by {
        let p = pairs[k];
        assert(plain_text((#[trigger] pairs[k]).0) && plain_text(pairs[k].1));
        let c0 = encode_ascii(p.0);
        let c1 = encode_ascii(p.1);
        let c = comps[k + 1];
        assert(c =~= c0 + seq!['='] + c1);
        lemma_encode_ascii_free(p.0, '=');
        assert(free_of(c0, '='));
        lemma_first_at_concat(c0, '=', c1);
        assert(first_at(c, '=') == c0.len());
        assert(c.take(c0.len() as int) =~= c0);
        assert(c.skip(c0.len() as int + 1) =~= c1);
        lemma_decode_encode(p.0);
        lemma_decode_encode(p.1);
    }
    assert forall|a: int, b: int| 1 <= a < b < comps.len() implies (#[trigger] comps[a]) != (
    #[trigger] comps[b]) by {
        if comps[a] == comps[b] {
            let ka: int = a - 1;
            let kb: int = b - 1;
            assert(comps[ka + 1] == comps[a]);
            assert(comps[kb + 1] == comps[b]);
            assert(percent_decode(comps[ka + 1].take(first_at(comps[ka + 1], '=') as int))
                == pairs[ka].0);
            assert(percent_decode(comps[kb + 1].take(first_at(comps[kb + 1], '=') as int))
                == pairs[kb].0);
            assert((#[trigger] pairs[ka]).0 == (#[trigger] pairs[kb]).0);
            assert(false);
        }
    }
}

/// The fixed `access_token=` text holds no `&`.
proof fn lemma_access_token_free_of_amp()
    ensures
        free_of("access_token="@, '&'),
{
    reveal_strlit("access_token=");
    let a = "access_token="@;
    assert forall|i: int| 0 <= i < a.len() implies (#[trigger] a[i]) != '&' by {
        if i == 0 {
            assert(a[0] != '&');
        } else if i == 1 {
            assert(a[1] != '&');
        } else if i == 2 {
            assert(a[2] != '&');
        } else if i == 3 {
            assert(a[3] != '&');
        } else if i == 4 {
            assert(a[4] != '&');
        } else if i == 5 {
            assert(a[5] != '&');
        } else if i == 6 {
            assert(a[6] != '&');
        } else if i == 7 {
            assert(a[7] != '&');
        } else if i == 8 {
            assert(a[8] != '&');
        } else if i == 9 {
            assert(a[9] != '&');
        } else if i == 10 {
            assert(a[10] != '&');
        } else if i == 11 {
            assert(a[11] != '&');
        } else {
            assert(a[12] != '&');
        }
    }
}

/// Law: the assembled URL always begins with the base URL, the fixed API
/// prefix and the endpoint, followed by `?`.
pub proof fn lemma_url_begins_with_prefix(
    base: Seq<char>,
    endpoint: Seq<char>,
    pairs: Seq<(Seq<char>, Seq<char>)>,
    token: Seq<char>,
)
    ensures
        ({
            let pre = base + api_prefix() + endpoint;
            let url = url_of(base, endpoint, pairs, token);
            &&& url.len() > pre.len()
            &&& url.subrange(0, pre.len() as int) == pre
            &&& url[pre.len() as int] == '?'
        }),
{
    reveal_strlit("?");
    let pre = base + api_prefix() + endpoint;
    let url = url_of(base, endpoint, pairs, token);
    assert("?"@.len() == 1);
    assert(url =~= pre + "?"@ + query_of(pairs, token));
    assert(url.subrange(0, pre.len() as int) =~= pre);
    assert(url[pre.len() as int] == "?"@[0]);
}

} // verus!
