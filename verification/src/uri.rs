//! Parsing the assembled URL into the transport's URI type, and the check
//! that the URL is absolute (carries a scheme): the URI grammar also admits
//! relative forms such as a bare path, which this crate rejects as a URL
//! parse failure.

use vstd::prelude::*;
use vstd::string::StrSliceExecFns;

verus! {

#[verifier::external_type_specification]
#[verifier::external_body]
pub struct ExUri(hyper::Uri);

#[verifier::external_type_specification]
#[verifier::external_body]
pub struct ExInvalidUri(hyper::http::uri::InvalidUri);

/// Whether the outside URI parser accepts the string: a function of the
/// string alone.
pub uninterp spec fn uri_parse_ok(s: Seq<char>) -> bool;

/// Relies on the `FromStr` impl of `hyper::Uri` (the `http` crate's URI
/// parser): whether a string parses, and what it parses to, depend on the
/// string alone.
#[verifier::external_body]
pub(crate) fn parse_uri(s: &str) -> (r: Result<hyper::Uri, hyper::http::uri::InvalidUri>)
    ensures
        r is Ok <==> uri_parse_ok(s@),
{
    s.parse()
}

/// An ASCII letter.
pub open spec fn is_alpha_char(c: char) -> bool {
    ('a' <= c && c <= 'z') || ('A' <= c && c <= 'Z')
}

/// A character allowed in a URL scheme after its first letter.
pub open spec fn is_scheme_char(c: char) -> bool {
    is_alpha_char(c) || ('0' <= c && c <= '9') || c == '+' || c == '-' || c == '.'
}

/// The string opens with `<scheme>://`: a letter, then scheme characters,
/// then a colon and two slashes. Only such a URL is taken as absolute.
pub open spec fn has_scheme_prefix(s: Seq<char>) -> bool {
    exists|i: int|
        1 <= i && i + 3 <= s.len() && (#[trigger] s[i]) == ':' && s[i + 1] == '/' && s[i + 2]
            == '/' && is_alpha_char(s[0]) && (forall|j: int|
            1 <= j < i ==> is_scheme_char(#[trigger] s[j]))
}

/// Decides `has_scheme_prefix` for a string.
pub fn has_scheme(s: &str) -> (r: bool)
    ensures
        r == has_scheme_prefix(s@),
{
    let n = s.unicode_len();
    if n < 4 {
        proof {
            if has_scheme_prefix(s@) {
                let w = choose|w: int|
                    1 <= w && w + 3 <= s@.len() && (#[trigger] s@[w]) == ':' && s@[w + 1] == '/'
                        && s@[w + 2] == '/' && is_alpha_char(s@[0]) && (forall|j: int|
                        1 <= j < w ==> is_scheme_char(#[trigger] s@[j]));
                assert(false);
            }
        }
        return false;
    }
    let c0 = s.get_char(0);
    if !(('a' <= c0 && c0 <= 'z') || ('A' <= c0 && c0 <= 'Z')) {
        return false;
    }
    let mut i: usize = 1;
    while i < n
        invariant
            1 <= i <= n,
            n == s@.len(),
            is_alpha_char(s@[0]),
            forall|j: int| 1 <= j < i ==> is_scheme_char(#[trigger] s@[j]) && s@[j] != ':',
        decreases n - i,
    {
        let c = s.get_char(i);
        if c == ':' {
            if n - i > 2 {
                let c1 = s.get_char(i + 1);
                let c2 = s.get_char(i + 2);
                if c1 == '/' && c2 == '/' {
                    proof {
                        assert(has_scheme_prefix(s@)) by {
                            assert((#[trigger] s@[i as int]) == ':');
                        }
                    }
                    return true;
                }
            }
            proof {
                if has_scheme_prefix(s@) {
                    let w = choose|w: int|
                        1 <= w && w + 3 <= s@.len() && (#[trigger] s@[w]) == ':' && s@[w + 1]
                            == '/' && s@[w + 2] == '/' && is_alpha_char(s@[0]) && (forall|j: int|
                            1 <= j < w ==> is_scheme_char(#[trigger] s@[j]));
                    if w < i {
                        assert(s@[w] != ':');
                    } else if w > i {
                        assert(is_scheme_char(s@[i as int]));
                    }
                    assert(false);
                }
            }
            return false;
        }
        let sc = ('a' <= c && c <= 'z') || ('A' <= c && c <= 'Z') || ('0' <= c && c <= '9') || c
            == '+' || c == '-' || c == '.';
        if !sc {
            proof {
                if has_scheme_prefix(s@) {
                    let w = choose|w: int|
                        1 <= w && w + 3 <= s@.len() && (#[trigger] s@[w]) == ':' && s@[w + 1]
                            == '/' && s@[w + 2] == '/' && is_alpha_char(s@[0]) && (forall|j: int|
                            1 <= j < w ==> is_scheme_char(#[trigger] s@[j]));
                    if w < i {
                        assert(s@[w] != ':');
                    } else if w == i {
                        assert(s@[i as int] == ':');
                    } else {
                        assert(is_scheme_char(s@[i as int]));
                    }
                    assert(false);
                }
            }
            return false;
        }
        i += 1;
    }
    proof {
        if has_scheme_prefix(s@) {
            let w = choose|w: int|
                1 <= w && w + 3 <= s@.len() && (#[trigger] s@[w]) == ':' && s@[w + 1] == '/'
                    && s@[w + 2] == '/' && is_alpha_char(s@[0]) && (forall|j: int|
                    1 <= j < w ==> is_scheme_char(#[trigger] s@[j]));
            assert(s@[w] != ':');
            assert(false);
        }
    }
    false
}

} // verus!
