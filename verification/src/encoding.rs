//! Percent-encoding of query-string keys and values, with the conservative
//! set that escapes every character unsafe in a URL component: controls,
//! space, `"`, `#`, `<`, `>`, backtick, `?`, `{`, `}` and everything outside
//! printable ASCII.

use vstd::prelude::*;

verus! {

/// Characters that the conservative set percent-encodes. Stated per
/// character; for ASCII text a character is one byte, so this matches the
/// byte-level rule of the encoder.
pub open spec fn needs_encoding(c: char) -> bool {
    ||| (c as u32) < 0x20
    ||| (c as u32) > 0x7e
    ||| c == ' '
    ||| c == '"'
    ||| c == '#'
    ||| c == '<'
    ||| c == '>'
    ||| c == '`'
    ||| c == '?'
    ||| c == '{'
    ||| c == '}'
}

/// The uppercase hexadecimal digit for a value below 16.
pub open spec fn hex_digit(v: nat) -> char {
    if v == 0 {
        '0'
    } else if v == 1 {
        '1'
    } else if v == 2 {
        '2'
    } else if v == 3 {
        '3'
    } else if v == 4 {
        '4'
    } else if v == 5 {
        '5'
    } else if v == 6 {
        '6'
    } else if v == 7 {
        '7'
    } else if v == 8 {
        '8'
    } else if v == 9 {
        '9'
    } else if v == 10 {
        'A'
    } else if v == 11 {
        'B'
    } else if v == 12 {
        'C'
    } else if v == 13 {
        'D'
    } else if v == 14 {
        'E'
    } else {
        'F'
    }
}

/// The encoding of one ASCII character: `%` and two uppercase hexadecimal
/// digits when it needs encoding, the character itself otherwise.
pub open spec fn encode_char(c: char) -> Seq<char> {
    if needs_encoding(c) {
        seq!['%', hex_digit(((c as u32) / 16) as nat), hex_digit(((c as u32) % 16) as nat)]
    } else {
        seq![c]
    }
}

/// The percent-encoding of an ASCII character sequence, character by
/// character.
pub open spec fn encode_ascii(s: Seq<char>) -> Seq<char>
    decreases s.len(),
{
    if s.len() == 0 {
        Seq::empty()
    } else {
        encode_char(s[0]) + encode_ascii(s.drop_first())
    }
}

/// An uppercase hexadecimal digit.
pub open spec fn is_hex_digit(c: char) -> bool {
    ('0' <= c && c <= '9') || ('A' <= c && c <= 'F')
}

/// The value of an uppercase hexadecimal digit.
pub open spec fn hex_val(c: char) -> nat {
    if '0' <= c && c <= '9' {
        ((c as u32) - ('0' as u32)) as nat
    } else {
        ((c as u32) - ('A' as u32) + 10) as nat
    }
}

/// Percent-decoding: each `%` followed by two uppercase hexadecimal digits
/// becomes the character with that code; every other character passes
/// through.
pub open spec fn percent_decode(s: Seq<char>) -> Seq<char>
    decreases s.len(),
{
    if s.len() == 0 {
        Seq::empty()
    } else if s[0] == '%' && s.len() >= 3 && is_hex_digit(s[1]) && is_hex_digit(s[2]) {
        seq![(((hex_val(s[1]) * 16 + hex_val(s[2])) as u32) as char)] + percent_decode(s.skip(3))
    } else {
        seq![s[0]] + percent_decode(s.skip(1))
    }
}

/// Text that encodes and decodes without ambiguity: ASCII, and free of the
/// unescaped characters `%`, `&` and `=`, which the conservative set passes
/// through although the query-string grammar gives them meaning.
pub open spec fn plain_text(s: Seq<char>) -> bool {
    forall|i: int|
        0 <= i < s.len() ==> ((#[trigger] s[i]) as u32) < 128 && s[i] != '%' && s[i] != '&'
            && s[i] != '='
}

/// Decoding inverts the encoding of ASCII text that holds no literal `%`.
pub proof fn lemma_decode_encode(s: Seq<char>)
    requires
        forall|i: int| 0 <= i < s.len() ==> ((#[trigger] s[i]) as u32) < 128 && s[i] != '%',
    ensures
        percent_decode(encode_ascii(s)) == s,
    decreases s.len(),
{
    if s.len() == 0 {
        assert(percent_decode(encode_ascii(s)) =~= s);
    } else {
        let c = s[0];
        assert(((#[trigger] s[0]) as u32) < 128);
        lemma_decode_encode(s.drop_first());
        let e = encode_ascii(s);
        if needs_encoding(c) {
            let hi = hex_digit(((c as u32) / 16) as nat);
            let lo = hex_digit(((c as u32) % 16) as nat);
            assert(is_hex_digit(hi) && hex_val(hi) == (c as u32) / 16);
            assert(is_hex_digit(lo) && hex_val(lo) == (c as u32) % 16);
            assert(e == seq!['%', hi, lo] + encode_ascii(s.drop_first()));
            assert(e[0] == '%' && e[1] == hi && e[2] == lo);
            assert(e.skip(3) =~= encode_ascii(s.drop_first()));
            assert(hex_val(hi) * 16 + hex_val(lo) == c as u32);
            vstd::utf8::char_u32_cast(c, c as u32);
            assert(((c as u32) as char) == c);
            assert(percent_decode(e) =~= s);
        } else {
            assert(e == seq![c] + encode_ascii(s.drop_first()));
            assert(e[0] == c && c != '%');
            assert(e.skip(1) =~= encode_ascii(s.drop_first()));
            assert(percent_decode(e) =~= s);
        }
    }
}

/// The encoding of text free of a character `c` that is neither `%` nor an
/// uppercase hexadecimal digit is itself free of `c`.
pub proof fn lemma_encode_ascii_free(s: Seq<char>, c: char)
    requires
        forall|i: int| 0 <= i < s.len() ==> (#[trigger] s[i]) != c,
        !is_hex_digit(c),
        c != '%',
    ensures
        forall|i: int| 0 <= i < encode_ascii(s).len() ==> (#[trigger] encode_ascii(s)[i]) != c,
    decreases s.len(),
{
    if s.len() == 0 {
    } else {
        let h = s[0];
        assert((#[trigger] s[0]) != c);
        lemma_encode_ascii_free(s.drop_first(), c);
        let e = encode_ascii(s);
        let rest = encode_ascii(s.drop_first());
        assert(e == encode_char(h) + rest);
        assert forall|i: int| 0 <= i < e.len() implies (#[trigger] e[i]) != c by {
            if i < encode_char(h).len() {
                if needs_encoding(h) {
                    assert(is_hex_digit(hex_digit(((h as u32) / 16) as nat)));
                    assert(is_hex_digit(hex_digit(((h as u32) % 16) as nat)));
                } else {
                    assert(e[i] == h);
                }
            } else {
                assert(e[i] == rest[i - encode_char(h).len()]);
            }
        }
    }
}

/// What the outside percent-encoder returns on a given string: a function of
/// the characters alone. On ASCII input it is exactly `encode_ascii`; on other
/// input it encodes the UTF-8 bytes of the string one by one, which this
/// module does not spell out.
pub uninterp spec fn percent_encoded_of(s: Seq<char>) -> Seq<char>;

/// Relies on `percent_encoding::utf8_percent_encode` with
/// `DEFAULT_ENCODE_SET`: the result depends on the input characters alone,
/// and for ASCII input each byte equals the character's code point, so the
/// byte-level rule of the encoder (escape a byte of the set as `%` plus two
/// uppercase hexadecimal digits, keep every other byte) is the per-character
/// rule `encode_ascii`.
#[verifier::external_body]
pub(crate) fn percent_encode(s: &str) -> (r: String)
    ensures
        r@ == percent_encoded_of(s@),
        vstd::utf8::is_ascii_chars(s@) ==> r@ == encode_ascii(s@),
{
    percent_encoding::utf8_percent_encode(s, percent_encoding::DEFAULT_ENCODE_SET).collect()
}

} // verus!
