//! Percent-encoding of query-string components, and decimal rendering of
//! numbers.
//!
//! Values placed in a query string are encoded byte by byte over their UTF-8
//! form: bytes in the RFC 3986 unreserved set stay as they are, every other
//! byte becomes `%` followed by two upper-case hex digits.

use vstd::prelude::*;
use vstd::string::StringSliceAdditionalSpecFns;
use vstd::utf8::encode_utf8;

verus! {

/// True for the bytes that percent-encoding leaves as they are:
/// ASCII letters, digits, `-`, `.`, `_` and `~`.
pub open spec fn spec_unreserved(b: u8) -> bool {
    ('A' as u8 <= b && b <= 'Z' as u8) || ('a' as u8 <= b && b <= 'z' as u8) || ('0' as u8 <= b
        && b <= '9' as u8) || b == '-' as u8 || b == '.' as u8 || b == '_' as u8 || b == '~' as u8
}

/// The upper-case hex digit for a value below 16.
pub open spec fn spec_hex_digit(n: u8) -> char
    recommends
        n < 16,
{
    if n < 10 {
        ('0' as u8 + n) as char
    } else {
        ('A' as u8 + (n - 10)) as char
    }
}

/// The characters that percent-encoding emits for one byte.
pub open spec fn spec_pct_byte(b: u8) -> Seq<char> {
    if spec_unreserved(b) {
        seq![b as char]
    } else {
        seq!['%', spec_hex_digit(b / 16), spec_hex_digit(b % 16)]
    }
}

/// The characters that percent-encoding emits for a byte sequence.
pub open spec fn spec_pct_bytes(bs: Seq<u8>) -> Seq<char>
    decreases bs.len(),
{
    if bs.len() == 0 {
        Seq::empty()
    } else {
        spec_pct_bytes(bs.drop_last()) + spec_pct_byte(bs.last())
    }
}

/// The percent-encoding of a string: its UTF-8 bytes, each encoded in turn.
pub open spec fn spec_pct(s: Seq<char>) -> Seq<char> {
    spec_pct_bytes(encode_utf8(s))
}

/// The value of an upper-case hex digit.
pub open spec fn spec_hex_val(c: char) -> u8
    recommends
        ('0' <= c && c <= '9') || ('A' <= c && c <= 'F'),
{
    if '0' <= c && c <= '9' {
        (c as u8 - '0' as u8) as u8
    } else {
        (c as u8 - 'A' as u8 + 10) as u8
    }
}

pub proof fn lemma_hex_val_digit(n: u8)
    requires
        n < 16,
    ensures
        spec_hex_val(spec_hex_digit(n)) == n,
        spec_hex_digit(n) != '%',
        spec_hex_digit(n) != '&',
        spec_hex_digit(n) != '=',
{
}

/// The bytes a percent-encoded character sequence stands for, read from the
/// end: three characters `%XY` stand for one escaped byte, any other
/// character stands for itself.
pub open spec fn spec_unpct(cs: Seq<char>) -> Seq<u8>
    decreases cs.len(),
{
    if cs.len() == 0 {
        Seq::empty()
    } else if cs.len() >= 3 && cs[cs.len() - 3] == '%' {
        spec_unpct(cs.take(cs.len() - 3)).push(
            (spec_hex_val(cs[cs.len() - 2]) * 16 + spec_hex_val(cs[cs.len() - 1])) as u8,
        )
    } else {
        spec_unpct(cs.drop_last()).push(cs.last() as u8)
    }
}

/// Law: percent-encoding loses nothing: reading the encoded characters back
/// recovers exactly the encoded bytes, so two different values never share
/// an encoding.  The further clauses say that a `%` only ever opens an
/// escape, which is what makes the reading unambiguous.
pub proof fn lemma_unpct_pct(bs: Seq<u8>)
    ensures
        spec_unpct(spec_pct_bytes(bs)) == bs,
        spec_pct_bytes(bs).len() >= 1 ==> spec_pct_bytes(bs).last() != '%',
        spec_pct_bytes(bs).len() >= 2 ==> spec_pct_bytes(bs)[spec_pct_bytes(bs).len() - 2]
            != '%',
    decreases bs.len(),
{
    if bs.len() == 0 {
        assert(spec_unpct(spec_pct_bytes(bs)) =~= bs);
    } else {
        lemma_unpct_pct(bs.drop_last());
        let o1 = spec_pct_bytes(bs.drop_last());
        let b = bs.last();
        let o = spec_pct_bytes(bs);
        if spec_unreserved(b) {
            assert(o.drop_last() =~= o1);
            assert(o.last() == b as char);
            assert(b as char != '%');
            if o.len() >= 3 {
                assert(o[o.len() - 3] == o1[o1.len() - 2]);
            }
            assert(spec_unpct(o) == spec_unpct(o1).push((b as char) as u8));
            assert((b as char) as u8 == b);
            assert(spec_unpct(o) =~= bs);
        } else {
            let h1 = spec_hex_digit(b / 16);
            let h2 = spec_hex_digit(b % 16);
            lemma_hex_val_digit(b / 16);
            lemma_hex_val_digit(b % 16);
            assert(o[o.len() - 3] == '%');
            assert(o[o.len() - 2] == h1);
            assert(o.last() == h2);
            assert(o.take(o.len() - 3) =~= o1);
            assert(spec_hex_val(h1) * 16 + spec_hex_val(h2) == b);
            assert(spec_unpct(o) =~= bs);
        }
    }
}

/// Law: the encoding of a value never holds a separator: no `&` and no `=`
/// occurs in it, so the pairs and sides of a serialized query string are
/// exactly its `&`- and `=`-delimited parts.
pub proof fn lemma_pct_no_separators(bs: Seq<u8>)
    ensures
        forall|i: int|
            0 <= i < spec_pct_bytes(bs).len() ==> (#[trigger] spec_pct_bytes(bs)[i]) != '&'
                && spec_pct_bytes(bs)[i] != '=',
    decreases bs.len(),
{
    if bs.len() > 0 {
        lemma_pct_no_separators(bs.drop_last());
        let o1 = spec_pct_bytes(bs.drop_last());
        let b = bs.last();
        let o = spec_pct_bytes(bs);
        if !spec_unreserved(b) {
            lemma_hex_val_digit(b / 16);
            lemma_hex_val_digit(b % 16);
        }
        assert forall|i: int| 0 <= i < o.len() implies (#[trigger] o[i]) != '&' && o[i] != '='
        by {
            if i < o1.len() {
                assert(o[i] == o1[i]);
            } else if spec_unreserved(b) {
                assert(o[i] == b as char);
            }
        }
    }
}

/// Relies on `String::push`: appends the given character to the string.
#[verifier::external_body]
pub(crate) fn push_char(s: &mut String, c: char)
    ensures
        final(s)@ == old(s)@.push(c),
{
    s.push(c);
}

fn unreserved(b: u8) -> (r: bool)
    ensures
        r == spec_unreserved(b),
{
    ('A' as u8 <= b && b <= 'Z' as u8) || ('a' as u8 <= b && b <= 'z' as u8) || ('0' as u8 <= b
        && b <= '9' as u8) || b == '-' as u8 || b == '.' as u8 || b == '_' as u8 || b == '~' as u8
}

fn hex_digit(n: u8) -> (c: char)
    requires
        n < 16,
    ensures
        c == spec_hex_digit(n),
{
    if n < 10 {
        ('0' as u8 + n) as char
    } else {
        ('A' as u8 + (n - 10)) as char
    }
}

/// Percent-encode a string over its UTF-8 bytes.
pub fn percent_encode(s: &str) -> (r: String)
    ensures
        r@ == spec_pct(s@),
{
    let bytes = s.as_bytes();
    let n = bytes.len();
    let mut out = String::new();
    proof {
        assert(bytes@.take(0) =~= Seq::<u8>::empty());
    }
    let mut i: usize = 0;
    while i < n
        invariant
            n == bytes@.len(),
            i <= n,
            bytes@ == s.spec_bytes(),
            out@ == spec_pct_bytes(bytes@.take(i as int)),
        decreases n - i,
    {
        let b = bytes[i];
        proof {
            assert(bytes@.take(i + 1).drop_last() =~= bytes@.take(i as int));
            assert(bytes@.take(i + 1).last() == b);
        }
        if unreserved(b) {
            push_char(&mut out, b as char);
            proof {
                assert(out@ =~= spec_pct_bytes(bytes@.take(i + 1)));
            }
        } else {
            push_char(&mut out, '%');
            push_char(&mut out, hex_digit(b / 16));
            push_char(&mut out, hex_digit(b % 16));
            proof {
                assert(out@ =~= spec_pct_bytes(bytes@.take(i + 1)));
            }
        }
        i = i + 1;
    }
    proof {
        assert(bytes@.take(n as int) =~= bytes@);
    }
    out
}

/// The decimal digits of a number, most significant first.
pub open spec fn spec_dec_digits(n: nat) -> Seq<char>
    decreases n,
{
    if n < 10 {
        seq![spec_hex_digit(n as u8)]
    } else {
        spec_dec_digits(n / 10).push(spec_hex_digit((n % 10) as u8))
    }
}

/// Render a number in decimal.
pub fn dec_string(n: usize) -> (r: String)
    ensures
        r@ == spec_dec_digits(n as nat),
    decreases n,
{
    if n < 10 {
        let mut s = String::new();
        push_char(&mut s, hex_digit(n as u8));
        proof {
            assert(s@ =~= spec_dec_digits(n as nat));
        }
        s
    } else {
        let mut s = dec_string(n / 10);
        push_char(&mut s, hex_digit((n % 10) as u8));
        s
    }
}

} // verus!
