//! Small verified text helpers: lowercase hex encoding, decimal rendering,
//! and building `String`s from ASCII bytes.
use vstd::prelude::*;

verus! {

/// The lowercase hexadecimal digit for a nibble value.
pub open spec fn hex_digit_char(n: nat) -> char {
    if n < 10 {
        ((48 + n) as u8) as char
    } else {
        ((87 + n) as u8) as char
    }
}

/// Lowercase hex encoding of a byte string: two digits per byte, high nibble
/// first.
pub open spec fn hex_of(b: Seq<u8>) -> Seq<char>
    decreases b.len(),
{
    if b.len() == 0 {
        Seq::empty()
    } else {
        hex_of(b.drop_last()) + seq![
            hex_digit_char((b.last() / 16) as nat),
            hex_digit_char((b.last() % 16) as nat),
        ]
    }
}

/// Decimal rendering of a non-negative integer, most significant digit first,
/// no leading zeros (a single `'0'` for zero).
pub open spec fn dec_chars(n: nat) -> Seq<char>
    decreases n,
{
    if n < 10 {
        seq![((48 + n) as u8) as char]
    } else {
        dec_chars(n / 10).push(((48 + n % 10) as u8) as char)
    }
}

/// The characters of an ASCII byte string, one per byte.
pub open spec fn ascii_chars(b: Seq<u8>) -> Seq<char> {
    b.map_values(|x: u8| x as char)
}

/// Relies on `String::push` from std: appends exactly one character at the
/// end of the string.
#[verifier::external_body]
fn push_char(s: &mut String, c: char)
    ensures
        final(s)@ == old(s)@.push(c),
{
    s.push(c);
}

/// Lowercase hex encoding of a byte slice.
pub fn hex_encode(b: &[u8]) -> (r: String)
    ensures
        r@ == hex_of(b@),
{
    let mut r = String::new();
    let mut i: usize = 0;
    while i < b.len()
        invariant
            i <= b@.len(),
            r@ == hex_of(b@.take(i as int)),
        decreases b@.len() - i,
    {
        let hi: u8 = b[i] / 16;
        let lo: u8 = b[i] % 16;
        let hc: char = if hi < 10 {
            (48 + hi) as char
        } else {
            (87 + hi) as char
        };
        let lc: char = if lo < 10 {
            (48 + lo) as char
        } else {
            (87 + lo) as char
        };
        push_char(&mut r, hc);
        push_char(&mut r, lc);
        proof {
            let t = b@.take(i + 1);
            assert(t.drop_last() =~= b@.take(i as int));
            assert(t.last() == b@[i as int]);
        }
        i = i + 1;
    }
    proof {
        assert(b@.take(b@.len() as int) =~= b@);
    }
    r
}

/// Decimal rendering of a byte value (used for the recovery id, which always
/// fits one byte).
pub fn decimal_string(n: u8) -> (r: String)
    ensures
        r@ == dec_chars(n as nat),
{
    let mut r = String::new();
    if n >= 100 {
        push_char(&mut r, (48 + n / 100) as char);
    }
    if n >= 10 {
        push_char(&mut r, (48 + (n / 10) % 10) as char);
    }
    push_char(&mut r, (48 + n % 10) as char);
    proof {
        if n >= 100 {
            assert(n / 10 >= 10 && n / 10 < 100);
            assert(dec_chars(n as nat) == dec_chars((n / 10) as nat).push(
                ((48 + n % 10) as u8) as char,
            ));
            assert(dec_chars((n / 10) as nat) == dec_chars((n / 100) as nat).push(
                ((48 + (n / 10) % 10) as u8) as char,
            ));
            assert(n / 10 / 10 == n / 100) by (nonlinear_arith);
            assert(dec_chars((n / 100) as nat) =~= seq![((48 + n / 100) as u8) as char]);
            assert(r@ =~= dec_chars(n as nat));
        } else if n >= 10 {
            assert(n / 10 < 10);
            assert(dec_chars(n as nat) == dec_chars((n / 10) as nat).push(
                ((48 + n % 10) as u8) as char,
            ));
            assert(dec_chars((n / 10) as nat) =~= seq![((48 + n / 10) as u8) as char]);
            assert(r@ =~= dec_chars(n as nat));
        } else {
            assert(r@ =~= dec_chars(n as nat));
        }
    }
    r
}

/// A `String` holding the characters of the given ASCII bytes, prefixed with
/// the extra characters handed in first (the caller passes `0x` for
/// addresses).
pub fn ascii_string_with_prefix(p1: char, p2: char, b: &[u8]) -> (r: String)
    requires
        forall|k: int| 0 <= k < b@.len() ==> b@[k] < 128,
    ensures
        r@ == seq![p1, p2] + ascii_chars(b@),
{
    let mut r = String::new();
    push_char(&mut r, p1);
    push_char(&mut r, p2);
    let mut i: usize = 0;
    while i < b.len()
        invariant
            i <= b@.len(),
            r@ == seq![p1, p2] + ascii_chars(b@.take(i as int)),
        decreases b@.len() - i,
    {
        push_char(&mut r, b[i] as char);
        proof {
            assert(r@ =~= seq![p1, p2] + ascii_chars(b@.take(i + 1)));
        }
        i = i + 1;
    }
    proof {
        assert(b@.take(b@.len() as int) =~= b@);
    }
    r
}

} // verus!
