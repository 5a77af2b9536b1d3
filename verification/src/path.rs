//! BIP-32 derivation-path encoding.
//!
//! A path string is a `/`-separated list of components. A component is a
//! decimal 32-bit index; everything from the first `'` of a component onward
//! is dropped, and the presence of a `'` sets the hardening bit
//! `0x8000_0000`. The encoding is the big-endian serialization of the
//! indices, concatenated in order. A malformed component fails the whole
//! parse; no partial output is ever produced.
use vstd::prelude::*;

use crate::Error;

verus! {

/// The hardening bit: set on indices whose component carries a `'`.
pub const HARDEN_BIT: u32 = 0x8000_0000;

pub open spec fn is_digit(c: char) -> bool {
    '0' <= c && c <= '9'
}

pub open spec fn digit_val(c: char) -> nat {
    ((c as int) - ('0' as int)) as nat
}

/// The value of a digit string read in base 10 (0 for the empty string).
pub open spec fn dec_value(s: Seq<char>) -> nat
    decreases s.len(),
{
    if s.len() == 0 {
        0
    } else {
        dec_value(s.drop_last()) * 10 + digit_val(s.last())
    }
}

pub open spec fn all_digits(s: Seq<char>) -> bool {
    forall|i: int| 0 <= i < s.len() ==> is_digit(s[i])
}

/// A non-empty digit string whose value fits an unsigned 32-bit integer.
pub open spec fn is_dec_u32(s: Seq<char>) -> bool {
    s.len() > 0 && all_digits(s) && dec_value(s) <= u32::MAX
}

/// Index of the first occurrence of `c` in `s`, or `s.len()` when absent.
pub open spec fn first_index_of(s: Seq<char>, c: char) -> int
    decreases s.len(),
{
    if s.len() == 0 {
        0
    } else if s[0] == c {
        0
    } else {
        1 + first_index_of(s.drop_first(), c)
    }
}

pub proof fn lemma_first_index_of(s: Seq<char>, c: char)
    ensures
        0 <= first_index_of(s, c) <= s.len(),
        first_index_of(s, c) < s.len() ==> s[first_index_of(s, c)] == c,
        forall|k: int| 0 <= k < first_index_of(s, c) ==> s[k] != c,
        first_index_of(s, c) == s.len() ==> !s.contains(c),
    decreases s.len(),
{
    if s.len() == 0 {
        assert(!s.contains(c));
    } else if s[0] == c {
    } else {
        lemma_first_index_of(s.drop_first(), c);
        let t = s.drop_first();
        assert(forall|k: int| 0 <= k < t.len() ==> t[k] == s[k + 1]);
        assert forall|k: int| 0 <= k < first_index_of(s, c) implies s[k] != c by {
            if k > 0 {
                assert(s[k] == t[k - 1]);
            }
        }
        if first_index_of(s, c) == s.len() {
            assert forall|k: int| 0 <= k < s.len() implies s[k] != c by {
                if k > 0 {
                    assert(s[k] == t[k - 1]);
                }
            }
            assert(!s.contains(c));
        }
    }
}

/// `first_index_of` is pinned down by a witness position: `c` at `j`, none
/// before it.
pub proof fn lemma_first_index_of_is(s: Seq<char>, c: char, j: int)
    requires
        0 <= j <= s.len(),
        forall|k: int| 0 <= k < j ==> s[k] != c,
        j < s.len() ==> s[j] == c,
        j == s.len() ==> !s.contains(c),
    ensures
        first_index_of(s, c) == j,
{
    lemma_first_index_of(s, c);
    let f = first_index_of(s, c);
    if f < j {
        assert(s[f] != c);
    } else if f > j {
        if j < s.len() {
            assert(s[j] != c);
        } else {
            assert(false);
        }
    }
}

/// The digit piece of a component: everything before the first `'`.
pub open spec fn component_base(s: Seq<char>) -> Seq<char> {
    s.take(first_index_of(s, '\''))
}

/// Whether a component is hardened: it contains a `'`.
pub open spec fn component_hardened(s: Seq<char>) -> bool {
    s.contains('\'')
}

/// The 32-bit index a component denotes, or `None` when its digit piece is
/// not a well-formed 32-bit decimal.
pub open spec fn component_word(s: Seq<char>) -> Option<u32> {
    if is_dec_u32(component_base(s)) {
        if component_hardened(s) {
            Some((dec_value(component_base(s)) as u32) | HARDEN_BIT)
        } else {
            Some(dec_value(component_base(s)) as u32)
        }
    } else {
        None
    }
}

/// The indices of a whole path: split on `/`, each piece read as a
/// component. `None` as soon as one component is malformed.
pub open spec fn path_words(s: Seq<char>) -> Option<Seq<u32>>
    decreases s.len(),
    via path_words_decreases
{
    let i = first_index_of(s, '/');
    if i == s.len() {
        match component_word(s) {
            Some(w) => Some(seq![w]),
            None => None,
        }
    } else {
        match component_word(s.take(i)) {
            Some(w) => match path_words(s.skip(i + 1)) {
                Some(ws) => Some(seq![w] + ws),
                None => None,
            },
            None => None,
        }
    }
}

#[via_fn]
proof fn path_words_decreases(s: Seq<char>) {
    lemma_first_index_of(s, '/');
}

/// Big-endian bytes of one 32-bit index.
pub open spec fn be_word_bytes(w: u32) -> Seq<u8> {
    seq![
        ((w >> 24) & 0xff) as u8,
        ((w >> 16) & 0xff) as u8,
        ((w >> 8) & 0xff) as u8,
        (w & 0xff) as u8,
    ]
}

/// Concatenated big-endian serialization of a sequence of indices.
pub open spec fn words_bytes(ws: Seq<u32>) -> Seq<u8>
    decreases ws.len(),
{
    if ws.len() == 0 {
        Seq::empty()
    } else {
        be_word_bytes(ws[0]) + words_bytes(ws.drop_first())
    }
}

/// What `parse_bip32_path` returns on a given string: the serialized path,
/// or nothing when the string is malformed.
pub open spec fn path_encoding(s: Seq<char>) -> Option<Seq<u8>> {
    match path_words(s) {
        Some(ws) => Some(words_bytes(ws)),
        None => None,
    }
}

pub proof fn lemma_words_bytes_push(ws: Seq<u32>, w: u32)
    ensures
        words_bytes(ws.push(w)) == words_bytes(ws) + be_word_bytes(w),
    decreases ws.len(),
{
    if ws.len() == 0 {
        let a = ws.push(w);
        assert(a.drop_first() =~= Seq::<u32>::empty());
        assert(words_bytes(a) == be_word_bytes(a[0]) + words_bytes(a.drop_first()));
        assert(words_bytes(a.drop_first()) == Seq::<u8>::empty());
        assert(a[0] == w);
        assert(words_bytes(ws) == Seq::<u8>::empty());
        assert(words_bytes(ws.push(w)) =~= words_bytes(ws) + be_word_bytes(w));
    } else {
        let a = ws.push(w);
        assert(a[0] == ws[0]);
        assert(a.drop_first() =~= ws.drop_first().push(w));
        lemma_words_bytes_push(ws.drop_first(), w);
        assert(words_bytes(a) == be_word_bytes(a[0]) + words_bytes(a.drop_first()));
        assert(words_bytes(ws) == be_word_bytes(ws[0]) + words_bytes(ws.drop_first()));
        assert(words_bytes(ws.push(w)) =~= words_bytes(ws) + be_word_bytes(w));
    }
}

pub proof fn lemma_words_bytes_len(ws: Seq<u32>)
    ensures
        words_bytes(ws).len() == 4 * ws.len(),
    decreases ws.len(),
{
    if ws.len() > 0 {
        lemma_words_bytes_len(ws.drop_first());
    }
}

/// A digit-string prefix never exceeds the value of the whole string.
proof fn lemma_dec_value_prefix_le(s: Seq<char>, m: int)
    requires
        0 <= m <= s.len(),
    ensures
        dec_value(s.take(m)) <= dec_value(s),
    decreases s.len() - m,
{
    if m == s.len() {
        assert(s.take(m) =~= s);
    } else {
        let t = s.drop_last();
        assert(dec_value(s) == dec_value(t) * 10 + digit_val(s.last()));
        assert(dec_value(t) * 10 >= dec_value(t));
        lemma_dec_value_prefix_le(t, m);
        assert(t.take(m) =~= s.take(m));
    }
}

/// Unfolds one `/`-separated component out of the suffix of a path string.
proof fn lemma_path_words_step(s: Seq<char>, i: int, j: int)
    requires
        0 <= i <= j <= s.len(),
        forall|k: int| i <= k < j ==> s[k] != '/',
        j < s.len() ==> s[j] == '/',
    ensures
        path_words(s.skip(i)) == (if j == s.len() {
            match component_word(s.subrange(i, j)) {
                Some(w) => Some(seq![w]),
                None => None::<Seq<u32>>,
            }
        } else {
            match component_word(s.subrange(i, j)) {
                Some(w) => match path_words(s.skip(j + 1)) {
                    Some(ws) => Some(seq![w] + ws),
                    None => None,
                },
                None => None,
            }
        }),
{
    let t = s.skip(i);
    assert(forall|k: int| 0 <= k < t.len() ==> t[k] == s[k + i]);
    if j == s.len() {
        assert(!t.contains('/')) by {
            assert(forall|k: int| 0 <= k < t.len() ==> t[k] != '/');
        }
        lemma_first_index_of_is(t, '/', t.len() as int);
        assert(t =~= s.subrange(i, j));
    } else {
        lemma_first_index_of_is(t, '/', j - i);
        assert(t.take(j - i) =~= s.subrange(i, j));
        assert(t.skip(j - i + 1) =~= s.skip(j + 1));
    }
}

/// Path encoding is deterministic: it is a function of the path string
/// alone, so any two results obtained for the same string are identical
/// byte for byte.
pub proof fn lemma_path_encoding_deterministic(
    s: Seq<char>,
    r1: Option<Seq<u8>>,
    r2: Option<Seq<u8>>,
)
    requires
        r1 == path_encoding(s),
        r2 == path_encoding(s),
    ensures
        r1 == r2,
{
}

/// A hardened component always carries the top bit in its index; a
/// non-hardened one whose digits stay below `0x8000_0000` never does. (A
/// non-hardened component may still reach the top bit through its plain
/// value, such as `4294967295`, which is why the second part needs the
/// bound.)
pub proof fn lemma_component_hardened_bit(c: Seq<char>)
    ensures
        component_word(c) matches Some(w) ==> {
            &&& component_hardened(c) ==> w & HARDEN_BIT != 0
            &&& !component_hardened(c) && dec_value(component_base(c)) < 0x8000_0000 ==> w
                & HARDEN_BIT == 0
        },
{
    if component_word(c) is Some {
        let base_val = dec_value(component_base(c)) as u32;
        if component_hardened(c) {
            let w = component_word(c)->Some_0;
            assert(w == base_val | 0x8000_0000u32);
            assert((base_val | 0x8000_0000u32) & 0x8000_0000u32 != 0) by (bit_vector);
        } else {
            if dec_value(component_base(c)) < 0x8000_0000 {
                assert(base_val < 0x8000_0000u32 ==> base_val & 0x8000_0000u32 == 0)
                    by (bit_vector);
            }
        }
    }
}

/// Index of the next `/` at or after `from`, or the string length when
/// there is none.
fn scan_separator(path: &str, from: usize) -> (j: usize)
    requires
        from <= path@.len(),
    ensures
        from <= j <= path@.len(),
        forall|k: int| from <= k < j ==> path@[k] != '/',
        j < path@.len() ==> path@[j as int] == '/',
{
    let n = path.unicode_len();
    let mut j = from;
    while j < n
        invariant
            from <= j <= n,
            n == path@.len(),
            forall|k: int| from <= k < j ==> path@[k] != '/',
        decreases n - j,
    {
        let c = path.get_char(j);
        if c == '/' {
            return j;
        }
        j = j + 1;
    }
    j
}

/// Reads one path component, `path[from..to]`, as its 32-bit index.
fn parse_component(path: &str, from: usize, to: usize) -> (r: Option<u32>)
    requires
        from <= to <= path@.len(),
    ensures
        r == component_word(path@.subrange(from as int, to as int)),
{
    let ghost c = path@.subrange(from as int, to as int);
    proof {
        assert(forall|k: int| 0 <= k < c.len() ==> c[k] == path@[k + from]);
    }
    let mut k = from;
    let mut value: u64 = 0;
    loop
        invariant
            from <= k <= to <= path@.len(),
            c == path@.subrange(from as int, to as int),
            forall|t: int| from <= t < k ==> is_digit(path@[t]),
            value == dec_value(c.take(k - from)),
            value <= u32::MAX,
        decreases to - k,
    {
        if k == to {
            // The whole component is digits: no `'`, base is the component
            // itself.
            proof {
                assert(forall|t: int| 0 <= t < c.len() ==> is_digit(c[t]));
                assert(forall|t: int| 0 <= t < c.len() ==> c[t] != '\'');
                lemma_first_index_of_is(c, '\'', c.len() as int);
                assert(component_base(c) =~= c);
                assert(c.take(k - from) =~= c);
            }
            if k == from {
                return None;
            }
            return Some(value as u32);
        }
        let ch = path.get_char(k);
        let cv = ch as u32;
        if 48 <= cv && cv <= 57 {
            let d = (cv - 48) as u64;
            proof {
                assert(is_digit(ch));
                assert(d == digit_val(ch));
                let p = c.take(k - from + 1);
                assert(p.drop_last() =~= c.take(k - from));
                assert(p.last() == c[k - from]);
                assert(c[k - from] == ch);
            }
            value = value * 10 + d;
            if value > 0xffff_ffff {
                // The digit prefix alone already exceeds the 32-bit range,
                // so the base cannot be a well-formed index.
                proof {
                    let fi = first_index_of(c, '\'');
                    lemma_first_index_of(c, '\'');
                    if fi <= k - from {
                        assert(c[fi] == '\'');
                        assert(is_digit(c[fi]));
                        assert(false);
                    }
                    let base = component_base(c);
                    if all_digits(base) {
                        assert(base.take(k - from + 1) =~= c.take(k - from + 1));
                        lemma_dec_value_prefix_le(base, k - from + 1);
                    }
                }
                return None;
            }
            k = k + 1;
        } else if ch == '\'' {
            // Hardened component: the base ends here, the rest is dropped.
            proof {
                assert(forall|t: int| 0 <= t < k - from ==> c[t] != '\'');
                assert(c[k - from] == '\'');
                lemma_first_index_of_is(c, '\'', k - from);
                assert(component_base(c) =~= c.take(k - from));
                assert(c.contains('\''));
            }
            if k == from {
                return None;
            }
            return Some((value as u32) | HARDEN_BIT);
        } else {
            // A character that is neither a digit nor `'` sits inside the
            // base, whatever comes later: the component is malformed.
            proof {
                let fi = first_index_of(c, '\'');
                lemma_first_index_of(c, '\'');
                if fi <= k - from {
                    assert(c[fi] == '\'');
                    if fi < k - from {
                        assert(is_digit(c[fi]));
                    }
                    assert(false);
                }
                let base = component_base(c);
                assert(base[k - from] == ch);
                assert(!is_digit(ch));
            }
            return None;
        }
    }
}

/// Parses a derivation-path string and serializes it: each `/`-separated
/// component is a decimal 32-bit index, hardened by a trailing `'`, and the
/// result is the indices' big-endian bytes concatenated in order. A
/// malformed component fails the whole parse with no partial output.
pub fn parse_bip32_path(path: &str) -> (r: Result<Vec<u8>, Error>)
    ensures
        match r {
            Ok(v) => path_encoding(path@) == Some(v@) && v@.len() % 4 == 0,
            Err(e) => path_encoding(path@) is None && e == Error::PathParse,
        },
{
    let ghost s = path@;
    let n = path.unicode_len();
    let mut out: Vec<u8> = Vec::new();
    let mut i: usize = 0;
    let ghost mut ws: Seq<u32> = Seq::empty();
    proof {
        assert(s.skip(0) =~= s);
        if path_words(s) is Some {
            assert(Seq::<u32>::empty() + path_words(s)->Some_0 =~= path_words(s)->Some_0);
        }
    }
    loop
        invariant
            i <= n,
            n == s.len(),
            s == path@,
            out@ == words_bytes(ws),
            path_words(s) == (match path_words(s.skip(i as int)) {
                Some(rest) => Some(ws + rest),
                None => None::<Seq<u32>>,
            }),
        decreases n - i,
    {
        let j = scan_separator(path, i);
        let w_opt = parse_component(path, i, j);
        proof {
            lemma_path_words_step(s, i as int, j as int);
        }
        match w_opt {
            None => {
                return Err(Error::PathParse);
            },
            Some(w) => {
                proof {
                    assert(((w >> 24) & 0xff) < 256 && ((w >> 16) & 0xff) < 256 && ((w >> 8)
                        & 0xff) < 256 && (w & 0xff) < 256) by (bit_vector);
                }
                out.push(((w >> 24) & 0xff) as u8);
                out.push(((w >> 16) & 0xff) as u8);
                out.push(((w >> 8) & 0xff) as u8);
                out.push((w & 0xff) as u8);
                proof {
                    lemma_words_bytes_push(ws, w);
                    assert(out@ =~= words_bytes(ws) + be_word_bytes(w));
                    ws = ws.push(w);
                }
                if j == n {
                    proof {
                        assert(path_words(s) == Some(ws)) by {
                            assert(ws =~= ws.drop_last() + seq![w]);
                        }
                        lemma_words_bytes_len(ws);
                    }
                    return Ok(out);
                }
                proof {
                    assert(path_words(s) == (match path_words(s.skip(j + 1)) {
                        Some(rest) => Some(ws + rest),
                        None => None::<Seq<u32>>,
                    })) by {
                        if path_words(s.skip(j + 1)) is Some {
                            let rest = path_words(s.skip(j + 1))->Some_0;
                            assert(ws.drop_last() + (seq![w] + rest) =~= ws + rest);
                        }
                    }
                }
                i = j + 1;
            },
        }
    }
}

} // verus!
