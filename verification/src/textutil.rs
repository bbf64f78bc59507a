//! Small text helpers shared by the library: comparison, hashing and hex
//! rendering of texts, and trusted bridges to the two std string operations
//! that vstd leaves unspecified (collecting characters, lower-casing).
use vstd::prelude::*;

verus! {

/// Whether two texts hold the same characters in the same order.
pub(crate) fn str_eq(a: &str, b: &str) -> (r: bool)
    ensures
        r == (a@ == b@),
{
    let na = a.unicode_len();
    let nb = b.unicode_len();
    if na != nb {
        return false;
    }
    let mut i: usize = 0;
    while i < na
        invariant
            na == a@.len(),
            nb == b@.len(),
            na == nb,
            i <= na,
            forall|k: int| 0 <= k < i ==> a@[k] == b@[k],
        decreases na - i,
    {
        if a.get_char(i) != b.get_char(i) {
            return false;
        }
        i = i + 1;
    }
    proof {
        assert(a@ =~= b@);
    }
    true
}

/// Relies on `String: FromIterator<char>`: collecting characters yields the
/// string with exactly those characters in order.
#[verifier::external_body]
pub(crate) fn chars_to_string(v: &Vec<char>) -> (r: String)
    ensures
        r@ == v@,
{
    v.iter().collect()
}

/// What `str::to_lowercase` yields on a given text: the Unicode lower-case
/// mapping (which may change a text's length).
pub uninterp spec fn lower_of(s: Seq<char>) -> Seq<char>;

/// Relies on `str::to_lowercase`: the result depends on the characters alone
/// (the Unicode case mapping, with no locale in play).
#[verifier::external_body]
pub(crate) fn to_lower(s: &str) -> (r: String)
    ensures
        r@ == lower_of(s@),
{
    s.to_lowercase()
}

/// `s` with every space turned into an underscore.
pub open spec fn underscore_spaces(s: Seq<char>) -> Seq<char> {
    s.map_values(|c: char| if c == ' ' { '_' } else { c })
}

/// Turns every space of `s` into an underscore.
pub fn underscore_spaces_exec(s: &str) -> (r: Vec<char>)
    ensures
        r@ == underscore_spaces(s@),
{
    let n = s.unicode_len();
    let mut out: Vec<char> = Vec::new();
    let mut i: usize = 0;
    while i < n
        invariant
            n == s@.len(),
            i <= n,
            out@ == underscore_spaces(s@.take(i as int)),
        decreases n - i,
    {
        let c = s.get_char(i);
        if c == ' ' {
            out.push('_');
        } else {
            out.push(c);
        }
        proof {
            assert(s@.take(i + 1 as int).drop_last() =~= s@.take(i as int));
            assert(underscore_spaces(s@.take(i + 1 as int)) =~= underscore_spaces(
                s@.take(i as int),
            ).push(if s@[i as int] == ' ' { '_' } else { s@[i as int] }));
        }
        i = i + 1;
    }
    proof {
        assert(s@.take(n as int) =~= s@);
    }
    out
}

/// One step of the path hash: rotate the state left by seven bits and mix
/// the next character in.
pub open spec fn hash_step(h: u64, c: char) -> u64 {
    ((h << 7) | (h >> 57)) ^ ((c as u32) as u64)
}

/// A deterministic, non-cryptographic hash of a text, used only as a lookup
/// key: the characters folded left-to-right into a rotating 64-bit state.
pub open spec fn text_hash(s: Seq<char>) -> u64
    decreases s.len(),
{
    if s.len() == 0 {
        0x9e3779b97f4a7c15u64
    } else {
        hash_step(text_hash(s.drop_last()), s.last())
    }
}

/// Computes `text_hash` over the characters of `s`.
pub fn text_hash_exec(s: &str) -> (r: u64)
    ensures
        r == text_hash(s@),
{
    let n = s.unicode_len();
    let mut h: u64 = 0x9e3779b97f4a7c15u64;
    let mut i: usize = 0;
    proof {
        assert(s@.take(0) =~= Seq::<char>::empty());
    }
    while i < n
        invariant
            n == s@.len(),
            i <= n,
            h == text_hash(s@.take(i as int)),
        decreases n - i,
    {
        let c = s.get_char(i);
        proof {
            assert(s@.take(i + 1 as int).drop_last() =~= s@.take(i as int));
            assert(s@.take(i + 1 as int).last() == s@[i as int]);
        }
        h = ((h << 7u64) | (h >> 57u64)) ^ ((c as u32) as u64);
        i = i + 1;
    }
    proof {
        assert(s@.take(n as int) =~= s@);
    }
    h
}

/// The sixteen hexadecimal digit characters.
pub open spec fn hex_digits() -> Seq<char> {
    seq!['0', '1', '2', '3', '4', '5', '6', '7', '8', '9', 'a', 'b', 'c', 'd', 'e', 'f']
}

/// `x` written in lower-case hexadecimal, most significant digit first, with
/// no leading zeroes (zero itself reads `0`).
pub open spec fn hex_rep(x: u64) -> Seq<char>
    decreases x,
{
    if x < 16 {
        seq![hex_digits()[x as int]]
    } else {
        hex_rep(x / 16).push(hex_digits()[(x % 16) as int])
    }
}

fn hex_digit_char(d: u64) -> (c: char)
    requires
        d < 16,
    ensures
        c == hex_digits()[d as int],
{
    if d == 0 {
        '0'
    } else if d == 1 {
        '1'
    } else if d == 2 {
        '2'
    } else if d == 3 {
        '3'
    } else if d == 4 {
        '4'
    } else if d == 5 {
        '5'
    } else if d == 6 {
        '6'
    } else if d == 7 {
        '7'
    } else if d == 8 {
        '8'
    } else if d == 9 {
        '9'
    } else if d == 10 {
        'a'
    } else if d == 11 {
        'b'
    } else if d == 12 {
        'c'
    } else if d == 13 {
        'd'
    } else if d == 14 {
        'e'
    } else {
        'f'
    }
}

/// Writes `x` in lower-case hexadecimal.
pub fn hex_string(x: u64) -> (r: String)
    ensures
        r@ == hex_rep(x),
{
    let mut rev: Vec<char> = Vec::new();
    let mut v: u64 = x;
    while v >= 16
        invariant
            hex_rep(x) =~= hex_rep(v) + rev@.reverse(),
        decreases v,
    {
        let ghost prev = rev@;
        rev.push(hex_digit_char(v % 16));
        proof {
            assert(rev@.reverse() =~= seq![hex_digits()[(v % 16) as int]] + prev.reverse());
            assert(hex_rep(v) =~= hex_rep(v / 16) + seq![hex_digits()[(v % 16) as int]]);
            assert(hex_rep(v / 16) + (seq![hex_digits()[(v % 16) as int]] + prev.reverse())
                =~= (hex_rep(v / 16) + seq![hex_digits()[(v % 16) as int]]) + prev.reverse());
        }
        v = v / 16;
    }
    let ghost prev = rev@;
    rev.push(hex_digit_char(v));
    proof {
        assert(rev@.reverse() =~= seq![hex_digits()[v as int]] + prev.reverse());
        assert(hex_rep(v) =~= seq![hex_digits()[v as int]]);
    }
    let n = rev.len();
    let mut out: Vec<char> = Vec::new();
    let mut k: usize = 0;
    while k < n
        invariant
            n == rev@.len(),
            k <= n,
            out@ =~= rev@.reverse().take(k as int),
        decreases n - k,
    {
        out.push(rev[n - 1 - k]);
        proof {
            assert(out@ =~= rev@.reverse().take(k + 1 as int));
        }
        k = k + 1;
    }
    proof {
        assert(rev@.reverse().take(n as int) =~= rev@.reverse());
    }
    chars_to_string(&out)
}

/// Whether `p` stands at the front of `s`.
pub fn has_prefix(s: &str, p: &str) -> (r: bool)
    ensures
        r == p@.is_prefix_of(s@),
{
    let np = p.unicode_len();
    let ns = s.unicode_len();
    if np > ns {
        proof {
            assert(!p@.is_prefix_of(s@));
        }
        return false;
    }
    let mut i: usize = 0;
    while i < np
        invariant
            np == p@.len(),
            ns == s@.len(),
            np <= ns,
            i <= np,
            forall|k: int| 0 <= k < i ==> p@[k] == s@[k],
        decreases np - i,
    {
        if s.get_char(i) != p.get_char(i) {
            proof {
                assert(s@.subrange(0, np as int)[i as int] != p@[i as int]);
                assert(!p@.is_prefix_of(s@));
            }
            return false;
        }
        i = i + 1;
    }
    proof {
        assert(p@ =~= s@.subrange(0, np as int));
    }
    true
}

/// Whether `p` stands at the end of `s`.
pub fn has_suffix(s: &str, p: &str) -> (r: bool)
    ensures
        r == p@.is_suffix_of(s@),
{
    let np = p.unicode_len();
    let ns = s.unicode_len();
    if np > ns {
        proof {
            assert(!p@.is_suffix_of(s@));
        }
        return false;
    }
    let base = ns - np;
    let mut i: usize = 0;
    while i < np
        invariant
            np == p@.len(),
            ns == s@.len(),
            np <= ns,
            base == ns - np,
            i <= np,
            forall|k: int| 0 <= k < i ==> p@[k] == s@[base + k],
        decreases np - i,
    {
        if s.get_char(base + i) != p.get_char(i) {
            proof {
                assert(s@.subrange(base as int, ns as int)[i as int] != p@[i as int]);
                assert(!p@.is_suffix_of(s@));
            }
            return false;
        }
        i = i + 1;
    }
    proof {
        assert(p@ =~= s@.subrange(base as int, ns as int));
    }
    true
}

} // verus!
