//! Verified byte-string helpers: whitespace splitting, ASCII case folding,
//! hex encoding, and decimal rendering of integers.

use vstd::prelude::*;

verus! {

/// ASCII whitespace, as found inside a single line of a text file.
pub open spec fn is_ws(b: u8) -> bool {
    b == 32 || b == 9 || b == 13 || b == 11 || b == 12
}

/// Executable test for [`is_ws`].
pub fn byte_is_ws(b: u8) -> (r: bool)
    ensures
        r == is_ws(b),
{
    b == 32 || b == 9 || b == 13 || b == 11 || b == 12
}

/// ASCII lower-casing of one byte.
pub open spec fn lower_byte(b: u8) -> u8 {
    if 65 <= b <= 90 {
        (b + 32) as u8
    } else {
        b
    }
}

/// ASCII lower-casing of a byte string.
pub open spec fn lower_bytes_of(s: Seq<u8>) -> Seq<u8> {
    s.map_values(|b: u8| lower_byte(b))
}

/// Lower-case a byte string (ASCII letters only).
pub fn lower_bytes(s: &[u8]) -> (r: Vec<u8>)
    ensures
        r@ == lower_bytes_of(s@),
{
    let mut out: Vec<u8> = Vec::new();
    let mut i: usize = 0;
    while i < s.len()
        invariant
            i <= s@.len(),
            out@ == lower_bytes_of(s@.take(i as int)),
        decreases s@.len() - i,
    {
        let b = s[i];
        if 65 <= b && b <= 90 {
            out.push(b + 32);
        } else {
            out.push(b);
        }
        i = i + 1;
        assert(out@ =~= lower_bytes_of(s@.take(i as int)));
    }
    assert(s@.take(s@.len() as int) =~= s@);
    out
}

/// ASCII hex digit.
pub open spec fn is_hex_byte(b: u8) -> bool {
    (48 <= b <= 57) || (97 <= b <= 102) || (65 <= b <= 70)
}

/// Whether every byte of the string is an ASCII hex digit.
pub open spec fn all_hex(s: Seq<u8>) -> bool {
    forall|i: int| 0 <= i < s.len() ==> is_hex_byte(#[trigger] s[i])
}

/// Executable test for [`all_hex`].
pub fn bytes_all_hex(s: &[u8]) -> (r: bool)
    ensures
        r == all_hex(s@),
{
    let mut i: usize = 0;
    while i < s.len()
        invariant
            i <= s@.len(),
            forall|j: int| 0 <= j < i ==> is_hex_byte(#[trigger] s@[j]),
        decreases s@.len() - i,
    {
        let b = s[i];
        if !((48 <= b && b <= 57) || (97 <= b && b <= 102) || (65 <= b && b <= 70)) {
            return false;
        }
        i = i + 1;
    }
    true
}

/// Byte-string equality.
pub fn bytes_eq(a: &[u8], b: &[u8]) -> (r: bool)
    ensures
        r == (a@ == b@),
{
    if a.len() != b.len() {
        assert(a@ != b@);
        return false;
    }
    let mut i: usize = 0;
    while i < a.len()
        invariant
            i <= a@.len(),
            a@.len() == b@.len(),
            forall|j: int| 0 <= j < i ==> a@[j] == b@[j],
        decreases a@.len() - i,
    {
        if a[i] != b[i] {
            return false;
        }
        i = i + 1;
    }
    assert(a@ =~= b@);
    true
}

/// The lower-case hex digit for a value below sixteen.
pub open spec fn hex_digit(v: u8) -> u8
    recommends
        v < 16,
{
    if v < 10 {
        (48 + v) as u8
    } else {
        (87 + v) as u8
    }
}

/// Lower-case hex encoding of a byte string: two digits per byte.
pub open spec fn hex_lower_of(s: Seq<u8>) -> Seq<u8>
    decreases s.len(),
{
    if s.len() == 0 {
        Seq::empty()
    } else {
        seq![hex_digit(s[0] / 16), hex_digit(s[0] % 16)] + hex_lower_of(s.skip(1))
    }
}

proof fn lemma_hex_lower_take(s: Seq<u8>, i: int)
    requires
        0 <= i < s.len(),
    ensures
        hex_lower_of(s.take(i + 1)) =~= hex_lower_of(s.take(i)) + seq![
            hex_digit(s[i] / 16),
            hex_digit(s[i] % 16),
        ],
    decreases i,
{
    if i == 0 {
        assert(s.take(1) =~= seq![s[0]]);
        assert(seq![s[0]].skip(1) =~= Seq::<u8>::empty());
        assert(hex_lower_of(Seq::<u8>::empty()) =~= Seq::<u8>::empty());
        assert(s.take(0) =~= Seq::<u8>::empty());
    } else {
        assert(s.take(i + 1).skip(1) =~= s.skip(1).take(i));
        assert(s.take(i).skip(1) =~= s.skip(1).take(i - 1));
        lemma_hex_lower_take(s.skip(1), i - 1);
        assert(s.skip(1)[i - 1] == s[i]);
    }
}

/// Hex-encode a byte string in lower case.
pub fn hex_encode_lower(s: &[u8]) -> (r: Vec<u8>)
    ensures
        r@ == hex_lower_of(s@),
{
    let mut out: Vec<u8> = Vec::new();
    let mut i: usize = 0;
    assert(hex_lower_of(s@.take(0)) =~= Seq::<u8>::empty());
    while i < s.len()
        invariant
            i <= s@.len(),
            out@ == hex_lower_of(s@.take(i as int)),
        decreases s@.len() - i,
    {
        let b = s[i];
        let hi = b / 16;
        let lo = b % 16;
        out.push(if hi < 10 { 48 + hi } else { 87 + hi });
        out.push(if lo < 10 { 48 + lo } else { 87 + lo });
        proof {
            lemma_hex_lower_take(s@, i as int);
        }
        i = i + 1;
    }
    assert(s@.take(s@.len() as int) =~= s@);
    out
}

/// Decimal rendering of a 64-bit integer, most significant digit first.
pub open spec fn dec_digits_of(v: nat) -> Seq<u8>
    decreases v,
{
    if v < 10 {
        seq![(48 + v) as u8]
    } else {
        dec_digits_of(v / 10) + seq![(48 + v % 10) as u8]
    }
}

/// Render an integer in decimal ASCII.
pub fn dec_render(v: u64) -> (r: Vec<u8>)
    ensures
        r@ == dec_digits_of(v as nat),
{
    let mut rev: Vec<u8> = Vec::new();
    let mut x: u64 = v;
    if x < 10 {
        rev.push(48 + (x as u8));
        return rev;
    }
    rev.push(48 + ((x % 10) as u8));
    let ghost mut suffix: Seq<u8> = seq![(48 + (v as nat) % 10) as u8];
    x = x / 10;
    while x >= 10
        invariant
            dec_digits_of(v as nat) =~= dec_digits_of(x as nat) + suffix,
            rev@.len() == suffix.len(),
            forall|j: int| 0 <= j < suffix.len() ==> rev@[j] == suffix[suffix.len() - 1 - j],
        decreases x,
    {
        rev.push(48 + ((x % 10) as u8));
        proof {
            suffix = seq![(48 + (x as nat) % 10) as u8] + suffix;
        }
        x = x / 10;
    }
    rev.push(48 + (x as u8));
    proof {
        suffix = seq![(48 + (x as nat)) as u8] + suffix;
        assert(dec_digits_of(x as nat) =~= seq![(48 + (x as nat)) as u8]);
        assert(dec_digits_of(v as nat) =~= suffix);
    }
    let mut out: Vec<u8> = Vec::new();
    let mut i: usize = rev.len();
    while i > 0
        invariant
            i <= rev@.len(),
            rev@.len() == suffix.len(),
            forall|j: int| 0 <= j < suffix.len() ==> rev@[j] == suffix[suffix.len() - 1 - j],
            out@.len() == suffix.len() - i,
            forall|j: int| 0 <= j < out@.len() ==> out@[j] == suffix[j],
        decreases i,
    {
        i = i - 1;
        out.push(rev[i]);
    }
    assert(out@ =~= suffix);
    out
}

/// Append one byte string to another.
pub fn push_bytes(out: &mut Vec<u8>, s: &[u8])
    ensures
        final(out)@ == old(out)@ + s@,
{
    let mut i: usize = 0;
    while i < s.len()
        invariant
            i <= s@.len(),
            out@ == old(out)@ + s@.take(i as int),
        decreases s@.len() - i,
    {
        out.push(s[i]);
        assert(out@ =~= old(out)@ + s@.take(i as int + 1));
        i = i + 1;
    }
    assert(old(out)@ + s@.take(s@.len() as int) =~= old(out)@ + s@);
}

} // verus!
