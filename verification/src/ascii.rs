//! Byte-string helpers for the wire format: ASCII case folding and
//! decimal rendering of unsigned integers.

use vstd::prelude::*;

verus! {

/// The ASCII lower-case image of one byte: `A`..`Z` map down, all else is kept.
pub open spec fn lower_byte(b: u8) -> u8 {
    if 65 <= b <= 90 {
        (b + 32) as u8
    } else {
        b
    }
}

/// A byte sequence folded to ASCII lower case.
pub open spec fn lower_bytes(s: Seq<u8>) -> Seq<u8> {
    s.map_values(|b: u8| lower_byte(b))
}

/// Two byte strings are equal up to ASCII case.
pub open spec fn ci_equal(a: Seq<u8>, b: Seq<u8>) -> bool {
    lower_bytes(a) == lower_bytes(b)
}

/// Case-insensitive (ASCII) equality of two byte strings.
pub fn eq_ignore_ascii_case(a: &[u8], b: &[u8]) -> (r: bool)
    ensures
        r == ci_equal(a@, b@),
{
    if a.len() != b.len() {
        assert(lower_bytes(a@).len() != lower_bytes(b@).len());
        return false;
    }
    let mut i: usize = 0;
    while i < a.len()
        invariant
            i <= a@.len(),
            a@.len() == b@.len(),
            forall|j: int| 0 <= j < i ==> lower_byte(a@[j]) == lower_byte(b@[j]),
        decreases a@.len() - i,
    {
        let x = a[i];
        let y = b[i];
        let xl = if 65 <= x && x <= 90 { x + 32 } else { x };
        let yl = if 65 <= y && y <= 90 { y + 32 } else { y };
        if xl != yl {
            assert(lower_bytes(a@)[i as int] != lower_bytes(b@)[i as int]);
            return false;
        }
        i += 1;
    }
    assert(lower_bytes(a@) =~= lower_bytes(b@));
    true
}

/// The decimal digits of `n`, most significant first, as ASCII bytes.
pub open spec fn dec_digits(n: nat) -> Seq<u8>
    decreases n,
{
    if n < 10 {
        seq![(48 + n) as u8]
    } else {
        dec_digits(n / 10).push((48 + n % 10) as u8)
    }
}

/// Renders `n` in decimal, matching `dec_digits`.
pub fn render_decimal(n: u64) -> (r: Vec<u8>)
    ensures
        r@ == dec_digits(n as nat),
{
    let mut out: Vec<u8> = Vec::new();
    let mut m: u64 = n;
    while m >= 10
        invariant
            dec_digits(n as nat) == dec_digits(m as nat) + out@,
        decreases m,
    {
        let d: u8 = 48 + (m % 10) as u8;
        let ghost out0 = out@;
        out.insert(0, d);
        proof {
            assert(out@ =~= seq![d] + out0);
            assert(dec_digits(m as nat) == dec_digits((m / 10) as nat).push(d));
            assert(dec_digits((m / 10) as nat) + out@ =~= dec_digits(m as nat) + out0);
        }
        m = m / 10;
    }
    let d: u8 = 48 + m as u8;
    let ghost out0 = out@;
    out.insert(0, d);
    proof {
        assert(out@ =~= seq![d] + out0);
        assert(dec_digits(n as nat) =~= out@);
    }
    out
}

} // verus!
