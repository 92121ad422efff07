//! Byte-level text building for the progress line: decimal digit
//! rendering, and the conversion of finished ASCII bytes to a `String`.

use vstd::prelude::*;

verus! {

/// The decimal digit characters of `n` as ASCII bytes, most
/// significant first, without leading zeroes (`"0"` for zero).
pub open spec fn dec_digits(n: nat) -> Seq<u8>
    decreases n,
{
    if n < 10 {
        seq![(n + 0x30) as u8]
    } else {
        dec_digits(n / 10).push((n % 10 + 0x30) as u8)
    }
}

/// Exactly two decimal digits, with a leading zero: the rendering of
/// `n < 100` behind a decimal point.
pub open spec fn two_dec_digits(n: nat) -> Seq<u8> {
    seq![(n / 10 % 10 + 0x30) as u8, (n % 10 + 0x30) as u8]
}

/// Decimal digit bytes are ASCII digits.
pub proof fn lemma_dec_digits_ascii(n: nat)
    ensures
        dec_digits(n).len() >= 1,
        forall|i: int|
            0 <= i < dec_digits(n).len() ==> 0x30 <= #[trigger] dec_digits(n)[i] <= 0x39,
    decreases n,
{
    if n >= 10 {
        lemma_dec_digits_ascii(n / 10);
        assert forall|i: int| 0 <= i < dec_digits(n).len() implies 0x30 <= #[trigger] dec_digits(
            n,
        )[i] <= 0x39 by {
            if i < dec_digits(n / 10).len() {
                assert(dec_digits(n)[i] == dec_digits(n / 10)[i]);
            }
        }
    }
}

/// Appends the decimal rendering of `n` to `out`.
pub fn push_dec(out: &mut Vec<u8>, n: u64)
    ensures
        final(out)@ == old(out)@ + dec_digits(n as nat),
        forall|i: int|
            old(out)@.len() <= i < final(out)@.len() ==> 0x30 <= #[trigger] final(out)@[i] <= 0x39,
    decreases n,
{
    proof {
        lemma_dec_digits_ascii(n as nat);
    }
    if n >= 10 {
        push_dec(out, n / 10);
        let d: u8 = (n % 10) as u8;
        out.push(d + 0x30);
        proof {
            assert(out@ =~= old(out)@ + dec_digits(n as nat));
        }
    } else {
        let d: u8 = n as u8;
        out.push(d + 0x30);
        proof {
            assert(out@ =~= old(out)@ + dec_digits(n as nat));
        }
    }
}

/// Appends exactly two decimal digits rendering `n < 100`.
pub fn push_two_dec(out: &mut Vec<u8>, n: u64)
    requires
        n < 100,
    ensures
        final(out)@ == old(out)@ + two_dec_digits(n as nat),
        forall|i: int|
            old(out)@.len() <= i < final(out)@.len() ==> 0x30 <= #[trigger] final(out)@[i] <= 0x39,
{
    let hi: u8 = (n / 10) as u8;
    let lo: u8 = (n % 10) as u8;
    out.push(hi + 0x30);
    out.push(lo + 0x30);
    proof {
        assert(out@ =~= old(out)@ + two_dec_digits(n as nat));
    }
}

/// `s` is the character-for-byte decoding of the ASCII bytes `b`.
pub open spec fn decodes(s: Seq<char>, b: Seq<u8>) -> bool {
    &&& s.len() == b.len()
    &&& forall|i: int| 0 <= i < b.len() ==> (#[trigger] s[i]) as u32 == b[i] as u32
}

/// Relies on `String::from_utf8`: bytes that are valid UTF-8 decode to
/// exactly those code points, and ASCII bytes decode one to one.
#[verifier::external_body]
pub(crate) fn ascii_string(bytes: Vec<u8>) -> (r: String)
    requires
        forall|i: int| 0 <= i < bytes@.len() ==> bytes@[i] < 128,
    ensures
        decodes(r@, bytes@),
{
    match String::from_utf8(bytes) {
        Ok(s) => s,
        Err(_) => String::new(),
    }
}

} // verus!
