//! The eBUS CRC-8: polynomial 0x9B, no reflection, initial value 0.
use vstd::prelude::*;

verus! {

/// Generator polynomial of the eBUS CRC, without its x^8 term.
pub const CRC_POLYNOMIAL: u8 = 0x9b;

/// The register multiplied by x, reduced modulo the polynomial.
pub open spec fn crc_shift_spec(reg: u8) -> u8 {
    if reg >= 0x80 {
        (((reg - 0x80) * 2) as u8) ^ CRC_POLYNOMIAL
    } else {
        (reg * 2) as u8
    }
}

/// The register multiplied by x^n, reduced modulo the polynomial.
pub open spec fn crc_shift_n(reg: u8, n: nat) -> u8
    decreases n,
{
    if n == 0 {
        reg
    } else {
        crc_shift_spec(crc_shift_n(reg, (n - 1) as nat))
    }
}

/// One step of the eBUS CRC: the register is multiplied by x^8 modulo the
/// polynomial, then the new octet is mixed in.
pub open spec fn crc_step(reg: u8, byte: u8) -> u8 {
    crc_shift_n(reg, 8) ^ byte
}

/// The register after stacking every octet of `bytes`, in order, onto `reg`.
pub open spec fn crc_over(reg: u8, bytes: Seq<u8>) -> u8
    decreases bytes.len(),
{
    if bytes.len() == 0 {
        reg
    } else {
        crc_over(crc_step(reg, bytes[0]), bytes.drop_first())
    }
}

/// Stacking `a` then `b` is stacking their concatenation.
pub proof fn lemma_crc_over_concat(reg: u8, a: Seq<u8>, b: Seq<u8>)
    ensures
        crc_over(reg, a + b) == crc_over(crc_over(reg, a), b),
    decreases a.len(),
{
    if a.len() == 0 {
        assert(a + b =~= b);
    } else {
        assert((a + b).drop_first() =~= a.drop_first() + b);
        lemma_crc_over_concat(crc_step(reg, a[0]), a.drop_first(), b);
    }
}

/// Stacking one octet in front of `s`.
pub proof fn lemma_crc_over_cons(reg: u8, b: u8, s: Seq<u8>)
    ensures
        crc_over(reg, seq![b] + s) == crc_over(crc_step(reg, b), s),
{
    assert((seq![b] + s).drop_first() =~= s);
}

fn crc_shift(reg: u8) -> (r: u8)
    ensures
        r == crc_shift_spec(reg),
{
    if reg >= 0x80 {
        ((reg - 0x80) * 2) ^ CRC_POLYNOMIAL
    } else {
        reg * 2
    }
}

/// Stacks one octet onto the running CRC register.
pub fn stack_crc(reg: &mut u8, byte: u8)
    ensures
        *final(reg) == crc_step(*old(reg), byte),
{
    let mut r: u8 = *reg;
    let mut i: usize = 0;
    while i < 8
        invariant
            i <= 8,
            r == crc_shift_n(*old(reg), i as nat),
        decreases 8 - i,
    {
        r = crc_shift(r);
        i = i + 1;
    }
    *reg = r ^ byte;
}

} // verus!
