//! ABI identity: the packed library version and the capability bit set.

use vstd::prelude::*;
use vstd::string::StringSliceAdditionalSpecFns;

verus! {

/// Decimal value of a string of ASCII digits.
pub open spec fn decimal_value(digits: Seq<u8>) -> nat
    decreases digits.len(),
{
    if digits.len() == 0 {
        0
    } else {
        decimal_value(digits.drop_last()) * 10 + (digits.last() - 48) as nat
    }
}

/// Every byte is an ASCII decimal digit.
pub open spec fn all_digits(digits: Seq<u8>) -> bool {
    forall|i: int| 0 <= i < digits.len() ==> 48 <= #[trigger] digits[i] <= 57
}

/// One version component, parsed from its decimal digits by hand.
pub fn component(s: &str) -> (value: u32)
    requires
        all_digits(s.spec_bytes()),
        decimal_value(s.spec_bytes()) <= u32::MAX,
    ensures
        value == decimal_value(s.spec_bytes()),
{
    let digits = s.as_bytes();
    let mut value: u32 = 0;
    let mut i: usize = 0;
    while i < digits.len()
        invariant
            digits@ == s.spec_bytes(),
            i <= digits.len(),
            all_digits(digits@),
            decimal_value(digits@) <= u32::MAX,
            value == decimal_value(digits@.take(i as int)),
        decreases digits.len() - i,
    {
        proof {
            assert(digits@.take(i + 1).drop_last() =~= digits@.take(i as int));
            lemma_decimal_prefix_bound(digits@, i as int + 1);
        }
        value = value * 10 + (digits[i] - 48u8) as u32;
        i += 1;
    }
    assert(digits@.take(i as int) =~= digits@);
    value
}

/// The value of a prefix never exceeds the value of the whole digit string.
pub proof fn lemma_decimal_prefix_bound(digits: Seq<u8>, n: int)
    requires
        0 <= n <= digits.len(),
        all_digits(digits),
    ensures
        decimal_value(digits.take(n)) <= decimal_value(digits),
    decreases digits.len() - n,
{
    if n < digits.len() {
        lemma_decimal_prefix_bound(digits, n + 1);
        assert(digits.take(n + 1).drop_last() =~= digits.take(n));
        let t = digits.take(n + 1);
        assert(t.last() >= 48);
        assert(decimal_value(digits.take(n)) <= decimal_value(digits.take(n)) * 10) by (nonlinear_arith);
    } else {
        assert(digits.take(n) =~= digits);
    }
}

/// The ABI version packed as `0x00MMmmpp`: major in bits 16-23, minor in
/// 8-15, patch in 0-7, bits 24-31 zero.
pub open spec fn packed_version(major: nat, minor: nat, patch: nat) -> nat {
    major * 0x10000 + minor * 0x100 + patch
}

/// This library's ABI version, packed as `0x00MMmmpp` from the three
/// decimal components of the crate version (which the build hands in, so
/// the version is kept in one place).
pub fn int2dds_abi_version(major: &str, minor: &str, patch: &str) -> (v: u32)
    requires
        all_digits(major.spec_bytes()),
        all_digits(minor.spec_bytes()),
        all_digits(patch.spec_bytes()),
        decimal_value(major.spec_bytes()) < 256,
        decimal_value(minor.spec_bytes()) < 256,
        decimal_value(patch.spec_bytes()) < 256,
    ensures
        v == packed_version(
            decimal_value(major.spec_bytes()),
            decimal_value(minor.spec_bytes()),
            decimal_value(patch.spec_bytes()),
        ),
{
    let ma = component(major);
    let mi = component(minor);
    let pa = component(patch);
    assert((ma << 16u32) | (mi << 8u32) | pa == ma * 0x10000 + mi * 0x100 + pa) by (bit_vector)
        requires
            ma < 256,
            mi < 256,
            pa < 256,
    ;
    (ma << 16u32) | (mi << 8u32) | pa
}

/// The optional capabilities of this build, as a bit set: every bit is
/// reserved and reads 0.
pub fn int2dds_abi_capabilities() -> (c: u64)
    ensures
        c == 0,
{
    0
}

} // verus!
