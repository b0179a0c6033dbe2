//! The policy for a standing-wave ratio that cannot be reported.
//!
//! A host computes the ratio `(1 + g) / (1 - g)`, with `g` the square root of
//! `reverse / forward`, in binary floating point. With no forward power, or
//! with more reverse than forward power, the result is not a number or is
//! negative. Such a result is not stored: the record holds 0 in its place, and
//! the host is told what to warn of. This module decides that, on the IEEE 754
//! binary64 encoding of the result: bit 63 is the sign, bits 62 to 52 the
//! exponent, bits 51 to 0 the fraction.

use vstd::prelude::*;

verus! {

/// The sign bit of an encoding.
pub const SIGN_BIT: u64 = 0x8000_0000_0000_0000;

/// The encoding of positive infinity: every exponent bit set, no fraction bit.
pub const POSITIVE_INFINITY: u64 = 0x7ff0_0000_0000_0000;

/// The encoding of positive zero, which stands in for a ratio that is not
/// reported.
pub const SENTINEL: u64 = 0;

/// The encoding without its sign.
pub open spec fn magnitude(bits: u64) -> u64 {
    if bits >= SIGN_BIT {
        (bits - SIGN_BIT) as u64
    } else {
        bits
    }
}

/// The encoding is of a NaN: every exponent bit set and some fraction bit.
pub open spec fn is_nan(bits: u64) -> bool {
    magnitude(bits) > POSITIVE_INFINITY
}

/// The sign bit is set. This holds of negative zero and of a NaN with the
/// sign bit set, as of any negative number.
pub open spec fn is_sign_negative(bits: u64) -> bool {
    bits >= SIGN_BIT
}

/// Why a ratio is not reported.
#[derive(Clone, Copy, Debug, PartialEq, Eq)]
pub enum SwrWarning {
    /// The result is not a number.
    NotANumber,
    /// The result has a negative sign.
    Negative,
}

/// What is stored for a computed ratio, and what the host warns of.
#[derive(Clone, Copy, Debug, PartialEq, Eq)]
pub struct SwrReport {
    /// The encoding of the number to store.
    pub value: u64,
    /// The warning to give, if the computed ratio was replaced.
    pub warning: Option<SwrWarning>,
}

/// The report for a computed ratio: a NaN and a result with a negative sign
/// are replaced by the sentinel, anything else is stored unchanged. Whether
/// the result is a NaN is judged first.
pub open spec fn report_of(raw: u64) -> SwrReport {
    if is_nan(raw) {
        SwrReport { value: SENTINEL, warning: Some(SwrWarning::NotANumber) }
    } else if is_sign_negative(raw) {
        SwrReport { value: SENTINEL, warning: Some(SwrWarning::Negative) }
    } else {
        SwrReport { value: raw, warning: None }
    }
}

/// Decides what is stored for the ratio whose binary64 encoding is `raw`.
///
/// A ratio below 1 is stored as it is: nothing is clamped.
pub fn settle_swr(raw: u64) -> (report: SwrReport)
    ensures
        report == report_of(raw),
{
    let magnitude: u64 = if raw >= SIGN_BIT {
        raw - SIGN_BIT
    } else {
        raw
    };
    if magnitude > POSITIVE_INFINITY {
        SwrReport { value: SENTINEL, warning: Some(SwrWarning::NotANumber) }
    } else if raw >= SIGN_BIT {
        SwrReport { value: SENTINEL, warning: Some(SwrWarning::Negative) }
    } else {
        SwrReport { value: raw, warning: None }
    }
}

/// What is stored is never a NaN and never has a negative sign.
pub proof fn lemma_report_is_storable(raw: u64)
    ensures
        !is_nan(report_of(raw).value),
        !is_sign_negative(report_of(raw).value),
{
}

/// A ratio is stored unchanged exactly where no warning is given, and the
/// sentinel is stored wherever one is given.
pub proof fn lemma_warning_marks_replacement(raw: u64)
    ensures
        report_of(raw).warning is None <==> !is_nan(raw) && !is_sign_negative(raw),
        report_of(raw).warning is None ==> report_of(raw).value == raw,
        report_of(raw).warning is Some ==> report_of(raw).value == SENTINEL,
{
}

/// The magnitude is the encoding with the sign bit cleared.
pub proof fn lemma_magnitude_clears_sign(bits: u64)
    ensures
        magnitude(bits) == bits & !SIGN_BIT,
{
    assert(bits >= 0x8000_0000_0000_0000u64 ==> (bits - 0x8000_0000_0000_0000u64) as u64 == bits
        & !0x8000_0000_0000_0000u64) by (bit_vector);
    assert(bits < 0x8000_0000_0000_0000u64 ==> bits == bits & !0x8000_0000_0000_0000u64)
        by (bit_vector);
}

} // verus!
