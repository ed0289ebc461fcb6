//! Decimals as text. Reading and writing the digits is the work of the
//! `rust_decimal` crate; this module fits what it returns into the
//! library's own `Decimal`.

use crate::decimal::Decimal;
use vstd::prelude::*;

verus! {

/// What `rust_decimal` reads from a text: mantissa and scale, or `None`
/// where it rejects the text.
pub uninterp spec fn parsed_decimal(text: Seq<char>) -> Option<(int, nat)>;

/// What `rust_decimal` writes for `mantissa / 10^scale`.
pub uninterp spec fn decimal_text(mantissa: int, scale: nat) -> Seq<char>;

/// The decimal that a text denotes: what `rust_decimal` reads, where that
/// can be held.
pub open spec fn decimal_from_text(text: Seq<char>) -> Option<Decimal> {
    match parsed_decimal(text) {
        Some((mantissa, scale)) => if Decimal::representable(mantissa, scale) {
            Some(Decimal::from_parts(mantissa, scale))
        } else {
            None
        },
        None => None,
    }
}

/// `rust_decimal::Decimal::from_str` on `text`, through `str::parse`: the
/// mantissa and scale of the value it returns, `None` where it returns an
/// error. The contract only names the result; it claims nothing of what is
/// read from which text.
#[verifier::external_body]
fn parse_parts(text: &str) -> (r: Option<(i128, u32)>)
    ensures
        r matches Some((mantissa, scale)) ==> parsed_decimal(text@) == Some(
            (mantissa as int, scale as nat),
        ),
        r is None ==> parsed_decimal(text@) is None,
{
    match text.parse::<rust_decimal::Decimal>() {
        Ok(value) => Some((value.mantissa(), value.scale())),
        Err(_) => None,
    }
}

/// `rust_decimal::Decimal::from_i128_with_scale`, then `to_string` on the
/// value. The first panics on a scale over 28 or a mantissa over 96 bits,
/// which the `requires` leaves out. The contract only names the text.
#[verifier::external_body]
fn format_parts(mantissa: i128, scale: u32) -> (r: String)
    requires
        scale <= 28,
        -79_228_162_514_264_337_593_543_950_335 <= mantissa
            <= 79_228_162_514_264_337_593_543_950_335,
    ensures
        r@ == decimal_text(mantissa as int, scale as nat),
{
    rust_decimal::Decimal::from_i128_with_scale(mantissa, scale).to_string()
}

/// Reads a decimal from text such as `"0.001"`. `None` where the text is
/// not a decimal or the decimal cannot be held.
pub fn parse_decimal(text: &str) -> (r: Option<Decimal>)
    ensures
        r == decimal_from_text(text@),
{
    match parse_parts(text) {
        Some((mantissa, scale)) => Decimal::try_from_i128_with_scale(mantissa, scale),
        None => None,
    }
}

/// Writes a decimal as text, keeping its decimal places: `20 / 10^3` is
/// written `0.020`.
pub fn format_decimal(value: &Decimal) -> (r: String)
    ensures
        r@ == decimal_text(value.spec_mantissa(), value.spec_scale()),
{
    format_parts(value.mantissa(), value.scale())
}

} // verus!
