//! Wind speeds, printed beside a jump or a sprint as a signed decimal followed
//! by `m/s`.

use crate::decimal::{decimal_of, Decimal};
use crate::pattern::{first_captures, first_match, group, group_of};
use crate::text::{replace, replaced, same_text};
use vstd::prelude::*;

verus! {

/// Group 1: the sign. Group 2: the speed.
pub const REGEX_WIND: &'static str = r#"([+-])([\d.]{0,})m/s"#;

/// The speed that a sign and the digits behind it stand for: the digits read
/// as a decimal, rounded to two places, negative under the sign `-`. Only `+`
/// and `-` are signs.
pub open spec fn signed_speed(sign: Seq<char>, value: Seq<char>) -> Option<Decimal> {
    if sign == "+"@ || sign == "-"@ {
        match decimal_of(value) {
            Some(speed) => Some(
                Decimal {
                    negative: speed.negative != (sign == "-"@),
                    digits: speed.round_to(2).digits,
                    scale: speed.round_to(2).scale,
                },
            ),
            None => None,
        }
    } else {
        None
    }
}

/// `text` as the pattern sees it: without spaces, and with a point for each
/// comma.
pub open spec fn normalized(text: Seq<char>) -> Seq<char> {
    replaced(replaced(text, " "@, ""@), ","@, "."@)
}

/// The wind speed printed in `text`, if there is one.
pub open spec fn wind_speed_of(text: Seq<char>) -> Option<Decimal> {
    match first_match(REGEX_WIND@, normalized(text)) {
        Some(groups) => match (group_of(groups, 1), group_of(groups, 2)) {
            (Some(sign), Some(value)) => signed_speed(sign, value),
            _ => None,
        },
        None => None,
    }
}

/// The speed that the sign `sign` and the digits `value` stand for.
pub fn speed_from_groups(sign: &str, value: &str) -> (r: Option<Decimal>)
    ensures
        r == signed_speed(sign@, value@),
{
    let minus = same_text(sign, "-");
    if !minus && !same_text(sign, "+") {
        return None;
    }
    match Decimal::parse(value) {
        Some(speed) => {
            let rounded = speed.rounded(2);
            Some(
                Decimal {
                    negative: speed.negative != minus,
                    digits: rounded.digits,
                    scale: rounded.scale,
                },
            )
        },
        None => None,
    }
}

/// Finds a wind speed in `text`: a sign, a decimal and `m/s`, where spaces do
/// not count and a comma may stand for the decimal point. Text without one
/// gives `None`; wind is often absent.
pub fn parse(text: &str) -> (r: Option<Decimal>)
    ensures
        r == wind_speed_of(text@),
{
    let without_spaces = replace(text, " ", "");
    let normal = replace(without_spaces.as_str(), ",", ".");
    match first_captures(REGEX_WIND, normal.as_str()) {
        Some(groups) => match (group(&groups, 1), group(&groups, 2)) {
            (Some(sign), Some(value)) => speed_from_groups(sign.as_str(), value.as_str()),
            _ => None,
        },
        None => None,
    }
}

} // verus!
