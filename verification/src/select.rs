//! The selection validator: turns the user's raw input into a safe index
//! into the suggestion list, or says precisely why it is not one.

use vstd::prelude::*;
use crate::models::{ModelSuggestion, CustomParserError};
use crate::strutil::{sp_trim, sp_parse_u32, trim_chars, parse_u32_digits, chars_of};

verus! {

/// Validates the user's typed choice against the suggestion list: the
/// input, trimmed of Unicode whitespace, must be an unsigned decimal
/// numeral — an optional leading `+`, then digits, as `str::parse::<u32>`
/// reads one — and its value must index the list. A non-numeral is a parse
/// error carrying the raw input; a numeral at or past the list length is
/// an out-of-bounds error carrying the parsed value.
pub fn validate_and_get_user_input_as_int(
    suggestions: &Vec<ModelSuggestion>,
    user_choice: String,
) -> (r: Result<usize, CustomParserError>)
    ensures
        match r {
            Ok(i) => i <= u32::MAX && sp_parse_u32(sp_trim(user_choice@)) == Some(i as u32) && (
            i as int) < suggestions@.len(),
            Err(CustomParserError::ParseIntError(s)) => s@ == user_choice@ && sp_parse_u32(
                sp_trim(user_choice@),
            ) is None,
            Err(CustomParserError::OutOfBoundError(n)) => n <= u32::MAX && sp_parse_u32(
                sp_trim(user_choice@),
            ) == Some(n as u32) && (n as int) >= suggestions@.len(),
        },
{
    let raw = chars_of(user_choice.as_str());
    let trimmed = trim_chars(&raw);
    let parsed = match parse_u32_digits(&trimmed) {
        Some(v) => v,
        None => { return Err(CustomParserError::ParseIntError(user_choice)); },
    };
    let idx = parsed as usize;
    if idx < suggestions.len() {
        Ok(idx)
    } else {
        Err(CustomParserError::OutOfBoundError(idx))
    }
}

} // verus!
