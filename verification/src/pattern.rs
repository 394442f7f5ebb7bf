//! The errors a byte-pattern literal can hold, each with the message that
//! reports it.

use vstd::prelude::*;

verus! {

/// What is wrong with a byte-pattern literal.
#[derive(Clone, Copy, Debug, PartialEq, Eq)]
pub enum PatternError {
    InvalidCharacter,
    ExpectedCharacterInOctal,
    UnexpectedCharacterInOctal,
    ExpectedCharacterInWildcard,
    UnexpectedCharacterInWildcard,
    ExpectedSpace,
    UnexpectedSpace,
    UnexpectedTrailingSpace,
    DecreaseSize,
    IncreaseSize,
}

/// The message that reports an error.
pub open spec fn spec_message(e: PatternError) -> Seq<char> {
    match e {
        PatternError::InvalidCharacter => "invalid character encountered in pattern"@,
        PatternError::ExpectedCharacterInOctal => "expected character in octal"@,
        PatternError::UnexpectedCharacterInOctal => "unexpected character in octal"@,
        PatternError::ExpectedCharacterInWildcard => "expected character in wildcard"@,
        PatternError::UnexpectedCharacterInWildcard => "unexpected character in wildcard"@,
        PatternError::ExpectedSpace => "expected space"@,
        PatternError::UnexpectedSpace => "expected a pattern not spaces"@,
        PatternError::UnexpectedTrailingSpace => "unexpected trailing spaces"@,
        PatternError::DecreaseSize => "decrease the pattern size"@,
        PatternError::IncreaseSize => "increase the pattern size"@,
    }
}

impl PatternError {
    /// The message that reports this error.
    pub fn message(&self) -> (r: &'static str)
        ensures
            r@ == spec_message(*self),
    {
        match self {
            PatternError::InvalidCharacter => "invalid character encountered in pattern",
            PatternError::ExpectedCharacterInOctal => "expected character in octal",
            PatternError::UnexpectedCharacterInOctal => "unexpected character in octal",
            PatternError::ExpectedCharacterInWildcard => "expected character in wildcard",
            PatternError::UnexpectedCharacterInWildcard => "unexpected character in wildcard",
            PatternError::ExpectedSpace => "expected space",
            PatternError::UnexpectedSpace => "expected a pattern not spaces",
            PatternError::UnexpectedTrailingSpace => "unexpected trailing spaces",
            PatternError::DecreaseSize => "decrease the pattern size",
            PatternError::IncreaseSize => "increase the pattern size",
        }
    }
}

/// A character the pattern syntax does not know.
pub fn invalid_character() -> (r: PatternError)
    ensures
        r == PatternError::InvalidCharacter,
{
    PatternError::InvalidCharacter
}

/// An octal escape that ends too early.
pub fn expected_character_in_octal() -> (r: PatternError)
    ensures
        r == PatternError::ExpectedCharacterInOctal,
{
    PatternError::ExpectedCharacterInOctal
}

/// An octal escape holding a character that is no octal digit.
pub fn unexpected_character_in_octal() -> (r: PatternError)
    ensures
        r == PatternError::UnexpectedCharacterInOctal,
{
    PatternError::UnexpectedCharacterInOctal
}

/// A wildcard that ends too early.
pub fn expected_character_in_wildcard() -> (r: PatternError)
    ensures
        r == PatternError::ExpectedCharacterInWildcard,
{
    PatternError::ExpectedCharacterInWildcard
}

/// A wildcard holding a character other than `?`.
pub fn unexpected_character_in_wildcard() -> (r: PatternError)
    ensures
        r == PatternError::UnexpectedCharacterInWildcard,
{
    PatternError::UnexpectedCharacterInWildcard
}

/// Two bytes that are not separated by a space.
pub fn expected_space() -> (r: PatternError)
    ensures
        r == PatternError::ExpectedSpace,
{
    PatternError::ExpectedSpace
}

/// A pattern made of spaces only.
pub fn unexpected_space() -> (r: PatternError)
    ensures
        r == PatternError::UnexpectedSpace,
{
    PatternError::UnexpectedSpace
}

/// Spaces after the last byte.
pub fn unexpected_trailing_space() -> (r: PatternError)
    ensures
        r == PatternError::UnexpectedTrailingSpace,
{
    PatternError::UnexpectedTrailingSpace
}

/// A pattern that needs less room than was given for it.
pub fn decrease_size() -> (r: PatternError)
    ensures
        r == PatternError::DecreaseSize,
{
    PatternError::DecreaseSize
}

/// A pattern that needs more room than was given for it.
pub fn increase_size() -> (r: PatternError)
    ensures
        r == PatternError::IncreaseSize,
{
    PatternError::IncreaseSize
}

} // verus!
