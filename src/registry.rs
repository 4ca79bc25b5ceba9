//! The closed set of column type tags, matched exactly and case-sensitively.

use vstd::prelude::*;
use crate::text::{chars_equal, chars_of};

verus! {

/// The type of a column; `Unknown` for any tag outside the fixed set.
#[derive(Clone, Copy, Debug, PartialEq, Eq, Structural)]
pub enum TypeTag {
    String,
    Int,
    IntInc,
    IntRng,
    Digit,
    Decimal,
    Date,
    Time,
    DateTime,
    Name,
    FirstName,
    LastName,
    ZipCode,
    CountryCode,
    StateName,
    StateAbbr,
    Lat,
    Lon,
    Phone,
    Price,
    Ssn,
    LoremWord,
    LoremTitle,
    LoremSentence,
    LoremParagraph,
    Uuid,
    Value,
    Unknown,
}

/// The tag that the text `s` names.
pub open spec fn tag_spec(s: Seq<char>) -> TypeTag {
    if s == "STRING"@ {
        TypeTag::String
    } else
    if s == "INT"@ {
        TypeTag::Int
    } else
    if s == "INT_INC"@ {
        TypeTag::IntInc
    } else
    if s == "INT_RNG"@ {
        TypeTag::IntRng
    } else
    if s == "DIGIT"@ {
        TypeTag::Digit
    } else
    if s == "DECIMAL"@ {
        TypeTag::Decimal
    } else
    if s == "DATE"@ {
        TypeTag::Date
    } else
    if s == "TIME"@ {
        TypeTag::Time
    } else
    if s == "DATE_TIME"@ {
        TypeTag::DateTime
    } else
    if s == "NAME"@ {
        TypeTag::Name
    } else
    if s == "FIRST_NAME"@ {
        TypeTag::FirstName
    } else
    if s == "LAST_NAME"@ {
        TypeTag::LastName
    } else
    if s == "ZIP_CODE"@ {
        TypeTag::ZipCode
    } else
    if s == "COUNTRY_CODE"@ {
        TypeTag::CountryCode
    } else
    if s == "STATE_NAME"@ {
        TypeTag::StateName
    } else
    if s == "STATE_ABBR"@ {
        TypeTag::StateAbbr
    } else
    if s == "LAT"@ {
        TypeTag::Lat
    } else
    if s == "LON"@ {
        TypeTag::Lon
    } else
    if s == "PHONE"@ {
        TypeTag::Phone
    } else
    if s == "PRICE"@ {
        TypeTag::Price
    } else
    if s == "SSN"@ {
        TypeTag::Ssn
    } else
    if s == "LOREM_WORD"@ {
        TypeTag::LoremWord
    } else
    if s == "LOREM_TITLE"@ {
        TypeTag::LoremTitle
    } else
    if s == "LOREM_SENTENCE"@ {
        TypeTag::LoremSentence
    } else
    if s == "LOREM_PARAGRAPH"@ {
        TypeTag::LoremParagraph
    } else
    if s == "UUID"@ {
        TypeTag::Uuid
    } else
    if s == "VALUE"@ {
        TypeTag::Value
    } else {
        TypeTag::Unknown
    }
}

/// The tag that `datatype` names, or `Unknown`.
pub fn tag_of(datatype: &str) -> (r: TypeTag)
    ensures
        r == tag_spec(datatype@),
{
    let v = chars_of(datatype);
    if chars_equal(&v, "STRING") {
        TypeTag::String
    } else
    if chars_equal(&v, "INT") {
        TypeTag::Int
    } else
    if chars_equal(&v, "INT_INC") {
        TypeTag::IntInc
    } else
    if chars_equal(&v, "INT_RNG") {
        TypeTag::IntRng
    } else
    if chars_equal(&v, "DIGIT") {
        TypeTag::Digit
    } else
    if chars_equal(&v, "DECIMAL") {
        TypeTag::Decimal
    } else
    if chars_equal(&v, "DATE") {
        TypeTag::Date
    } else
    if chars_equal(&v, "TIME") {
        TypeTag::Time
    } else
    if chars_equal(&v, "DATE_TIME") {
        TypeTag::DateTime
    } else
    if chars_equal(&v, "NAME") {
        TypeTag::Name
    } else
    if chars_equal(&v, "FIRST_NAME") {
        TypeTag::FirstName
    } else
    if chars_equal(&v, "LAST_NAME") {
        TypeTag::LastName
    } else
    if chars_equal(&v, "ZIP_CODE") {
        TypeTag::ZipCode
    } else
    if chars_equal(&v, "COUNTRY_CODE") {
        TypeTag::CountryCode
    } else
    if chars_equal(&v, "STATE_NAME") {
        TypeTag::StateName
    } else
    if chars_equal(&v, "STATE_ABBR") {
        TypeTag::StateAbbr
    } else
    if chars_equal(&v, "LAT") {
        TypeTag::Lat
    } else
    if chars_equal(&v, "LON") {
        TypeTag::Lon
    } else
    if chars_equal(&v, "PHONE") {
        TypeTag::Phone
    } else
    if chars_equal(&v, "PRICE") {
        TypeTag::Price
    } else
    if chars_equal(&v, "SSN") {
        TypeTag::Ssn
    } else
    if chars_equal(&v, "LOREM_WORD") {
        TypeTag::LoremWord
    } else
    if chars_equal(&v, "LOREM_TITLE") {
        TypeTag::LoremTitle
    } else
    if chars_equal(&v, "LOREM_SENTENCE") {
        TypeTag::LoremSentence
    } else
    if chars_equal(&v, "LOREM_PARAGRAPH") {
        TypeTag::LoremParagraph
    } else
    if chars_equal(&v, "UUID") {
        TypeTag::Uuid
    } else
    if chars_equal(&v, "VALUE") {
        TypeTag::Value
    } else {
        TypeTag::Unknown
    }
}

/// The text `VALUE` names the `Value` tag.
pub proof fn lemma_value_tag()
    ensures
        tag_spec("VALUE"@) == TypeTag::Value,
{
    reveal_strlit("STRING");
    reveal_strlit("INT");
    reveal_strlit("INT_INC");
    reveal_strlit("INT_RNG");
    reveal_strlit("DIGIT");
    reveal_strlit("DECIMAL");
    reveal_strlit("DATE");
    reveal_strlit("TIME");
    reveal_strlit("DATE_TIME");
    reveal_strlit("NAME");
    reveal_strlit("FIRST_NAME");
    reveal_strlit("LAST_NAME");
    reveal_strlit("ZIP_CODE");
    reveal_strlit("COUNTRY_CODE");
    reveal_strlit("STATE_NAME");
    reveal_strlit("STATE_ABBR");
    reveal_strlit("LAT");
    reveal_strlit("LON");
    reveal_strlit("PHONE");
    reveal_strlit("PRICE");
    reveal_strlit("SSN");
    reveal_strlit("LOREM_WORD");
    reveal_strlit("LOREM_TITLE");
    reveal_strlit("LOREM_SENTENCE");
    reveal_strlit("LOREM_PARAGRAPH");
    reveal_strlit("UUID");
    reveal_strlit("VALUE");
    assert("VALUE"@.len() != "STRING"@.len());
    assert("VALUE"@.len() != "INT"@.len());
    assert("VALUE"@.len() != "INT_INC"@.len());
    assert("VALUE"@.len() != "INT_RNG"@.len());
    assert("VALUE"@[0] != "DIGIT"@[0]);
    assert("VALUE"@.len() != "DECIMAL"@.len());
    assert("VALUE"@.len() != "DATE"@.len());
    assert("VALUE"@.len() != "TIME"@.len());
    assert("VALUE"@.len() != "DATE_TIME"@.len());
    assert("VALUE"@.len() != "NAME"@.len());
    assert("VALUE"@.len() != "FIRST_NAME"@.len());
    assert("VALUE"@.len() != "LAST_NAME"@.len());
    assert("VALUE"@.len() != "ZIP_CODE"@.len());
    assert("VALUE"@.len() != "COUNTRY_CODE"@.len());
    assert("VALUE"@.len() != "STATE_NAME"@.len());
    assert("VALUE"@.len() != "STATE_ABBR"@.len());
    assert("VALUE"@.len() != "LAT"@.len());
    assert("VALUE"@.len() != "LON"@.len());
    assert("VALUE"@[0] != "PHONE"@[0]);
    assert("VALUE"@[0] != "PRICE"@[0]);
    assert("VALUE"@.len() != "SSN"@.len());
    assert("VALUE"@.len() != "LOREM_WORD"@.len());
    assert("VALUE"@.len() != "LOREM_TITLE"@.len());
    assert("VALUE"@.len() != "LOREM_SENTENCE"@.len());
    assert("VALUE"@.len() != "LOREM_PARAGRAPH"@.len());
    assert("VALUE"@.len() != "UUID"@.len());
}

} // verus!
