//! Value generators for the scalar column types. The random values come from
//! the `fake`, `fakeit` and `uuid` crates; what is built from them is verified.

use vstd::prelude::*;
use fake::faker::address::raw::{CountryCode, Latitude, Longitude, PostCode, StateAbbr, StateName};
use fake::faker::chrono::raw::{Date, DateTime, Time};
use fake::faker::lorem::raw::Words;
use fake::faker::name::raw::Name;
use fake::faker::phone_number::raw::CellNumber;
use fake::locales::EN;
use fake::{Fake, Faker};
use crate::text::{is_digit, join_parts, joined, string_of};
use vstd::string::StringExecFns;

verus! {

/// Relies on `Fake::fake` for `Faker` and `String`: random text.
#[verifier::external_body]
pub fn fake_string() -> String {
    Faker.fake::<String>()
}

/// Relies on `Fake::fake` for a `Range<i32>`: a value drawn from `[lo, hi)`
/// (the crate calls `gen_range`, which panics on an empty range).
#[verifier::external_body]
fn fake_i32_in(lo: i32, hi: i32) -> (r: i32)
    requires
        lo < hi,
    ensures
        lo <= r < hi,
{
    (lo..hi).fake::<i32>()
}

/// Relies on `Fake::fake` for `Words(EN, lo..hi)`: between `lo` and `hi - 1`
/// lorem words.
#[verifier::external_body]
fn lorem_words(lo: usize, hi: usize) -> (r: Vec<String>)
    requires
        lo < hi,
    ensures
        lo <= r@.len() < hi,
{
    Words(EN, lo..hi).fake::<Vec<String>>()
}

/// What `char::to_uppercase` gives for `c`.
pub uninterp spec fn upper_of(c: char) -> Seq<char>;

/// Relies on `char::to_uppercase`: the upper-case form of `c`, which depends
/// on `c` alone.
#[verifier::external_body]
fn upper_text(c: char) -> (r: String)
    ensures
        r@ == upper_of(c),
{
    c.to_uppercase().to_string()
}

/// A random integer in `[0, i32::MAX)`.
pub fn fake_int() -> (r: i32)
    ensures
        0 <= r < i32::MAX,
{
    fake_i32_in(0, i32::MAX)
}

/// A random decimal digit, as text of one character.
pub fn fake_digit() -> (r: String)
    ensures
        r@.len() == 1,
        is_digit(r@[0]),
{
    let d = fake_i32_in(0, 10);
    let c = (48u8 + d as u8) as char;
    let v: Vec<char> = vec![c];
    string_of(&v, 0, 1)
}

/// Relies on `Fake::fake` for `Date(EN)`: a random date.
#[verifier::external_body]
pub fn fake_date() -> String {
    Date(EN).fake()
}

/// Relies on `Fake::fake` for `Time(EN)`: a random time of day.
#[verifier::external_body]
pub fn fake_time() -> String {
    Time(EN).fake()
}

/// Relies on `Fake::fake` for `DateTime(EN)`: a random date and time.
#[verifier::external_body]
pub fn fake_date_time() -> String {
    DateTime(EN).fake()
}

/// Relies on `Fake::fake` for `Name(EN)`: a random full name.
#[verifier::external_body]
pub fn fake_name() -> String {
    Name(EN).fake()
}

/// Relies on `Fake::fake` for `PostCode(EN)`: a random zip code.
#[verifier::external_body]
pub fn fake_zipcode() -> String {
    PostCode(EN).fake()
}

/// Relies on `Fake::fake` for `CountryCode(EN)`: a random country code.
#[verifier::external_body]
pub fn fake_country_code() -> String {
    CountryCode(EN).fake()
}

/// Relies on `Fake::fake` for `StateName(EN)`: a random state name.
#[verifier::external_body]
pub fn fake_state_name() -> String {
    StateName(EN).fake()
}

/// Relies on `Fake::fake` for `StateAbbr(EN)`: a random state abbreviation.
#[verifier::external_body]
pub fn fake_state_abbr() -> String {
    StateAbbr(EN).fake()
}

/// Relies on `Fake::fake` for `Latitude(EN)`: a random latitude, as text.
#[verifier::external_body]
pub fn fake_lat() -> String {
    Latitude(EN).fake()
}

/// Relies on `Fake::fake` for `Longitude(EN)`: a random longitude, as text.
#[verifier::external_body]
pub fn fake_lon() -> String {
    Longitude(EN).fake()
}

/// Relies on `Fake::fake` for `CellNumber(EN)`: a random phone number.
#[verifier::external_body]
pub fn fake_phone() -> String {
    CellNumber(EN).fake()
}

/// Relies on `uuid::Uuid::new_v4` and its `Display`: a random version 4 UUID
/// in hyphenated form.
#[verifier::external_body]
pub fn fake_uuid() -> String {
    uuid::Uuid::new_v4().to_string()
}

/// Relies on `fakeit::name::first`: a random first name.
#[verifier::external_body]
pub fn fake_first_name() -> String {
    fakeit::name::first()
}

/// Relies on `fakeit::name::last`: a random last name.
#[verifier::external_body]
pub fn fake_last_name() -> String {
    fakeit::name::last()
}

/// Relies on `fakeit::person::ssn`: a random social security number.
#[verifier::external_body]
pub fn fake_ssn() -> String {
    fakeit::person::ssn()
}

/// `s` with its first character in upper case.
pub open spec fn capitalized(s: Seq<char>) -> Seq<char> {
    if s.len() == 0 {
        s
    } else {
        upper_of(s[0]) + s.drop_first()
    }
}

/// The title made of `words`: each capitalized, joined by single spaces.
pub open spec fn title_spec(words: Seq<String>) -> Seq<char> {
    joined(words.map_values(|w: String| capitalized(w@)), seq![' '])
}

/// The sentence made of `words`: joined by single spaces, then a full stop.
pub open spec fn sentence_spec(words: Seq<String>) -> Seq<char> {
    joined(words.map_values(|w: String| w@), seq![' ']) + seq!['.']
}

/// `s` with its first character in upper case.
pub fn capitalize(s: &String) -> (r: String)
    ensures
        r@ == capitalized(s@),
{
    let v = crate::text::chars_of(s.as_str());
    if v.len() == 0 {
        return string_of(&v, 0, 0);
    }
    let mut r = upper_text(v[0]);
    let rest = string_of(&v, 1, v.len());
    r.append(rest.as_str());
    assert(v@.subrange(1, v@.len() as int) =~= s@.drop_first());
    r
}

/// The title made of `words`: each capitalized, joined by single spaces.
pub fn title_of(words: &Vec<String>) -> (r: String)
    ensures
        r@ == title_spec(words@),
{
    let mut caps: Vec<String> = Vec::new();
    let mut i: usize = 0;
    while i < words.len()
        invariant
            i <= words@.len(),
            caps@.len() == i,
            forall|k: int| 0 <= k < i ==> #[trigger] caps@[k]@ == capitalized(words@[k]@),
        decreases words@.len() - i,
    {
        caps.push(capitalize(&words[i]));
        i += 1;
    }
    let r = join_parts(&caps, " ");
    proof {
        reveal_strlit(" ");
        assert(" "@ =~= seq![' ']);
        assert(caps@.map_values(|w: String| w@) =~= words@.map_values(|w: String| capitalized(w@)));
    }
    r
}

/// The sentence made of `words`: joined by single spaces, then a full stop.
pub fn sentence_of(words: &Vec<String>) -> (r: String)
    ensures
        r@ == sentence_spec(words@),
{
    let mut r = join_parts(words, " ");
    r.append(".");
    proof {
        reveal_strlit(" ");
        reveal_strlit(".");
        assert(" "@ =~= seq![' ']);
        assert("."@ =~= seq!['.']);
    }
    r
}

/// A random title of one to three capitalized lorem words.
pub fn fake_lorem_title() -> (r: String)
    ensures
        exists|w: Seq<String>| 1 <= w.len() < 4 && r@ == title_spec(w),
{
    let words = lorem_words(1, 4);
    title_of(&words)
}

/// A random sentence of one to fourteen lorem words.
pub fn fake_lorem_sentence() -> (r: String)
    ensures
        exists|w: Seq<String>| 1 <= w.len() < 15 && r@ == sentence_spec(w),
{
    let words = lorem_words(1, 15);
    sentence_of(&words)
}

/// A random lorem word.
pub fn fake_lorem_word() -> (r: String)
    ensures
        exists|w: Seq<String>| w.len() == 1 && r@ == w[0]@,
{
    let words = lorem_words(1, 2);
    let r = words[0].clone();
    assert(words@.len() == 1 && r@ == words@[0]@);
    r
}

/// The paragraph made of `sentences`, one per line.
pub open spec fn paragraph_spec(sentences: Seq<String>) -> Seq<char> {
    joined(sentences.map_values(|s: String| s@), seq!['\n'])
}

/// The paragraph made of `sentences`, one per line.
pub fn paragraph_of(sentences: &Vec<String>) -> (r: String)
    ensures
        r@ == paragraph_spec(sentences@),
{
    let r = join_parts(sentences, "\n");
    proof {
        reveal_strlit("\n");
        assert("\n"@ =~= seq!['\n']);
    }
    r
}

/// A random paragraph: one to ninety-nine lines, each a sentence of four to
/// nine lorem words.
pub fn fake_lorem_paragraph() -> (r: String)
    ensures
        exists|s: Seq<String>| 1 <= s.len() < 100 && r@ == paragraph_spec(s),
{
    let count = fake_i32_in(1, 100);
    let mut sentences: Vec<String> = Vec::new();
    let mut i: i32 = 0;
    while i < count
        invariant
            1 <= count < 100,
            0 <= i <= count,
            sentences@.len() == i,
        decreases count - i,
    {
        let words = lorem_words(4, 10);
        sentences.push(sentence_of(&words));
        i += 1;
    }
    paragraph_of(&sentences)
}

/// The text of `VALUE` columns.
pub fn value_string() -> (r: String)
    ensures
        r@ == "value"@,
{
    String::from_str("value")
}

/// The text of columns of an unknown type.
pub fn unknown_string() -> (r: String)
    ensures
        r@ == "unknown"@,
{
    String::from_str("unknown")
}

} // verus!
