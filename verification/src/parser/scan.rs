use nom::error::ErrorKind;
use nom::Finish;
use vstd::prelude::*;

verus! {

/// nom's `ErrorKind`, the code that a failed scan reports. It has no fields, so its
/// variants can be told apart in contracts.
#[verifier::external_type_specification]
pub struct ExErrorKind(nom::error::ErrorKind);

/// What is left of the input after a scan, or the code of its failure.
pub type Scanned = Result<Seq<char>, ErrorKind>;

/// What is left of the input after a scan and what the scan read, or the code of its
/// failure.
pub type Parsed<T> = Result<(Seq<char>, T), ErrorKind>;

/// The model of what a scan returned.
pub open spec fn scanned(r: Result<&str, ErrorKind>) -> Scanned {
    match r {
        Ok(rest) => Ok(rest@),
        Err(kind) => Err(kind),
    }
}

/// The model of what a parser returned.
pub open spec fn outcome<T: DeepView>(r: Result<(&str, T), ErrorKind>) -> Parsed<T::V> {
    match r {
        Ok((rest, value)) => Ok((rest@, value.deep_view())),
        Err(kind) => Err(kind),
    }
}

/// A space, a tab, a carriage return or a line feed.
pub open spec fn is_space(c: char) -> bool {
    c == ' ' || c == '\t' || c == '\r' || c == '\n'
}

/// One of the ten decimal digits.
pub open spec fn is_digit(c: char) -> bool {
    '0' <= c <= '9'
}

/// The characters that are whitespace.
pub open spec fn spaces() -> spec_fn(char) -> bool {
    |c: char| is_space(c)
}

/// The characters that are decimal digits.
pub open spec fn digits() -> spec_fn(char) -> bool {
    |c: char| is_digit(c)
}

/// The characters that do not occur in `stops`.
pub open spec fn none_of(stops: Seq<char>) -> spec_fn(char) -> bool {
    |c: char| !stops.contains(c)
}

/// How many characters at the start of `s` are `within` the given class, up to the
/// first one that is not.
pub open spec fn run_length(s: Seq<char>, within: spec_fn(char) -> bool) -> nat
    decreases s.len(),
{
    if s.len() > 0 && within(s[0]) {
        1 + run_length(s.skip(1), within)
    } else {
        0
    }
}

/// The number that a sequence of decimal digits writes.
pub open spec fn decimal(text: Seq<char>) -> nat
    decreases text.len(),
{
    if text.len() == 0 {
        0
    } else {
        decimal(text.drop_last()) * 10 + (text.last() as nat - '0' as nat) as nat
    }
}

/// `s` without the whitespace at its start.
pub open spec fn skip_spaces(s: Seq<char>) -> Seq<char> {
    s.skip(run_length(s, spaces()) as int)
}

/// Reading the exact characters of `pattern` at the start of `s`.
pub open spec fn spec_tag(s: Seq<char>, pattern: Seq<char>) -> Scanned {
    if pattern.is_prefix_of(s) {
        Ok(s.skip(pattern.len() as int))
    } else {
        Err(ErrorKind::Tag)
    }
}

/// Reading the one character `c` at the start of `s`.
pub open spec fn spec_symbol(s: Seq<char>, c: char) -> Scanned {
    if s.len() > 0 && s[0] == c {
        Ok(s.skip(1))
    } else {
        Err(ErrorKind::Char)
    }
}

/// Reading the characters at the start of `s` up to the first that occurs in `stops`;
/// there must be at least one.
pub open spec fn spec_is_not(s: Seq<char>, stops: Seq<char>) -> Parsed<Seq<char>> {
    let n = run_length(s, none_of(stops)) as int;
    if n == 0 {
        Err(ErrorKind::IsNot)
    } else {
        Ok((s.skip(n), s.take(n)))
    }
}

/// Reading the decimal digits at the start of `s` as a number; there must be at least
/// one, and the number must fit into 64 bits.
pub open spec fn spec_number(s: Seq<char>) -> Parsed<u64> {
    let n = run_length(s, digits()) as int;
    if n == 0 || decimal(s.take(n)) > u64::MAX {
        Err(ErrorKind::Digit)
    } else {
        Ok((s.skip(n), decimal(s.take(n)) as u64))
    }
}

/// The number by which an ASCII character is compared when its case does not count:
/// a capital letter has the number of its small letter.
pub open spec fn caseless(c: char) -> int {
    if 'A' <= c <= 'Z' {
        c as int + 32
    } else {
        c as int
    }
}

/// Whether `s` has at least `n` characters and its first `n` are ASCII.
pub open spec fn ascii_head(s: Seq<char>, n: nat) -> bool {
    &&& n <= s.len()
    &&& forall|i: int| 0 <= i < n ==> #[trigger] s[i] <= '\u{7f}'
}

/// Whether `s` starts with the characters of `word`, the case of ASCII letters not
/// counting.
pub open spec fn starts_caseless(s: Seq<char>, word: Seq<char>) -> bool {
    &&& word.len() <= s.len()
    &&& forall|i: int| 0 <= i < word.len() ==> caseless(#[trigger] s[i]) == caseless(word[i])
}

/// Reading `word` at the start of `s`, the case of ASCII letters not counting.
pub open spec fn spec_keyword(s: Seq<char>, word: Seq<char>) -> Scanned {
    if starts_caseless(s, word) {
        Ok(s.skip(word.len() as int))
    } else {
        Err(ErrorKind::Tag)
    }
}

/// Calls nom's `multispace0`, which splits the input before the first character that
/// is not a space, a tab, a carriage return or a line feed, and never fails. The
/// contract claims that what comes back is the input without those leading characters.
#[verifier::external_body]
pub(crate) fn multispace0<'a>(input: &'a str) -> (rest: &'a str)
    ensures
        rest@ == skip_spaces(input@),
{
    match nom::character::complete::multispace0::<&str, nom::error::Error<&str>>(input) {
        Ok((rest, _)) => rest,
        Err(_) => input,
    }
}

/// Calls nom's `tag`, which compares the input with the pattern byte by byte. The
/// contract claims that it succeeds exactly where the input starts with the pattern,
/// that it then returns the input behind the pattern, and that it fails with `Tag`.
#[verifier::external_body]
pub(crate) fn tag<'a>(input: &'a str, pattern: &str) -> (r: Result<&'a str, ErrorKind>)
    ensures
        scanned(r) == spec_tag(input@, pattern@),
{
    nom::bytes::complete::tag::<&str, &str, nom::error::Error<&str>>(pattern)(input)
        .finish()
        .map(|found| found.0)
        .map_err(|e| e.code)
}

/// Calls nom's `tag_no_case`, which compares the input with the word character by
/// character, each by its lowercase form, and on a match splits the input after as
/// many bytes as the word has. It is called only where the word and the characters of
/// the input that it compares are ASCII, so that a lowercase form is the small letter
/// of a capital letter and the character itself otherwise, and a character is a byte.
/// The contract claims that it then succeeds exactly where the input starts with the
/// word in either case, returns the input behind the word, and fails with `Tag`.
#[verifier::external_body]
pub(crate) fn tag_no_case<'a>(input: &'a str, word: &str) -> (r: Result<&'a str, ErrorKind>)
    requires
        ascii_head(word@, word@.len()),
        ascii_head(input@, word@.len()),
    ensures
        scanned(r) == spec_keyword(input@, word@),
{
    nom::bytes::complete::tag_no_case::<&str, &str, nom::error::Error<&str>>(word)(input)
        .finish()
        .map(|found| found.0)
        .map_err(|e| e.code)
}

/// Calls nom's `char`, which reads one given character. The contract claims that it
/// succeeds exactly where the input starts with that character, that it then returns
/// the input behind it, and that it fails with `Char`.
#[verifier::external_body]
pub(crate) fn symbol<'a>(input: &'a str, c: char) -> (r: Result<&'a str, ErrorKind>)
    ensures
        scanned(r) == spec_symbol(input@, c),
{
    nom::character::complete::char::<&str, nom::error::Error<&str>>(c)(input)
        .finish()
        .map(|found| found.0)
        .map_err(|e| e.code)
}

/// Calls nom's `is_not`, which splits the input before the first character that occurs
/// in `stops`, or at its end. The contract claims that it returns the input from there
/// on and the part before, and that it fails with `IsNot` exactly where that part would
/// be empty.
#[verifier::external_body]
pub(crate) fn is_not<'a>(input: &'a str, stops: &str) -> (r: Result<(&'a str, &'a str), ErrorKind>)
    ensures
        outcome(r) == spec_is_not(input@, stops@),
{
    nom::bytes::complete::is_not::<&str, &str, nom::error::Error<&str>>(stops)(input)
        .finish()
        .map_err(|e| e.code)
}

/// Calls nom's `character::complete::u64`, which reads decimal digits up to the first
/// character that is none and adds them up with checked arithmetic. The contract claims
/// that it returns the input behind the digits and the number they write, and that it
/// fails with `Digit` exactly where there is no digit or the number does not fit.
#[verifier::external_body]
pub(crate) fn number<'a>(input: &'a str) -> (r: Result<(&'a str, u64), ErrorKind>)
    ensures
        outcome(r) == spec_number(input@),
{
    nom::character::complete::u64::<&str, nom::error::Error<&str>>(input)
        .finish()
        .map_err(|e| e.code)
}

} // verus!
