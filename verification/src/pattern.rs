//! Regular-expression matching, done by the `regex` crate.
use vstd::prelude::*;

verus! {

/// The error of `regex::Regex::new`.
#[verifier::external_type_specification]
#[verifier::external_body]
pub struct ExRegexError(regex::Error);

/// Whether `regex::Regex::new` accepts `pattern` (it is valid syntax and
/// its compiled form stays within the crate's default size limit).
pub uninterp spec fn regex_compiles(pattern: Seq<char>) -> bool;

/// The text of the overall match (capture group 0) that
/// `regex::Regex::captures` finds for `pattern` in `haystack`: the
/// leftmost-first match, or `None` where the pattern matches nowhere.
pub uninterp spec fn regex_leftmost_match(pattern: Seq<char>, haystack: Seq<char>) -> Option<
    Seq<char>,
>;

/// `part` occurs in `whole` as a contiguous run of characters.
pub open spec fn is_infix_of(part: Seq<char>, whole: Seq<char>) -> bool {
    exists|i: int|
        0 <= i && i + part.len() <= whole.len() && #[trigger] whole.subrange(i, i + part.len())
            == part
}

/// The characters that `\d` matches in the `regex` crate's default
/// (Unicode) mode: the general category Decimal_Number, as listed in
/// `regex-syntax`'s table `general_category::DECIMAL_NUMBER`.
pub open spec fn is_decimal_digit(c: char) -> bool {
    ||| '\u{30}' <= c && c <= '\u{39}'
    ||| '\u{660}' <= c && c <= '\u{669}'
    ||| '\u{6f0}' <= c && c <= '\u{6f9}'
    ||| '\u{7c0}' <= c && c <= '\u{7c9}'
    ||| '\u{966}' <= c && c <= '\u{96f}'
    ||| '\u{9e6}' <= c && c <= '\u{9ef}'
    ||| '\u{a66}' <= c && c <= '\u{a6f}'
    ||| '\u{ae6}' <= c && c <= '\u{aef}'
    ||| '\u{b66}' <= c && c <= '\u{b6f}'
    ||| '\u{be6}' <= c && c <= '\u{bef}'
    ||| '\u{c66}' <= c && c <= '\u{c6f}'
    ||| '\u{ce6}' <= c && c <= '\u{cef}'
    ||| '\u{d66}' <= c && c <= '\u{d6f}'
    ||| '\u{de6}' <= c && c <= '\u{def}'
    ||| '\u{e50}' <= c && c <= '\u{e59}'
    ||| '\u{ed0}' <= c && c <= '\u{ed9}'
    ||| '\u{f20}' <= c && c <= '\u{f29}'
    ||| '\u{1040}' <= c && c <= '\u{1049}'
    ||| '\u{1090}' <= c && c <= '\u{1099}'
    ||| '\u{17e0}' <= c && c <= '\u{17e9}'
    ||| '\u{1810}' <= c && c <= '\u{1819}'
    ||| '\u{1946}' <= c && c <= '\u{194f}'
    ||| '\u{19d0}' <= c && c <= '\u{19d9}'
    ||| '\u{1a80}' <= c && c <= '\u{1a89}'
    ||| '\u{1a90}' <= c && c <= '\u{1a99}'
    ||| '\u{1b50}' <= c && c <= '\u{1b59}'
    ||| '\u{1bb0}' <= c && c <= '\u{1bb9}'
    ||| '\u{1c40}' <= c && c <= '\u{1c49}'
    ||| '\u{1c50}' <= c && c <= '\u{1c59}'
    ||| '\u{a620}' <= c && c <= '\u{a629}'
    ||| '\u{a8d0}' <= c && c <= '\u{a8d9}'
    ||| '\u{a900}' <= c && c <= '\u{a909}'
    ||| '\u{a9d0}' <= c && c <= '\u{a9d9}'
    ||| '\u{a9f0}' <= c && c <= '\u{a9f9}'
    ||| '\u{aa50}' <= c && c <= '\u{aa59}'
    ||| '\u{abf0}' <= c && c <= '\u{abf9}'
    ||| '\u{ff10}' <= c && c <= '\u{ff19}'
    ||| '\u{104a0}' <= c && c <= '\u{104a9}'
    ||| '\u{10d30}' <= c && c <= '\u{10d39}'
    ||| '\u{10d40}' <= c && c <= '\u{10d49}'
    ||| '\u{11066}' <= c && c <= '\u{1106f}'
    ||| '\u{110f0}' <= c && c <= '\u{110f9}'
    ||| '\u{11136}' <= c && c <= '\u{1113f}'
    ||| '\u{111d0}' <= c && c <= '\u{111d9}'
    ||| '\u{112f0}' <= c && c <= '\u{112f9}'
    ||| '\u{11450}' <= c && c <= '\u{11459}'
    ||| '\u{114d0}' <= c && c <= '\u{114d9}'
    ||| '\u{11650}' <= c && c <= '\u{11659}'
    ||| '\u{116c0}' <= c && c <= '\u{116c9}'
    ||| '\u{116d0}' <= c && c <= '\u{116e3}'
    ||| '\u{11730}' <= c && c <= '\u{11739}'
    ||| '\u{118e0}' <= c && c <= '\u{118e9}'
    ||| '\u{11950}' <= c && c <= '\u{11959}'
    ||| '\u{11bf0}' <= c && c <= '\u{11bf9}'
    ||| '\u{11c50}' <= c && c <= '\u{11c59}'
    ||| '\u{11d50}' <= c && c <= '\u{11d59}'
    ||| '\u{11da0}' <= c && c <= '\u{11da9}'
    ||| '\u{11f50}' <= c && c <= '\u{11f59}'
    ||| '\u{16130}' <= c && c <= '\u{16139}'
    ||| '\u{16a60}' <= c && c <= '\u{16a69}'
    ||| '\u{16ac0}' <= c && c <= '\u{16ac9}'
    ||| '\u{16b50}' <= c && c <= '\u{16b59}'
    ||| '\u{16d70}' <= c && c <= '\u{16d79}'
    ||| '\u{1ccf0}' <= c && c <= '\u{1ccf9}'
    ||| '\u{1d7ce}' <= c && c <= '\u{1d7ff}'
    ||| '\u{1e140}' <= c && c <= '\u{1e149}'
    ||| '\u{1e2f0}' <= c && c <= '\u{1e2f9}'
    ||| '\u{1e4f0}' <= c && c <= '\u{1e4f9}'
    ||| '\u{1e5f1}' <= c && c <= '\u{1e5fa}'
    ||| '\u{1e950}' <= c && c <= '\u{1e959}'
    ||| '\u{1fbf0}' <= c && c <= '\u{1fbf9}'
}

/// The run of decimal digits that `s` starts with (possibly empty).
pub open spec fn leading_digits(s: Seq<char>) -> Seq<char>
    decreases s.len(),
{
    if s.len() > 0 && is_decimal_digit(s[0]) {
        seq![s[0]] + leading_digits(s.drop_first())
    } else {
        Seq::<char>::empty()
    }
}

/// The first maximal run of decimal digits in `s`, or `None` where `s`
/// holds no decimal digit: what the pattern `\d+` matches leftmost-first.
pub open spec fn first_digit_run(s: Seq<char>) -> Option<Seq<char>>
    decreases s.len(),
{
    if s.len() == 0 {
        None
    } else if is_decimal_digit(s[0]) {
        Some(leading_digits(s))
    } else {
        first_digit_run(s.drop_first())
    }
}

/// The view of an optional owned string.
pub open spec fn opt_string_view(s: Option<String>) -> Option<Seq<char>> {
    match s {
        Some(t) => Some(t@),
        None => None,
    }
}

/// Compiles `pattern` with `regex::Regex::new` and, when that succeeds,
/// runs `Regex::captures` on `haystack` and returns the text of the
/// overall match (`Captures::get_match`).
///
/// Claimed of the crate: the call fails exactly for the patterns that
/// `regex_compiles` rejects; otherwise the text is the one that
/// `regex_leftmost_match` names, and `Match::as_str` hands out a slice of
/// the haystack. Of the pattern `\d+` alone, which the crate documents as
/// one or more Unicode decimal digits matched greedily at the leftmost
/// place, it also states which text comes out: it compiles, and the match
/// is the first maximal run of decimal digits. For any other pattern
/// nothing is stated of which text the regex engine picks.
#[verifier::external_body]
pub(crate) fn regex_first_match(pattern: &str, haystack: &str) -> (res: Result<
    Option<String>,
    regex::Error,
>)
    ensures
        res is Ok <==> regex_compiles(pattern@),
        res matches Ok(found) ==> match found {
            Some(text) => regex_leftmost_match(pattern@, haystack@) == Some(text@),
            None => regex_leftmost_match(pattern@, haystack@) is None,
        },
        res matches Ok(found) ==> (found matches Some(text) ==> is_infix_of(text@, haystack@)),
        res is Ok || pattern@ != "\\d+"@,
        res matches Ok(found) ==> (pattern@ == "\\d+"@ ==> opt_string_view(found)
            == first_digit_run(haystack@)),
{
    match regex::Regex::new(pattern) {
        Ok(re) => match re.captures(haystack) {
            Some(caps) => Ok(Some(caps.get_match().as_str().to_string())),
            None => Ok(None),
        },
        Err(e) => Err(e),
    }
}

} // verus!
