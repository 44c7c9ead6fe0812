//! The calls this library makes into other crates and into parts of the
//! standard library that the verifier has no model of. Each contract here is
//! taken on trust from the documentation or source of what is called.

use vstd::prelude::*;

verus! {

/// What `str::to_lowercase` returns for a string with the given characters.
pub uninterp spec fn lowercased(s: Seq<char>) -> Seq<char>;

/// `str::to_lowercase`: the lowercase form of `s` under Unicode's rules, a
/// function of the characters of `s` alone.
#[verifier::external_body]
pub(crate) fn to_lowercase(s: &str) -> (r: String)
    ensures
        r@ == lowercased(s@),
{
    s.to_lowercase()
}

/// `String::push`: appends one character.
pub assume_specification[ String::push ](s: &mut String, c: char)
    ensures
        final(s)@ == old(s)@.push(c),
;

/// Whether `c` can stand in a time printed in digits: a digit, a sign, a
/// colon or a blank.
pub open spec fn is_stamp_char(c: char) -> bool {
    ('0' as u32 <= c as u32 && c as u32 <= '9' as u32) || c == '-' || c == '+' || c == ':' || c
        == ' '
}

/// Whether `s` can be a time printed in digits.
pub open spec fn is_stamp(s: Seq<char>) -> bool {
    forall|i: int| 0 <= i < s.len() ==> is_stamp_char(#[trigger] s[i])
}

/// The pattern of a time as a comment shows it: date and time of day.
pub open spec fn comment_pattern() -> Seq<char> {
    "%Y-%m-%d %H:%M:%S"@
}

/// The pattern of a time as a file name holds it: fourteen digits.
pub open spec fn name_pattern() -> Seq<char> {
    "%Y%m%d%H%M%S"@
}

/// Whether `c` is a decimal digit.
pub open spec fn is_digit(c: char) -> bool {
    '0' as u32 <= c as u32 && c as u32 <= '9' as u32
}

/// Whether `s` can be a time printed in digits with at least `least`
/// characters, the last of them a digit.
pub open spec fn is_time(s: Seq<char>, least: nat) -> bool {
    is_stamp(s) && s.len() >= least && s.len() > 0 && is_digit(s.last())
}

/// Whether `s` can be a time as a comment shows it: a year of four digits
/// or more, month, day, hour, minute and second of two digits each, and
/// what stands between them.
pub open spec fn is_comment_time(s: Seq<char>) -> bool {
    is_time(s, 19)
}

/// Whether `s` can be a time as a file name holds it: a year of four
/// digits or more and five numbers of two digits each.
pub open spec fn is_name_time(s: Seq<char>) -> bool {
    is_time(s, 14)
}

/// `chrono::Local::now` and `DateTime::format`: the local time of the call,
/// printed after one of the two patterns above. Both patterns ask for
/// numbers only, which chrono prints in digits: the year in four or more,
/// with a sign before a year outside 0 to 9999, each other number in two;
/// what stands between the numbers comes from the pattern, and the seconds
/// come last. Nothing is claimed of which time it is. (The call needs a
/// system clock that stands at or after 1970 and a time zone that chrono can
/// read from the system.)
#[verifier::external_body]
pub(crate) fn local_time(pattern: &str) -> (r: String)
    requires
        pattern@ == comment_pattern() || pattern@ == name_pattern(),
    ensures
        is_stamp(r@),
        pattern@ == comment_pattern() ==> is_comment_time(r@),
        pattern@ == name_pattern() ==> is_name_time(r@),
{
    chrono::Local::now().format(pattern).to_string()
}

/// Whether `s` begins with a tilde.
pub open spec fn led_by_tilde(s: Seq<char>) -> bool {
    s.len() > 0 && s[0] == '~'
}

/// Whether `s` holds a dollar sign, the mark of a variable.
pub open spec fn has_dollar(s: Seq<char>) -> bool {
    exists|i: int| 0 <= i < s.len() && s[i] == '$'
}

/// Whether `r` can be what tilde expansion makes of `s`: `s` itself where it
/// begins with no tilde, and otherwise a text that ends with what follows
/// the tilde in `s`.
pub open spec fn tilde_expands(s: Seq<char>, r: Seq<char>) -> bool {
    if led_by_tilde(s) {
        r.len() >= s.len() - 1 && r.subrange(r.len() - (s.len() - 1), r.len() as int) == s.skip(1)
    } else {
        r == s
    }
}

/// Whether `r` can be what the expansion of tilde and variables makes of
/// `s`: where `s` names no variable, what tilde expansion can make of it.
pub open spec fn expands_to(s: Seq<char>, r: Seq<char>) -> bool {
    !has_dollar(s) ==> tilde_expands(s, r)
}

/// `shellexpand::tilde`: replaces a tilde at the start of `s` by the home
/// directory, where that is known and a slash or nothing follows the tilde,
/// and returns `s` unchanged otherwise. The home directory comes from the
/// environment, so the contract says only what holds whatever it is.
#[verifier::external_body]
pub(crate) fn tilde(s: &str) -> (r: String)
    ensures
        tilde_expands(s@, r@),
{
    shellexpand::tilde(s).into_owned()
}

/// `shellexpand::full`: replaces the variables that `s` names by their
/// values in the environment and then a tilde at its start by the home
/// directory; it fails where a variable is not set. A text without a dollar
/// sign names no variable: for it the call succeeds and only expands its
/// tilde. What the variables hold comes from the environment, so nothing is
/// claimed of a text that names one.
#[verifier::external_body]
pub(crate) fn full(s: &str) -> (r: Option<String>)
    ensures
        r matches Some(x) ==> expands_to(s@, x@),
        !has_dollar(s@) ==> r is Some,
{
    match shellexpand::full(s) {
        Ok(x) => Some(x.into_owned()),
        Err(_) => None,
    }
}

/// `dirs_next::home_dir`: the home directory of the current user, if the
/// system tells it. Nothing is claimed of the result.
#[verifier::external_body]
pub(crate) fn home_dir() -> (r: Option<String>) {
    match dirs_next::home_dir() {
        Some(p) => Some(p.to_string_lossy().into_owned()),
        None => None,
    }
}

} // verus!
