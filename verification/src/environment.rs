//! What is read from the user's session: the clock and the home directory.

use vstd::prelude::*;

verus! {

/// Whether `c` is a decimal digit.
pub open spec fn is_digit(c: char) -> bool {
    48 <= c as int <= 57
}

/// Whether `s` is a date and a time of day, written as year, month and day, an
/// underscore, then hour, minute and second. The year has at least four digits
/// and may carry a sign; everything else has two digits.
pub open spec fn is_timestamp(s: Seq<char>) -> bool {
    &&& s.len() >= 15
    &&& s[s.len() - 7] == '_'
    &&& forall|i: int| s.len() - 11 <= i < s.len() - 7 ==> is_digit(#[trigger] s[i])
    &&& forall|i: int| s.len() - 6 <= i < s.len() ==> is_digit(#[trigger] s[i])
    &&& forall|i: int|
        0 <= i < s.len() - 11 ==> is_digit(#[trigger] s[i]) || s[i] == '+' || s[i] == '-'
}

/// The local date and time, from `chrono::Local::now` and its `format` with
/// `%Y%m%d_%H%M%S`. Which moment it is depends on the clock; claimed is only the
/// shape that `chrono` documents for those fields.
#[verifier::external_body]
pub(crate) fn local_timestamp() -> (stamp: String)
    ensures
        is_timestamp(stamp@),
{
    chrono::Local::now().format("%Y%m%d_%H%M%S").to_string()
}

/// The home directory of the user, from `dirs::home_dir`, as text. It depends on
/// the environment; claimed is only that a directory that is found has a name,
/// as `dirs` passes over an empty one.
#[verifier::external_body]
pub(crate) fn home_directory() -> (home: Option<String>)
    ensures
        home matches Some(path) ==> path@.len() > 0,
{
    match dirs::home_dir() {
        Some(path) => Some(path.to_string_lossy().into_owned()),
        None => None,
    }
}

/// The digits are the characters from `0` to `9`.
pub proof fn digits_are_zero_to_nine(c: char)
    ensures
        is_digit(c) <==> (c == '0' || c == '1' || c == '2' || c == '3' || c == '4' || c == '5'
            || c == '6' || c == '7' || c == '8' || c == '9'),
{
}

/// A time stamp has one underscore, before the six digits of the time of day; the day and the
/// month before it are digits too.
pub proof fn time_stamps_have_one_underscore(s: Seq<char>, i: int)
    requires
        is_timestamp(s),
        0 <= i < s.len(),
    ensures
        s.len() >= 15,
        s[i] == '_' <==> i == s.len() - 7,
        i >= s.len() - 11 && i != s.len() - 7 ==> is_digit(s[i]),
        !is_digit(s[i]) && i != s.len() - 7 ==> s[i] == '+' || s[i] == '-',
{
}

} // verus!
