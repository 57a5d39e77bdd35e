use vstd::prelude::*;
use vstd::string::*;

verus! {

/// The UTC calendar date, written `YYYY-MM-DD`, of a Unix time in seconds; None
/// where the time lies outside the range of dates chrono represents.
pub uninterp spec fn utc_date_of(secs: int) -> Option<Seq<char>>;

/// Relies on chrono's `DateTime::from_timestamp` (None out of range) and on its
/// formatting of the result with `%Y-%m-%d`; both depend on the time alone.
#[verifier::external_body]
fn utc_date(secs: i64, pattern: &str) -> (r: Option<String>)
    requires
        pattern@ == "%Y-%m-%d"@,
    ensures
        match r {
            Some(d) => utc_date_of(secs as int) == Some(d@),
            None => utc_date_of(secs as int) is None,
        },
{
    let time = chrono::DateTime::from_timestamp(secs, 0)?;
    Some(time.format(pattern).to_string())
}

/// The date of the day before a commit made at Unix time `commit_seconds`: the
/// nightly toolchain channel that the commit was built with.
pub fn day_before(commit_seconds: i64) -> (r: Option<String>)
    ensures
        match r {
            Some(d) => commit_seconds - 86400 >= i64::MIN && utc_date_of(commit_seconds - 86400)
                == Some(d@),
            None => commit_seconds - 86400 < i64::MIN || utc_date_of(commit_seconds - 86400) is None,
        },
{
    if commit_seconds < i64::MIN + 86400 {
        return None;
    }
    utc_date(commit_seconds - 86400, "%Y-%m-%d")
}

/// The contents of a toolchain file that selects `channel`.
pub open spec fn toolchain_file_of(channel: Seq<char>) -> Seq<char> {
    "[toolchain]\nchannel = \""@ + channel + "\"\n"@
}

/// The contents of a toolchain file that selects `channel`.
pub fn toolchain_file(channel: &str) -> (r: String)
    ensures
        r@ == toolchain_file_of(channel@),
{
    String::from_str("[toolchain]\nchannel = \"").concat(channel).concat("\"\n")
}

/// The argument that makes the build tool run with toolchain `channel`.
pub fn channel_arg(channel: &str) -> (r: String)
    ensures
        r@ == "+"@ + channel@,
{
    String::from_str("+").concat(channel)
}

} // verus!
