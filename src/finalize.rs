use vstd::prelude::*;
use vstd::string::*;

use crate::error::UpdateError;

verus! {

/// What one run of the update flow found and did.
pub struct UpdateOutcome {
    /// The revision pinned before the run.
    pub previous: String,
    /// The revision the pins moved to, if a new one was found.
    pub next: Option<String>,
    /// The version label derived at the new revision, if one was found.
    pub version: Option<String>,
    /// Whether the run changed the downstream project.
    pub changed: bool,
}

/// The short form of a revision used in messages: its first eight characters,
/// or all of it when it is shorter.
pub open spec fn short_revision(rev: Seq<char>) -> Seq<char> {
    if rev.len() <= 8 {
        rev
    } else {
        rev.subrange(0, 8)
    }
}

/// The commit message recorded for an update to `rev` with version label `v`.
pub open spec fn commit_message_of(rev: Seq<char>, v: Seq<char>) -> Seq<char> {
    "Update azalea to "@ + short_revision(rev) + " (MC "@ + v + ")"@
}

/// The status line for the invoking automation.
pub open spec fn status_line_of(changed: bool) -> Seq<char> {
    if changed {
        "has_changes=true"@
    } else {
        "has_changes=false"@
    }
}

/// The commit message for an update to `rev` with version label `mc_version`.
pub fn commit_message(rev: &str, mc_version: &str) -> (r: String)
    ensures
        r@ == commit_message_of(rev@, mc_version@),
{
    let n: usize = rev.unicode_len();
    let short = if n <= 8 {
        rev
    } else {
        rev.substring_char(0, 8)
    };
    String::from_str("Update azalea to ").concat(short).concat(" (MC ").concat(mc_version).concat(
        ")",
    )
}

impl UpdateOutcome {
    /// The outcome of a run that found the pin current.
    pub fn current(previous: String) -> (r: UpdateOutcome)
        ensures
            r.previous == previous,
            r.next is None,
            r.version is None,
            !r.changed,
    {
        UpdateOutcome { previous, next: None, version: None, changed: false }
    }

    /// The outcome of a run that moved the pin from `previous` to `next`.
    pub fn advanced(previous: String, next: String, version: String) -> (r: UpdateOutcome)
        ensures
            r.previous == previous,
            r.next == Some(next),
            r.version == Some(version),
            r.changed,
    {
        UpdateOutcome { previous, next: Some(next), version: Some(version), changed: true }
    }

    /// Whether a revision after the pin was found.
    pub fn found_next(&self) -> (r: bool)
        ensures
            r == self.next is Some,
    {
        self.next.is_some()
    }

    /// The commit to record for this outcome. An outcome without a change asks
    /// for no commit at all, so a run against an unmoved upstream leaves the
    /// version-control state alone. A change without a revision and a version is
    /// a broken outcome and an error.
    pub fn commit_plan(&self) -> (r: Result<Option<String>, UpdateError>)
        ensures
            !self.changed ==> r == Ok::<Option<String>, UpdateError>(None),
            self.changed ==> match (self.next, self.version) {
                (Some(rev), Some(v)) => r is Ok && r->Ok_0 is Some && r->Ok_0->Some_0@
                    == commit_message_of(rev@, v@),
                _ => r == Err::<Option<String>, UpdateError>(UpdateError::CommitError),
            },
    {
        if !self.changed {
            return Ok(None);
        }
        match (&self.next, &self.version) {
            (Some(rev), Some(v)) => Ok(Some(commit_message(rev.as_str(), v.as_str()))),
            _ => Err(UpdateError::CommitError),
        }
    }

    /// The `has_changes=<true|false>` line that tells the automation whether the
    /// run advanced the pin.
    pub fn status_line(&self) -> (r: String)
        ensures
            r@ == status_line_of(self.changed),
    {
        if self.changed {
            String::from_str("has_changes=true")
        } else {
            String::from_str("has_changes=false")
        }
    }
}

} // verus!
