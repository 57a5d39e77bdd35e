use vstd::prelude::*;

use crate::document::{entry, table_of, take_entry, take_table, Node};
use crate::error::UpdateError;

verus! {

/// The `workspace.package` table of the upstream manifest: its version string.
pub struct PackageInfo {
    pub version: String,
}

/// The `workspace` table of the upstream manifest.
pub struct WorkspaceInfo {
    pub package: PackageInfo,
}

/// The part of the upstream manifest that the version label is derived from.
pub struct AzaleaCargoToml {
    pub workspace: WorkspaceInfo,
}

/// The upstream version string that a document holds under
/// `workspace.package.version`; an absent `version` reads as the empty string,
/// and None stands for a missing table or a value of the wrong shape.
pub open spec fn parse_upstream_version(t: Seq<(String, Node)>) -> Option<Seq<char>> {
    match table_of(entry(t, "workspace"@)) {
        Some(w) => match table_of(entry(w, "package"@)) {
            Some(p) => match entry(p, "version"@) {
                None => Some(Seq::empty()),
                Some(Node::Text(v)) => Some(v@),
                _ => None,
            },
            None => None,
        },
        None => None,
    }
}

/// The version marker `+mc` stands at position `i` of `s`, followed by a
/// non-empty rest without line breaks that runs to the end.
pub open spec fn marker_at(s: Seq<char>, i: int) -> bool {
    &&& 0 <= i
    &&& i + 3 < s.len()
    &&& s.subrange(i, i + 3) == "+mc"@
    &&& forall|m: int| i + 3 <= m < s.len() ==> s[m] != '\n'
}

/// `i` is the leftmost position of the version marker in `s`.
pub open spec fn first_marker_at(s: Seq<char>, i: int) -> bool {
    marker_at(s, i) && forall|j: int| 0 <= j < i ==> !marker_at(s, j)
}

/// The version label that `s` carries: the text after its leftmost marker, or
/// None where `s` has no marker.
pub open spec fn version_suffix(s: Seq<char>) -> Option<Seq<char>> {
    if exists|i: int| first_marker_at(s, i) {
        let i = choose|i: int| first_marker_at(s, i);
        Some(s.subrange(i + 3, s.len() as int))
    } else {
        None
    }
}

/// Relies on regex::Regex::new and Regex::captures: for the pattern `\+mc(.+)$`
/// the first group of the leftmost match is the text after the leftmost `+mc`
/// that a non-empty rest without line breaks follows up to the end.
#[verifier::external_body]
fn first_group(pattern: &str, text: &str) -> (r: Option<String>)
    requires
        pattern@ == "\\+mc(.+)$"@,
    ensures
        match r {
            Some(v) => version_suffix(text@) == Some(v@),
            None => version_suffix(text@) is None,
        },
{
    let re = match regex::Regex::new(pattern) {
        Ok(re) => re,
        Err(_) => return None,
    };
    let caps = re.captures(text)?;
    Some(caps.get(1)?.as_str().to_string())
}

/// Derives the downstream version label from an upstream version string: the
/// text after the `+mc` marker. A string without the marker is an error; no
/// default is put in its place.
pub fn derive_version(full_version: &str) -> (r: Result<String, UpdateError>)
    ensures
        match r {
            Ok(v) => version_suffix(full_version@) == Some(v@),
            Err(e) => e == UpdateError::VersionFormatError && version_suffix(full_version@) is None,
        },
{
    match first_group("\\+mc(.+)$", full_version) {
        Some(v) => Ok(v),
        None => Err(UpdateError::VersionFormatError),
    }
}

impl AzaleaCargoToml {
    /// Reads the upstream manifest out of its document.
    pub fn from_document(t: Vec<(String, Node)>) -> (r: Result<AzaleaCargoToml, UpdateError>)
        ensures
            match r {
                Ok(a) => parse_upstream_version(t@) == Some(a.workspace.package.version@),
                Err(e) => e == UpdateError::ManifestFormatError && parse_upstream_version(t@) is None,
            },
    {
        let mut rest = t;
        let mut w = match take_table(&mut rest, "workspace") {
            Some(w) => w,
            None => return Err(UpdateError::ManifestFormatError),
        };
        let mut p = match take_table(&mut w, "package") {
            Some(p) => p,
            None => return Err(UpdateError::ManifestFormatError),
        };
        let version = match take_entry(&mut p, "version") {
            None => String::new(),
            Some(Node::Text(v)) => v,
            Some(_) => return Err(UpdateError::ManifestFormatError),
        };
        Ok(AzaleaCargoToml { workspace: WorkspaceInfo { package: PackageInfo { version } } })
    }

    /// The version label derived from the upstream version string.
    pub fn mc_version(&self) -> (r: Result<String, UpdateError>)
        ensures
            match r {
                Ok(v) => version_suffix(self.workspace.package.version@) == Some(v@),
                Err(e) => e == UpdateError::VersionFormatError && version_suffix(
                    self.workspace.package.version@,
                ) is None,
            },
    {
        derive_version(self.workspace.package.version.as_str())
    }
}

/// The version label of the upstream manifest held in document `d`, for the
/// revision the mirror has checked out.
pub fn upstream_mc_version(d: Vec<(String, Node)>) -> (r: Result<String, UpdateError>)
    ensures
        match parse_upstream_version(d@) {
            None => r == Err::<String, UpdateError>(UpdateError::ManifestFormatError),
            Some(s) => match version_suffix(s) {
                None => r == Err::<String, UpdateError>(UpdateError::VersionFormatError),
                Some(v) => r is Ok && r->Ok_0@ == v,
            },
        },
{
    let upstream = AzaleaCargoToml::from_document(d)?;
    upstream.mc_version()
}

} // verus!
