// Tracking an upstream repository and advancing a downstream project's pinned
// revision: the revision resolver over the commit graph (`history`), the
// manifest transaction that keeps unread content (`document`, `manifest`,
// `lock`, `upstream`), the commit decision (`finalize`), and the platform
// table used for packaging (`build_matrix`, `toolchain`).
use vstd::prelude::*;

pub mod build_matrix;
pub mod document;
pub mod error;
pub mod events;
pub mod finalize;
pub mod history;
pub mod lock;
pub mod manifest;
pub mod toolchain;
pub mod upstream;

verus! {

} // verus!
