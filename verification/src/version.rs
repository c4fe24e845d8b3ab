//! The version probe: which variant of the reader serves a book. The probe
//! fetches the first page of the book and looks for the marker of the legacy
//! vector format. It never fails: whatever goes wrong counts as legacy.
//! Nothing in a download depends on the answer so far: both variants serve
//! their pages under the same addresses.

use vstd::prelude::*;
use vstd::string::StringExecFns;
use crate::assets::{book_base, book_base_text};
use crate::http::{is_success, status_ok, Reply, ReplyView};
use crate::text::{contains_text, text_contains};

verus! {

/// The text that only pages of the legacy vector format hold.
pub const LEGACY_MARKER: &'static str = "svg";

/// The page that the probe fetches, under a book's directory.
pub const PROBE_PAGE: &'static str = "1/1.svg";

/// The variant of the reader that serves a book.
#[derive(Debug, Clone, Copy, PartialEq, Eq, Structural)]
pub enum Version {
    /// The legacy reader.
    Old,
    /// The modern reader.
    New,
}

/// The address that the probe fetches for the book `book_id`.
pub open spec fn probe_url_text(book_id: Seq<char>) -> Seq<char> {
    book_base_text(book_id) + PROBE_PAGE@
}

/// The address that the probe fetches for the book `book_id`.
pub fn version_probe_url(book_id: &str) -> (url: String)
    ensures
        url@ == probe_url_text(book_id@),
{
    let mut url = book_base(book_id);
    url.append(PROBE_PAGE);
    url
}

/// The variant that the outcome of the probe stands for: modern exactly if the
/// server answered with a success and the page does not hold the marker.
pub open spec fn version_of(reply: ReplyView) -> Version {
    match reply {
        ReplyView::Answer { status, body } => if status_ok(status) && !contains_text(
            body,
            LEGACY_MARKER@,
        ) {
            Version::New
        } else {
            Version::Old
        },
        ReplyView::Failed => Version::Old,
        ReplyView::TimedOut => Version::Old,
    }
}

/// Says which variant serves the book, from what came of the probe.
pub fn do_version_check(reply: &Reply) -> (version: Version)
    ensures
        version == version_of(reply@),
{
    match reply {
        Reply::Answer { status, body } => {
            if !is_success(*status) {
                Version::Old
            } else if text_contains(body.as_str(), LEGACY_MARKER) {
                Version::Old
            } else {
                Version::New
            }
        },
        Reply::Failed => Version::Old,
        Reply::TimedOut => Version::Old,
    }
}

} // verus!
