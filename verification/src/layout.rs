//! Where the output of a run lies: the directories under the working
//! directory, and the names of the files in them. A run is told apart from
//! the others by the time at which it started.

use vstd::prelude::*;
use vstd::string::StringExecFns;

verus! {

/// Where session snapshots are kept.
pub const COOKIE_DIR: &'static str = "d5s/keys/cookies";

/// Where catalogs, book records and asset lists are kept.
pub const META_DIR: &'static str = "d5s/downloads/meta";

/// Where the vector pages are kept, by book and run.
pub const SVG_DIR: &'static str = "d5s/downloads/svgs";

/// Where the raster assets are kept, by book and run.
pub const IMG_DIR: &'static str = "d5s/downloads/imgs";

/// The credentials of an unattended run.
pub const AUTO_CREDENTIALS: &'static str = "d5s/keys/credentials/auto_creds.json";

/// The session snapshot of an unattended run.
pub const AUTO_COOKIES: &'static str = "d5s/keys/cookies/auto_login.json";

/// The catalog of an unattended run.
pub const AUTO_BOOKS: &'static str = "d5s/downloads/meta/auto_books.json";

/// The number of directories that a run expects to be there.
pub const WORK_DIR_COUNT: usize = 8;

/// The directory at place `i` among those that a run expects to be there.
pub open spec fn work_dir_text(i: int) -> Seq<char> {
    if i == 0 {
        "d5s/keys/cookies"@
    } else if i == 1 {
        "d5s/keys/credentials"@
    } else if i == 2 {
        "d5s/downloads/meta"@
    } else if i == 3 {
        "d5s/downloads/assets"@
    } else if i == 4 {
        "d5s/downloads/pdfs"@
    } else if i == 5 {
        "d5s/downloads/images"@
    } else if i == 6 {
        "d5s/downloads/svgs"@
    } else {
        "d5s/downloads/pages"@
    }
}

/// The directories that a run expects to be there, in the order in which
/// they are made.
pub fn work_dirs() -> (dirs: Vec<&'static str>)
    ensures
        dirs@.len() == WORK_DIR_COUNT,
        forall|i: int| 0 <= i < dirs@.len() ==> (#[trigger] dirs@[i])@ == work_dir_text(i),
{
    let mut dirs: Vec<&'static str> = Vec::new();
    dirs.push("d5s/keys/cookies");
    dirs.push("d5s/keys/credentials");
    dirs.push("d5s/downloads/meta");
    dirs.push("d5s/downloads/assets");
    dirs.push("d5s/downloads/pdfs");
    dirs.push("d5s/downloads/images");
    dirs.push("d5s/downloads/svgs");
    dirs.push("d5s/downloads/pages");
    dirs
}

/// `root`, then `id` and `timestamp` as two further directories.
pub open spec fn run_dir_text(root: Seq<char>, id: Seq<char>, timestamp: Seq<char>) -> Seq<char> {
    root + seq!['/'] + id + seq!['/'] + timestamp
}

/// The directory under `root` of the run that started at `timestamp` on the
/// book `id`.
pub fn run_dir(root: &str, id: &str, timestamp: &str) -> (dir: String)
    ensures
        dir@ == run_dir_text(root@, id@, timestamp@),
{
    let mut dir = root.to_owned();
    dir.push('/');
    dir.append(id);
    dir.push('/');
    dir.append(timestamp);
    assert(dir@ == run_dir_text(root@, id@, timestamp@)) by {
        assert(root@.push('/') == root@ + seq!['/']);
        assert((root@ + seq!['/'] + id@).push('/') == root@ + seq!['/'] + id@ + seq!['/']);
    }
    dir
}

/// The name of the session snapshot that a run takes at the step `step`.
pub open spec fn cookie_file_text(timestamp: Seq<char>, step: Seq<char>) -> Seq<char> {
    timestamp + seq!['_'] + step + ".json"@
}

/// The name of the session snapshot that the run that started at `timestamp`
/// takes at the step `step`.
pub fn cookie_file_name(timestamp: &str, step: &str) -> (name: String)
    ensures
        name@ == cookie_file_text(timestamp@, step@),
{
    let mut name = timestamp.to_owned();
    name.push('_');
    name.append(step);
    name.append(".json");
    assert(name@ == cookie_file_text(timestamp@, step@)) by {
        assert(timestamp@.push('_') == timestamp@ + seq!['_']);
    }
    name
}

/// The name of the catalog of a run.
pub open spec fn books_file_text(timestamp: Seq<char>) -> Seq<char> {
    timestamp + "_books.json"@
}

/// The name of the catalog of the run that started at `timestamp`.
pub fn books_file_name(timestamp: &str) -> (name: String)
    ensures
        name@ == books_file_text(timestamp@),
{
    let mut name = timestamp.to_owned();
    name.append("_books.json");
    name
}

/// `prefix`, the book's id, an underscore, the time of the run, and `suffix`.
pub open spec fn book_file_text(
    prefix: Seq<char>,
    id: Seq<char>,
    timestamp: Seq<char>,
    suffix: Seq<char>,
) -> Seq<char> {
    prefix + id + seq!['_'] + timestamp + suffix
}

/// A file name made of `prefix`, the book's id, an underscore, the time of
/// the run, and `suffix`.
fn book_file_name(prefix: &str, id: &str, timestamp: &str, suffix: &str) -> (name: String)
    ensures
        name@ == book_file_text(prefix@, id@, timestamp@, suffix@),
{
    let mut name = prefix.to_owned();
    name.append(id);
    name.push('_');
    name.append(timestamp);
    name.append(suffix);
    assert(name@ == book_file_text(prefix@, id@, timestamp@, suffix@)) by {
        assert((prefix@ + id@).push('_') == prefix@ + id@ + seq!['_']);
    }
    name
}

/// The name of the file that keeps the first page of a reader session.
pub fn initial_html_file_name(id: &str, timestamp: &str) -> (name: String)
    ensures
        name@ == book_file_text("initial_book_"@, id@, timestamp@, ".html"@),
{
    book_file_name("initial_book_", id, timestamp, ".html")
}

/// The name of the file that lists the assets of a book.
pub fn img_list_file_name(id: &str, timestamp: &str) -> (name: String)
    ensures
        name@ == book_file_text("imgs_"@, id@, timestamp@, ".json"@),
{
    book_file_name("imgs_", id, timestamp, ".json")
}

} // verus!
