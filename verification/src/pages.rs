//! Downloading the vector pages of a book: page 1 up to the last, in order,
//! each under the address `{reader_base}{page}/{page}.svg`, each stored under
//! the name `{page}.svg`.

use vstd::prelude::*;
use vstd::string::StringExecFns;
use crate::errors::DownloadError;
use crate::http::status_ok;
use crate::fetch::{CursorView, FetchCursor};
use crate::metadata::BookMeta;
use crate::text::{decimal_text, push_decimal};

verus! {

/// The address of page `page` under `reader_base`.
pub open spec fn page_url_text(reader_base: Seq<char>, page: nat) -> Seq<char> {
    reader_base + decimal_text(page) + seq!['/'] + decimal_text(page) + ".svg"@
}

/// The name of the file that holds page `page`.
pub open spec fn page_file_text(page: nat) -> Seq<char> {
    decimal_text(page) + ".svg"@
}

/// The address of page `page` under `reader_base`.
pub fn page_url(reader_base: &str, page: usize) -> (url: String)
    ensures
        url@ == page_url_text(reader_base@, page as nat),
{
    let mut url = reader_base.to_owned();
    push_decimal(&mut url, page);
    url.push('/');
    push_decimal(&mut url, page);
    url.append(".svg");
    assert(url@ == page_url_text(reader_base@, page as nat)) by {
        assert((reader_base@ + decimal_text(page as nat)).push('/') == reader_base@ + decimal_text(
            page as nat,
        ) + seq!['/']);
    }
    url
}

/// The name of the file that holds page `page`.
pub fn page_file_name(page: usize) -> (name: String)
    ensures
        name@ == page_file_text(page as nat),
{
    let mut name = String::new();
    push_decimal(&mut name, page);
    name.append(".svg");
    assert(Seq::<char>::empty() + decimal_text(page as nat) == decimal_text(page as nat));
    name
}

/// A page that is to be fetched.
#[derive(Debug, Clone, PartialEq, Eq)]
pub struct PageRequest {
    /// The number of the page, counted from 1.
    pub page: usize,
    pub url: String,
}

/// A page that has arrived and is to be stored.
#[derive(Debug, Clone, PartialEq, Eq)]
pub struct PageFile {
    /// The number of the page, counted from 1.
    pub page: usize,
    /// The name of the file that takes the body of the answer, as it came.
    pub file_name: String,
}

/// The download of the pages of one book.
#[derive(Debug, Clone, Copy, PartialEq, Eq)]
pub struct PageDownloader {
    cursor: FetchCursor,
}

impl View for PageDownloader {
    type V = CursorView;

    closed spec fn view(&self) -> CursorView {
        self.cursor@
    }
}

impl PageDownloader {
    /// The download of `page_count` pages, of which none has been asked for.
    pub fn new(page_count: usize) -> (d: PageDownloader)
        ensures
            d@ == CursorView::fresh(page_count as nat),
    {
        PageDownloader { cursor: FetchCursor::new(page_count) }
    }

    /// The download of the pages that `meta` lists.
    pub fn for_book(meta: &BookMeta) -> (d: PageDownloader)
        ensures
            d@ == CursorView::fresh(meta@.page_sizes.len()),
    {
        PageDownloader { cursor: FetchCursor::new(meta.page_count()) }
    }

    /// How many pages have arrived.
    pub fn pages_done(&self) -> (n: usize)
        ensures
            n == self@.done,
            n <= self@.total,
    {
        self.cursor.done()
    }

    /// The page that is to be fetched next: the one behind those that have
    /// arrived. `None` once all have arrived or one has failed.
    pub fn next_request(&self, reader_base: &str) -> (request: Option<PageRequest>)
        ensures
            match self@.pending() {
                Some(i) => request matches Some(q) && q.page == i + 1 && q.url@ == page_url_text(
                    reader_base@,
                    i + 1,
                ),
                None => request is None,
            },
    {
        match self.cursor.pending() {
            Some(i) => Some(PageRequest { page: i + 1, url: page_url(reader_base, i + 1) }),
            None => None,
        }
    }

    /// Takes the status that the pending page was answered with. A success
    /// gives the page and the file that its body goes to; a failure ends the
    /// download. Where no page was pending, nothing changes.
    pub fn record(&mut self, status: u16) -> (r: Result<Option<PageFile>, DownloadError>)
        ensures
            final(self)@ == old(self)@.record(status),
            match old(self)@.pending() {
                None => r matches Ok(None),
                Some(i) => if status_ok(status) {
                    r matches Ok(Some(file)) && file.page == i + 1 && file.file_name@
                        == page_file_text(i + 1)
                } else {
                    r matches Err(e) && e == DownloadError::HttpStatus(status)
                },
            },
    {
        match self.cursor.record(status) {
            Ok(Some(i)) => Ok(Some(PageFile { page: i + 1, file_name: page_file_name(i + 1) })),
            Ok(None) => Ok(None),
            Err(e) => Err(e),
        }
    }
}

/// Where the thumbnails are served from.
pub const THUMBNAIL_ROOT: &'static str = "https://a.digi4school.at/ebook/1723/thumbnails/";

/// How many thumbnails are fetched for a book of `page_count` pages: one for
/// each page but the last.
pub open spec fn thumbnail_total(page_count: nat) -> nat {
    if page_count == 0 {
        0
    } else {
        (page_count - 1) as nat
    }
}

/// The address of the thumbnail of page `page`.
pub open spec fn thumbnail_url_text(page: nat) -> Seq<char> {
    THUMBNAIL_ROOT@ + decimal_text(page) + ".jpg"@
}

/// The name of the file that holds the thumbnail of page `page`.
pub open spec fn thumbnail_file_text(page: nat) -> Seq<char> {
    "thumb_"@ + decimal_text(page) + ".jpg"@
}

/// How many thumbnails are fetched for a book of `page_count` pages.
pub fn thumbnail_count(page_count: usize) -> (n: usize)
    ensures
        n == thumbnail_total(page_count as nat),
{
    if page_count == 0 {
        0
    } else {
        page_count - 1
    }
}

/// The address of the thumbnail of page `page`.
pub fn thumbnail_url(page: usize) -> (url: String)
    ensures
        url@ == thumbnail_url_text(page as nat),
{
    let mut url = THUMBNAIL_ROOT.to_owned();
    push_decimal(&mut url, page);
    url.append(".jpg");
    url
}

/// The name of the file that holds the thumbnail of page `page`.
pub fn thumbnail_file_name(page: usize) -> (name: String)
    ensures
        name@ == thumbnail_file_text(page as nat),
{
    let mut name = "thumb_".to_owned();
    push_decimal(&mut name, page);
    name.append(".jpg");
    name
}

/// The download of the thumbnails of one book: those of page 1 up to the
/// page before the last, in order.
pub fn thumbnail_cursor(page_count: usize) -> (cursor: FetchCursor)
    ensures
        cursor@ == CursorView::fresh(thumbnail_total(page_count as nat)),
{
    FetchCursor::new(thumbnail_count(page_count))
}

} // verus!
