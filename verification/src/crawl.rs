//! The catalog: the books that the listing page of the portal shows.

use vstd::prelude::*;
use vstd::string::StringExecFns;
use crate::errors::{ParseError, ParseErrorView};
use crate::login::BASE_URL;
use crate::pattern::{group, group_text, search, search_of, Groups};

verus! {

/// The address of the listing page.
pub const LISTING_URL: &'static str = "https://digi4school.at/ebooks";

/// One book of the listing. The groups are, in order: the relative address
/// of the book, its code, its id, its visibility, the address of its cover,
/// its title, its publisher, and its date of expiry with the padding around
/// it.
pub const BOOK_PATTERN: &'static str =
    r#"<a href='([^']+)'[^>]+?data-code='([^']+)' data-id='([^']+)' class='(bag|all)'[^>]*>.+?src='([^']+)'.+?<h1>([^']+)</h1>.+?<span class='publisher'>([^<]+)</span>.+?<h4>([^<]+)</h4>.+?</a>"#;

/// A book of the catalog.
#[derive(Debug, Clone, PartialEq, Eq)]
pub struct ParsedBook {
    /// The address of the book, relative to the portal.
    pub url: String,
    pub code: String,
    /// The key of the book in the catalog; it names the book's directory.
    pub id: String,
    pub visibility: String,
    pub cover_url: String,
    pub title: String,
    pub publisher: String,
    pub expiry_date: String,
}

/// A `ParsedBook` with texts as sequences of characters.
pub struct ParsedBookView {
    pub url: Seq<char>,
    pub code: Seq<char>,
    pub id: Seq<char>,
    pub visibility: Seq<char>,
    pub cover_url: Seq<char>,
    pub title: Seq<char>,
    pub publisher: Seq<char>,
    pub expiry_date: Seq<char>,
}

impl View for ParsedBook {
    type V = ParsedBookView;

    open spec fn view(&self) -> ParsedBookView {
        ParsedBookView {
            url: self.url@,
            code: self.code@,
            id: self.id@,
            visibility: self.visibility@,
            cover_url: self.cover_url@,
            title: self.title@,
            publisher: self.publisher@,
            expiry_date: self.expiry_date@,
        }
    }
}

impl DeepView for ParsedBook {
    type V = ParsedBookView;

    open spec fn deep_view(&self) -> ParsedBookView {
        self@
    }
}

/// The book that one match of `BOOK_PATTERN` states.
pub open spec fn book_of(groups: Seq<Option<Seq<char>>>) -> ParsedBookView {
    ParsedBookView {
        url: group_text(groups, 1),
        code: group_text(groups, 2),
        id: group_text(groups, 3),
        visibility: group_text(groups, 4),
        cover_url: group_text(groups, 5),
        title: group_text(groups, 6),
        publisher: group_text(groups, 7),
        expiry_date: group_text(groups, 8),
    }
}

/// The books that the matches state: one for each match, in document order,
/// a book that is listed twice being kept twice.
pub open spec fn books_of(matches: Seq<Seq<Option<Seq<char>>>>) -> Seq<ParsedBookView> {
    Seq::new(matches.len(), |i: int| book_of(matches[i]))
}

/// The view of a catalog or of the failure in its place.
pub open spec fn catalog_view(r: Result<Vec<ParsedBook>, ParseError>) -> Result<
    Seq<ParsedBookView>,
    ParseErrorView,
> {
    match r {
        Ok(books) => Ok(books.deep_view()),
        Err(e) => Err(e@),
    }
}

/// Builds the catalog from the matches of `BOOK_PATTERN` in the listing.
pub fn books_from_matches(matches: &Vec<Groups>) -> (books: Vec<ParsedBook>)
    ensures
        books.deep_view() == books_of(matches.deep_view()),
{
    let mut books: Vec<ParsedBook> = Vec::new();
    let mut i: usize = 0;
    while i < matches.len()
        invariant
            i <= matches.len(),
            books.deep_view() == books_of(matches.deep_view()).take(i as int),
        decreases matches.len() - i,
    {
        let groups = &matches[i];
        let ghost held = books.deep_view();
        let book = ParsedBook {
            url: group(groups, 1),
            code: group(groups, 2),
            id: group(groups, 3),
            visibility: group(groups, 4),
            cover_url: group(groups, 5),
            title: group(groups, 6),
            publisher: group(groups, 7),
            expiry_date: group(groups, 8),
        };
        books.push(book);
        assert(books.deep_view() == held.push(book@));
        i += 1;
    }
    books
}

/// The catalog that a listing states: the books that the matches of
/// `BOOK_PATTERN` in it state; or `BadPattern` where the matcher refuses the
/// pattern.
pub open spec fn books_in(listing: Seq<char>) -> Result<Seq<ParsedBookView>, ParseErrorView> {
    match search_of(BOOK_PATTERN@, listing) {
        Err(e) => Err(e),
        Ok(matches) => Ok(books_of(matches)),
    }
}

/// Reads the catalog from the listing page. A listing without books gives an
/// empty catalog.
pub fn get_books(listing_html: &str) -> (r: Result<Vec<ParsedBook>, ParseError>)
    ensures
        catalog_view(r) == books_in(listing_html@),
{
    match search(BOOK_PATTERN, listing_html) {
        Ok(matches) => Ok(books_from_matches(&matches)),
        Err(e) => Err(e),
    }
}

/// For a caller to whom an empty catalog is a failure: the catalog as it is,
/// or `NoMatches` where it is empty.
pub fn require_books(books: Vec<ParsedBook>) -> (r: Result<Vec<ParsedBook>, ParseError>)
    ensures
        books@.len() > 0 ==> r == Ok::<Vec<ParsedBook>, ParseError>(books),
        books@.len() == 0 ==> r == Err::<Vec<ParsedBook>, ParseError>(ParseError::NoMatches),
{
    if books.len() == 0 {
        Err(ParseError::NoMatches)
    } else {
        Ok(books)
    }
}

/// The address at which the reader of `book` is entered.
pub open spec fn reader_entry_text(book: ParsedBookView) -> Seq<char> {
    BASE_URL@ + book.url
}

/// The address at which the reader of `book` is entered: the form handshake
/// starts there.
pub fn reader_entry_url(book: &ParsedBook) -> (url: String)
    ensures
        url@ == reader_entry_text(book@),
{
    let mut url = BASE_URL.to_owned();
    url.append(book.url.as_str());
    url
}

} // verus!
