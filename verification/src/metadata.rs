//! Reader metadata: what the first page of a reader session says about the book.
//! Two patterns are read from it independently: the meta tags, as name and
//! content, and the bracketed `[width,height]` pairs, one for each page.

use vstd::prelude::*;
use crate::errors::{parsed_view, ParseError, ParseErrorView};
use crate::pattern::{group_str, group_text, last_value, pairs_of, search, search_of, Groups};
use crate::text::{parse_u16, parsed_unsigned};

verus! {

/// A meta tag: group 1 is the name, group 2 the content.
pub const META_PATTERN: &'static str = r#"<meta name="([^"]+)"(?: |\n)+content="([^"]*)" ?\/>"#;

/// A bracketed pair of numerals: group 1 is the width, group 2 the height.
pub const PAGE_PATTERN: &'static str = r#"\[(\d+),(\d+)\]"#;

/// What stands for the first page where the markup does not name one.
pub const MISSING_FIRST_PAGE: &'static str = "___missing_first_page";

/// What the first page of a reader session says about a book.
#[derive(Debug, Clone, PartialEq, Eq)]
pub struct BookMeta {
    pub title: String,
    pub sb_number: String,
    pub first_page: String,
    pub publisher: String,
    pub publisher_web: String,
    pub publisher_address: String,
    pub publisher_tel: String,
    pub publisher_mail: String,
    /// Width and height of each page in pixels; page `n` is entry `n - 1`.
    pub page_sizes: Vec<[u16; 2]>,
}

/// A `BookMeta` as mathematics: texts as sequences, page sizes as pairs.
pub struct BookMetaView {
    pub title: Seq<char>,
    pub sb_number: Seq<char>,
    pub first_page: Seq<char>,
    pub publisher: Seq<char>,
    pub publisher_web: Seq<char>,
    pub publisher_address: Seq<char>,
    pub publisher_tel: Seq<char>,
    pub publisher_mail: Seq<char>,
    pub page_sizes: Seq<(nat, nat)>,
}

/// Width and height of each entry of a page-size list.
pub open spec fn size_pairs(sizes: Seq<[u16; 2]>) -> Seq<(nat, nat)> {
    Seq::new(sizes.len(), |i: int| (sizes[i][0] as nat, sizes[i][1] as nat))
}

impl View for BookMeta {
    type V = BookMetaView;

    open spec fn view(&self) -> BookMetaView {
        BookMetaView {
            title: self.title@,
            sb_number: self.sb_number@,
            first_page: self.first_page@,
            publisher: self.publisher@,
            publisher_web: self.publisher_web@,
            publisher_address: self.publisher_address@,
            publisher_tel: self.publisher_tel@,
            publisher_mail: self.publisher_mail@,
            page_sizes: size_pairs(self.page_sizes@),
        }
    }
}

impl BookMeta {
    /// The number of pages that can be retrieved for the book.
    pub fn page_count(&self) -> (n: usize)
        ensures
            n == self@.page_sizes.len(),
    {
        self.page_sizes.len()
    }
}

/// The names of the meta tags that a reader page must carry, in the order in
/// which their absence is reported.
pub open spec fn required_keys() -> Seq<Seq<char>> {
    seq![
        "title"@,
        "sbnr"@,
        "publisher"@,
        "publisherweb"@,
        "publisheradr"@,
        "publishertel"@,
        "publishermail"@,
    ]
}

/// The first of `keys` that no pair is named after.
pub open spec fn first_missing(pairs: Seq<(Seq<char>, Seq<char>)>, keys: Seq<Seq<char>>) -> Option<
    Seq<char>,
>
    decreases keys.len(),
{
    if keys.len() == 0 {
        None
    } else if last_value(pairs, keys[0]) is None {
        Some(keys[0])
    } else {
        first_missing(pairs, keys.drop_first())
    }
}

/// Width and height that one bracketed pair states, each an unsigned 16-bit
/// numeral; or the text of the first of the two that is none.
pub open spec fn page_size(groups: Seq<Option<Seq<char>>>) -> Result<(nat, nat), Seq<char>> {
    match parsed_unsigned(group_text(groups, 1), u16::MAX as nat) {
        None => Err(group_text(groups, 1)),
        Some(width) => match parsed_unsigned(group_text(groups, 2), u16::MAX as nat) {
            None => Err(group_text(groups, 2)),
            Some(height) => Ok((width, height)),
        },
    }
}

/// The page sizes that the bracketed pairs state, in document order; or the
/// text that failed in the first pair that does not state a size.
pub open spec fn page_sizes(matches: Seq<Seq<Option<Seq<char>>>>) -> Result<
    Seq<(nat, nat)>,
    Seq<char>,
>
    decreases matches.len(),
{
    if matches.len() == 0 {
        Ok(Seq::empty())
    } else {
        match page_sizes(matches.drop_last()) {
            Err(text) => Err(text),
            Ok(sizes) => match page_size(matches.last()) {
                Err(text) => Err(text),
                Ok(size) => Ok(sizes.push(size)),
            },
        }
    }
}

/// The content of the tag named `key`, or the empty text if there is none.
pub open spec fn value_or_empty(pairs: Seq<(Seq<char>, Seq<char>)>, key: Seq<char>) -> Seq<char> {
    match last_value(pairs, key) {
        Some(v) => v,
        None => Seq::empty(),
    }
}

/// The metadata that the matches of the two patterns state. A pair that states
/// no size is reported before a missing tag; of several missing tags the first
/// in the order of `required_keys` is reported.
pub open spec fn metadata_of(
    meta_matches: Seq<Seq<Option<Seq<char>>>>,
    page_matches: Seq<Seq<Option<Seq<char>>>>,
) -> Result<BookMetaView, ParseErrorView> {
    let pairs = pairs_of(meta_matches);
    match page_sizes(page_matches) {
        Err(text) => Err(ParseErrorView::InvalidNumber(text)),
        Ok(sizes) => match first_missing(pairs, required_keys()) {
            Some(key) => Err(ParseErrorView::MissingField(key)),
            None => Ok(
                BookMetaView {
                    title: value_or_empty(pairs, "title"@),
                    sb_number: value_or_empty(pairs, "sbnr"@),
                    first_page: match last_value(pairs, "firstPage"@) {
                        Some(v) => v,
                        None => MISSING_FIRST_PAGE@,
                    },
                    publisher: value_or_empty(pairs, "publisher"@),
                    publisher_web: value_or_empty(pairs, "publisherweb"@),
                    publisher_address: value_or_empty(pairs, "publisheradr"@),
                    publisher_tel: value_or_empty(pairs, "publishertel"@),
                    publisher_mail: value_or_empty(pairs, "publishermail"@),
                    page_sizes: sizes,
                },
            ),
        },
    }
}

/// The content of the last meta tag named `key`.
pub fn find_last<'a>(matches: &'a Vec<Groups>, key: &str) -> (found: Option<&'a str>)
    ensures
        found matches Some(v) ==> last_value(pairs_of(matches.deep_view()), key@) == Some(v@),
        found is None ==> last_value(pairs_of(matches.deep_view()), key@) is None,
{
    let ghost pairs = pairs_of(matches.deep_view());
    let mut i: usize = matches.len();
    assert(pairs.take(i as int) == pairs);
    while i > 0
        invariant
            i <= matches.len(),
            pairs == pairs_of(matches.deep_view()),
            last_value(pairs, key@) == last_value(pairs.take(i as int), key@),
        decreases i,
    {
        i -= 1;
        assert(pairs.take(i + 1).drop_last() == pairs.take(i as int));
        assert(pairs.take(i + 1).last() == pairs[i as int]);
        let name = group_str(&matches[i], 1);
        if crate::text::same_text(name, key) {
            return Some(group_str(&matches[i], 2));
        }
    }
    None
}

/// A key is named first among the missing ones exactly if it is absent and
/// every key before it is present.
pub proof fn lemma_first_missing_at(
    pairs: Seq<(Seq<char>, Seq<char>)>,
    keys: Seq<Seq<char>>,
    k: int,
)
    requires
        0 <= k < keys.len(),
        forall|j: int| 0 <= j < k ==> last_value(pairs, #[trigger] keys[j]) is Some,
        last_value(pairs, keys[k]) is None,
    ensures
        first_missing(pairs, keys) == Some(keys[k]),
    decreases k,
{
    if k > 0 {
        let rest = keys.drop_first();
        assert forall|j: int| 0 <= j < k - 1 implies last_value(pairs, #[trigger] rest[j])
            is Some by {
            assert(rest[j] == keys[j + 1]);
        }
        assert(rest[k - 1] == keys[k]);
        lemma_first_missing_at(pairs, rest, k - 1);
    }
}

/// No key is reported missing exactly if every key is present.
pub proof fn lemma_none_missing(pairs: Seq<(Seq<char>, Seq<char>)>, keys: Seq<Seq<char>>)
    requires
        forall|j: int| 0 <= j < keys.len() ==> last_value(pairs, #[trigger] keys[j]) is Some,
    ensures
        first_missing(pairs, keys) is None,
    decreases keys.len(),
{
    if keys.len() > 0 {
        let rest = keys.drop_first();
        assert forall|j: int| 0 <= j < rest.len() implies last_value(pairs, #[trigger] rest[j])
            is Some by {
            assert(rest[j] == keys[j + 1]);
        }
        lemma_none_missing(pairs, rest);
    }
}

/// The page sizes are read exactly if every bracketed pair states a size; they
/// are then as many as the pairs, each the size that its pair states. Otherwise
/// the text reported is the one that failed in the first pair that states none.
pub proof fn lemma_page_sizes(matches: Seq<Seq<Option<Seq<char>>>>)
    ensures
        match page_sizes(matches) {
            Ok(sizes) => {
                &&& sizes.len() == matches.len()
                &&& forall|i: int|
                    0 <= i < matches.len() ==> page_size(#[trigger] matches[i]) == Ok::<
                        (nat, nat),
                        Seq<char>,
                    >(sizes[i])
            },
            Err(text) => exists|i: int|
                {
                    &&& 0 <= i < matches.len()
                    &&& page_size(#[trigger] matches[i]) == Err::<(nat, nat), Seq<char>>(text)
                    &&& forall|j: int| 0 <= j < i ==> page_size(#[trigger] matches[j]) is Ok
                },
        },
    decreases matches.len(),
{
    if matches.len() > 0 {
        let front = matches.drop_last();
        lemma_page_sizes(front);
        match page_sizes(front) {
            Err(text) => {
                let i = choose|i: int|
                    {
                        &&& 0 <= i < front.len()
                        &&& page_size(#[trigger] front[i]) == Err::<(nat, nat), Seq<char>>(text)
                        &&& forall|j: int| 0 <= j < i ==> page_size(#[trigger] front[j]) is Ok
                    };
                assert(matches[i] == front[i]);
                assert forall|j: int| 0 <= j < i implies page_size(#[trigger] matches[j])
                    is Ok by {
                    assert(matches[j] == front[j]);
                }
            },
            Ok(sizes) => {
                assert forall|j: int| 0 <= j < front.len() implies page_size(
                    #[trigger] matches[j],
                ) == Ok::<(nat, nat), Seq<char>>(sizes[j]) by {
                    assert(matches[j] == front[j]);
                }
                match page_size(matches.last()) {
                    Err(text) => {
                        let i = matches.len() - 1;
                        assert(page_size(matches[i]) == Err::<(nat, nat), Seq<char>>(text));
                    },
                    Ok(size) => {},
                }
            },
        }
    }
}

/// Reads the page sizes that the bracketed pairs state.
pub fn read_page_sizes(matches: &Vec<Groups>) -> (r: Result<Vec<[u16; 2]>, ParseError>)
    ensures
        match page_sizes(matches.deep_view()) {
            Ok(sizes) => r matches Ok(v) && size_pairs(v@) == sizes,
            Err(text) => r matches Err(e) && e@ == ParseErrorView::InvalidNumber(text),
        },
{
    let ghost all = matches.deep_view();
    let mut out: Vec<[u16; 2]> = Vec::new();
    let mut i: usize = 0;
    assert(size_pairs(out@) == Seq::<(nat, nat)>::empty());
    while i < matches.len()
        invariant
            i <= matches.len(),
            all == matches.deep_view(),
            page_sizes(all.take(i as int)) == Ok::<Seq<(nat, nat)>, Seq<char>>(size_pairs(out@)),
        decreases matches.len() - i,
    {
        let ghost upto = all.take(i + 1);
        assert(upto.drop_last() == all.take(i as int));
        assert(upto.last() == matches[i as int].deep_view());
        let width_text = group_str(&matches[i], 1);
        let width = match parse_u16(width_text) {
            Some(w) => w,
            None => {
                proof {
                    lemma_page_sizes_prefix_error(all, i + 1);
                }
                return Err(ParseError::InvalidNumber(width_text.to_owned()));
            },
        };
        let height_text = group_str(&matches[i], 2);
        let height = match parse_u16(height_text) {
            Some(h) => h,
            None => {
                proof {
                    lemma_page_sizes_prefix_error(all, i + 1);
                }
                return Err(ParseError::InvalidNumber(height_text.to_owned()));
            },
        };
        let ghost before = out@;
        out.push([width, height]);
        assert(size_pairs(out@) == size_pairs(before).push((width as nat, height as nat)));
        i += 1;
    }
    assert(all.take(i as int) == all);
    Ok(out)
}

/// A failure among the first `k` pairs is the failure of the whole list.
proof fn lemma_page_sizes_prefix_error(matches: Seq<Seq<Option<Seq<char>>>>, k: int)
    requires
        0 <= k <= matches.len(),
        page_sizes(matches.take(k)) is Err,
    ensures
        page_sizes(matches) == page_sizes(matches.take(k)),
    decreases matches.len() - k,
{
    if k == matches.len() {
        assert(matches.take(k) == matches);
    } else {
        assert(matches.take(k + 1).drop_last() == matches.take(k));
        lemma_page_sizes_prefix_error(matches, k + 1);
    }
}

/// The content of the last meta tag named `key`, or the failure that names the
/// key where there is no such tag.
fn required_value(matches: &Vec<Groups>, key: &str) -> (r: Result<String, ParseError>)
    ensures
        match last_value(pairs_of(matches.deep_view()), key@) {
            Some(v) => r matches Ok(s) && s@ == v,
            None => r matches Err(e) && e@ == ParseErrorView::MissingField(key@),
        },
{
    match find_last(matches, key) {
        Some(v) => Ok(v.to_owned()),
        None => Err(ParseError::MissingField(key.to_owned())),
    }
}

/// Builds the metadata from the matches of the two patterns: `meta_matches`
/// those of `META_PATTERN`, `page_matches` those of `PAGE_PATTERN`, each in
/// document order.
pub fn metadata_from_matches(meta_matches: &Vec<Groups>, page_matches: &Vec<Groups>) -> (r: Result<
    BookMeta,
    ParseError,
>)
    ensures
        parsed_view(r) == metadata_of(meta_matches.deep_view(), page_matches.deep_view()),
{
    let ghost pairs = pairs_of(meta_matches.deep_view());
    let ghost keys = required_keys();
    let page_sizes = match read_page_sizes(page_matches) {
        Ok(sizes) => sizes,
        Err(e) => {
            return Err(e);
        },
    };
    let title = match required_value(meta_matches, "title") {
        Ok(v) => v,
        Err(e) => {
            proof {
                lemma_first_missing_at(pairs, keys, 0);
            }
            return Err(e);
        },
    };
    let sb_number = match required_value(meta_matches, "sbnr") {
        Ok(v) => v,
        Err(e) => {
            proof {
                lemma_first_missing_at(pairs, keys, 1);
            }
            return Err(e);
        },
    };
    let first_page = match find_last(meta_matches, "firstPage") {
        Some(v) => v.to_owned(),
        None => MISSING_FIRST_PAGE.to_owned(),
    };
    let publisher = match required_value(meta_matches, "publisher") {
        Ok(v) => v,
        Err(e) => {
            proof {
                lemma_first_missing_at(pairs, keys, 2);
            }
            return Err(e);
        },
    };
    let publisher_web = match required_value(meta_matches, "publisherweb") {
        Ok(v) => v,
        Err(e) => {
            proof {
                lemma_first_missing_at(pairs, keys, 3);
            }
            return Err(e);
        },
    };
    let publisher_address = match required_value(meta_matches, "publisheradr") {
        Ok(v) => v,
        Err(e) => {
            proof {
                lemma_first_missing_at(pairs, keys, 4);
            }
            return Err(e);
        },
    };
    let publisher_tel = match required_value(meta_matches, "publishertel") {
        Ok(v) => v,
        Err(e) => {
            proof {
                lemma_first_missing_at(pairs, keys, 5);
            }
            return Err(e);
        },
    };
    let publisher_mail = match required_value(meta_matches, "publishermail") {
        Ok(v) => v,
        Err(e) => {
            proof {
                lemma_first_missing_at(pairs, keys, 6);
            }
            return Err(e);
        },
    };
    proof {
        lemma_none_missing(pairs, keys);
    }
    Ok(
        BookMeta {
            title,
            sb_number,
            first_page,
            publisher,
            publisher_web,
            publisher_address,
            publisher_tel,
            publisher_mail,
            page_sizes,
        },
    )
}

/// The metadata that a page states: `metadata_of` what the two patterns match
/// in it. A pattern that the matcher refuses is reported first.
pub open spec fn metadata_in(page: Seq<char>) -> Result<BookMetaView, ParseErrorView> {
    match search_of(META_PATTERN@, page) {
        Err(e) => Err(e),
        Ok(meta_matches) => match search_of(PAGE_PATTERN@, page) {
            Err(e) => Err(e),
            Ok(page_matches) => metadata_of(meta_matches, page_matches),
        },
    }
}

/// Reads the metadata of a book from the first page of its reader session.
pub fn extract_metadata_from_initial_html(initial_book_html: &str) -> (r: Result<
    BookMeta,
    ParseError,
>)
    ensures
        parsed_view(r) == metadata_in(initial_book_html@),
{
    let meta_matches = match search(META_PATTERN, initial_book_html) {
        Ok(found) => found,
        Err(e) => {
            return Err(e);
        },
    };
    let page_matches = match search(PAGE_PATTERN, initial_book_html) {
        Ok(found) => found,
        Err(e) => {
            return Err(e);
        },
    };
    metadata_from_matches(&meta_matches, &page_matches)
}

/// Markup that carries every required tag, and whose bracketed pairs all state
/// a size, gives metadata: with as many page sizes as there are pairs, each the
/// size that its pair states, with each field the content of the last tag of
/// its name, and as first page the content of the tag `firstPage`, or the
/// sentinel where there is no such tag.
pub proof fn lemma_complete_markup_gives_metadata(
    meta_matches: Seq<Seq<Option<Seq<char>>>>,
    page_matches: Seq<Seq<Option<Seq<char>>>>,
)
    requires
        forall|k: int|
            0 <= k < required_keys().len() ==> last_value(
                pairs_of(meta_matches),
                #[trigger] required_keys()[k],
            ) is Some,
        forall|i: int| 0 <= i < page_matches.len() ==> page_size(#[trigger] page_matches[i]) is Ok,
    ensures
        metadata_of(meta_matches, page_matches) matches Ok(m) && {
            let pairs = pairs_of(meta_matches);
            &&& m.page_sizes.len() == page_matches.len()
            &&& forall|i: int|
                0 <= i < page_matches.len() ==> page_size(#[trigger] page_matches[i]) == Ok::<
                    (nat, nat),
                    Seq<char>,
                >(m.page_sizes[i])
            &&& last_value(pairs, "title"@) == Some(m.title)
            &&& last_value(pairs, "sbnr"@) == Some(m.sb_number)
            &&& last_value(pairs, "publisher"@) == Some(m.publisher)
            &&& last_value(pairs, "publisherweb"@) == Some(m.publisher_web)
            &&& last_value(pairs, "publisheradr"@) == Some(m.publisher_address)
            &&& last_value(pairs, "publishertel"@) == Some(m.publisher_tel)
            &&& last_value(pairs, "publishermail"@) == Some(m.publisher_mail)
            &&& last_value(pairs, "firstPage"@) is Some ==> last_value(pairs, "firstPage"@)
                == Some(m.first_page)
            &&& last_value(pairs, "firstPage"@) is None ==> m.first_page == MISSING_FIRST_PAGE@
        },
{
    let pairs = pairs_of(meta_matches);
    let keys = required_keys();
    lemma_page_sizes(page_matches);
    lemma_none_missing(pairs, keys);
    assert(keys[0] == "title"@);
    assert(keys[1] == "sbnr"@);
    assert(keys[2] == "publisher"@);
    assert(keys[3] == "publisherweb"@);
    assert(keys[4] == "publisheradr"@);
    assert(keys[5] == "publishertel"@);
    assert(keys[6] == "publishermail"@);
}

/// Markup that lacks a required tag is refused with a failure that names it:
/// the first such tag in the order of `required_keys`, provided that the
/// bracketed pairs all state a size.
pub proof fn lemma_missing_key_is_named(
    meta_matches: Seq<Seq<Option<Seq<char>>>>,
    page_matches: Seq<Seq<Option<Seq<char>>>>,
    k: int,
)
    requires
        0 <= k < required_keys().len(),
        last_value(pairs_of(meta_matches), required_keys()[k]) is None,
        forall|j: int|
            0 <= j < k ==> last_value(pairs_of(meta_matches), #[trigger] required_keys()[j])
                is Some,
        forall|i: int| 0 <= i < page_matches.len() ==> page_size(#[trigger] page_matches[i]) is Ok,
    ensures
        metadata_of(meta_matches, page_matches) == Err::<BookMetaView, ParseErrorView>(
            ParseErrorView::MissingField(required_keys()[k]),
        ),
{
    lemma_page_sizes(page_matches);
    lemma_first_missing_at(pairs_of(meta_matches), required_keys(), k);
}

/// A bracketed pair that states no size is reported whatever the tags hold.
pub proof fn lemma_bad_size_is_reported(
    meta_matches: Seq<Seq<Option<Seq<char>>>>,
    page_matches: Seq<Seq<Option<Seq<char>>>>,
    i: int,
)
    requires
        0 <= i < page_matches.len(),
        page_size(page_matches[i]) is Err,
        forall|j: int| 0 <= j < i ==> page_size(#[trigger] page_matches[j]) is Ok,
    ensures
        metadata_of(meta_matches, page_matches) == Err::<BookMetaView, ParseErrorView>(
            ParseErrorView::InvalidNumber(page_size(page_matches[i])->Err_0),
        ),
{
    lemma_page_sizes(page_matches);
}

} // verus!
