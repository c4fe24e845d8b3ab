//! The record of a download: the metadata of a book together with the catalog
//! entry it came from and the time of the run, and the name under which the
//! record is filed.

use vstd::prelude::*;
use vstd::string::StringExecFns;
use crate::crawl::{ParsedBook, ParsedBookView};
use crate::metadata::{BookMeta, BookMetaView};
use crate::text::{chars_of, string_of};

verus! {

/// The most characters of a title that go into a file name.
pub const TITLE_LIMIT: usize = 85;

/// How often doubled underscores are halved when a title is made into a name.
pub const HALVINGS: usize = 5;

/// What ties the output of a run back to the catalog.
#[derive(Debug, Clone, PartialEq, Eq)]
pub struct BookComplete {
    /// When the run started.
    pub timestamp: String,
    pub book_meta: BookMeta,
    pub parsed_book: ParsedBook,
}

/// A `BookComplete` as mathematics.
pub struct BookCompleteView {
    pub timestamp: Seq<char>,
    pub book_meta: BookMetaView,
    pub parsed_book: ParsedBookView,
}

impl View for BookComplete {
    type V = BookCompleteView;

    open spec fn view(&self) -> BookCompleteView {
        BookCompleteView {
            timestamp: self.timestamp@,
            book_meta: self.book_meta@,
            parsed_book: self.parsed_book@,
        }
    }
}

impl BookComplete {
    /// The record of the run that started at `timestamp`.
    pub fn new(timestamp: &str, book_meta: BookMeta, parsed_book: ParsedBook) -> (record:
        BookComplete)
        ensures
            record@ == (BookCompleteView {
                timestamp: timestamp@,
                book_meta: book_meta@,
                parsed_book: parsed_book@,
            }),
    {
        BookComplete { timestamp: timestamp.to_owned(), book_meta, parsed_book }
    }
}

/// An ASCII letter or digit.
pub open spec fn is_ascii_alphanumeric(c: char) -> bool {
    ('0' <= c && c <= '9') || ('a' <= c && c <= 'z') || ('A' <= c && c <= 'Z')
}

/// The letters and digits of a title, and an underscore for each of its
/// spaces; every other character is left out.
pub open spec fn plain_title(title: Seq<char>) -> Seq<char>
    decreases title.len(),
{
    if title.len() == 0 {
        title
    } else if is_ascii_alphanumeric(title.last()) {
        plain_title(title.drop_last()).push(title.last())
    } else if title.last() == ' ' {
        plain_title(title.drop_last()).push('_')
    } else {
        plain_title(title.drop_last())
    }
}

/// One pass over `s` from the left that puts one underscore for each two that
/// stand side by side.
pub open spec fn halved(s: Seq<char>) -> Seq<char>
    decreases s.len(),
{
    if s.len() == 0 {
        s
    } else if s.len() >= 2 && s[0] == '_' && s[1] == '_' {
        seq!['_'] + halved(s.skip(2))
    } else {
        seq![s[0]] + halved(s.skip(1))
    }
}

/// `passes` passes of `halved`.
pub open spec fn halved_times(s: Seq<char>, passes: nat) -> Seq<char>
    decreases passes,
{
    if passes == 0 {
        s
    } else {
        halved(halved_times(s, (passes - 1) as nat))
    }
}

/// The part of a file name that stands for a title: its plain form, with
/// doubled underscores halved `HALVINGS` times, cut to `TITLE_LIMIT`
/// characters.
pub open spec fn title_in_name(title: Seq<char>) -> Seq<char> {
    let clean = halved_times(plain_title(title), HALVINGS as nat);
    if clean.len() <= TITLE_LIMIT {
        clean
    } else {
        clean.take(TITLE_LIMIT as int)
    }
}

/// A title in a file name is made of ASCII letters, digits and underscores,
/// and is no longer than `TITLE_LIMIT`.
pub proof fn lemma_title_in_name(title: Seq<char>)
    ensures
        title_in_name(title).len() <= TITLE_LIMIT,
        forall|i: int|
            0 <= i < title_in_name(title).len() ==> {
                let c = #[trigger] title_in_name(title)[i];
                is_ascii_alphanumeric(c) || c == '_'
            },
{
    lemma_plain_title(title);
    lemma_halved_times(plain_title(title), HALVINGS as nat);
}

/// The plain form of a title holds letters, digits and underscores only.
pub proof fn lemma_plain_title(title: Seq<char>)
    ensures
        plain_title(title).len() <= title.len(),
        forall|i: int|
            0 <= i < plain_title(title).len() ==> {
                let c = #[trigger] plain_title(title)[i];
                is_ascii_alphanumeric(c) || c == '_'
            },
    decreases title.len(),
{
    if title.len() > 0 {
        lemma_plain_title(title.drop_last());
    }
}

/// Halving brings in no character that was not there, and makes nothing longer.
pub proof fn lemma_halved(s: Seq<char>)
    ensures
        halved(s).len() <= s.len(),
        forall|i: int|
            0 <= i < halved(s).len() ==> exists|k: int|
                0 <= k < s.len() && s[k] == #[trigger] halved(s)[i],
    decreases s.len(),
{
    if s.len() > 0 {
        let step: int = if s.len() >= 2 && s[0] == '_' && s[1] == '_' {
            2
        } else {
            1
        };
        let rest = s.skip(step);
        lemma_halved(rest);
        let out = halved(s);
        assert forall|i: int| 0 <= i < out.len() implies exists|k: int|
            0 <= k < s.len() && s[k] == #[trigger] out[i] by {
            if i == 0 {
                assert(s[0] == out[0]);
            } else {
                assert(out[i] == halved(rest)[i - 1]);
                let k = choose|k: int| 0 <= k < rest.len() && rest[k] == halved(rest)[i - 1];
                assert(s[k + step] == out[i]);
            }
        }
    }
}

/// What holds of every character of a text holds of it after any number of
/// halvings, and the text grows no longer.
pub proof fn lemma_halved_times(s: Seq<char>, passes: nat)
    requires
        forall|i: int|
            0 <= i < s.len() ==> {
                let c = #[trigger] s[i];
                is_ascii_alphanumeric(c) || c == '_'
            },
    ensures
        halved_times(s, passes).len() <= s.len(),
        forall|i: int|
            0 <= i < halved_times(s, passes).len() ==> {
                let c = #[trigger] halved_times(s, passes)[i];
                is_ascii_alphanumeric(c) || c == '_'
            },
    decreases passes,
{
    if passes > 0 {
        let before = halved_times(s, (passes - 1) as nat);
        lemma_halved_times(s, (passes - 1) as nat);
        lemma_halved(before);
        let out = halved(before);
        assert forall|i: int| 0 <= i < out.len() implies {
            let c = #[trigger] out[i];
            is_ascii_alphanumeric(c) || c == '_'
        } by {
            let k = choose|k: int| 0 <= k < before.len() && before[k] == out[i];
            assert(is_ascii_alphanumeric(before[k]) || before[k] == '_');
        }
    }
}

/// The letters and digits of `title`, and an underscore for each space.
fn plain_chars(title: &Vec<char>) -> (out: Vec<char>)
    ensures
        out@ == plain_title(title@),
{
    let mut out: Vec<char> = Vec::new();
    let mut i: usize = 0;
    assert(title@.take(0) == Seq::<char>::empty());
    while i < title.len()
        invariant
            i <= title.len(),
            out@ == plain_title(title@.take(i as int)),
        decreases title.len() - i,
    {
        assert(title@.take(i + 1).drop_last() == title@.take(i as int));
        let c = title[i];
        if (c >= '0' && c <= '9') || (c >= 'a' && c <= 'z') || (c >= 'A' && c <= 'Z') {
            out.push(c);
        } else if c == ' ' {
            out.push('_');
        }
        i += 1;
    }
    assert(title@.take(i as int) == title@);
    out
}

/// One pass of halving.
fn halve(s: &Vec<char>) -> (out: Vec<char>)
    ensures
        out@ == halved(s@),
{
    let mut out: Vec<char> = Vec::new();
    let mut i: usize = 0;
    assert(s@.skip(0) == s@);
    while i < s.len()
        invariant
            i <= s.len(),
            out@ + halved(s@.skip(i as int)) == halved(s@),
        decreases s.len() - i,
    {
        let ghost rest = s@.skip(i as int);
        let ghost held = out@;
        assert(rest[0] == s@[i as int]);
        if i + 1 < s.len() && s[i] == '_' && s[i + 1] == '_' {
            assert(rest[1] == s@[i + 1]);
            assert(rest.skip(2) == s@.skip(i + 2));
            out.push('_');
            assert(out@ + halved(s@.skip(i + 2)) == held + (seq!['_'] + halved(rest.skip(2))));
            i += 2;
        } else {
            assert(rest.skip(1) == s@.skip(i + 1));
            out.push(s[i]);
            assert(out@ + halved(s@.skip(i + 1)) == held + (seq![rest[0]] + halved(rest.skip(1))));
            i += 1;
        }
    }
    assert(halved(s@.skip(i as int)) == Seq::<char>::empty());
    assert(out@ + Seq::<char>::empty() == out@);
    out
}

/// Makes a title into the part of a file name that stands for it.
pub fn sanitize_title(title: &str) -> (name: String)
    ensures
        name@ == title_in_name(title@),
{
    let chars = chars_of(title);
    let mut clean = plain_chars(&chars);
    let mut pass: usize = 0;
    while pass < HALVINGS
        invariant
            pass <= HALVINGS,
            clean@ == halved_times(plain_title(title@), pass as nat),
        decreases HALVINGS - pass,
    {
        clean = halve(&clean);
        pass += 1;
    }
    let end: usize = if clean.len() <= TITLE_LIMIT {
        clean.len()
    } else {
        TITLE_LIMIT
    };
    let name = string_of(&clean, 0, end);
    assert(clean@.subrange(0, clean@.len() as int) == clean@);
    name
}

/// The name of the file that takes the record of a book: the book's id, the
/// time of the run and the book's title.
pub open spec fn book_data_file_text(id: Seq<char>, timestamp: Seq<char>, title: Seq<char>) -> Seq<
    char,
> {
    "book_data_"@ + id + seq!['_'] + timestamp + seq!['_'] + title_in_name(title) + ".json"@
}

/// The name of the file that takes `record`.
pub fn book_data_file_name(record: &BookComplete) -> (name: String)
    ensures
        name@ == book_data_file_text(
            record@.parsed_book.id,
            record@.timestamp,
            record@.book_meta.title,
        ),
{
    let title = sanitize_title(record.book_meta.title.as_str());
    let mut name = "book_data_".to_owned();
    name.append(record.parsed_book.id.as_str());
    name.push('_');
    name.append(record.timestamp.as_str());
    name.push('_');
    name.append(title.as_str());
    name.append(".json");
    assert(name@ == book_data_file_text(
        record@.parsed_book.id,
        record@.timestamp,
        record@.book_meta.title,
    )) by {
        let a = "book_data_"@ + record@.parsed_book.id;
        assert(a.push('_') == a + seq!['_']);
        let b = a + seq!['_'] + record@.timestamp;
        assert(b.push('_') == b + seq!['_']);
    }
    name
}

} // verus!
