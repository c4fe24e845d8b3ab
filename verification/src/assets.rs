//! The raster assets that the vector pages refer to: finding the references in
//! a page, and fetching what was found.
//!
//! A page refers to a primary image as `xlink:href="img/..."` and to a shade
//! overlay as `xlink:href="shade/..."`. The asset's number is the stem of the
//! last segment of the reference; its address is the reference under the
//! page's directory.

use vstd::prelude::*;
use vstd::string::StringExecFns;
use crate::errors::{DownloadError, ParseError, ParseErrorView};
use crate::http::status_ok;
use crate::fetch::{CursorView, FetchCursor};
use crate::pattern::{group_str, group_text, search, search_of, Groups};
use crate::text::{
    decimal_text, parse_usize, parsed_unsigned, push_decimal, segment_stem, stem_of,
};

verus! {

/// A reference to a primary image: group 1 is the relative reference.
pub const IMG_PATTERN: &'static str = r#"xlink:href="(img/[^"]+)"#;

/// A reference to a shade overlay: group 1 is the relative reference.
pub const SHADE_PATTERN: &'static str = r#"xlink:href="(shade/[^"]+)"#;

/// Where the books are served from; a book's directory is named by its id.
pub const EBOOK_ROOT: &'static str = "https://a.digi4school.at/ebook/";

/// The kind of a raster asset.
#[derive(Debug, Clone, Copy, PartialEq, Eq, Structural)]
pub enum ImgType {
    /// A primary image.
    Img,
    /// A shade overlay.
    Shade,
}

/// A raster asset that a page refers to.
#[derive(Debug, Clone, PartialEq, Eq)]
pub struct Img {
    /// The absolute address of the asset.
    pub url: String,
    /// The page that refers to the asset.
    pub page_number: usize,
    /// The number in the asset's own name.
    pub img_number: usize,
    pub img_type: ImgType,
}

/// An `Img` with its address as a sequence of characters.
pub struct ImgView {
    pub url: Seq<char>,
    pub page_number: nat,
    pub img_number: nat,
    pub img_type: ImgType,
}

impl View for Img {
    type V = ImgView;

    open spec fn view(&self) -> ImgView {
        ImgView {
            url: self.url@,
            page_number: self.page_number as nat,
            img_number: self.img_number as nat,
            img_type: self.img_type,
        }
    }
}

impl DeepView for Img {
    type V = ImgView;

    open spec fn deep_view(&self) -> ImgView {
        self@
    }
}

/// The word that stands for a kind in file names.
pub open spec fn kind_name(kind: ImgType) -> Seq<char> {
    match kind {
        ImgType::Img => "img"@,
        ImgType::Shade => "shade"@,
    }
}

/// The word that stands for a kind in file names.
pub fn get_img_name(img_type: &ImgType) -> (name: &'static str)
    ensures
        name@ == kind_name(*img_type),
{
    match img_type {
        ImgType::Img => "img",
        ImgType::Shade => "shade",
    }
}

/// The directory of the book `book_id`, with the slash that ends it.
pub open spec fn book_base_text(book_id: Seq<char>) -> Seq<char> {
    EBOOK_ROOT@ + book_id + seq!['/']
}

/// The directory of the book `book_id`: pages and assets are fetched under it.
pub fn book_base(book_id: &str) -> (base: String)
    ensures
        base@ == book_base_text(book_id@),
{
    let mut base = EBOOK_ROOT.to_owned();
    base.append(book_id);
    base.push('/');
    assert(base@ == book_base_text(book_id@)) by {
        assert((EBOOK_ROOT@ + book_id@).push('/') == EBOOK_ROOT@ + book_id@ + seq!['/']);
    }
    base
}

/// The address of the asset that the page of stem `stem` refers to as
/// `reference`, in the book directory `base`.
pub open spec fn asset_url_text(base: Seq<char>, stem: Seq<char>, reference: Seq<char>) -> Seq<
    char,
> {
    base + stem + seq!['/'] + reference
}

/// The asset that a reference stands for. The number of the asset is read
/// first, then that of the page; the text that is no number is reported.
pub open spec fn asset_of(base: Seq<char>, stem: Seq<char>, reference: Seq<char>, kind: ImgType)
    -> Result<ImgView, ParseErrorView> {
    match parsed_unsigned(segment_stem(reference), usize::MAX as nat) {
        None => Err(ParseErrorView::InvalidNumber(segment_stem(reference))),
        Some(img_number) => match parsed_unsigned(stem, usize::MAX as nat) {
            None => Err(ParseErrorView::InvalidNumber(stem)),
            Some(page_number) => Ok(
                ImgView {
                    url: asset_url_text(base, stem, reference),
                    page_number,
                    img_number,
                    img_type: kind,
                },
            ),
        },
    }
}

/// The assets that the matches of one pattern stand for, in document order; or
/// the failure of the first reference that stands for none.
pub open spec fn assets_of_kind(
    base: Seq<char>,
    stem: Seq<char>,
    matches: Seq<Seq<Option<Seq<char>>>>,
    kind: ImgType,
) -> Result<Seq<ImgView>, ParseErrorView>
    decreases matches.len(),
{
    if matches.len() == 0 {
        Ok(Seq::empty())
    } else {
        match assets_of_kind(base, stem, matches.drop_last(), kind) {
            Err(e) => Err(e),
            Ok(found) => match asset_of(base, stem, group_text(matches.last(), 1), kind) {
                Err(e) => Err(e),
                Ok(asset) => Ok(found.push(asset)),
            },
        }
    }
}

/// The assets of one page: its primary images in document order, then its
/// shade overlays in document order.
pub open spec fn page_assets_of(
    base: Seq<char>,
    stem: Seq<char>,
    img_matches: Seq<Seq<Option<Seq<char>>>>,
    shade_matches: Seq<Seq<Option<Seq<char>>>>,
) -> Result<Seq<ImgView>, ParseErrorView> {
    match assets_of_kind(base, stem, img_matches, ImgType::Img) {
        Err(e) => Err(e),
        Ok(images) => match assets_of_kind(base, stem, shade_matches, ImgType::Shade) {
            Err(e) => Err(e),
            Ok(shades) => Ok(images + shades),
        },
    }
}

/// The view of a list of assets or of the failure in its place.
pub open spec fn assets_view(r: Result<Vec<Img>, ParseError>) -> Result<
    Seq<ImgView>,
    ParseErrorView,
> {
    match r {
        Ok(found) => Ok(found.deep_view()),
        Err(e) => Err(e@),
    }
}

/// The references of one pattern are all read exactly if each stands for an
/// asset; there are then as many assets as references, each the asset of its
/// reference. Otherwise the failure is that of the first reference that
/// stands for none.
pub proof fn lemma_assets_of_kind(
    base: Seq<char>,
    stem: Seq<char>,
    matches: Seq<Seq<Option<Seq<char>>>>,
    kind: ImgType,
)
    ensures
        match assets_of_kind(base, stem, matches, kind) {
            Ok(found) => {
                &&& found.len() == matches.len()
                &&& forall|i: int|
                    0 <= i < matches.len() ==> asset_of(
                        base,
                        stem,
                        group_text(#[trigger] matches[i], 1),
                        kind,
                    ) == Ok::<ImgView, ParseErrorView>(found[i])
            },
            Err(e) => exists|i: int|
                {
                    &&& 0 <= i < matches.len()
                    &&& asset_of(base, stem, group_text(#[trigger] matches[i], 1), kind) == Err::<
                        ImgView,
                        ParseErrorView,
                    >(e)
                    &&& forall|j: int|
                        0 <= j < i ==> asset_of(
                            base,
                            stem,
                            group_text(#[trigger] matches[j], 1),
                            kind,
                        ) is Ok
                },
        },
    decreases matches.len(),
{
    if matches.len() > 0 {
        let front = matches.drop_last();
        lemma_assets_of_kind(base, stem, front, kind);
        match assets_of_kind(base, stem, front, kind) {
            Err(e) => {
                let i = choose|i: int|
                    {
                        &&& 0 <= i < front.len()
                        &&& asset_of(base, stem, group_text(#[trigger] front[i], 1), kind) == Err::<
                            ImgView,
                            ParseErrorView,
                        >(e)
                        &&& forall|j: int|
                            0 <= j < i ==> asset_of(
                                base,
                                stem,
                                group_text(#[trigger] front[j], 1),
                                kind,
                            ) is Ok
                    };
                assert(matches[i] == front[i]);
                assert forall|j: int| 0 <= j < i implies asset_of(
                    base,
                    stem,
                    group_text(#[trigger] matches[j], 1),
                    kind,
                ) is Ok by {
                    assert(matches[j] == front[j]);
                }
            },
            Ok(found) => {
                assert forall|j: int| 0 <= j < front.len() implies asset_of(
                    base,
                    stem,
                    group_text(#[trigger] matches[j], 1),
                    kind,
                ) == Ok::<ImgView, ParseErrorView>(found[j]) by {
                    assert(matches[j] == front[j]);
                }
                match asset_of(base, stem, group_text(matches.last(), 1), kind) {
                    Err(e) => {
                        let i = matches.len() - 1;
                        assert(asset_of(base, stem, group_text(matches[i], 1), kind) == Err::<
                            ImgView,
                            ParseErrorView,
                        >(e));
                    },
                    Ok(asset) => {},
                }
            },
        }
    }
}

/// Where the assets of a page are read, there are as many as the page holds
/// references: first its images, then its shades, each the asset of its
/// reference, each on the page whose number the stem states, and each at an
/// address under the book's directory.
pub proof fn lemma_page_assets(
    base: Seq<char>,
    stem: Seq<char>,
    img_matches: Seq<Seq<Option<Seq<char>>>>,
    shade_matches: Seq<Seq<Option<Seq<char>>>>,
)
    requires
        page_assets_of(base, stem, img_matches, shade_matches) is Ok,
    ensures
        ({
            let found = page_assets_of(base, stem, img_matches, shade_matches)->Ok_0;
            &&& found.len() == img_matches.len() + shade_matches.len()
            &&& forall|i: int|
                0 <= i < img_matches.len() ==> asset_of(
                    base,
                    stem,
                    group_text(#[trigger] img_matches[i], 1),
                    ImgType::Img,
                ) == Ok::<ImgView, ParseErrorView>(found[i])
            &&& forall|i: int|
                0 <= i < shade_matches.len() ==> asset_of(
                    base,
                    stem,
                    group_text(#[trigger] shade_matches[i], 1),
                    ImgType::Shade,
                ) == Ok::<ImgView, ParseErrorView>(found[img_matches.len() + i])
            &&& forall|i: int|
                0 <= i < found.len() ==> {
                    &&& parsed_unsigned(stem, usize::MAX as nat) == Some(
                        (#[trigger] found[i]).page_number,
                    )
                    &&& found[i].url.len() >= base.len()
                    &&& found[i].url.take(base.len() as int) == base
                }
        }),
{
    lemma_assets_of_kind(base, stem, img_matches, ImgType::Img);
    lemma_assets_of_kind(base, stem, shade_matches, ImgType::Shade);
    let images = assets_of_kind(base, stem, img_matches, ImgType::Img)->Ok_0;
    let shades = assets_of_kind(base, stem, shade_matches, ImgType::Shade)->Ok_0;
    let found = images + shades;
    assert forall|i: int| 0 <= i < found.len() implies {
        &&& parsed_unsigned(stem, usize::MAX as nat) == Some((#[trigger] found[i]).page_number)
        &&& found[i].url.len() >= base.len()
        &&& found[i].url.take(base.len() as int) == base
    } by {
        if i < images.len() {
            let reference = group_text(img_matches[i], 1);
            assert(asset_of(base, stem, reference, ImgType::Img) == Ok::<ImgView, ParseErrorView>(
                found[i],
            ));
            assert(asset_url_text(base, stem, reference).take(base.len() as int) == base);
        } else {
            let k = i - images.len();
            let reference = group_text(shade_matches[k], 1);
            assert(found[i] == shades[k]);
            assert(asset_of(base, stem, reference, ImgType::Shade) == Ok::<
                ImgView,
                ParseErrorView,
            >(found[i]));
            assert(asset_url_text(base, stem, reference).take(base.len() as int) == base);
        }
    }
    assert forall|i: int| 0 <= i < shade_matches.len() implies asset_of(
        base,
        stem,
        group_text(#[trigger] shade_matches[i], 1),
        ImgType::Shade,
    ) == Ok::<ImgView, ParseErrorView>(found[img_matches.len() + i]) by {
        assert(found[img_matches.len() + i] == shades[i]);
    }
}

/// A failure among the first `k` references is the failure of the whole list.
proof fn lemma_assets_prefix_error(
    base: Seq<char>,
    stem: Seq<char>,
    matches: Seq<Seq<Option<Seq<char>>>>,
    kind: ImgType,
    k: int,
)
    requires
        0 <= k <= matches.len(),
        assets_of_kind(base, stem, matches.take(k), kind) is Err,
    ensures
        assets_of_kind(base, stem, matches, kind) == assets_of_kind(
            base,
            stem,
            matches.take(k),
            kind,
        ),
    decreases matches.len() - k,
{
    if k == matches.len() {
        assert(matches.take(k) == matches);
    } else {
        assert(matches.take(k + 1).drop_last() == matches.take(k));
        lemma_assets_prefix_error(base, stem, matches, kind, k + 1);
    }
}

/// Builds the asset that a reference stands for.
pub fn asset_from_reference(base: &str, stem: &str, reference: &str, kind: ImgType) -> (r: Result<
    Img,
    ParseError,
>)
    ensures
        match asset_of(base@, stem@, reference@, kind) {
            Ok(asset) => r matches Ok(img) && img@ == asset,
            Err(e) => r matches Err(x) && x@ == e,
        },
{
    let number_text = stem_of(reference);
    let img_number = match parse_usize(number_text.as_str()) {
        Some(n) => n,
        None => {
            return Err(ParseError::InvalidNumber(number_text));
        },
    };
    let page_number = match parse_usize(stem) {
        Some(n) => n,
        None => {
            return Err(ParseError::InvalidNumber(stem.to_owned()));
        },
    };
    let mut url = base.to_owned();
    url.append(stem);
    url.push('/');
    url.append(reference);
    assert(url@ == asset_url_text(base@, stem@, reference@)) by {
        assert((base@ + stem@).push('/') == base@ + stem@ + seq!['/']);
    }
    Ok(Img { url, page_number, img_number, img_type: kind })
}

/// Appends to `out` the assets that the matches of one pattern stand for.
fn collect_kind(base: &str, stem: &str, matches: &Vec<Groups>, kind: ImgType, out: &mut Vec<Img>)
    -> (r: Result<(), ParseError>)
    ensures
        match assets_of_kind(base@, stem@, matches.deep_view(), kind) {
            Ok(found) => r is Ok && final(out).deep_view() == old(out).deep_view() + found,
            Err(e) => r matches Err(x) && x@ == e,
        },
{
    let ghost all = matches.deep_view();
    let ghost before = out.deep_view();
    let mut i: usize = 0;
    assert(before + Seq::<ImgView>::empty() == before);
    while i < matches.len()
        invariant
            i <= matches.len(),
            all == matches.deep_view(),
            assets_of_kind(base@, stem@, all.take(i as int), kind) is Ok,
            out.deep_view() == before + assets_of_kind(
                base@,
                stem@,
                all.take(i as int),
                kind,
            )->Ok_0,
        decreases matches.len() - i,
    {
        assert(all.take(i + 1).drop_last() == all.take(i as int));
        assert(all.take(i + 1).last() == matches[i as int].deep_view());
        let ghost found = assets_of_kind(base@, stem@, all.take(i as int), kind)->Ok_0;
        match asset_from_reference(base, stem, group_str(&matches[i], 1), kind) {
            Ok(img) => {
                let ghost held = out.deep_view();
                out.push(img);
                assert(out.deep_view() == held.push(img@));
                assert(before + found.push(img@) == (before + found).push(img@));
            },
            Err(e) => {
                proof {
                    lemma_assets_prefix_error(base@, stem@, all, kind, i + 1);
                }
                return Err(e);
            },
        }
        i += 1;
    }
    assert(all.take(i as int) == all);
    Ok(())
}

/// Builds the assets of one page from the matches of `IMG_PATTERN` and of
/// `SHADE_PATTERN` in it. `stem` is the page's file name without extension.
pub fn assets_from_matches(
    book_id: &str,
    stem: &str,
    img_matches: &Vec<Groups>,
    shade_matches: &Vec<Groups>,
) -> (r: Result<Vec<Img>, ParseError>)
    ensures
        assets_view(r) == page_assets_of(
            book_base_text(book_id@),
            stem@,
            img_matches.deep_view(),
            shade_matches.deep_view(),
        ),
{
    let base = book_base(book_id);
    let mut out: Vec<Img> = Vec::new();
    assert(out.deep_view() == Seq::<ImgView>::empty());
    match collect_kind(base.as_str(), stem, img_matches, ImgType::Img, &mut out) {
        Ok(()) => {},
        Err(e) => {
            return Err(e);
        },
    }
    let ghost images = out.deep_view();
    assert(Seq::<ImgView>::empty() + images == images);
    match collect_kind(base.as_str(), stem, shade_matches, ImgType::Shade, &mut out) {
        Ok(()) => {},
        Err(e) => {
            return Err(e);
        },
    }
    Ok(out)
}

/// A vector page as it lies on disk.
#[derive(Debug, Clone, PartialEq, Eq)]
pub struct SvgPage {
    /// The file's name without its extension: the number of the page.
    pub stem: String,
    /// The file's content.
    pub text: String,
}

impl DeepView for SvgPage {
    type V = (Seq<char>, Seq<char>);

    open spec fn deep_view(&self) -> (Seq<char>, Seq<char>) {
        (self.stem@, self.text@)
    }
}

/// The assets that a page of stem `stem` and content `text` refers to:
/// `page_assets_of` what the two patterns match in it. A pattern that the
/// matcher refuses is reported first.
pub open spec fn found_in_page(base: Seq<char>, stem: Seq<char>, text: Seq<char>) -> Result<
    Seq<ImgView>,
    ParseErrorView,
> {
    match search_of(IMG_PATTERN@, text) {
        Err(e) => Err(e),
        Ok(img_matches) => match search_of(SHADE_PATTERN@, text) {
            Err(e) => Err(e),
            Ok(shade_matches) => page_assets_of(base, stem, img_matches, shade_matches),
        },
    }
}

/// The assets that the pages refer to, page after page in the order given; or
/// the failure of the first page that has one.
pub open spec fn found_in_pages(base: Seq<char>, pages: Seq<(Seq<char>, Seq<char>)>) -> Result<
    Seq<ImgView>,
    ParseErrorView,
>
    decreases pages.len(),
{
    if pages.len() == 0 {
        Ok(Seq::empty())
    } else {
        match found_in_pages(base, pages.drop_last()) {
            Err(e) => Err(e),
            Ok(found) => match found_in_page(base, pages.last().0, pages.last().1) {
                Err(e) => Err(e),
                Ok(more) => Ok(found + more),
            },
        }
    }
}

/// A failure among the first `k` pages is the failure of the whole list.
proof fn lemma_pages_prefix_error(base: Seq<char>, pages: Seq<(Seq<char>, Seq<char>)>, k: int)
    requires
        0 <= k <= pages.len(),
        found_in_pages(base, pages.take(k)) is Err,
    ensures
        found_in_pages(base, pages) == found_in_pages(base, pages.take(k)),
    decreases pages.len() - k,
{
    if k == pages.len() {
        assert(pages.take(k) == pages);
    } else {
        assert(pages.take(k + 1).drop_last() == pages.take(k));
        lemma_pages_prefix_error(base, pages, k + 1);
    }
}

/// Finds the assets that one page refers to. `stem` is the page's file name
/// without extension, `text` its content.
pub fn page_assets(book_id: &str, stem: &str, text: &str) -> (r: Result<Vec<Img>, ParseError>)
    ensures
        assets_view(r) == found_in_page(book_base_text(book_id@), stem@, text@),
{
    let img_matches = match search(IMG_PATTERN, text) {
        Ok(found) => found,
        Err(e) => {
            return Err(e);
        },
    };
    let shade_matches = match search(SHADE_PATTERN, text) {
        Ok(found) => found,
        Err(e) => {
            return Err(e);
        },
    };
    assets_from_matches(book_id, stem, &img_matches, &shade_matches)
}

/// Finds the assets that the pages of a book refer to, page after page in the
/// order given. No pages give no assets.
pub fn get_img_urls(book_id: &str, pages: &Vec<SvgPage>) -> (r: Result<Vec<Img>, ParseError>)
    ensures
        assets_view(r) == found_in_pages(book_base_text(book_id@), pages.deep_view()),
{
    let ghost base = book_base_text(book_id@);
    let ghost all = pages.deep_view();
    let mut out: Vec<Img> = Vec::new();
    let mut i: usize = 0;
    assert(out.deep_view() == Seq::<ImgView>::empty());
    while i < pages.len()
        invariant
            i <= pages.len(),
            all == pages.deep_view(),
            base == book_base_text(book_id@),
            found_in_pages(base, all.take(i as int)) == Ok::<Seq<ImgView>, ParseErrorView>(
                out.deep_view(),
            ),
        decreases pages.len() - i,
    {
        assert(all.take(i + 1).drop_last() == all.take(i as int));
        assert(all.take(i + 1).last() == pages[i as int].deep_view());
        let page = &pages[i];
        let mut more = match page_assets(book_id, page.stem.as_str(), page.text.as_str()) {
            Ok(more) => more,
            Err(e) => {
                proof {
                    lemma_pages_prefix_error(base, all, i + 1);
                }
                return Err(e);
            },
        };
        let ghost held = out.deep_view();
        let ghost added = more.deep_view();
        out.append(&mut more);
        assert(out.deep_view() == held + added);
        i += 1;
    }
    assert(all.take(i as int) == all);
    Ok(out)
}

/// The name of the file that holds an asset: kind, page and number, joined by
/// underscores.
pub open spec fn asset_file_text(asset: ImgView) -> Seq<char> {
    kind_name(asset.img_type) + seq!['_'] + decimal_text(asset.page_number) + seq!['_']
        + decimal_text(asset.img_number) + ".png"@
}

/// The name of the file that holds an asset.
pub fn asset_file_name(asset: &Img) -> (name: String)
    ensures
        name@ == asset_file_text(asset@),
{
    let mut name = get_img_name(&asset.img_type).to_owned();
    name.push('_');
    push_decimal(&mut name, asset.page_number);
    name.push('_');
    push_decimal(&mut name, asset.img_number);
    name.append(".png");
    assert(name@ == asset_file_text(asset@)) by {
        let kind = kind_name(asset.img_type);
        let page = decimal_text(asset.page_number as nat);
        assert(kind.push('_') == kind + seq!['_']);
        assert((kind + seq!['_'] + page).push('_') == kind + seq!['_'] + page + seq!['_']);
    }
    name
}

/// An asset that has arrived and is to be stored.
#[derive(Debug, Clone, PartialEq, Eq)]
pub struct AssetFile {
    /// The place of the asset in the list that is being fetched.
    pub index: usize,
    /// The name of the file that takes the body of the answer, as it came.
    pub file_name: String,
}

/// How far the download of a list of assets has come.
pub struct AssetDownloadView {
    pub assets: Seq<ImgView>,
    pub progress: CursorView,
}

/// The download of a list of assets, in the order of the list.
#[derive(Debug)]
pub struct AssetDownloader {
    assets: Vec<Img>,
    cursor: FetchCursor,
}

impl View for AssetDownloader {
    type V = AssetDownloadView;

    closed spec fn view(&self) -> AssetDownloadView {
        AssetDownloadView { assets: self.assets.deep_view(), progress: self.cursor@ }
    }
}

impl AssetDownloader {
    /// The cursor runs over the assets of the list.
    #[verifier::type_invariant]
    spec fn cursor_fits(self) -> bool {
        self.cursor@.total == self.assets@.len()
    }

    /// The download of `assets`, of which none has been asked for.
    pub fn new(assets: Vec<Img>) -> (d: AssetDownloader)
        ensures
            d@.assets == assets.deep_view(),
            d@.progress == CursorView::fresh(assets@.len()),
    {
        let cursor = FetchCursor::new(assets.len());
        AssetDownloader { assets, cursor }
    }

    /// How many assets have arrived.
    pub fn assets_done(&self) -> (n: usize)
        ensures
            n == self@.progress.done,
            n <= self@.assets.len(),
            self@.progress.total == self@.assets.len(),
    {
        proof {
            use_type_invariant(self);
        }
        self.cursor.done()
    }

    /// The asset that is to be fetched next, at its own address: the one
    /// behind those that have arrived. `None` once all have arrived or one
    /// has failed.
    pub fn next_request(&self) -> (request: Option<&Img>)
        ensures
            self@.progress.total == self@.assets.len(),
            match self@.progress.pending() {
                Some(i) => request matches Some(asset) && asset@ == self@.assets[i as int],
                None => request is None,
            },
    {
        proof {
            use_type_invariant(self);
        }
        match self.cursor.pending() {
            Some(i) => Some(&self.assets[i]),
            None => None,
        }
    }

    /// Takes the status that the pending asset was answered with. A success
    /// gives the file that its body goes to; a failure ends the download.
    /// Where no asset was pending, nothing changes.
    pub fn record(&mut self, status: u16) -> (r: Result<Option<AssetFile>, DownloadError>)
        ensures
            final(self)@.assets == old(self)@.assets,
            final(self)@.progress == old(self)@.progress.record(status),
            match old(self)@.progress.pending() {
                None => r matches Ok(None),
                Some(i) => if status_ok(status) {
                    r matches Ok(Some(file)) && file.index == i && file.file_name@
                        == asset_file_text(old(self)@.assets[i as int])
                } else {
                    r matches Err(e) && e == DownloadError::HttpStatus(status)
                },
            },
    {
        proof {
            use_type_invariant(&*self);
        }
        match self.cursor.record(status) {
            Ok(Some(i)) => Ok(
                Some(AssetFile { index: i, file_name: asset_file_name(&self.assets[i]) }),
            ),
            Ok(None) => Ok(None),
            Err(e) => Err(e),
        }
    }
}

} // verus!
