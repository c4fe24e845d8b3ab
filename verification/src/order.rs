//! Page order. The pages of a book lie on disk in no order; whoever wants the
//! assets listed the same way on every run puts the pages in the order of
//! their numbers first.

use vstd::prelude::*;
use vstd::multiset::Multiset;
use crate::assets::{
    found_in_page, found_in_pages, lemma_page_assets, ImgView, SvgPage, IMG_PATTERN, SHADE_PATTERN,
};
use crate::pattern::search_of;
use crate::text::{parse_usize, parsed_unsigned};

verus! {

/// The number that a page's stem states, if it states one.
pub open spec fn page_key(stem: Seq<char>) -> Option<nat> {
    parsed_unsigned(stem, usize::MAX as nat)
}

/// A page of key `a` has its place before every page of key `b`: its number
/// is the smaller one, or it has a number and the other has none.
pub open spec fn key_before(a: Option<nat>, b: Option<nat>) -> bool {
    match (a, b) {
        (Some(x), Some(y)) => x < y,
        (Some(x), None) => true,
        (None, Some(y)) => false,
        (None, None) => false,
    }
}

/// `sorted` with `page` put in front of the first page that has not its place
/// before it.
pub open spec fn placed(page: (Seq<char>, Seq<char>), sorted: Seq<(Seq<char>, Seq<char>)>) -> Seq<
    (Seq<char>, Seq<char>),
>
    decreases sorted.len(),
{
    if sorted.len() > 0 && key_before(page_key(sorted[0].0), page_key(page.0)) {
        seq![sorted[0]] + placed(page, sorted.drop_first())
    } else {
        seq![page] + sorted
    }
}

/// The pages in the order of their numbers, those without a number last;
/// pages that are equal in this keep the order they came in.
pub open spec fn in_page_order(pages: Seq<(Seq<char>, Seq<char>)>) -> Seq<(Seq<char>, Seq<char>)>
    decreases pages.len(),
{
    if pages.len() == 0 {
        pages
    } else {
        placed(pages[0], in_page_order(pages.drop_first()))
    }
}

/// No page stands behind one that has its place after it.
pub open spec fn ordered(pages: Seq<(Seq<char>, Seq<char>)>) -> bool {
    forall|i: int, j: int|
        0 <= i < j < pages.len() ==> !key_before(
            page_key((#[trigger] pages[j]).0),
            page_key((#[trigger] pages[i]).0),
        )
}

/// Where `page` is put: behind the first `k` pages, which all have their
/// place before it, and in front of the page that follows, which has not.
proof fn lemma_placed_at(
    page: (Seq<char>, Seq<char>),
    sorted: Seq<(Seq<char>, Seq<char>)>,
    k: int,
)
    requires
        0 <= k <= sorted.len(),
        forall|i: int| 0 <= i < k ==> key_before(page_key(sorted[i].0), page_key(page.0)),
        k < sorted.len() ==> !key_before(page_key(sorted[k].0), page_key(page.0)),
    ensures
        placed(page, sorted) == sorted.insert(k, page),
    decreases k,
{
    if k == 0 {
        assert(seq![page] + sorted == sorted.insert(0, page));
    } else {
        let rest = sorted.drop_first();
        assert forall|i: int| 0 <= i < k - 1 implies key_before(
            page_key(rest[i].0),
            page_key(page.0),
        ) by {
            assert(rest[i] == sorted[i + 1]);
        }
        if k - 1 < rest.len() {
            assert(rest[k - 1] == sorted[k]);
        }
        lemma_placed_at(page, rest, k - 1);
        assert(seq![sorted[0]] + rest.insert(k - 1, page) == sorted.insert(k, page));
    }
}

/// Putting a page into ordered pages leaves them ordered, and adds that page
/// and no other.
proof fn lemma_placed(page: (Seq<char>, Seq<char>), sorted: Seq<(Seq<char>, Seq<char>)>)
    requires
        ordered(sorted),
    ensures
        ordered(placed(page, sorted)),
        placed(page, sorted).to_multiset() == sorted.to_multiset().insert(page),
    decreases sorted.len(),
{
    broadcast use vstd::seq_lib::group_to_multiset_ensures;

    let out = placed(page, sorted);
    if sorted.len() > 0 && key_before(page_key(sorted[0].0), page_key(page.0)) {
        let rest = sorted.drop_first();
        assert forall|i: int, j: int| 0 <= i < j < rest.len() implies !key_before(
            page_key((#[trigger] rest[j]).0),
            page_key((#[trigger] rest[i]).0),
        ) by {
            assert(rest[i] == sorted[i + 1] && rest[j] == sorted[j + 1]);
        }
        lemma_placed(page, rest);
        let tail = placed(page, rest);
        assert(out == seq![sorted[0]] + tail);
        assert forall|j: int| 0 <= j < tail.len() implies !key_before(
            page_key((#[trigger] tail[j]).0),
            page_key(sorted[0].0),
        ) by {
            assert(tail.to_multiset().count(tail[j]) > 0);
            if tail[j] != page {
                assert(rest.to_multiset().count(tail[j]) > 0);
                let k = choose|k: int| 0 <= k < rest.len() && rest[k] == tail[j];
                assert(rest[k] == sorted[k + 1]);
            }
        }
        assert forall|i: int, j: int| 0 <= i < j < out.len() implies !key_before(
            page_key((#[trigger] out[j]).0),
            page_key((#[trigger] out[i]).0),
        ) by {
            assert(out[j] == tail[j - 1]);
            if i > 0 {
                assert(out[i] == tail[i - 1]);
            }
        }
        assert(sorted == seq![sorted[0]] + rest);
        vstd::seq_lib::lemma_multiset_commutative(seq![sorted[0]], tail);
        vstd::seq_lib::lemma_multiset_commutative(seq![sorted[0]], rest);
    } else {
        assert(out == seq![page] + sorted);
        assert forall|i: int, j: int| 0 <= i < j < out.len() implies !key_before(
            page_key((#[trigger] out[j]).0),
            page_key((#[trigger] out[i]).0),
        ) by {
            assert(out[j] == sorted[j - 1]);
            if i > 0 {
                assert(out[i] == sorted[i - 1]);
            }
        }
        vstd::seq_lib::lemma_multiset_commutative(seq![page], sorted);
        assert(seq![page].to_multiset() == Multiset::<(Seq<char>, Seq<char>)>::empty().insert(
            page,
        )) by {
            assert(seq![page] == Seq::<(Seq<char>, Seq<char>)>::empty().push(page));
        }
    }
}

/// The pages in the order of their numbers are ordered, and they are the
/// pages that were given, each as often as it was given.
pub proof fn lemma_in_page_order(pages: Seq<(Seq<char>, Seq<char>)>)
    ensures
        ordered(in_page_order(pages)),
        in_page_order(pages).to_multiset() == pages.to_multiset(),
        in_page_order(pages).len() == pages.len(),
    decreases pages.len(),
{
    broadcast use vstd::seq_lib::group_to_multiset_ensures;

    if pages.len() > 0 {
        let rest = pages.drop_first();
        lemma_in_page_order(rest);
        lemma_placed(pages[0], in_page_order(rest));
        assert(pages == seq![pages[0]] + rest);
        vstd::seq_lib::lemma_multiset_commutative(seq![pages[0]], rest);
        assert(seq![pages[0]].to_multiset() == Multiset::<(Seq<char>, Seq<char>)>::empty().insert(
            pages[0],
        )) by {
            assert(seq![pages[0]] == Seq::<(Seq<char>, Seq<char>)>::empty().push(pages[0]));
        }
        in_page_order(pages).to_multiset_ensures();
        pages.to_multiset_ensures();
    }
}

/// The assets are listed page by page: none stands behind an asset of a page
/// with a greater number.
pub open spec fn listed_by_page(assets: Seq<ImgView>) -> bool {
    forall|i: int, j: int|
        0 <= i < j < assets.len() ==> (#[trigger] assets[i]).page_number <= (
        #[trigger] assets[j]).page_number
}

/// Every asset found in pages is on a page whose stem states its number.
proof fn lemma_assets_have_pages(base: Seq<char>, pages: Seq<(Seq<char>, Seq<char>)>)
    requires
        found_in_pages(base, pages) is Ok,
    ensures
        forall|i: int|
            0 <= i < found_in_pages(base, pages)->Ok_0.len() ==> exists|p: int|
                0 <= p < pages.len() && page_key(pages[p].0) == Some(
                    (#[trigger] found_in_pages(base, pages)->Ok_0[i]).page_number,
                ),
    decreases pages.len(),
{
    if pages.len() > 0 {
        let front = pages.drop_last();
        let last = pages.last();
        let found = found_in_pages(base, front)->Ok_0;
        let more = found_in_page(base, last.0, last.1)->Ok_0;
        let all = found_in_pages(base, pages)->Ok_0;
        lemma_assets_have_pages(base, front);
        lemma_page_assets(
            base,
            last.0,
            search_of(IMG_PATTERN@, last.1)->Ok_0,
            search_of(SHADE_PATTERN@, last.1)->Ok_0,
        );
        assert forall|i: int| 0 <= i < all.len() implies exists|p: int|
            0 <= p < pages.len() && page_key(pages[p].0) == Some(
                (#[trigger] all[i]).page_number,
            ) by {
            if i < found.len() {
                assert(all[i] == found[i]);
                let p = choose|p: int|
                    0 <= p < front.len() && page_key(front[p].0) == Some(found[i].page_number);
                assert(pages[p] == front[p]);
            } else {
                assert(all[i] == more[i - found.len()]);
                assert(page_key(pages[pages.len() - 1].0) == Some(all[i].page_number));
            }
        }
    }
}

/// The assets found in pages that are in the order of their numbers are
/// listed by page.
pub proof fn lemma_ordered_pages_list_by_page(base: Seq<char>, pages: Seq<(Seq<char>, Seq<char>)>)
    requires
        ordered(pages),
        found_in_pages(base, pages) is Ok,
    ensures
        listed_by_page(found_in_pages(base, pages)->Ok_0),
    decreases pages.len(),
{
    if pages.len() > 0 {
        let front = pages.drop_last();
        let last = pages.last();
        let found = found_in_pages(base, front)->Ok_0;
        let more = found_in_page(base, last.0, last.1)->Ok_0;
        let all = found_in_pages(base, pages)->Ok_0;
        assert forall|i: int, j: int| 0 <= i < j < front.len() implies !key_before(
            page_key((#[trigger] front[j]).0),
            page_key((#[trigger] front[i]).0),
        ) by {
            assert(front[i] == pages[i] && front[j] == pages[j]);
        }
        lemma_ordered_pages_list_by_page(base, front);
        lemma_assets_have_pages(base, front);
        lemma_page_assets(
            base,
            last.0,
            search_of(IMG_PATTERN@, last.1)->Ok_0,
            search_of(SHADE_PATTERN@, last.1)->Ok_0,
        );
        assert forall|i: int, j: int| 0 <= i < j < all.len() implies (
        #[trigger] all[i]).page_number <= (#[trigger] all[j]).page_number by {
            if j < found.len() {
                assert(all[i] == found[i] && all[j] == found[j]);
            } else {
                assert(all[j] == more[j - found.len()]);
                if i < found.len() {
                    assert(all[i] == found[i]);
                    let p = choose|p: int|
                        0 <= p < front.len() && page_key(front[p].0) == Some(
                            found[i].page_number,
                        );
                    assert(pages[p] == front[p]);
                    assert(!key_before(
                        page_key(pages[pages.len() - 1].0),
                        page_key(pages[p].0),
                    ));
                } else {
                    assert(all[i] == more[i - found.len()]);
                }
            }
        }
    }
}

/// Whether a page of key `a` has its place before every page of key `b`.
fn comes_before(a: Option<usize>, b: Option<usize>) -> (before: bool)
    ensures
        before == key_before(
            match a {
                Some(x) => Some(x as nat),
                None => None,
            },
            match b {
                Some(y) => Some(y as nat),
                None => None,
            },
        ),
{
    match (a, b) {
        (Some(x), Some(y)) => x < y,
        (Some(_), None) => true,
        (None, _) => false,
    }
}

/// The key of a page as the machine holds it.
fn key_of(stem: &str) -> (key: Option<usize>)
    ensures
        page_key(stem@) == match key {
            Some(n) => Some(n as nat),
            None => None::<nat>,
        },
{
    parse_usize(stem)
}

/// Puts the pages in the order of their numbers, those whose stem is no
/// number last; pages that are equal in this keep the order they came in.
pub fn sort_pages(pages: Vec<SvgPage>) -> (sorted: Vec<SvgPage>)
    ensures
        sorted.deep_view() == in_page_order(pages.deep_view()),
{
    let ghost all = pages.deep_view();
    let mut rest = pages;
    let mut sorted: Vec<SvgPage> = Vec::new();
    let mut keys: Vec<Option<usize>> = Vec::new();
    assert(all.skip(all.len() as int) == Seq::<(Seq<char>, Seq<char>)>::empty());
    assert(sorted.deep_view() == Seq::<(Seq<char>, Seq<char>)>::empty());
    while rest.len() > 0
        invariant
            rest.len() <= all.len(),
            rest.deep_view() == all.take(rest.len() as int),
            sorted.deep_view() == in_page_order(all.skip(rest.len() as int)),
            keys.len() == sorted.len(),
            forall|i: int|
                0 <= i < keys.len() ==> page_key(sorted[i].stem@) == match #[trigger] keys[i] {
                    Some(n) => Some(n as nat),
                    None => None::<nat>,
                },
        decreases rest.len(),
    {
        let ghost held = sorted.deep_view();
        let ghost before = rest.deep_view();
        let ghost n = rest.len() as int;
        let ghost taken = rest@;
        let page = rest.pop().unwrap();
        assert(rest.deep_view() == before.drop_last());
        assert(page.deep_view() == all[n - 1]) by {
            assert(page == taken[n - 1]);
            assert(before[n - 1] == taken[n - 1].deep_view());
            assert(all.take(n)[n - 1] == all[n - 1]);
        }
        assert(rest.deep_view() == all.take(n - 1));
        assert(all.skip(n - 1).drop_first() == all.skip(n));
        assert(all.skip(n - 1)[0] == all[n - 1]);
        let key = key_of(page.stem.as_str());
        let mut k: usize = 0;
        while k < keys.len() && comes_before(keys[k], key)
            invariant
                k <= keys.len(),
                keys.len() == sorted.len(),
                held == sorted.deep_view(),
                page_key(page.stem@) == match key {
                    Some(n) => Some(n as nat),
                    None => None::<nat>,
                },
                forall|i: int|
                    0 <= i < keys.len() ==> page_key(sorted[i].stem@) == match #[trigger] keys[i] {
                        Some(n) => Some(n as nat),
                        None => None::<nat>,
                    },
                forall|i: int|
                    0 <= i < k ==> key_before(page_key(held[i].0), page_key(page.stem@)),
            decreases keys.len() - k,
        {
            assert(held[k as int].0 == sorted[k as int].stem@);
            k += 1;
        }
        proof {
            if k < keys.len() {
                assert(held[k as int].0 == sorted[k as int].stem@);
            }
            lemma_placed_at(page.deep_view(), held, k as int);
        }
        let ghost old_sorted = sorted@;
        let ghost old_keys = keys@;
        sorted.insert(k, page);
        keys.insert(k, key);
        assert(sorted.deep_view() == held.insert(k as int, page.deep_view()));
        assert forall|i: int| 0 <= i < keys.len() implies page_key(sorted[i].stem@)
            == match #[trigger] keys[i] {
            Some(n) => Some(n as nat),
            None => None::<nat>,
        } by {
            if i < k {
                assert(sorted[i] == old_sorted[i] && keys[i] == old_keys[i]);
            } else if i > k {
                assert(sorted[i] == old_sorted[i - 1] && keys[i] == old_keys[i - 1]);
            }
        }
    }
    assert(all.skip(0) == all);
    sorted
}

} // verus!
