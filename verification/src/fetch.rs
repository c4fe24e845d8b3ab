//! Fetching a list of things one after the other: each is asked for only when
//! the one before it has arrived, and the first failure ends the run. Pages,
//! assets and thumbnails are all fetched this way.

use vstd::prelude::*;
use crate::errors::DownloadError;
use crate::http::{is_success, status_ok};

verus! {

/// How far a sequential fetch has come.
pub struct CursorView {
    /// How many items there are.
    pub total: nat,
    /// How many have arrived: the items before this index.
    pub done: nat,
    /// Whether a fetch has failed.
    pub failed: bool,
}

impl CursorView {
    /// A fetch of `total` items of which none has been asked for.
    pub open spec fn fresh(total: nat) -> CursorView {
        CursorView { total, done: 0, failed: false }
    }

    /// The index of the item that is to be fetched next; `None` once all have
    /// arrived or one has failed.
    pub open spec fn pending(self) -> Option<nat> {
        if !self.failed && self.done < self.total {
            Some(self.done)
        } else {
            None
        }
    }

    /// The state after the pending item was answered with `status`. Where
    /// nothing is pending, an answer changes nothing.
    pub open spec fn record(self, status: u16) -> CursorView {
        if self.pending() is None {
            self
        } else if status_ok(status) {
            CursorView { done: self.done + 1, ..self }
        } else {
            CursorView { failed: true, ..self }
        }
    }

    /// The state after the answers `statuses`, in their order.
    pub open spec fn run(self, statuses: Seq<u16>) -> CursorView
        decreases statuses.len(),
    {
        if statuses.len() == 0 {
            self
        } else {
            self.run(statuses.drop_last()).record(statuses.last())
        }
    }
}

/// While every answer is a success, the items are asked for in their order,
/// each once: after `k` answers the item of index `k` is pending, and after as
/// many answers as there are items nothing is.
pub proof fn lemma_fetched_in_order(total: nat, statuses: Seq<u16>)
    requires
        statuses.len() <= total,
        forall|i: int| 0 <= i < statuses.len() ==> status_ok(#[trigger] statuses[i]),
    ensures
        CursorView::fresh(total).run(statuses) == (CursorView {
            total,
            done: statuses.len(),
            failed: false,
        }),
        statuses.len() < total ==> CursorView::fresh(total).run(statuses).pending() == Some(
            statuses.len(),
        ),
        statuses.len() == total ==> CursorView::fresh(total).run(statuses).pending() is None,
    decreases statuses.len(),
{
    if statuses.len() > 0 {
        let front = statuses.drop_last();
        assert forall|i: int| 0 <= i < front.len() implies status_ok(#[trigger] front[i]) by {
            assert(front[i] == statuses[i]);
        }
        lemma_fetched_in_order(total, front);
    }
}

/// The first failure ends the run: if answer `k` is the first that is no
/// success, then whatever answers follow, the items before `k` have arrived,
/// and nothing more is asked for.
pub proof fn lemma_failure_ends_run(total: nat, statuses: Seq<u16>, k: int)
    requires
        0 <= k < statuses.len(),
        k < total,
        !status_ok(statuses[k]),
        forall|i: int| 0 <= i < k ==> status_ok(#[trigger] statuses[i]),
    ensures
        CursorView::fresh(total).run(statuses) == (CursorView {
            total,
            done: k as nat,
            failed: true,
        }),
        CursorView::fresh(total).run(statuses).pending() is None,
    decreases statuses.len(),
{
    let front = statuses.drop_last();
    if k == statuses.len() - 1 {
        assert forall|i: int| 0 <= i < front.len() implies status_ok(#[trigger] front[i]) by {
            assert(front[i] == statuses[i]);
        }
        lemma_fetched_in_order(total, front);
    } else {
        assert(front[k] == statuses[k]);
        assert forall|i: int| 0 <= i < k implies status_ok(#[trigger] front[i]) by {
            assert(front[i] == statuses[i]);
        }
        lemma_failure_ends_run(total, front, k);
    }
}

/// No run asks for more items than there are, nor for one behind a failure.
pub proof fn lemma_run_stays_within(total: nat, statuses: Seq<u16>)
    ensures
        CursorView::fresh(total).run(statuses).total == total,
        CursorView::fresh(total).run(statuses).done <= total,
        CursorView::fresh(total).run(statuses).done <= statuses.len(),
    decreases statuses.len(),
{
    if statuses.len() > 0 {
        lemma_run_stays_within(total, statuses.drop_last());
    }
}

/// The progress of one sequential fetch.
#[derive(Debug, Clone, Copy, PartialEq, Eq)]
pub struct FetchCursor {
    total: usize,
    done: usize,
    failed: bool,
}

impl View for FetchCursor {
    type V = CursorView;

    closed spec fn view(&self) -> CursorView {
        CursorView { total: self.total as nat, done: self.done as nat, failed: self.failed }
    }
}

impl FetchCursor {
    /// No more items have arrived than there are.
    #[verifier::type_invariant]
    spec fn within_total(self) -> bool {
        self.done <= self.total
    }

    /// A fetch of `total` items of which none has been asked for.
    pub fn new(total: usize) -> (cursor: FetchCursor)
        ensures
            cursor@ == CursorView::fresh(total as nat),
    {
        FetchCursor { total, done: 0, failed: false }
    }

    /// How many items there are.
    pub fn total(&self) -> (n: usize)
        ensures
            n == self@.total,
    {
        self.total
    }

    /// How many items have arrived.
    pub fn done(&self) -> (n: usize)
        ensures
            n == self@.done,
            n <= self@.total,
    {
        proof {
            use_type_invariant(self);
        }
        self.done
    }

    /// Whether a fetch has failed.
    pub fn failed(&self) -> (b: bool)
        ensures
            b == self@.failed,
    {
        self.failed
    }

    /// The index of the item that is to be fetched next.
    pub fn pending(&self) -> (index: Option<usize>)
        ensures
            self@.total <= usize::MAX,
            match self@.pending() {
                Some(i) => index == Some(i as usize),
                None => index is None,
            },
    {
        if !self.failed && self.done < self.total {
            Some(self.done)
        } else {
            None
        }
    }

    /// Takes the status that the pending item was answered with. A success
    /// gives the index of the item that has arrived; a failure ends the run.
    /// Where nothing was pending, nothing changes and nothing is given.
    pub fn record(&mut self, status: u16) -> (r: Result<Option<usize>, DownloadError>)
        ensures
            final(self)@ == old(self)@.record(status),
            old(self)@.total <= usize::MAX,
            match old(self)@.pending() {
                None => r == Ok::<Option<usize>, DownloadError>(None),
                Some(i) => if status_ok(status) {
                    r == Ok::<Option<usize>, DownloadError>(Some(i as usize))
                } else {
                    r == Err::<Option<usize>, DownloadError>(DownloadError::HttpStatus(status))
                },
            },
        no_unwind
    {
        proof {
            use_type_invariant(&*self);
        }
        if self.failed || self.done >= self.total {
            Ok(None)
        } else if is_success(status) {
            let index = self.done;
            self.done = self.done + 1;
            Ok(Some(index))
        } else {
            self.failed = true;
            Err(DownloadError::HttpStatus(status))
        }
    }
}

} // verus!
