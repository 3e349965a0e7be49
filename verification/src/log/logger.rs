//! The logger: it passes each batch of logs sent to it on to every reader
//! (the treatments that track logs), in the order the batches came, until
//! it is closed; it may be closed once no entry (a treatment that sends
//! logs) is open.
use vstd::prelude::*;
use super::record::{Log, LogView, logs_view};

verus! {

/// The state of a logger: what each reader has received, which entries are
/// still open, and whether it is closed.
pub struct Logger {
    pub delivered: Vec<Vec<Log>>,
    pub entries_open: Vec<bool>,
    pub closed: bool,
}

/// The records of `a` followed by those of `b`.
fn extended(a: &Vec<Log>, b: &Vec<Log>) -> (r: Vec<Log>)
    ensures
        logs_view(r@) == logs_view(a@) + logs_view(b@),
{
    let mut r: Vec<Log> = Vec::new();
    let mut i: usize = 0;
    while i < a.len()
        invariant
            i <= a@.len(),
            logs_view(r@) == logs_view(a@).subrange(0, i as int),
        decreases a@.len() - i,
    {
        let ghost r0 = r@;
        r.push(a[i].duplicate());
        assert(logs_view(r@) =~= logs_view(r0).push(a@[i as int].view()));
        assert(logs_view(a@).subrange(0, i + 1) =~= logs_view(a@).subrange(0, i as int).push(a@[i as int].view()));
        i = i + 1;
    }
    let mut j: usize = 0;
    while j < b.len()
        invariant
            j <= b@.len(),
            logs_view(r@) == logs_view(a@) + logs_view(b@).subrange(0, j as int),
        decreases b@.len() - j,
    {
        let ghost r0 = r@;
        r.push(b[j].duplicate());
        assert(logs_view(r@) =~= logs_view(r0).push(b@[j as int].view()));
        assert(logs_view(b@).subrange(0, j + 1) =~= logs_view(b@).subrange(0, j as int).push(b@[j as int].view()));
        j = j + 1;
    }
    assert(logs_view(b@).subrange(0, b@.len() as int) =~= logs_view(b@));
    r
}

impl Logger {
    /// What each reader has received.
    pub open spec fn received(&self) -> Seq<Seq<LogView>> {
        self.delivered@.map_values(|d: Vec<Log>| logs_view(d@))
    }

    /// A logger with no reader and no entry, open.
    pub fn new() -> (r: Logger)
        ensures
            r.received().len() == 0,
            r.entries_open@.len() == 0,
            !r.closed,
    {
        Logger { delivered: Vec::new(), entries_open: Vec::new(), closed: false }
    }

    /// Adds a reader, which receives the batches sent from now on; gives its
    /// number.
    pub fn add_reader(&mut self) -> (k: usize)
        requires
            old(self).delivered@.len() < usize::MAX,
        ensures
            k == old(self).received().len(),
            final(self).received() == old(self).received().push(Seq::empty()),
            final(self).entries_open == old(self).entries_open,
            final(self).closed == old(self).closed,
    {
        let k = self.delivered.len();
        self.delivered.push(Vec::new());
        proof {
            assert(logs_view(Seq::<Log>::empty()) =~= Seq::<LogView>::empty());
            assert(self.received() =~= old(self).received().push(Seq::empty()));
        }
        k
    }

    /// Adds an entry, open; gives its number.
    pub fn add_entry(&mut self) -> (k: usize)
        ensures
            k == old(self).entries_open@.len(),
            final(self).entries_open@ == old(self).entries_open@.push(true),
            final(self).delivered == old(self).delivered,
            final(self).closed == old(self).closed,
    {
        let k = self.entries_open.len();
        self.entries_open.push(true);
        k
    }

    /// Marks the entry `k` as no longer sending.
    pub fn end_entry(&mut self, k: usize)
        requires
            k < old(self).entries_open@.len(),
        ensures
            final(self).entries_open@ == old(self).entries_open@.update(k as int, false),
            final(self).delivered == old(self).delivered,
            final(self).closed == old(self).closed,
    {
        self.entries_open.set(k, false);
    }

    /// Whether the logger may be closed: no entry is open.
    pub fn may_close(&self) -> (r: bool)
        ensures
            r == forall|k: int| 0 <= k < self.entries_open@.len() ==> !(#[trigger] self.entries_open@[k]),
    {
        let mut i: usize = 0;
        while i < self.entries_open.len()
            invariant
                i <= self.entries_open@.len(),
                forall|k: int| 0 <= k < i ==> !(#[trigger] self.entries_open@[k]),
            decreases self.entries_open@.len() - i,
        {
            if self.entries_open[i] {
                return false;
            }
            i = i + 1;
        }
        true
    }

    /// Closes the logger, as the treatment `stop` asks once no entry is
    /// open any more; answers whether it closed (the caller asks again
    /// while an entry is open).
    pub fn close_common(&mut self) -> (r: bool)
        ensures
            r == forall|k: int| 0 <= k < old(self).entries_open@.len() ==> !(#[trigger] old(self).entries_open@[k]),
            final(self).closed == (old(self).closed || r),
            final(self).delivered == old(self).delivered,
            final(self).entries_open == old(self).entries_open,
    {
        if self.may_close() {
            self.closed = true;
            true
        } else {
            false
        }
    }

    /// Closes the logger at once, as when the program shuts down: no batch
    /// is passed on any more.
    pub fn shutdown(&mut self)
        ensures
            final(self).closed,
            final(self).delivered == old(self).delivered,
            final(self).entries_open == old(self).entries_open,
    {
        self.closed = true;
    }

    /// Sends a batch of logs: an open logger passes it on to every reader
    /// and answers `true`; a closed one changes nothing and answers `false`.
    pub fn send_logs(&mut self, batch: &Vec<Log>) -> (r: bool)
        ensures
            r == !old(self).closed,
            final(self).closed == old(self).closed,
            final(self).entries_open == old(self).entries_open,
            final(self).received().len() == old(self).received().len(),
            forall|k: int|
                #![trigger final(self).received()[k]]
                0 <= k < old(self).received().len() ==> final(self).received()[k] == if r {
                    old(self).received()[k] + logs_view(batch@)
                } else {
                    old(self).received()[k]
                },
    {
        if self.closed {
            return false;
        }
        let ghost before = self.received();
        let n = self.delivered.len();
        let mut k: usize = 0;
        while k < n
            invariant
                k <= n,
                n == self.delivered@.len(),
                n == before.len(),
                !self.closed,
                self.closed == old(self).closed,
                self.entries_open == old(self).entries_open,
                before == old(self).received(),
                forall|j: int|
                    #![trigger self.received()[j]]
                    0 <= j < n ==> self.received()[j] == if j < k {
                        before[j] + logs_view(batch@)
                    } else {
                        before[j]
                    },
            decreases n - k,
        {
            let reader = extended(&self.delivered[k], batch);
            assert(self.received()[k as int] == logs_view(self.delivered@[k as int]@));
            let ghost mid = self.delivered@;
            let ghost mid_recv = self.received();
            self.delivered.set(k, reader);
            proof {
                assert forall|j: int| 0 <= j < n && j != k implies #[trigger] self.received()[j] == (if j < k + 1 {
                    before[j] + logs_view(batch@)
                } else {
                    before[j]
                }) by {
                    assert(self.delivered@[j] == mid[j]);
                    assert(self.received()[j] == logs_view(self.delivered@[j]@));
                    assert(mid_recv[j] == logs_view(mid[j]@));
                }
                assert(self.received()[k as int] == logs_view(self.delivered@[k as int]@));
            }
            k = k + 1;
        }
        true
    }
}

} // verus!
