use vstd::prelude::*;

use crate::record::CapRecord;

verus! {

/// The records of `s` whose flag in `keep` is set, in their order in `s`.
pub open spec fn select(s: Seq<CapRecord>, keep: Seq<bool>) -> Seq<CapRecord>
    decreases s.len(),
{
    if s.len() == 0 {
        Seq::empty()
    } else {
        let rest = select(s.drop_last(), keep.drop_last());
        if keep.last() {
            rest.push(s.last())
        } else {
            rest
        }
    }
}

/// The records held after logging each record of `es` in turn, one
/// `CapLog::capture` per record, starting from the records `held`.
pub open spec fn replay(held: Seq<CapRecord>, es: Seq<CapRecord>) -> Seq<CapRecord>
    decreases es.len(),
{
    if es.len() == 0 {
        held
    } else {
        replay(held, es.drop_last()).push(es.last())
    }
}

/// Logging a run of records keeps every one of them, once each, in the order
/// logged: the records held afterwards are those held before followed by the
/// run, and from a fresh state they are exactly the run.
pub proof fn lemma_capture_keeps_order(held: Seq<CapRecord>, es: Seq<CapRecord>)
    ensures
        replay(held, es) == held + es,
        replay(Seq::empty(), es) == es,
    decreases es.len(),
{
    if es.len() > 0 {
        lemma_capture_keeps_order(held, es.drop_last());
        lemma_capture_keeps_order(Seq::empty(), es.drop_last());
        assert((held + es.drop_last()).push(es.last()) =~= held + es);
    } else {
        assert(held + es =~= held);
    }
}

/// From the empty state that `CapLog::clear` leaves, the next record logged
/// is the only one held.
pub proof fn lemma_capture_after_clear(e: CapRecord)
    ensures
        replay(Seq::empty(), seq![e]).len() == 1,
        replay(Seq::empty(), seq![e]) == seq![e],
{
    lemma_capture_keeps_order(Seq::empty(), seq![e]);
}

/// Keeping the records on which a predicate answered `true` is filtering by
/// that predicate: the result is the subsequence, in the original order, of
/// exactly the records that satisfy it.
pub proof fn lemma_find_is_filter(
    s: Seq<CapRecord>,
    keep: Seq<bool>,
    pred: spec_fn(CapRecord) -> bool,
)
    requires
        keep.len() == s.len(),
        forall|i: int| 0 <= i < s.len() ==> keep[i] == pred(s[i]),
    ensures
        select(s, keep) == s.filter(pred),
        forall|e: CapRecord| select(s, keep).contains(e) <==> (s.contains(e) && pred(e)),
    decreases s.len(),
{
    reveal(Seq::filter);
    if s.len() > 0 {
        let d = s.drop_last();
        let rest = select(d, keep.drop_last());
        let out = select(s, keep);
        lemma_find_is_filter(d, keep.drop_last(), pred);
        assert forall|e: CapRecord| out.contains(e) <==> (s.contains(e) && pred(e)) by {
            if out.contains(e) {
                let k = choose|k: int| 0 <= k < out.len() && out[k] == e;
                if k < rest.len() {
                    assert(rest[k] == e);
                    assert(rest.contains(e));
                    assert(d.contains(e));
                    let j = choose|j: int| 0 <= j < d.len() && d[j] == e;
                    assert(s[j] == e);
                } else {
                    assert(s[s.len() - 1] == e);
                }
            }
            if s.contains(e) && pred(e) {
                let j = choose|j: int| 0 <= j < s.len() && s[j] == e;
                if j < s.len() - 1 {
                    assert(d[j] == e);
                    assert(d.contains(e));
                    let k = choose|k: int| 0 <= k < rest.len() && rest[k] == e;
                    assert(out[k] == e);
                } else {
                    assert(out[rest.len() as int] == e);
                }
            }
        }
    }
}

/// The capture state of one thread: every record logged since the last
/// reset, in the order in which they were logged.
pub struct CapLog {
    records: Vec<CapRecord>,
}

impl View for CapLog {
    type V = Seq<CapRecord>;

    closed spec fn view(&self) -> Seq<CapRecord> {
        self.records@
    }
}

/// The sink's answer to whether a record of `level` is wanted: every record
/// is, whatever its severity.
pub fn enabled(_level: log::Level) -> (r: bool)
    ensures
        r,
{
    true
}

impl CapLog {
    /// A capture state that holds no record yet.
    pub fn new() -> (r: CapLog)
        ensures
            r@ == Seq::<CapRecord>::empty(),
    {
        CapLog { records: Vec::new() }
    }

    /// Appends one logged record after those already held.
    pub fn capture(&mut self, record: CapRecord)
        ensures
            final(self)@ == old(self)@.push(record),
    {
        self.records.push(record);
    }

    /// Copies of all held records, in the order in which they were logged.
    pub fn get_all(&self) -> (r: Vec<CapRecord>)
        ensures
            r@ == self@,
    {
        let mut out: Vec<CapRecord> = Vec::new();
        let mut i: usize = 0;
        while i < self.records.len()
            invariant
                i <= self.records@.len(),
                out@ == self.records@.take(i as int),
            decreases self.records@.len() - i,
        {
            out.push(self.records[i].duplicate());
            i = i + 1;
            assert(out@ =~= self.records@.take(i as int));
        }
        assert(self.records@.take(i as int) =~= self.records@);
        out
    }

    /// Copies of the held records on which `matcher` answers `true`, in the
    /// order in which they were logged. `matcher` is asked once about each
    /// record, and its answer decides whether that record is kept.
    pub fn find<F>(&self, matcher: F) -> (r: Vec<CapRecord>) where F: Fn(&CapRecord) -> bool
        requires
            forall|i: int| 0 <= i < self@.len() ==> matcher.requires((&self@[i],)),
        ensures
            exists|keep: Seq<bool>|
                {
                    &&& keep.len() == self@.len()
                    &&& forall|i: int|
                        0 <= i < self@.len() ==> matcher.ensures((&self@[i],), #[trigger] keep[i])
                    &&& r@ == select(self@, keep)
                },
    {
        let ghost all = self.records@;
        let ghost mut keep: Seq<bool> = Seq::empty();
        let mut out: Vec<CapRecord> = Vec::new();
        let mut i: usize = 0;
        while i < self.records.len()
            invariant
                all == self.records@,
                all == self@,
                forall|j: int| 0 <= j < self@.len() ==> matcher.requires((&self@[j],)),
                i <= all.len(),
                keep.len() == i,
                forall|j: int| 0 <= j < i ==> matcher.ensures((&all[j],), #[trigger] keep[j]),
                out@ == select(all.take(i as int), keep),
            decreases all.len() - i,
        {
            let hit = matcher(&self.records[i]);
            if hit {
                out.push(self.records[i].duplicate());
            }
            proof {
                let ghost before = keep;
                keep = keep.push(hit);
                assert(all.take(i + 1).drop_last() =~= all.take(i as int));
                assert(keep.drop_last() =~= before);
            }
            i = i + 1;
        }
        assert(all.take(i as int) =~= all);
        out
    }

    /// Drops every held record.
    pub fn clear(&mut self)
        ensures
            final(self)@ == Seq::<CapRecord>::empty(),
    {
        self.records.clear();
    }
}

} // verus!
