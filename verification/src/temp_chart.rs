//! Temperature history behind the chart: a draft buffer that the background
//! writer appends to and prunes, and a shared snapshot that readers get,
//! re-published at most once per publish interval.
use std::collections::VecDeque;
use std::sync::Arc;
use vstd::prelude::*;

verus! {

/// Default history window in seconds (the x-axis scale).
pub const HISTORY_SECONDS: i64 = 30;

/// Selectable history window lengths in seconds.
pub const HISTORY_WINDOW_OPTIONS: [i64; 3] = [15, 30, 60];

/// Buffer retention in milliseconds: the longest selectable window, so
/// switching windows never shows a gap.
pub const HISTORY_MAX_MS: i64 = 60_000;

/// How often the shared snapshot is refreshed (ms).
pub const HISTORY_PUBLISH_MS: i64 = 1_000;

/// `Arc::clone` from std: a new pointer to the same allocation, so the value
/// seen through it is the value seen through `a`.
#[verifier::external_body]
fn share<T>(a: &Arc<T>) -> (r: Arc<T>)
    ensures
        r == *a,
{
    Arc::clone(a)
}

/// One sampling instant: its timestamp and the reading of every sensor.
pub struct TempSample {
    pub ts_ms: i64,
    pub temps: Arc<Vec<(String, i32)>>,
}

impl Clone for TempSample {
    fn clone(&self) -> (r: Self)
        ensures
            r == *self,
    {
        TempSample { ts_ms: self.ts_ms, temps: share(&self.temps) }
    }
}

/// Double-buffered temperature history: `draft` is written in place,
/// `published` is what readers share.
#[derive(Clone)]
pub struct ThermalHistory {
    pub draft: VecDeque<TempSample>,
    pub published: Arc<VecDeque<TempSample>>,
    pub last_publish_ms: i64,
}

/// `s` without its leading samples taken at or before `cutoff`.
pub open spec fn drop_expired(s: Seq<TempSample>, cutoff: int) -> Seq<TempSample>
    decreases s.len(),
{
    if s.len() > 0 && s[0].ts_ms <= cutoff {
        drop_expired(s.drop_first(), cutoff)
    } else {
        s
    }
}

/// Timestamps never decrease along `s`.
pub open spec fn chronological(s: Seq<TempSample>) -> bool {
    forall|i: int, j: int| 0 <= i <= j < s.len() ==> s[i].ts_ms <= s[j].ts_ms
}

/// Every sample of `s` is newer than `cutoff`.
pub open spec fn all_after(s: Seq<TempSample>, cutoff: int) -> bool {
    forall|i: int| 0 <= i < s.len() ==> s[i].ts_ms > cutoff
}

/// Whether a snapshot taken at `now_ms` re-publishes the draft.
pub open spec fn publish_due(last_publish_ms: i64, now_ms: i64) -> bool {
    last_publish_ms == 0 || now_ms - last_publish_ms >= HISTORY_PUBLISH_MS
}

/// Pruning keeps a suffix of the samples.
pub proof fn lemma_drop_expired_suffix(s: Seq<TempSample>, cutoff: int)
    ensures
        drop_expired(s, cutoff).len() <= s.len(),
        drop_expired(s, cutoff) == s.subrange(s.len() - drop_expired(s, cutoff).len(), s.len() as int),
    decreases s.len(),
{
    if s.len() > 0 && s[0].ts_ms <= cutoff {
        lemma_drop_expired_suffix(s.drop_first(), cutoff);
        let r = drop_expired(s, cutoff);
        assert(s.drop_first().subrange(s.drop_first().len() - r.len(), s.drop_first().len() as int)
            =~= s.subrange(s.len() - r.len(), s.len() as int));
    } else {
        assert(s.subrange(0, s.len() as int) =~= s);
    }
}

/// On a chronological history, pruning leaves exactly the samples newer than
/// the cutoff, still in chronological order.
pub proof fn lemma_drop_expired_window(s: Seq<TempSample>, cutoff: int)
    requires
        chronological(s),
    ensures
        chronological(drop_expired(s, cutoff)),
        all_after(drop_expired(s, cutoff), cutoff),
        forall|i: int| 0 <= i < s.len() && #[trigger] s[i].ts_ms > cutoff
            ==> drop_expired(s, cutoff).contains(s[i]),
    decreases s.len(),
{
    lemma_drop_expired_suffix(s, cutoff);
    if s.len() > 0 && s[0].ts_ms <= cutoff {
        let t = s.drop_first();
        assert(chronological(t));
        lemma_drop_expired_window(t, cutoff);
        assert forall|i: int| 0 <= i < s.len() && #[trigger] s[i].ts_ms > cutoff
            implies drop_expired(s, cutoff).contains(s[i]) by {
            assert(i > 0);
            assert(t[i - 1] == s[i]);
        }
    } else {
        assert forall|i: int| 0 <= i < s.len() && #[trigger] s[i].ts_ms > cutoff
            implies drop_expired(s, cutoff).contains(s[i]) by {
            assert(drop_expired(s, cutoff)[i] == s[i]);
        }
        if s.len() > 0 {
            assert forall|i: int| 0 <= i < s.len() implies s[i].ts_ms > cutoff by {
                assert(s[0].ts_ms <= s[i].ts_ms);
            }
        }
    }
}

fn prune_expired(draft: &mut VecDeque<TempSample>, cutoff: i64)
    ensures
        final(draft)@ == drop_expired(old(draft)@, cutoff as int),
{
    let ghost target = drop_expired(old(draft)@, cutoff as int);
    while draft.len() > 0 && draft[0].ts_ms <= cutoff
        invariant
            drop_expired(draft@, cutoff as int) == target,
        decreases draft@.len(),
    {
        let ghost prev = draft@;
        let _ = draft.pop_front();
        assert(draft@ =~= prev.drop_first());
    }
}

impl ThermalHistory {
    pub fn new() -> (h: Self)
        ensures
            h.draft@ == Seq::<TempSample>::empty(),
            h.published@ == Seq::<TempSample>::empty(),
            h.last_publish_ms == 0,
    {
        ThermalHistory { draft: VecDeque::new(), published: Arc::new(VecDeque::new()), last_publish_ms: 0 }
    }

    /// Writer side: append a sample and drop the leading samples that fell
    /// out of the retention window ending at `now_ms`.
    pub fn push_sample(&mut self, sample: TempSample, now_ms: i64)
        requires
            now_ms >= i64::MIN + HISTORY_MAX_MS,
        ensures
            final(self).draft@ == drop_expired(old(self).draft@.push(sample), now_ms - HISTORY_MAX_MS),
            final(self).published == old(self).published,
            final(self).last_publish_ms == old(self).last_publish_ms,
    {
        self.draft.push_back(sample);
        let cutoff = now_ms - HISTORY_MAX_MS;
        prune_expired(&mut self.draft, cutoff);
    }

    /// Reader side: the shared snapshot, re-published from the draft when
    /// nothing was published yet (`last_publish_ms == 0`) or the publish
    /// interval has elapsed (the time difference is taken exactly, so it
    /// cannot overflow); otherwise the snapshot published before is handed
    /// out again.
    pub fn snapshot(&mut self, now_ms: i64) -> (snap: Arc<VecDeque<TempSample>>)
        ensures
            final(self).draft@ == old(self).draft@,
            publish_due(old(self).last_publish_ms, now_ms) ==> {
                &&& final(self).published@ == old(self).draft@
                &&& final(self).last_publish_ms == now_ms
            },
            !publish_due(old(self).last_publish_ms, now_ms) ==> {
                &&& final(self).published == old(self).published
                &&& final(self).last_publish_ms == old(self).last_publish_ms
            },
            snap == final(self).published,
    {
        if self.last_publish_ms == 0 || (now_ms as i128) - (self.last_publish_ms as i128) >= HISTORY_PUBLISH_MS as i128 {
            let copy = self.draft.clone();
            assert(copy@ =~= self.draft@);
            self.published = Arc::new(copy);
            self.last_publish_ms = now_ms;
        }
        share(&self.published)
    }
}

/// Law: after publishing at `t` (not the "never" mark 0), the snapshot is
/// re-published at most once per `HISTORY_PUBLISH_MS`: every snapshot taken
/// earlier than `t + HISTORY_PUBLISH_MS` hands out the published one again,
/// and the first one at or after it re-publishes.
pub proof fn lemma_publish_at_most_once_per_interval(t: i64, now_ms: i64)
    requires
        t != 0,
    ensures
        publish_due(t, now_ms) == (now_ms - t >= HISTORY_PUBLISH_MS),
{
}

/// Law: on a chronological history, appending a sample no older than the
/// newest one keeps the history chronological and leaves only samples inside
/// the retention window; every sample inside the window is kept.
pub proof fn lemma_push_keeps_window(draft: Seq<TempSample>, sample: TempSample, now_ms: i64)
    requires
        chronological(draft),
        draft.len() > 0 ==> draft.last().ts_ms <= sample.ts_ms,
    ensures
        ({
            let cutoff = now_ms - HISTORY_MAX_MS;
            let r = drop_expired(draft.push(sample), cutoff);
            &&& chronological(r)
            &&& all_after(r, cutoff)
            &&& (sample.ts_ms > cutoff ==> r.len() > 0 && r.last() == sample)
        }),
{
    let cutoff = now_ms - HISTORY_MAX_MS;
    let s = draft.push(sample);
    assert forall|i: int, j: int| 0 <= i <= j < s.len() implies s[i].ts_ms <= s[j].ts_ms by {
        if j == s.len() - 1 && i < j {
            assert(draft[i].ts_ms <= draft.last().ts_ms);
        }
    }
    lemma_drop_expired_window(s, cutoff);
    lemma_drop_expired_suffix(s, cutoff);
    let r = drop_expired(s, cutoff);
    if sample.ts_ms > cutoff {
        assert(s[s.len() - 1] == sample);
        assert(r.contains(sample));
        assert(r.len() > 0);
        assert(r.last() == s[s.len() - 1]);
    }
}

} // verus!
