//! Audio output engine state: the set of live playback sinks, the global
//! buffer budget, the default volume, and the admission checks a streamed
//! download must pass.
//!
//! The engine here is the worker's ledger. The device, the decoder and the
//! network live outside the library; they report what happened (a buffer
//! synthesized or downloaded, a sink drained) and this state answers what
//! to do and accounts for every byte reserved against the budget.

use vstd::prelude::*;
use crate::channel::Pan;

verus! {

/// Why a buffer or a download is refused.
#[derive(Clone, Copy, Debug, PartialEq, Eq, Structural)]
pub enum CapacityError {
    /// The buffer alone exceeds the per-request maximum size.
    PerRequestLimit,
    /// The buffer does not fit in what is left of the global budget.
    GlobalBudget,
}

/// One active playback sink: a decoded buffer being played, the bytes it
/// reserved against the global budget, its applied volume and pan, whether
/// a completion signal is still owed for it, and the URL it came from if
/// it was downloaded rather than synthesized.
pub struct SinkEntry {
    pub id: u64,
    pub reserved_bytes: u64,
    pub volume: u32,
    pub pan: Pan,
    pub has_completion: bool,
    pub url: Option<String>,
}

/// The sum of the bytes the sinks have reserved.
pub open spec fn sum_reserved(s: Seq<SinkEntry>) -> int
    decreases s.len(),
{
    if s.len() == 0 {
        0
    } else {
        sum_reserved(s.drop_last()) + s.last().reserved_bytes
    }
}

pub proof fn lemma_sum_reserved_nonneg(s: Seq<SinkEntry>)
    ensures
        sum_reserved(s) >= 0,
    decreases s.len(),
{
    if s.len() > 0 {
        lemma_sum_reserved_nonneg(s.drop_last());
    }
}

pub proof fn lemma_sum_reserved_remove(s: Seq<SinkEntry>, i: int)
    requires
        0 <= i < s.len(),
    ensures
        sum_reserved(s.remove(i)) == sum_reserved(s) - s[i].reserved_bytes,
    decreases s.len(),
{
    if i == s.len() - 1 {
        assert(s.remove(i) =~= s.drop_last());
    } else {
        assert(s.remove(i).drop_last() =~= s.drop_last().remove(i));
        lemma_sum_reserved_remove(s.drop_last(), i);
    }
}

/// The URL playback currently reports: the URL of the most recently
/// admitted sink that came from one.
pub open spec fn spec_current_url(s: Seq<SinkEntry>) -> Option<Seq<char>>
    decreases s.len(),
{
    if s.len() == 0 {
        None
    } else {
        match s.last().url {
            Some(u) => Some(u@),
            None => spec_current_url(s.drop_last()),
        }
    }
}

/// The worker-side state of the audio output engine.
///
/// `reserved_total` and `released_total` are ghost ledgers: every byte ever
/// reserved and every byte ever released. Well-formedness ties them to the
/// live budget, so reservations and releases balance exactly once all sinks
/// drain (and the budget never leaves `[0, budget_max]`).
pub struct AudioEngine {
    pub sinks: Vec<SinkEntry>,
    pub budget_used: u64,
    pub budget_max: u64,
    pub max_request_bytes: u64,
    pub volume: u32,
    pub next_id: u64,
    pub reserved_total: Ghost<nat>,
    pub released_total: Ghost<nat>,
}

impl AudioEngine {
    /// Well-formedness: the budget counter equals the sum of the sinks'
    /// reservations and stays within its cap, volumes are in range, sink
    /// ids are unique and below the allocator, and the ghost ledgers
    /// balance against the live budget.
    pub open spec fn wf(&self) -> bool {
        &&& self.budget_used as int == sum_reserved(self.sinks@)
        &&& self.budget_used <= self.budget_max
        &&& self.volume <= 1000
        &&& forall|i: int|
            0 <= i < self.sinks@.len() ==> (#[trigger] self.sinks@[i]).volume <= 1000
        &&& forall|i: int|
            0 <= i < self.sinks@.len() ==> (#[trigger] self.sinks@[i]).id < self.next_id
        &&& forall|i: int, j: int|
            0 <= i < j < self.sinks@.len() ==> (#[trigger] self.sinks@[i]).id != (
            #[trigger] self.sinks@[j]).id
        &&& self.reserved_total@ == self.released_total@ + self.budget_used
    }

    /// A fresh engine with no sinks and an untouched budget.
    pub fn new(budget_max: u64, max_request_bytes: u64, volume: u32) -> (e: AudioEngine)
        requires
            volume <= 1000,
        ensures
            e.wf(),
            e.sinks@.len() == 0,
            e.budget_used == 0,
            e.budget_max == budget_max,
            e.max_request_bytes == max_request_bytes,
            e.volume == volume,
            e.reserved_total@ == 0,
            e.released_total@ == 0,
            e.next_id == 0,
    {
        AudioEngine {
            sinks: Vec::new(),
            budget_used: 0,
            budget_max,
            max_request_bytes,
            volume,
            next_id: 0,
            reserved_total: Ghost(0),
            released_total: Ghost(0),
        }
    }

    /// Whether a buffer of `nbytes` may be admitted right now.
    pub open spec fn spec_admissible(&self, nbytes: u64) -> bool {
        nbytes <= self.max_request_bytes && self.budget_used + nbytes <= self.budget_max
    }

    /// Admit a complete buffer for playback: reserve its bytes against the
    /// global budget and create its sink. Fails, changing nothing, exactly
    /// when the buffer is over the per-request maximum or does not fit in
    /// what is left of the budget.
    pub fn admit_buffer(
        &mut self,
        nbytes: u64,
        pan: Pan,
        has_completion: bool,
        url: Option<String>,
    ) -> (r: Result<u64, CapacityError>)
        requires
            old(self).wf(),
            old(self).next_id < u64::MAX,
            pan.left <= 1000,
            pan.right <= 1000,
        ensures
            final(self).wf(),
            (r is Ok) == old(self).spec_admissible(nbytes),
            r matches Err(e) ==> *final(self) == *old(self) && e == (if nbytes
                > old(self).max_request_bytes {
                CapacityError::PerRequestLimit
            } else {
                CapacityError::GlobalBudget
            }),
            r matches Ok(id) ==> id == old(self).next_id && final(self).next_id == old(self).next_id + 1,
            r matches Ok(id) ==> final(self).sinks@ == old(self).sinks@.push(
                (SinkEntry {
                    id,
                    reserved_bytes: nbytes,
                    volume: old(self).volume,
                    pan,
                    has_completion,
                    url,
                }),
            ),
            r is Ok ==> final(self).budget_used == old(self).budget_used + nbytes
                && final(self).reserved_total@ == old(self).reserved_total@ + nbytes
                && final(self).released_total@ == old(self).released_total@
                && final(self).budget_max == old(self).budget_max
                && final(self).max_request_bytes == old(self).max_request_bytes
                && final(self).volume == old(self).volume,
    {
        if nbytes > self.max_request_bytes {
            return Err(CapacityError::PerRequestLimit);
        }
        if nbytes > self.budget_max - self.budget_used {
            return Err(CapacityError::GlobalBudget);
        }
        let id = self.next_id;
        let entry = SinkEntry {
            id,
            reserved_bytes: nbytes,
            volume: self.volume,
            pan,
            has_completion,
            url,
        };
        proof {
            assert(self.sinks@.push(entry).drop_last() =~= self.sinks@);
        }
        self.sinks.push(entry);
        self.next_id = id + 1;
        self.budget_used = self.budget_used + nbytes;
        self.reserved_total = Ghost(self.reserved_total@ + nbytes as nat);
        Ok(id)
    }

    /// The worker observed that the sink with this id has finished playing:
    /// remove it, release exactly the bytes it reserved, and report them
    /// together with whether a completion signal is owed for it. Returns
    /// `None`, changing nothing, when no live sink has that id — so a sink
    /// is released at most once.
    pub fn finish_sink(&mut self, id: u64) -> (r: Option<(u64, bool)>)
        requires
            old(self).wf(),
        ensures
            final(self).wf(),
            (r is Some) == exists|i: int|
                0 <= i < old(self).sinks@.len() && (#[trigger] old(self).sinks@[i]).id == id,
            r is None ==> *final(self) == *old(self),
            r matches Some(t) ==> exists|i: int|
                {
                    &&& 0 <= i < old(self).sinks@.len()
                    &&& (#[trigger] old(self).sinks@[i]).id == id
                    &&& final(self).sinks@ == old(self).sinks@.remove(i)
                    &&& t.0 == old(self).sinks@[i].reserved_bytes
                    &&& t.1 == old(self).sinks@[i].has_completion
                },
            r matches Some(t) ==> final(self).budget_used == old(self).budget_used - t.0
                && final(self).released_total@ == old(self).released_total@ + t.0
                && final(self).reserved_total@ == old(self).reserved_total@
                && final(self).budget_max == old(self).budget_max
                && final(self).max_request_bytes == old(self).max_request_bytes
                && final(self).volume == old(self).volume && final(self).next_id == old(self).next_id,
    {
        let n = self.sinks.len();
        let mut i: usize = 0;
        while i < n
            invariant
                i <= n,
                n == self.sinks@.len(),
                *self == *old(self),
                old(self).wf(),
                forall|j: int| 0 <= j < i ==> (#[trigger] self.sinks@[j]).id != id,
            decreases n - i,
        {
            if self.sinks[i].id == id {
                let entry = self.sinks.remove(i);
                proof {
                    lemma_sum_reserved_remove(old(self).sinks@, i as int);
                    lemma_sum_reserved_nonneg(self.sinks@);
                }
                self.budget_used = self.budget_used - entry.reserved_bytes;
                self.released_total = Ghost(
                    self.released_total@ + entry.reserved_bytes as nat,
                );
                return Some((entry.reserved_bytes, entry.has_completion));
            }
            i = i + 1;
        }
        None
    }

    /// Stop and drop every active sink at once, releasing all their budget
    /// reservations. Returns whether anything was stopped. The caller owns
    /// the real sinks and their completion signals; on `true` it must stop
    /// each one and fire every pending signal.
    pub fn stop_audio(&mut self) -> (stopped: bool)
        requires
            old(self).wf(),
        ensures
            final(self).wf(),
            stopped == (old(self).sinks@.len() > 0),
            final(self).sinks@.len() == 0,
            final(self).budget_used == 0,
            final(self).released_total@ == old(self).released_total@ + old(self).budget_used,
            final(self).reserved_total@ == old(self).reserved_total@,
            final(self).budget_max == old(self).budget_max,
            final(self).max_request_bytes == old(self).max_request_bytes,
            final(self).volume == old(self).volume,
            final(self).next_id == old(self).next_id,
    {
        let stopped = self.sinks.len() > 0;
        self.released_total = Ghost(self.released_total@ + self.budget_used as nat);
        self.sinks.clear();
        self.budget_used = 0;
        stopped
    }

    /// Clamp the requested volume (in thousandths of full volume) to
    /// `[0, 1000]`, apply it to every active sink, and make it the default
    /// for future sinks. Always succeeds.
    pub fn set_volume(&mut self, requested: i64) -> (ok: bool)
        requires
            old(self).wf(),
        ensures
            final(self).wf(),
            ok,
            final(self).volume == spec_clamp_volume(requested),
            final(self).sinks@.len() == old(self).sinks@.len(),
            forall|j: int|
                0 <= j < final(self).sinks@.len() ==> #[trigger] final(self).sinks@[j] == (SinkEntry {
                    volume: spec_clamp_volume(requested),
                    ..old(self).sinks@[j]
                }),
            final(self).budget_used == old(self).budget_used,
            final(self).budget_max == old(self).budget_max,
            final(self).max_request_bytes == old(self).max_request_bytes,
            final(self).next_id == old(self).next_id,
            final(self).reserved_total@ == old(self).reserved_total@,
            final(self).released_total@ == old(self).released_total@,
    {
        let clamped: u32 = if requested < 0 {
            0
        } else if requested > 1000 {
            1000
        } else {
            requested as u32
        };
        let n = self.sinks.len();
        let mut i: usize = 0;
        while i < n
            invariant
                i <= n,
                n == self.sinks@.len(),
                clamped == spec_clamp_volume(requested),
                forall|j: int|
                    0 <= j < i ==> #[trigger] self.sinks@[j] == (SinkEntry {
                        volume: clamped,
                        ..old(self).sinks@[j]
                    }),
                forall|j: int| i <= j < n ==> self.sinks@[j] == old(self).sinks@[j],
                self.budget_used == old(self).budget_used,
                self.budget_max == old(self).budget_max,
                self.max_request_bytes == old(self).max_request_bytes,
                self.volume == old(self).volume,
                self.next_id == old(self).next_id,
                self.reserved_total@ == old(self).reserved_total@,
                self.released_total@ == old(self).released_total@,
                sum_reserved(self.sinks@) == sum_reserved(old(self).sinks@),
            decreases n - i,
        {
            let ghost prev = self.sinks@;
            let entry = &mut self.sinks[i];
            entry.volume = clamped;
            proof {
                lemma_sum_reserved_update_volume(prev, i as int, clamped);
            }
            i = i + 1;
        }
        self.volume = clamped;
        proof {
            lemma_sum_reserved_eq_pointwise(self.sinks@, old(self).sinks@);
        }
        true
    }

    /// Whether anything is playing, and the URL it came from (empty when
    /// none of the active sinks was downloaded).
    pub fn get_playback_status(&self) -> (r: (bool, String))
        ensures
            r.0 == (self.sinks@.len() > 0),
            match spec_current_url(self.sinks@) {
                Some(u) => r.1@ == u,
                None => r.1@ == Seq::<char>::empty(),
            },
    {
        let is_playing = self.sinks.len() > 0;
        let mut i: usize = self.sinks.len();
        proof {
            assert(self.sinks@.subrange(0, i as int) =~= self.sinks@);
        }
        while i > 0
            invariant
                i <= self.sinks@.len(),
                is_playing == (self.sinks@.len() > 0),
                spec_current_url(self.sinks@) == spec_current_url(
                    self.sinks@.subrange(0, i as int),
                ),
            decreases i,
        {
            let ghost pre = self.sinks@.subrange(0, i as int);
            match &self.sinks[i - 1].url {
                Some(u) => {
                    assert(pre.last() == self.sinks@[i - 1]);
                    return (is_playing, u.clone());
                },
                None => {
                    proof {
                        assert(pre.last() == self.sinks@[i - 1]);
                        assert(pre.drop_last() =~= self.sinks@.subrange(0, i - 1));
                    }
                },
            }
            i = i - 1;
        }
        (is_playing, String::new())
    }

    /// Whether a download with this declared `Content-Length` may start.
    /// An absent header admits; the re-checks while streaming then guard
    /// every chunk.
    pub open spec fn spec_download_admissible(&self, content_length: Option<u64>) -> bool {
        match content_length {
            Some(n) => n <= self.max_request_bytes && self.budget_used + n
                <= self.budget_max,
            None => true,
        }
    }

    /// Check a download's declared `Content-Length` before any body bytes
    /// are read. Takes the engine immutably: a rejected download leaves the
    /// budget untouched, and nothing is reserved until the complete buffer
    /// is admitted. On success the returned guard re-checks the cumulative
    /// byte count after every chunk.
    pub fn begin_download(&self, content_length: Option<u64>) -> (r: Result<
        DownloadGuard,
        CapacityError,
    >)
        requires
            self.wf(),
        ensures
            (r is Ok) == self.spec_download_admissible(content_length),
            r matches Ok(g) ==> g == (DownloadGuard {
                max_request: self.max_request_bytes,
                budget_room: (self.budget_max - self.budget_used) as u64,
                received: 0,
            }),
            r matches Err(e) ==> content_length matches Some(n) && e == (if n
                > self.max_request_bytes {
                CapacityError::PerRequestLimit
            } else {
                CapacityError::GlobalBudget
            }),
    {
        let room = self.budget_max - self.budget_used;
        match content_length {
            Some(n) => {
                if n > self.max_request_bytes {
                    Err(CapacityError::PerRequestLimit)
                } else if n > room {
                    Err(CapacityError::GlobalBudget)
                } else {
                    Ok(DownloadGuard { max_request: self.max_request_bytes, budget_room: room, received: 0 })
                }
            },
            None => Ok(DownloadGuard { max_request: self.max_request_bytes, budget_room: room, received: 0 }),
        }
    }
}

/// A volume request clamped to `[0, 1000]` thousandths.
pub open spec fn spec_clamp_volume(requested: i64) -> u32 {
    if requested < 0 {
        0
    } else if requested > 1000 {
        1000
    } else {
        requested as u32
    }
}

proof fn lemma_sum_reserved_update_volume(s: Seq<SinkEntry>, i: int, v: u32)
    requires
        0 <= i < s.len(),
    ensures
        sum_reserved(s.update(i, (SinkEntry { volume: v, ..s[i] }))) == sum_reserved(s),
    decreases s.len(),
{
    let t = s.update(i, (SinkEntry { volume: v, ..s[i] }));
    if i == s.len() - 1 {
        assert(t.drop_last() =~= s.drop_last());
    } else {
        assert(t.drop_last() =~= s.drop_last().update(i, (SinkEntry { volume: v, ..s[i] })));
        lemma_sum_reserved_update_volume(s.drop_last(), i, v);
    }
}

proof fn lemma_sum_reserved_eq_pointwise(a: Seq<SinkEntry>, b: Seq<SinkEntry>)
    requires
        a.len() == b.len(),
        forall|i: int| 0 <= i < a.len() ==> a[i].reserved_bytes == b[i].reserved_bytes,
    ensures
        sum_reserved(a) == sum_reserved(b),
    decreases a.len(),
{
    if a.len() > 0 {
        lemma_sum_reserved_eq_pointwise(a.drop_last(), b.drop_last());
    }
}

/// The running admission state of one streamed download: cumulative bytes
/// received so far, checked after every chunk against both the per-request
/// maximum and the budget room seen when the download began — headers can
/// be absent or wrong, so the declared length is never trusted.
///
/// The guard holds no reservation: a download aborted mid-stream leaves
/// the global budget exactly as it was.
#[derive(Clone, Copy, Debug, PartialEq, Eq, Structural)]
pub struct DownloadGuard {
    pub max_request: u64,
    pub budget_room: u64,
    pub received: u64,
}

impl DownloadGuard {
    /// Account one received chunk. Fails, changing nothing, exactly when
    /// the cumulative byte count would pass the per-request maximum or the
    /// budget room: the caller must then abort the stream and discard the
    /// partial data.
    pub fn on_chunk(&mut self, nbytes: u64) -> (r: Result<(), CapacityError>)
        ensures
            (r is Ok) == (old(self).received + nbytes <= old(self).max_request && old(
                self,
            ).received + nbytes <= old(self).budget_room),
            r is Ok ==> *final(self) == (DownloadGuard {
                received: (old(self).received + nbytes) as u64,
                ..*old(self)
            }),
            r matches Err(e) ==> *final(self) == *old(self) && e == (if old(self).received + nbytes
                > old(self).max_request {
                CapacityError::PerRequestLimit
            } else {
                CapacityError::GlobalBudget
            }),
    {
        let total: u128 = self.received as u128 + nbytes as u128;
        if total > self.max_request as u128 {
            Err(CapacityError::PerRequestLimit)
        } else if total > self.budget_room as u128 {
            Err(CapacityError::GlobalBudget)
        } else {
            self.received = total as u64;
            Ok(())
        }
    }
}

/// The budget ledger balances: what was ever reserved equals what was ever
/// released plus what the live sinks still hold — so once every sink has
/// drained, the sum of reservations equals the sum of releases — and the
/// budget never leaves `[0, budget_max]`. Every engine operation
/// establishes or preserves well-formedness, so this holds along any
/// sequence of admissions and completions.
pub proof fn lemma_budget_conservation(e: &AudioEngine)
    requires
        e.wf(),
    ensures
        e.reserved_total@ == e.released_total@ + sum_reserved(e.sinks@),
        0 <= e.budget_used <= e.budget_max,
        e.sinks@.len() == 0 ==> e.reserved_total@ == e.released_total@,
{
}

} // verus!
