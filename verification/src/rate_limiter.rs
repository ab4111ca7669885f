//! Token-bucket admission control keyed by caller and request category.
//!
//! Tokens are counted in thousandths so the refill of `capacity / 60`
//! tokens per second stays exact integer arithmetic: a bucket refilled
//! over `elapsed` milliseconds gains `elapsed * capacity / 60` thousandths
//! of a token, capped at its capacity, and one admitted check consumes
//! 1000 thousandths.

use vstd::prelude::*;
use crate::text;

verus! {

/// Request categories with separate per-minute quotas.
#[derive(Clone, Copy, Debug, Hash, PartialEq, Eq, Structural)]
pub enum LimitType {
    /// Speech synthesis requests.
    Tts,
    /// Reasoning requests.
    Ai,
    /// Remote-audio playback requests.
    Audio,
    /// Capture requests.
    Listen,
}

/// One caller's bucket for one category: permits in thousandths of a
/// token, the cap, the per-minute refill quota, and when it last refilled.
#[derive(Clone, Copy, Debug, PartialEq, Eq, Structural)]
pub struct TokenBucket {
    pub tokens_milli: u64,
    pub max_milli: u64,
    pub per_minute: u64,
    pub last_update_ms: u64,
}

/// Milliseconds elapsed from `last` to `now` (zero when the clock reads
/// earlier than the recorded time).
pub open spec fn spec_elapsed_ms(now: u64, last: u64) -> int {
    if now >= last {
        now - last
    } else {
        0
    }
}

/// A fresh bucket created at `now` for a per-minute quota: full.
pub open spec fn spec_fresh_bucket(per_minute: u64, now: u64) -> TokenBucket {
    TokenBucket {
        tokens_milli: (per_minute * 1000) as u64,
        max_milli: (per_minute * 1000) as u64,
        per_minute,
        last_update_ms: now,
    }
}

/// The bucket after refilling at `now`: it gains `elapsed * quota / 60`
/// thousandths of a token, capped at its capacity.
pub open spec fn spec_refilled(b: TokenBucket, now: u64) -> TokenBucket {
    if now >= b.last_update_ms {
        let filled = b.tokens_milli + (now - b.last_update_ms) * b.per_minute / 60;
        let capped: u64 = if filled > b.max_milli {
            b.max_milli
        } else {
            filled as u64
        };
        TokenBucket { tokens_milli: capped, last_update_ms: now, ..b }
    } else {
        b
    }
}

/// Whether a check at `now` is admitted: after refilling, a whole token
/// is available.
pub open spec fn spec_admits(b: TokenBucket, now: u64) -> bool {
    spec_refilled(b, now).tokens_milli >= 1000
}

/// The bucket after one check at `now`: refilled, and one token poorer
/// exactly when the check was admitted — tokens never go negative.
pub open spec fn spec_after_check(b: TokenBucket, now: u64) -> TokenBucket {
    let rb = spec_refilled(b, now);
    if rb.tokens_milli >= 1000 {
        TokenBucket { tokens_milli: (rb.tokens_milli - 1000) as u64, ..rb }
    } else {
        rb
    }
}

impl TokenBucket {
    /// A full bucket for a per-minute quota of whole tokens.
    pub fn new(per_minute: u64, now_ms: u64) -> (b: TokenBucket)
        requires
            per_minute <= 0xffff_ffff,
        ensures
            b == spec_fresh_bucket(per_minute, now_ms),
    {
        let milli = per_minute * 1000;
        TokenBucket { tokens_milli: milli, max_milli: milli, per_minute, last_update_ms: now_ms }
    }

    /// Refill for the time elapsed since the last update, capped at the
    /// bucket's capacity.
    pub fn refill(&mut self, now_ms: u64)
        ensures
            *final(self) == spec_refilled(*old(self), now_ms),
    {
        if now_ms >= self.last_update_ms {
            let elapsed: u128 = (now_ms - self.last_update_ms) as u128;
            proof {
                let x = elapsed as int;
                let y = self.per_minute as int;
                assert(x * y <= 0xffff_ffff_ffff_ffff * 0xffff_ffff_ffff_ffff) by (nonlinear_arith)
                    requires
                        0 <= x <= 0xffff_ffff_ffff_ffff,
                        0 <= y <= 0xffff_ffff_ffff_ffff,
                ;
            }
            let add: u128 = elapsed * self.per_minute as u128 / 60;
            let filled: u128 = self.tokens_milli as u128 + add;
            let capped: u64 = if filled > self.max_milli as u128 {
                self.max_milli
            } else {
                filled as u64
            };
            self.tokens_milli = capped;
            self.last_update_ms = now_ms;
        }
    }

    /// Refill, then take one token if a whole one is available; reports
    /// whether it was.
    pub fn try_consume(&mut self, now_ms: u64) -> (admitted: bool)
        ensures
            admitted == spec_admits(*old(self), now_ms),
            *final(self) == spec_after_check(*old(self), now_ms),
    {
        self.refill(now_ms);
        if self.tokens_milli >= 1000 {
            self.tokens_milli = self.tokens_milli - 1000;
            true
        } else {
            false
        }
    }
}

/// One caller's bucket for one category.
pub struct BucketEntry {
    pub sender: String,
    pub limit_type: LimitType,
    pub bucket: TokenBucket,
}

/// Whether an entry belongs to this caller and category.
pub open spec fn spec_matches(e: BucketEntry, sender: Seq<char>, limit_type: LimitType) -> bool {
    e.sender@ == sender && e.limit_type == limit_type
}

/// Whether two entries share a caller and category.
pub open spec fn spec_same_key(a: BucketEntry, b: BucketEntry) -> bool {
    spec_matches(a, b.sender@, b.limit_type)
}

/// No caller has two entries for one category.
pub open spec fn spec_keys_distinct(s: Seq<BucketEntry>) -> bool {
    forall|i: int, j: int|
        #![trigger s[i], s[j]]
        0 <= i < j < s.len() ==> !spec_same_key(s[i], s[j])
}

/// Whether some entry belongs to this caller and category.
pub open spec fn spec_has_key(s: Seq<BucketEntry>, sender: Seq<char>, limit_type: LimitType) -> bool {
    exists|i: int| 0 <= i < s.len() && spec_matches(#[trigger] s[i], sender, limit_type)
}

/// Whether a cleanup at `now` keeps an entry: it refilled more recently
/// than the age threshold.
pub open spec fn spec_keeps(e: BucketEntry, now_ms: u64, max_age_secs: u64) -> bool {
    spec_elapsed_ms(now_ms, e.bucket.last_update_ms) < max_age_secs * 1000
}

/// The entries a cleanup leaves, in their original order.
pub open spec fn spec_cleaned(s: Seq<BucketEntry>, now_ms: u64, max_age_secs: u64) -> Seq<
    BucketEntry,
>
    decreases s.len(),
{
    if s.len() == 0 {
        Seq::empty()
    } else if spec_keeps(s[0], now_ms, max_age_secs) {
        seq![s[0]] + spec_cleaned(s.drop_first(), now_ms, max_age_secs)
    } else {
        spec_cleaned(s.drop_first(), now_ms, max_age_secs)
    }
}

/// A cleanup only drops entries: what it keeps was there before, and
/// distinct keys stay distinct.
proof fn lemma_cleaned_keys(s: Seq<BucketEntry>, now_ms: u64, max_age_secs: u64)
    requires
        spec_keys_distinct(s),
    ensures
        spec_keys_distinct(spec_cleaned(s, now_ms, max_age_secs)),
        forall|sender: Seq<char>, lt: LimitType|
            spec_has_key(spec_cleaned(s, now_ms, max_age_secs), sender, lt)
                ==> #[trigger] spec_has_key(s, sender, lt),
    decreases s.len(),
{
    if s.len() > 0 {
        let rest = s.drop_first();
        assert(spec_keys_distinct(rest)) by {
            assert(forall|i: int, j: int|
                #![trigger rest[i], rest[j]]
                0 <= i < j < rest.len() ==> rest[i] == s[i + 1] && rest[j] == s[j + 1]);
        }
        lemma_cleaned_keys(rest, now_ms, max_age_secs);
        let cr = spec_cleaned(rest, now_ms, max_age_secs);
        assert(forall|sender: Seq<char>, lt: LimitType|
            #[trigger] spec_has_key(rest, sender, lt) ==> spec_has_key(s, sender, lt)) by {
            assert(forall|i: int| 0 <= i < rest.len() ==> #[trigger] rest[i] == s[i + 1]);
        }
        let c = spec_cleaned(s, now_ms, max_age_secs);
        assert forall|sender: Seq<char>, lt: LimitType|
            spec_has_key(c, sender, lt) implies #[trigger] spec_has_key(s, sender, lt) by {
            let i = choose|i: int| 0 <= i < c.len() && spec_matches(#[trigger] c[i], sender, lt);
            if spec_keeps(s[0], now_ms, max_age_secs) {
                if i == 0 {
                    assert(spec_matches(s[0], sender, lt));
                } else {
                    assert(c[i] == cr[i - 1]);
                    assert(spec_has_key(cr, sender, lt));
                    assert(spec_has_key(rest, sender, lt));
                }
            } else {
                assert(c[i] == cr[i]);
                assert(spec_has_key(cr, sender, lt));
                assert(spec_has_key(rest, sender, lt));
            }
        }
        if spec_keeps(s[0], now_ms, max_age_secs) {
            let c = seq![s[0]] + cr;
            assert(spec_keys_distinct(c)) by {
                assert(forall|j: int| 0 <= j < cr.len() ==> #[trigger] c[j + 1] == cr[j]);
                assert(forall|j: int| 1 <= j < c.len() ==> !spec_same_key(c[0], c[j])) by {
                    if exists|j: int| 1 <= j < c.len() && spec_same_key(c[0], #[trigger] c[j]) {
                        let j = choose|j: int|
                            1 <= j < c.len() && spec_same_key(c[0], #[trigger] c[j]);
                        assert(c[j] == cr[j - 1]);
                        assert(spec_has_key(cr, c[j].sender@, c[j].limit_type));
                        assert(spec_has_key(rest, c[j].sender@, c[j].limit_type));
                        let w = choose|w: int|
                            0 <= w < rest.len() && spec_matches(
                                #[trigger] rest[w],
                                c[j].sender@,
                                c[j].limit_type,
                            );
                        assert(rest[w] == s[w + 1]);
                        assert(spec_same_key(s[0], s[w + 1]));
                        assert(false);
                    }
                }
            }
        }
    }
}

/// Per-caller, per-category token-bucket rate limiter. Buckets are created
/// lazily on a caller's first check and swept once idle too long.
pub struct RateLimiter {
    pub buckets: Vec<BucketEntry>,
    pub tts_per_minute: u64,
    pub ai_per_minute: u64,
    pub audio_per_minute: u64,
    pub listen_per_minute: u64,
}

impl RateLimiter {
    /// The per-minute quota of a category.
    pub open spec fn spec_quota(&self, limit_type: LimitType) -> u64 {
        match limit_type {
            LimitType::Tts => self.tts_per_minute,
            LimitType::Ai => self.ai_per_minute,
            LimitType::Audio => self.audio_per_minute,
            LimitType::Listen => self.listen_per_minute,
        }
    }

    /// Well-formedness: quotas fit the fixed-point unit and no caller has
    /// two buckets for one category.
    pub open spec fn wf(&self) -> bool {
        &&& self.tts_per_minute <= 0xffff_ffff
        &&& self.ai_per_minute <= 0xffff_ffff
        &&& self.audio_per_minute <= 0xffff_ffff
        &&& self.listen_per_minute <= 0xffff_ffff
        &&& spec_keys_distinct(self.buckets@)
    }

    /// A limiter with the given per-minute quotas and no buckets yet.
    pub fn new(tts: u32, ai: u32, audio: u32, listen: u32) -> (r: RateLimiter)
        ensures
            r.wf(),
            r.buckets@.len() == 0,
            r.tts_per_minute == tts,
            r.ai_per_minute == ai,
            r.audio_per_minute == audio,
            r.listen_per_minute == listen,
    {
        RateLimiter {
            buckets: Vec::new(),
            tts_per_minute: tts as u64,
            ai_per_minute: ai as u64,
            audio_per_minute: audio as u64,
            listen_per_minute: listen as u64,
        }
    }

    /// Check whether this caller's request of this category is admitted at
    /// `now`, consuming a token if so. The caller's bucket is created full
    /// on first use; a bucket already on file is refilled for the time
    /// since its last check, then charged exactly when a whole token is
    /// available.
    pub fn check(&mut self, sender: &str, limit_type: LimitType, now_ms: u64) -> (allowed: bool)
        requires
            old(self).wf(),
        ensures
            final(self).wf(),
            final(self).tts_per_minute == old(self).tts_per_minute,
            final(self).ai_per_minute == old(self).ai_per_minute,
            final(self).audio_per_minute == old(self).audio_per_minute,
            final(self).listen_per_minute == old(self).listen_per_minute,
            spec_has_key(old(self).buckets@, sender@, limit_type) ==> exists|i: int|
                {
                    &&& 0 <= i < old(self).buckets@.len()
                    &&& spec_matches(#[trigger] old(self).buckets@[i], sender@, limit_type)
                    &&& allowed == spec_admits(old(self).buckets@[i].bucket, now_ms)
                    &&& final(self).buckets@ == old(self).buckets@.update(
                        i,
                        (BucketEntry {
                            bucket: spec_after_check(old(self).buckets@[i].bucket, now_ms),
                            ..old(self).buckets@[i]
                        }),
                    )
                },
            !spec_has_key(old(self).buckets@, sender@, limit_type) ==> {
                &&& allowed == spec_admits(
                    spec_fresh_bucket(old(self).spec_quota(limit_type), now_ms),
                    now_ms,
                )
                &&& final(self).buckets@.len() == old(self).buckets@.len() + 1
                &&& final(self).buckets@.subrange(0, old(self).buckets@.len() as int) == old(
                    self,
                ).buckets@
                &&& final(self).buckets@.last().sender@ == sender@
                &&& final(self).buckets@.last().limit_type == limit_type
                &&& final(self).buckets@.last().bucket == spec_after_check(
                    spec_fresh_bucket(old(self).spec_quota(limit_type), now_ms),
                    now_ms,
                )
            },
    {
        let quota = match limit_type {
            LimitType::Tts => self.tts_per_minute,
            LimitType::Ai => self.ai_per_minute,
            LimitType::Audio => self.audio_per_minute,
            LimitType::Listen => self.listen_per_minute,
        };
        let n = self.buckets.len();
        let mut i: usize = 0;
        while i < n
            invariant
                i <= n,
                n == self.buckets@.len(),
                *self == *old(self),
                old(self).wf(),
                forall|j: int|
                    0 <= j < i ==> !spec_matches(#[trigger] self.buckets@[j], sender@, limit_type),
            decreases n - i,
        {
            let matches_here = {
                let e = &self.buckets[i];
                e.limit_type == limit_type && text::str_eq(e.sender.as_str(), sender)
            };
            if matches_here {
                proof {
                    assert(spec_matches(old(self).buckets@[i as int], sender@, limit_type));
                }
                let e = &mut self.buckets[i];
                let allowed = e.bucket.try_consume(now_ms);
                return allowed;
            }
            i = i + 1;
        }
        let mut bucket = TokenBucket::new(quota, now_ms);
        let allowed = bucket.try_consume(now_ms);
        self.buckets.push(BucketEntry { sender: sender.to_owned(), limit_type, bucket });
        proof {
            assert(final(self).buckets@.subrange(0, old(self).buckets@.len() as int) =~= old(
                self,
            ).buckets@);
        }
        allowed
    }

    /// The thousandths of a token this caller's bucket for this category
    /// still holds (without refilling), or a full default quota when no
    /// bucket is on file yet.
    pub fn remaining(&self, sender: &str, limit_type: LimitType) -> (r: u64)
        requires
            self.wf(),
        ensures
            spec_has_key(self.buckets@, sender@, limit_type) ==> exists|i: int|
                {
                    &&& 0 <= i < self.buckets@.len()
                    &&& spec_matches(#[trigger] self.buckets@[i], sender@, limit_type)
                    &&& r == self.buckets@[i].bucket.tokens_milli
                },
            !spec_has_key(self.buckets@, sender@, limit_type) ==> r == self.tts_per_minute * 1000,
    {
        let n = self.buckets.len();
        let mut i: usize = 0;
        while i < n
            invariant
                i <= n,
                n == self.buckets@.len(),
                self.wf(),
                forall|j: int|
                    0 <= j < i ==> !spec_matches(#[trigger] self.buckets@[j], sender@, limit_type),
            decreases n - i,
        {
            let e = &self.buckets[i];
            if e.limit_type == limit_type && text::str_eq(e.sender.as_str(), sender) {
                return e.bucket.tokens_milli;
            }
            i = i + 1;
        }
        self.tts_per_minute * 1000
    }

    /// Sweep out every bucket whose last refill lies `max_age_secs` or
    /// more in the past, and only those; the survivors keep their order.
    pub fn cleanup(&mut self, max_age_secs: u64, now_ms: u64)
        requires
            old(self).wf(),
        ensures
            final(self).wf(),
            final(self).buckets@ == spec_cleaned(old(self).buckets@, now_ms, max_age_secs),
            final(self).tts_per_minute == old(self).tts_per_minute,
            final(self).ai_per_minute == old(self).ai_per_minute,
            final(self).audio_per_minute == old(self).audio_per_minute,
            final(self).listen_per_minute == old(self).listen_per_minute,
    {
        let mut kept: Vec<BucketEntry> = Vec::new();
        let ghost orig = self.buckets@;
        while self.buckets.len() > 0
            invariant
                orig == old(self).buckets@,
                self.tts_per_minute == old(self).tts_per_minute,
                self.ai_per_minute == old(self).ai_per_minute,
                self.audio_per_minute == old(self).audio_per_minute,
                self.listen_per_minute == old(self).listen_per_minute,
                spec_cleaned(orig, now_ms, max_age_secs) == kept@ + spec_cleaned(
                    self.buckets@,
                    now_ms,
                    max_age_secs,
                ),
            decreases self.buckets@.len(),
        {
            let ghost pre = self.buckets@;
            let e = self.buckets.remove(0);
            proof {
                assert(self.buckets@ =~= pre.drop_first());
            }
            let keep_it = {
                let elapsed: u64 = if now_ms >= e.bucket.last_update_ms {
                    now_ms - e.bucket.last_update_ms
                } else {
                    0
                };
                (elapsed as u128) < (max_age_secs as u128) * 1000
            };
            proof {
                assert(keep_it == spec_keeps(pre[0], now_ms, max_age_secs));
            }
            if keep_it {
                let ghost kept_pre = kept@;
                kept.push(e);
                proof {
                    assert(kept@ + spec_cleaned(self.buckets@, now_ms, max_age_secs) =~= kept_pre
                        + (seq![pre[0]] + spec_cleaned(pre.drop_first(), now_ms, max_age_secs)));
                }
            }
        }
        proof {
            assert(kept@ + spec_cleaned(self.buckets@, now_ms, max_age_secs) =~= kept@);
        }
        self.buckets = kept;
        proof {
            lemma_cleaned_keys(orig, now_ms, max_age_secs);
        }
    }
}

impl Default for RateLimiter {
    /// The default per-minute quotas.
    fn default() -> (r: RateLimiter)
        ensures
            r.wf(),
            r.buckets@.len() == 0,
            r.tts_per_minute == 30,
            r.ai_per_minute == 10,
            r.audio_per_minute == 20,
            r.listen_per_minute == 30,
    {
        RateLimiter::new(30, 10, 20, 30)
    }
}

/// How many checks a window admits. A caller whose bucket was created at
/// `now` with a per-minute quota of `capacity` gets exactly `capacity`
/// admitted checks within the same instant (no refill in between): after
/// `k` checks the bucket holds `capacity - k` tokens, a further check is
/// admitted while `k < capacity`, and the check after the `capacity`-th is
/// denied.
pub proof fn lemma_rate_window(capacity: u64, now: u64, k: nat)
    requires
        capacity <= 0xffff_ffff,
        k <= capacity,
    ensures
        spec_checks_from(spec_fresh_bucket(capacity, now), now, k).tokens_milli == (capacity - k)
            * 1000,
        spec_checks_from(spec_fresh_bucket(capacity, now), now, k).max_milli == capacity * 1000,
        spec_checks_from(spec_fresh_bucket(capacity, now), now, k).per_minute == capacity,
        spec_checks_from(spec_fresh_bucket(capacity, now), now, k).last_update_ms == now,
        k < capacity ==> spec_admits(spec_checks_from(spec_fresh_bucket(capacity, now), now, k), now),
        k == capacity ==> !spec_admits(
            spec_checks_from(spec_fresh_bucket(capacity, now), now, k),
            now,
        ),
    decreases k,
{
    let fresh = spec_fresh_bucket(capacity, now);
    if k == 0 {
    } else {
        lemma_rate_window(capacity, now, (k - 1) as nat);
        let prev = spec_checks_from(fresh, now, (k - 1) as nat);
        assert((capacity - k + 1) * 1000 <= capacity * 1000) by (nonlinear_arith)
            requires
                1 <= k <= capacity,
        ;
        lemma_refill_now(prev, now);
        assert(spec_checks_from(fresh, now, k) == spec_after_check(prev, now));
    }
    let bk = spec_checks_from(fresh, now, k);
    assert((capacity - k) * 1000 <= capacity * 1000) by (nonlinear_arith)
        requires
            0 <= k <= capacity,
    ;
    lemma_refill_now(bk, now);
}

/// Refilling at the very instant of the last update changes nothing
/// (as long as the tokens are within the cap).
proof fn lemma_refill_now(b: TokenBucket, now: u64)
    requires
        b.last_update_ms == now,
        b.tokens_milli <= b.max_milli,
    ensures
        spec_refilled(b, now) == b,
{
    let e0 = (now - b.last_update_ms) as int;
    assert(e0 * b.per_minute == 0) by (nonlinear_arith)
        requires
            e0 == 0,
    ;
}

/// The bucket after `k` checks, all at the same instant.
pub open spec fn spec_checks_from(b: TokenBucket, now: u64, k: nat) -> TokenBucket
    decreases k,
{
    if k == 0 {
        b
    } else {
        spec_after_check(spec_checks_from(b, now, (k - 1) as nat), now)
    }
}

/// How soon a denied caller recovers. Whatever a bucket holds, once
/// `elapsed * capacity >= 60000` — that is, after at least `60 / capacity`
/// seconds — the refill grants a whole token, so the next check is
/// admitted.
pub proof fn lemma_rate_recovery(b: TokenBucket, now: u64)
    requires
        b.max_milli >= 1000,
        b.max_milli == b.per_minute * 1000,
        b.per_minute >= 1,
        now >= b.last_update_ms,
        (now - b.last_update_ms) * b.per_minute >= 60000,
    ensures
        spec_admits(b, now),
{
    let elapsed = now - b.last_update_ms;
    assert(elapsed * b.per_minute / 60 >= 1000) by {
        vstd::arithmetic::div_mod::lemma_div_is_ordered(
            60000,
            elapsed * b.per_minute,
            60,
        );
    }
    let filled = b.tokens_milli + elapsed * b.per_minute / 60;
    assert(filled >= 1000);
    if filled > b.max_milli {
        assert(spec_refilled(b, now).tokens_milli == b.max_milli);
    }
}

} // verus!
