//! Round-trip samples to the relay: the ranges that are shown, and their buckets.

use vstd::prelude::*;

use crate::text::chars::text_eq;

verus! {

/// For how long samples are kept.
pub const RETENTION_SECS: i64 = 691_200;

/// How often old samples are dropped.
pub const PRUNE_SECS: i64 = 3600;

/// How many times the relay is tried for one sample.
pub const ATTEMPTS: usize = 3;

/// The time that a chart covers.
#[derive(Debug, Clone, Copy, PartialEq, Eq, Structural)]
pub enum Range {
    Hour,
    Day,
    Week,
}

impl Range {
    /// The range of that name; a day where it is another one, or none.
    pub open spec fn named(raw: Option<Seq<char>>) -> Range {
        match raw {
            Some(s) => if s == "1h"@ {
                Range::Hour
            } else if s == "7d"@ {
                Range::Week
            } else {
                Range::Day
            },
            None => Range::Day,
        }
    }

    /// The seconds that the range covers.
    pub open spec fn span(self) -> i64 {
        match self {
            Range::Hour => 3600,
            Range::Day => 86_400,
            Range::Week => 604_800,
        }
    }

    /// The seconds that a bucket of the range covers.
    pub open spec fn bucket(self) -> i64 {
        match self {
            Range::Hour => 60,
            Range::Day => 300,
            Range::Week => 3600,
        }
    }

    /// The range of that name.
    pub fn parse(raw: Option<&str>) -> (r: Range)
        ensures
            r == Range::named(
                match raw {
                    Some(s) => Some(s@),
                    None => None,
                },
            ),
    {
        match raw {
            Some(s) => {
                if text_eq(s, "1h") {
                    Range::Hour
                } else if text_eq(s, "7d") {
                    Range::Week
                } else {
                    Range::Day
                }
            },
            None => Range::Day,
        }
    }

    /// The seconds that the range covers.
    pub fn span_secs(self) -> (r: i64)
        ensures
            r == self.span(),
    {
        match self {
            Range::Hour => 3600,
            Range::Day => 86_400,
            Range::Week => 604_800,
        }
    }

    /// The seconds that a bucket of the range covers.
    pub fn bucket_secs(self) -> (r: i64)
        ensures
            r == self.bucket(),
    {
        match self {
            Range::Hour => 60,
            Range::Day => 300,
            Range::Week => 3600,
        }
    }

    /// The first second of the range that ends at `now`.
    pub fn since(self, now: i64) -> (r: i64)
        requires
            now - self.span() >= i64::MIN,
        ensures
            r == now - self.span(),
    {
        now - self.span_secs()
    }
}

/// A range is made of whole buckets, and samples are kept for longer than any range.
pub proof fn ranges_are_whole_buckets(range: Range)
    ensures
        range.bucket() > 0,
        range.span() % range.bucket() == 0,
        range.span() < RETENTION_SECS,
{
}

/// A chart covers an hour in minutes, a day in five minutes, or a week in hours; it covers a day
/// where nothing else is asked for. Samples are kept for a day more than the longest chart.
pub proof fn charts_cover_what_they_are_asked_for(raw: Seq<char>)
    ensures
        Range::named(Some("1h"@)) == Range::Hour,
        Range::named(Some("7d"@)) == Range::Week,
        raw != "1h"@ && raw != "7d"@ ==> Range::named(Some(raw)) == Range::Day,
        Range::named(None) == Range::Day,
        Range::Hour.span() == 60 * 60 && Range::Hour.bucket() == 60,
        Range::Day.span() == 24 * 60 * 60 && Range::Day.bucket() == 5 * 60,
        Range::Week.span() == 7 * 24 * 60 * 60 && Range::Week.bucket() == 60 * 60,
        RETENTION_SECS == 8 * 24 * 60 * 60,
        PRUNE_SECS == 60 * 60,
{
    reveal_strlit("1h");
    reveal_strlit("7d");
    assert("1h"@[0] != "7d"@[0]);
}

/// A sample: when it was taken, and whether the relay answered.
#[derive(Debug, Clone, Copy)]
pub struct Sample {
    pub ts: i64,
    pub ok: bool,
}

/// A bucket: when it starts, the samples `from..to` in it, and how many of them were answered.
#[derive(Debug, Clone, Copy)]
pub struct Bucket {
    pub start: i64,
    pub from: usize,
    pub to: usize,
    pub ok: usize,
}

/// When the bucket of a moment starts.
pub open spec fn bucket_start(ts: int, bucket_secs: int) -> int {
    ts - ts % bucket_secs
}

/// The bucket of a moment starts at a whole number of buckets since the start of 1970, and holds
/// the moment.
pub proof fn bucket_holds_its_moment(ts: int, bucket_secs: int)
    requires
        bucket_secs > 0,
    ensures
        bucket_start(ts, bucket_secs) <= ts < bucket_start(ts, bucket_secs) + bucket_secs,
        bucket_start(ts, bucket_secs) % bucket_secs == 0,
{
    let q = ts / bucket_secs;
    vstd::arithmetic::div_mod::lemma_fundamental_div_mod(ts, bucket_secs);
    assert(bucket_start(ts, bucket_secs) == bucket_secs * q);
    vstd::arithmetic::div_mod::lemma_mod_multiples_basic(q, bucket_secs);
    assert(bucket_secs * q == q * bucket_secs) by (nonlinear_arith);
}

/// What a bucket is.
#[verifier::ext_equal]
pub struct BucketModel {
    pub start: int,
    pub from: int,
    pub to: int,
    pub ok: int,
}

impl View for Bucket {
    type V = BucketModel;

    open spec fn view(&self) -> BucketModel {
        BucketModel {
            start: self.start as int,
            from: self.from as int,
            to: self.to as int,
            ok: self.ok as int,
        }
    }
}

/// Buckets as models.
pub open spec fn bucket_models(buckets: Seq<Bucket>) -> Seq<BucketModel> {
    Seq::new(buckets.len(), |i: int| buckets[i]@)
}

/// 1 for a sample that was answered.
pub open spec fn answered(sample: Sample) -> int {
    if sample.ok {
        1
    } else {
        0
    }
}

/// The buckets of the samples: each sample joins the bucket before it where that starts at the same
/// moment, and starts one otherwise.
pub open spec fn buckets_of(samples: Seq<Sample>, bucket_secs: int) -> Seq<BucketModel>
    decreases samples.len(),
{
    if samples.len() == 0 {
        seq![]
    } else {
        let before = buckets_of(samples.drop_last(), bucket_secs);
        let sample = samples.last();
        let start = bucket_start(sample.ts as int, bucket_secs);
        if before.len() > 0 && before.last().start == start {
            before.drop_last().push(
                BucketModel {
                    to: before.last().to + 1,
                    ok: before.last().ok + answered(sample),
                    ..before.last()
                },
            )
        } else {
            before.push(
                BucketModel {
                    start,
                    from: samples.len() - 1,
                    to: samples.len() as int,
                    ok: answered(sample),
                },
            )
        }
    }
}

/// The number of samples that were answered.
pub open spec fn answered_count(samples: Seq<Sample>) -> int
    decreases samples.len(),
{
    if samples.len() == 0 {
        0
    } else {
        answered_count(samples.drop_last()) + answered(samples.last())
    }
}

/// Each answer counts once.
pub proof fn answers_are_counted(samples: Seq<Sample>)
    ensures
        answered_count(samples) == samples.filter(|s: Sample| s.ok).len(),
    decreases samples.len(),
{
    reveal(Seq::filter);
    if samples.len() > 0 {
        answers_are_counted(samples.drop_last());
    }
}

/// The buckets cover the samples: they follow one another without gaps, none is empty, and every
/// sample lies in a bucket that starts where the sample's bucket does.
pub open spec fn cover(buckets: Seq<BucketModel>, samples: Seq<Sample>, bucket_secs: int) -> bool {
    &&& samples.len() == 0 <==> buckets.len() == 0
    &&& buckets.len() > 0 ==> buckets[0].from == 0 && buckets.last().to == samples.len()
    &&& forall|k: int| 0 <= k < buckets.len() ==> (#[trigger] buckets[k]).from < buckets[k].to
    &&& forall|k: int, m: int|
        0 <= k && m == k + 1 && m < buckets.len() ==> (#[trigger] buckets[k]).to == (
        #[trigger] buckets[m]).from
    &&& forall|k: int, i: int|
        0 <= k < buckets.len() && (#[trigger] buckets[k]).from <= i < buckets[k].to && 0 <= i
            < samples.len() ==> bucket_start((#[trigger] samples[i]).ts as int, bucket_secs)
            == buckets[k].start
}

/// The buckets cover the samples.
#[verifier::rlimit(40)]
pub proof fn buckets_cover(samples: Seq<Sample>, bucket_secs: int)
    requires
        bucket_secs > 0,
    ensures
        cover(buckets_of(samples, bucket_secs), samples, bucket_secs),
    decreases samples.len(),
{
    if samples.len() > 0 {
        let head = samples.drop_last();
        let before = buckets_of(head, bucket_secs);
        let after = buckets_of(samples, bucket_secs);
        let sample = samples.last();
        let start = bucket_start(sample.ts as int, bucket_secs);
        buckets_cover(head, bucket_secs);
        let joined = before.len() > 0 && before.last().start == start;
        assert(samples[samples.len() - 1] == sample);
        assert forall|k: int| 0 <= k < after.len() implies (#[trigger] after[k]).from
            < after[k].to by {
            if k < before.len() {
                assert(before[k].from < before[k].to);
            }
        }
        assert forall|k: int, m: int|
            0 <= k && m == k + 1 && m < after.len() implies (#[trigger] after[k]).to == (
        #[trigger] after[m]).from by {
            assert(after[k] == before[k]);
            if m < before.len() {
                assert(before[k].to == before[m].from);
            }
        }
        assert forall|k: int, i: int|
            0 <= k < after.len() && (#[trigger] after[k]).from <= i < after[k].to && 0 <= i
                < samples.len() implies bucket_start(
            (#[trigger] samples[i]).ts as int,
            bucket_secs,
        ) == after[k].start by {
            if i < head.len() {
                assert(samples[i] == head[i]);
                if k < before.len() {
                    assert(before[k].from <= i < before[k].to || (joined && k == before.len() - 1));
                    assert(before[k].start == after[k].start);
                }
            } else if k < before.len() && !(joined && k == before.len() - 1) {
                before_ends_early(before, head, bucket_secs, k);
            }
        }
    }
}

proof fn counted_by_one(samples: Seq<Sample>, from: int)
    requires
        0 <= from < samples.len(),
    ensures
        answered_count(samples.skip(from)) == answered_count(samples.drop_last().skip(from))
            + answered(samples.last()),
{
    assert(samples.skip(from).drop_last() =~= samples.drop_last().skip(from));
}

/// A bucket counts the samples in it that were answered.
pub proof fn buckets_count_answers(samples: Seq<Sample>, bucket_secs: int, k: int)
    requires
        bucket_secs > 0,
        0 <= k < buckets_of(samples, bucket_secs).len(),
    ensures
        0 <= buckets_of(samples, bucket_secs)[k].from < buckets_of(samples, bucket_secs)[k].to
            <= samples.len(),
        buckets_of(samples, bucket_secs)[k].ok == answered_count(
            samples.subrange(
                buckets_of(samples, bucket_secs)[k].from,
                buckets_of(samples, bucket_secs)[k].to,
            ),
        ),
    decreases samples.len(),
{
    if samples.len() > 0 {
        let head = samples.drop_last();
        let before = buckets_of(head, bucket_secs);
        let after = buckets_of(samples, bucket_secs);
        let last = after[after.len() - 1];
        if k < after.len() - 1 {
            buckets_count_answers(head, bucket_secs, k);
            assert(after[k] == before[k]);
            assert(samples.subrange(after[k].from, after[k].to) =~= head.subrange(
                after[k].from,
                after[k].to,
            ));
        } else if after.len() == before.len() {
            buckets_count_answers(head, bucket_secs, k);
            buckets_cover(head, bucket_secs);
            assert(before.last().to == head.len());
            assert(samples.subrange(last.from, last.to) =~= samples.skip(last.from));
            assert(head.subrange(last.from, before.last().to) =~= head.skip(last.from));
            counted_by_one(samples, last.from);
        } else {
            let own = samples.subrange(last.from, last.to);
            assert(own.drop_last() =~= seq![]);
            assert(answered_count(own.drop_last()) == 0);
            assert(own.last() == samples.last());
        }
    }
}

proof fn before_ends_early(
    buckets: Seq<BucketModel>,
    samples: Seq<Sample>,
    bucket_secs: int,
    k: int,
)
    requires
        cover(buckets, samples, bucket_secs),
        0 <= k < buckets.len(),
    ensures
        buckets[k].to <= samples.len(),
    decreases buckets.len() - k,
{
    if k + 1 < buckets.len() {
        before_ends_early(buckets, samples, bucket_secs, k + 1);
        assert(buckets[k].to == buckets[k + 1].from);
        assert(buckets[k + 1].from < buckets[k + 1].to);
    }
}

/// Samples in order of time make buckets in order of time, each moment once.
pub proof fn buckets_are_in_order(samples: Seq<Sample>, bucket_secs: int)
    requires
        bucket_secs > 0,
        forall|i: int, j: int|
            0 <= i <= j < samples.len() ==> (#[trigger] samples[i]).ts <= (#[trigger] samples[j]).ts,
    ensures
        forall|k: int, m: int|
            0 <= k < m < buckets_of(samples, bucket_secs).len() ==> (#[trigger] buckets_of(
                samples,
                bucket_secs,
            )[k]).start < (#[trigger] buckets_of(samples, bucket_secs)[m]).start,
    decreases samples.len(),
{
    if samples.len() > 0 {
        let head = samples.drop_last();
        let before = buckets_of(head, bucket_secs);
        let after = buckets_of(samples, bucket_secs);
        let sample = samples.last();
        let start = bucket_start(sample.ts as int, bucket_secs);
        assert forall|i: int, j: int| 0 <= i <= j < head.len() implies (#[trigger] head[i]).ts <= (
        #[trigger] head[j]).ts by {
            assert(samples[i].ts <= samples[j].ts);
        }
        buckets_are_in_order(head, bucket_secs);
        buckets_cover(head, bucket_secs);
        if head.len() > 0 {
            let last = head.last();
            assert(head[head.len() - 1] == last);
            assert(before[before.len() - 1].from <= head.len() - 1 < before[before.len() - 1].to);
            assert(before.last().start == bucket_start(last.ts as int, bucket_secs));
            assert(samples[head.len() - 1].ts <= samples[samples.len() - 1].ts);
            starts_grow(last.ts as int, sample.ts as int, bucket_secs);
        }
        assert forall|k: int, m: int| 0 <= k < m < after.len() implies (#[trigger] after[k]).start
            < (#[trigger] after[m]).start by {
            assert(after[k].start == before[k].start);
            if m < before.len() {
                assert(after[m].start == before[m].start);
            } else if k < before.len() - 1 {
                assert(before[k].start < before[before.len() - 1].start);
            }
        }
    }
}

proof fn starts_grow(a: int, b: int, d: int)
    requires
        a <= b,
        d > 0,
    ensures
        bucket_start(a, d) <= bucket_start(b, d),
{
    assert(a - a % d <= b - b % d) by (nonlinear_arith)
        requires
            a <= b,
            d > 0,
    {
        let p = a / d;
        let q = b / d;
        assert(a == d * p + a % d);
        assert(b == d * q + b % d);
        assert(p <= q);
        assert(d * p <= d * q);
    }
}

fn start_of(ts: i64, bucket_secs: i64) -> (r: i64)
    requires
        bucket_secs > 0,
        bucket_start(ts as int, bucket_secs as int) >= i64::MIN,
    ensures
        r == bucket_start(ts as int, bucket_secs as int),
{
    if ts >= 0 {
        ts - ts % bucket_secs
    } else {
        let below: i64 = -(ts + 1);
        let rest: i64 = below % bucket_secs;
        proof {
            let n = ts as int;
            let d = bucket_secs as int;
            let m = below as int;
            assert(n % d == d - 1 - m % d) by {
                let q = m / d;
                assert(m == d * q + m % d) by (nonlinear_arith)
                    requires
                        d > 0,
                        q == m / d,
                ;
                assert(d * (-q - 1) == -(d * q) - d) by (nonlinear_arith);
                assert(n == d * (-q - 1) + (d - 1 - m % d));
                vstd::arithmetic::div_mod::lemma_fundamental_div_mod_converse(
                    n,
                    d,
                    -q - 1,
                    d - 1 - m % d,
                );
            }
        }
        ts - (bucket_secs - 1 - rest)
    }
}

/// The buckets of the samples.
pub fn group(samples: &Vec<Sample>, bucket_secs: i64) -> (r: Vec<Bucket>)
    requires
        bucket_secs > 0,
        forall|i: int|
            0 <= i < samples@.len() ==> bucket_start(
                (#[trigger] samples@[i]).ts as int,
                bucket_secs as int,
            ) >= i64::MIN,
    ensures
        bucket_models(r@) == buckets_of(samples@, bucket_secs as int),
{
    let mut out: Vec<Bucket> = Vec::new();
    let mut i: usize = 0;
    assert(bucket_models(out@) =~= buckets_of(samples@.take(0), bucket_secs as int));
    while i < samples.len()
        invariant
            i <= samples@.len(),
            bucket_secs > 0,
            forall|j: int|
                0 <= j < samples@.len() ==> bucket_start(
                    (#[trigger] samples@[j]).ts as int,
                    bucket_secs as int,
                ) >= i64::MIN,
            bucket_models(out@) == buckets_of(samples@.take(i as int), bucket_secs as int),
            forall|k: int|
                0 <= k < out@.len() ==> (#[trigger] out@[k]).to <= i && out@[k].ok <= out@[k].to,
        decreases samples@.len() - i,
    {
        let ghost before = out@;
        assert(samples@.take(i + 1).drop_last() =~= samples@.take(i as int));
        assert(samples@.take(i + 1).last() == samples@[i as int]);
        let sample = samples[i];
        let start: i64 = start_of(sample.ts, bucket_secs);
        let one: usize = if sample.ok {
            1
        } else {
            0
        };
        let n: usize = out.len();
        if n > 0 && out[n - 1].start == start {
            let last = out[n - 1];
            assert(before[n - 1].to <= i && before[n - 1].ok <= before[n - 1].to);
            let bucket = Bucket {
                start: last.start,
                from: last.from,
                to: last.to + 1,
                ok: last.ok + one,
            };
            out.set(n - 1, bucket);
            assert(bucket_models(out@) =~= bucket_models(before).drop_last().push(bucket@));
        } else {
            let bucket = Bucket { start, from: i, to: i + 1, ok: one };
            out.push(bucket);
            assert(bucket_models(out@) =~= bucket_models(before).push(bucket@));
        }
        i = i + 1;
    }
    assert(samples@.take(i as int) =~= samples@);
    out
}

/// The number of samples that were not answered.
pub fn failed_count(samples: &Vec<Sample>) -> (r: usize)
    ensures
        r == samples@.len() - answered_count(samples@),
{
    let mut failed: usize = 0;
    let mut i: usize = 0;
    while i < samples.len()
        invariant
            i <= samples@.len(),
            failed <= i,
            failed == i - answered_count(samples@.take(i as int)),
        decreases samples@.len() - i,
    {
        assert(samples@.take(i + 1).drop_last() =~= samples@.take(i as int));
        if !samples[i].ok {
            failed = failed + 1;
        }
        i = i + 1;
    }
    assert(samples@.take(i as int) =~= samples@);
    failed
}

/// Up to when samples are dropped at `now`, where some are, after they were dropped at `last_prune`.
pub open spec fn pruned_before(last_prune: i64, now: i64) -> Option<i64> {
    if now - last_prune > PRUNE_SECS {
        Some((now - RETENTION_SECS) as i64)
    } else {
        None
    }
}

/// Old samples are dropped once more than an hour has passed since the last time; no sample of any
/// chart that ends then is dropped.
pub proof fn charts_lose_nothing(last_prune: i64, now: i64, range: Range)
    requires
        now - RETENTION_SECS >= i64::MIN,
    ensures
        pruned_before(last_prune, now) is Some <==> now - last_prune > 3600,
        pruned_before(last_prune, now) matches Some(limit) ==> limit == now - 691_200 && limit
            < now - range.span(),
{
}

/// The sampler: when old samples were dropped for the last time.
#[derive(Debug)]
pub struct Sampler {
    pub last_prune: i64,
}

impl Sampler {
    /// A sampler that has not dropped anything.
    pub fn new() -> (r: Sampler)
        ensures
            r.last_prune == 0,
    {
        Sampler { last_prune: 0 }
    }

    /// Whether old samples are to be dropped at `now`, and up to when.
    pub fn prune_before(&mut self, now: i64) -> (r: Option<i64>)
        requires
            i64::MIN <= now - old(self).last_prune <= i64::MAX,
            now - old(self).last_prune > PRUNE_SECS ==> now - RETENTION_SECS >= i64::MIN,
        ensures
            r == pruned_before(old(self).last_prune, now),
            final(self).last_prune == if r is Some {
                now
            } else {
                old(self).last_prune
            },
    {
        if now - self.last_prune > PRUNE_SECS {
            self.last_prune = now;
            Some(now - RETENTION_SECS)
        } else {
            None
        }
    }
}

} // verus!
