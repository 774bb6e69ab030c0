use vpn_bot::latency::{failed_count, group, Range, Sample, Sampler};

struct Point {
    t: i64,
    ms: Option<f64>,
}

struct Series {
    points: Vec<Point>,
    current_ms: Option<f64>,
    min_ms: Option<f64>,
    avg_ms: Option<f64>,
    max_ms: Option<f64>,
    loss_pct: f64,
}

fn round1(v: f64) -> f64 {
    (v * 10.0).round() / 10.0
}

/// Averages the buckets of the library.
fn aggregate(samples: &[(i64, Option<f64>)], bucket_secs: i64) -> Series {
    let plain: Vec<Sample> = samples
        .iter()
        .map(|(ts, rtt)| Sample {
            ts: *ts,
            ok: rtt.is_some(),
        })
        .collect();
    let points = group(&plain, bucket_secs)
        .iter()
        .map(|b| {
            let sum: f64 = samples[b.from..b.to].iter().filter_map(|s| s.1).sum();
            Point {
                t: b.start,
                ms: (b.ok > 0).then(|| round1(sum / b.ok as f64)),
            }
        })
        .collect();
    let ok: Vec<f64> = samples.iter().filter_map(|s| s.1).collect();
    Series {
        points,
        current_ms: samples.last().and_then(|s| s.1.map(round1)),
        min_ms: ok.iter().copied().reduce(f64::min).map(round1),
        avg_ms: (!ok.is_empty()).then(|| round1(ok.iter().sum::<f64>() / ok.len() as f64)),
        max_ms: ok.iter().copied().reduce(f64::max).map(round1),
        loss_pct: if samples.is_empty() {
            0.0
        } else {
            round1(failed_count(&plain) as f64 * 100.0 / samples.len() as f64)
        },
    }
}

#[test]
fn buckets_average_and_mark_outages() {
    let samples = [
        (0, Some(10.0)),
        (30, Some(20.0)),
        (60, None),
        (90, None),
        (120, Some(40.0)),
    ];
    let s = aggregate(&samples, 60);
    let values: Vec<_> = s.points.iter().map(|p| (p.t, p.ms)).collect();
    assert_eq!(values, [(0, Some(15.0)), (60, None), (120, Some(40.0))]);
    assert_eq!(s.current_ms, Some(40.0));
    assert_eq!((s.min_ms, s.max_ms), (Some(10.0), Some(40.0)));
    assert_eq!(s.loss_pct, 40.0);
}

#[test]
fn empty_range() {
    let s = aggregate(&[], 60);
    assert!(s.points.is_empty());
    assert_eq!((s.current_ms, s.avg_ms, s.loss_pct), (None, None, 0.0));
}

#[test]
fn ranges_have_names() {
    assert_eq!(Range::parse(Some("1h")), Range::Hour);
    assert_eq!(Range::parse(Some("24h")), Range::Day);
    assert_eq!(Range::parse(Some("7d")), Range::Week);
    assert_eq!(Range::parse(Some("x")), Range::Day);
    assert_eq!(Range::parse(None), Range::Day);
}

#[test]
fn ranges_have_spans_and_buckets() {
    assert_eq!((Range::Hour.span_secs(), Range::Hour.bucket_secs()), (3600, 60));
    assert_eq!((Range::Day.span_secs(), Range::Day.bucket_secs()), (86_400, 300));
    assert_eq!((Range::Week.span_secs(), Range::Week.bucket_secs()), (604_800, 3600));
    assert_eq!(Range::Week.since(604_801), 1);
}

#[test]
fn buckets_start_below_moments_before_the_epoch() {
    let sample = |ts| Sample { ts, ok: true };
    let buckets = group(&vec![sample(-61), sample(-60), sample(-1), sample(0)], 60);
    let starts: Vec<i64> = buckets.iter().map(|b| b.start).collect();
    assert_eq!(starts, [-120, -60, 0]);
    let spans: Vec<(usize, usize)> = buckets.iter().map(|b| (b.from, b.to)).collect();
    assert_eq!(spans, [(0, 1), (1, 3), (3, 4)]);
}

#[test]
fn old_samples_are_dropped_every_hour() {
    let mut sampler = Sampler::new();
    assert_eq!(sampler.prune_before(3600), None);
    assert_eq!(sampler.prune_before(1_000_000), Some(1_000_000 - 691_200));
    assert_eq!(sampler.prune_before(1_003_600), None);
    assert_eq!(sampler.prune_before(1_003_601), Some(1_003_601 - 691_200));
}

#[test]
fn extreme_clocks_are_taken() {
    let mut sampler = Sampler::new();
    assert_eq!(sampler.prune_before(-5), None);
    assert_eq!(sampler.prune_before(3600), None);
    assert_eq!(sampler.prune_before(3601), Some(3601 - 691_200));
    assert_eq!(Range::Hour.since(i64::MIN + 3600), i64::MIN);
    let first = Sample {
        ts: i64::MIN + 8,
        ok: true,
    };
    assert_eq!(group(&vec![first], 8)[0].start, i64::MIN + 8);
}

#[test]
fn buckets_count_their_answers() {
    let sample = |ts, ok| Sample { ts, ok };
    let samples = vec![
        sample(0, true),
        sample(10, false),
        sample(50, true),
        sample(60, false),
        sample(130, true),
    ];
    for bucket in group(&samples, 60) {
        let answered = samples[bucket.from..bucket.to].iter().filter(|s| s.ok).count();
        assert_eq!(bucket.ok, answered);
    }
    assert_eq!(group(&samples, 60)[0].ok, 2);
}
