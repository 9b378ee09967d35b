use vstd::prelude::*;

use crate::services::segments_service::{Segment, SegmentType};

verus! {

/// The time step, in seconds, at which the pattern unit reads the metric.
pub const DETECTION_STEP: u64 = 10;

/// The number of features computed per window.
pub const FEATURES_SIZE: usize = 4;

/// One step of the sliding-window scan. The window that starts at position `k`
/// ends at `k + len - 1`. A window that scores as a pattern opens an interval at
/// its start, or extends the open one to its end; one that does not closes the
/// open interval, which is merged into the last reported interval when they touch.
pub open spec fn window_step(
    state: (Seq<(u64, u64)>, Option<(u64, u64)>),
    times: Seq<u64>,
    len: int,
    k: int,
    hit: bool,
) -> (Seq<(u64, u64)>, Option<(u64, u64)>) {
    let (results, cur) = state;
    if hit {
        (
            results,
            Some(
                (
                    match cur {
                        Some(c) => c.0,
                        None => times[k],
                    },
                    times[k + len - 1],
                ),
            ),
        )
    } else {
        match cur {
            Some(c) => {
                if results.len() > 0 && results.last().1 >= c.0 {
                    (results.drop_last().push((results.last().0, c.1)), None)
                } else {
                    (results.push(c), None)
                }
            },
            None => (results, None),
        }
    }
}

/// The state after scanning the windows scored by `hits` (one per window start).
pub open spec fn scan_windows(times: Seq<u64>, len: int, hits: Seq<bool>) -> (Seq<(u64, u64)>, Option<(u64, u64)>)
    decreases hits.len(),
{
    if hits.len() == 0 {
        (Seq::empty(), None)
    } else {
        window_step(scan_windows(times, len, hits.drop_last()), times, len, hits.len() - 1, hits.last())
    }
}

/// The intervals the pattern unit reports: the scan's intervals, and the one still
/// open at the end appended as it is.
pub open spec fn pattern_detections(times: Seq<u64>, len: int, hits: Seq<bool>) -> Seq<(u64, u64)> {
    match scan_windows(times, len, hits).1 {
        Some(c) => scan_windows(times, len, hits).0.push(c),
        None => scan_windows(times, len, hits).0,
    }
}

/// Turns the scores of the sliding windows into detected intervals. `times` are the
/// metric's timestamps, `window_len` the average pattern length, and `hits[k]`
/// whether the window starting at position `k` scored above the threshold. Nothing
/// is detected in a series shorter than one window.
pub fn detect_windows(times: &Vec<u64>, window_len: usize, hits: &Vec<bool>) -> (r: Vec<(u64, u64)>)
    requires
        window_len >= 1,
        window_len <= times@.len() ==> hits@.len() == times@.len() - window_len + 1,
    ensures
        window_len > times@.len() ==> r@.len() == 0,
        window_len <= times@.len() ==> r@ == pattern_detections(times@, window_len as int, hits@),
{
    let mut results: Vec<(u64, u64)> = Vec::new();
    if window_len > times.len() {
        return results;
    }
    let mut cur: Option<(u64, u64)> = None;
    let mut k: usize = 0;
    let n = times.len();
    while k < hits.len()
        invariant
            n == times@.len(),
            k <= hits@.len(),
            1 <= window_len <= times@.len(),
            hits@.len() == times@.len() - window_len + 1,
            (results@, cur) == scan_windows(times@, window_len as int, hits@.take(k as int)),
        decreases hits@.len() - k,
    {
        proof {
            assert(hits@.take(k + 1).drop_last() =~= hits@.take(k as int));
            assert(hits@.take(k + 1).last() == hits@[k as int]);
        }
        if hits[k] {
            let start = match cur {
                Some(c) => c.0,
                None => times[k],
            };
            let end = k + (window_len - 1);
            cur = Some((start, times[end]));
        } else {
            match cur {
                Some(c) => {
                    let n = results.len();
                    if n > 0 && results[n - 1].1 >= c.0 {
                        let (prev_from, _) = results.pop().unwrap();
                        results.push((prev_from, c.1));
                    } else {
                        results.push(c);
                    }
                    cur = None;
                },
                None => {},
            }
        }
        k = k + 1;
    }
    proof {
        assert(hits@.take(k as int) =~= hits@);
    }
    match cur {
        Some(c) => results.push(c),
        None => {},
    }
    results
}

/// Times strictly increase along the series.
pub open spec fn increasing(times: Seq<u64>) -> bool {
    forall|i: int, j: int| 0 <= i < j < times.len() ==> times[i] < times[j]
}

proof fn lemma_scan_windows_ordered(times: Seq<u64>, len: int, hits: Seq<bool>)
    requires
        increasing(times),
        1 <= len <= times.len(),
        hits.len() <= times.len() - len + 1,
    ensures
        ({
            let (r, cur) = scan_windows(times, len, hits);
            &&& forall|j: int| 0 <= j < r.len() ==> (#[trigger] r[j]).0 <= r[j].1
            &&& forall|i: int, j: int| 0 <= i < j < r.len() ==> (#[trigger] r[i]).0 < (#[trigger] r[j]).0
            &&& hits.len() > 0 ==> forall|j: int| 0 <= j < r.len() ==> (#[trigger] r[j]).0 <= times[hits.len() - 1]
            &&& cur matches Some(c) ==> c.0 <= c.1 && hits.len() > 0 && c.0 <= times[hits.len() - 1]
                && forall|j: int| 0 <= j < r.len() ==> (#[trigger] r[j]).0 < c.0
        }),
    decreases hits.len(),
{
    if hits.len() > 0 {
        let d = hits.drop_last();
        lemma_scan_windows_ordered(times, len, d);
        let k = hits.len() - 1;
        let (r, cur) = scan_windows(times, len, d);
        assert(k + len - 1 < times.len());
        if k > 0 {
            assert(times[k - 1] < times[k]);
        }
        assert(times[k] <= times[k + len - 1]) by {
            if len > 1 {
                assert(times[k] < times[k + len - 1]);
            }
        }
        if !hits.last() {
            if let Some(c) = cur {
                if r.len() > 0 && r.last().1 >= c.0 {
                    let r2 = r.drop_last().push((r.last().0, c.1));
                    assert(r.last() == r[r.len() - 1]);
                    assert forall|j: int| 0 <= j < r2.len() implies (#[trigger] r2[j]).0 <= r2[j].1 by {
                        if j < r.len() - 1 {
                            assert(r2[j] == r[j]);
                        }
                    }
                    assert forall|i: int, j: int| 0 <= i < j < r2.len() implies (#[trigger] r2[i]).0 < (
                    #[trigger] r2[j]).0 by {
                        assert(r2[i] == r[i]);
                        if j < r.len() - 1 {
                            assert(r2[j] == r[j]);
                        } else {
                            assert(r2[j].0 == r[r.len() - 1].0);
                        }
                    }
                    assert forall|j: int| 0 <= j < r2.len() implies (#[trigger] r2[j]).0 <= times[k] by {
                        if j < r.len() - 1 {
                            assert(r2[j] == r[j]);
                        } else {
                            assert(r2[j].0 == r[r.len() - 1].0);
                        }
                    }
                } else {
                    let r2 = r.push(c);
                    assert forall|j: int| 0 <= j < r2.len() implies (#[trigger] r2[j]).0 <= r2[j].1 by {
                        if j < r.len() {
                            assert(r2[j] == r[j]);
                        }
                    }
                    assert forall|i: int, j: int| 0 <= i < j < r2.len() implies (#[trigger] r2[i]).0 < (
                    #[trigger] r2[j]).0 by {
                        assert(r2[i] == r[i]);
                        if j < r.len() {
                            assert(r2[j] == r[j]);
                        }
                    }
                    assert forall|j: int| 0 <= j < r2.len() implies (#[trigger] r2[j]).0 <= times[k] by {
                        if j < r.len() {
                            assert(r2[j] == r[j]);
                        }
                    }
                }
            }
        }
    }
}

/// Over a series whose times strictly increase, the pattern unit's intervals each
/// start no later than they end, and their starts strictly increase.
pub proof fn lemma_pattern_detections_ordered(times: Seq<u64>, len: int, hits: Seq<bool>)
    requires
        increasing(times),
        1 <= len <= times.len(),
        hits.len() == times.len() - len + 1,
    ensures
        forall|j: int|
            0 <= j < pattern_detections(times, len, hits).len() ==> (#[trigger] pattern_detections(
                times,
                len,
                hits,
            )[j]).0 <= pattern_detections(times, len, hits)[j].1,
        forall|i: int, j: int|
            0 <= i < j < pattern_detections(times, len, hits).len() ==> (#[trigger] pattern_detections(
                times,
                len,
                hits,
            )[i]).0 < (#[trigger] pattern_detections(times, len, hits)[j]).0,
{
    lemma_scan_windows_ordered(times, len, hits);
    let (r, cur) = scan_windows(times, len, hits);
    if let Some(c) = cur {
        let out = r.push(c);
        assert forall|j: int| 0 <= j < out.len() implies (#[trigger] out[j]).0 <= out[j].1 by {
            if j < r.len() {
                assert(out[j] == r[j]);
            }
        }
        assert forall|i: int, j: int| 0 <= i < j < out.len() implies (#[trigger] out[i]).0 < (
        #[trigger] out[j]).0 by {
            assert(out[i] == r[i]);
            if j < r.len() {
                assert(out[j] == r[j]);
            }
        }
    }
}

/// Each interval ends before the next one starts.
pub open spec fn separated(r: Seq<(u64, u64)>) -> bool {
    forall|i: int, j: int| 0 <= i && j == i + 1 && j < r.len() ==> (#[trigger] r[i]).1 < (#[trigger] r[j]).0
}

proof fn lemma_scan_windows_separated(times: Seq<u64>, len: int, hits: Seq<bool>)
    ensures
        separated(scan_windows(times, len, hits).0),
    decreases hits.len(),
{
    if hits.len() > 0 {
        let d = hits.drop_last();
        lemma_scan_windows_separated(times, len, d);
        let (r, cur) = scan_windows(times, len, d);
        if !hits.last() {
            if let Some(c) = cur {
                if r.len() > 0 && r.last().1 >= c.0 {
                    let r2 = r.drop_last().push((r.last().0, c.1));
                    assert forall|i: int, j: int| 0 <= i && j == i + 1 && j < r2.len() implies (
                    #[trigger] r2[i]).1 < (#[trigger] r2[j]).0 by {
                        assert(r2[i] == r[i]);
                        if j < r.len() - 1 {
                            assert(r2[j] == r[j]);
                        } else {
                            assert(r2[j].0 == r[j].0);
                        }
                    }
                } else {
                    let r2 = r.push(c);
                    assert forall|i: int, j: int| 0 <= i && j == i + 1 && j < r2.len() implies (
                    #[trigger] r2[i]).1 < (#[trigger] r2[j]).0 by {
                        assert(r2[i] == r[i]);
                        if j < r.len() {
                            assert(r2[j] == r[j]);
                        } else {
                            assert(r[i] == r.last());
                        }
                    }
                }
            }
        }
    }
}

/// How the pattern unit merges: every interval that was closed during the scan
/// ends before the next closed one starts (intervals that touch were merged), and
/// the run still open at the end of the scan is appended as it is, without merging.
pub proof fn lemma_pattern_detections_merge(times: Seq<u64>, len: int, hits: Seq<bool>)
    ensures
        separated(scan_windows(times, len, hits).0),
        pattern_detections(times, len, hits) == match scan_windows(times, len, hits).1 {
            Some(c) => scan_windows(times, len, hits).0.push(c),
            None => scan_windows(times, len, hits).0,
        },
        forall|i: int, j: int|
            0 <= i && j == i + 1 && j < pattern_detections(times, len, hits).len() - 1 ==> (
            #[trigger] pattern_detections(times, len, hits)[i]).1 < (#[trigger] pattern_detections(
                times,
                len,
                hits,
            )[j]).0,
{
    lemma_scan_windows_separated(times, len, hits);
    let (r, cur) = scan_windows(times, len, hits);
    let out = pattern_detections(times, len, hits);
    assert forall|i: int, j: int| 0 <= i && j == i + 1 && j < out.len() - 1 implies (
    #[trigger] out[i]).1 < (#[trigger] out[j]).0 by {
        assert(out[i] == r[i] && out[j] == r[j]);
    }
}

/// Some segment is a user's label.
pub open spec fn has_label(segments: Seq<Segment>) -> bool {
    exists|i: int| 0 <= i < segments.len() && segments[i].segment_type == SegmentType::Label
}

/// There is something to learn exactly when some segment is a label, wherever it
/// stands; adding a segment adds a label exactly when that segment is one.
pub proof fn lemma_has_label_any_position(segments: Seq<Segment>, extra: Segment)
    ensures
        has_label(segments) <==> exists|i: int|
            0 <= i < segments.len() && (#[trigger] segments[i]).segment_type == SegmentType::Label,
        has_label(segments.push(extra)) <==> (has_label(segments) || extra.segment_type
            == SegmentType::Label),
        has_label(seq![extra].add(segments)) <==> (has_label(segments) || extra.segment_type
            == SegmentType::Label),
{
    let t = segments.push(extra);
    let u = seq![extra].add(segments);
    if has_label(segments) {
        let i = choose|i: int| 0 <= i < segments.len() && segments[i].segment_type == SegmentType::Label;
        assert(t[i] == segments[i]);
        assert(u[i + 1] == segments[i]);
    }
    if extra.segment_type == SegmentType::Label {
        assert(t[segments.len() as int] == extra);
        assert(u[0] == extra);
    }
    if has_label(t) {
        let i = choose|i: int| 0 <= i < t.len() && t[i].segment_type == SegmentType::Label;
        if i < segments.len() {
            assert(t[i] == segments[i]);
        }
    }
    if has_label(u) {
        let i = choose|i: int| 0 <= i < u.len() && u[i].segment_type == SegmentType::Label;
        if i > 0 {
            assert(u[i] == segments[i - 1]);
        }
    }
}

/// Whether any of `segments` is a user's label; without one there is nothing to learn.
pub fn has_label_segment(segments: &Vec<Segment>) -> (b: bool)
    ensures
        b == has_label(segments@),
{
    let mut i: usize = 0;
    while i < segments.len()
        invariant
            i <= segments@.len(),
            forall|j: int| 0 <= j < i ==> segments@[j].segment_type != SegmentType::Label,
        decreases segments@.len() - i,
    {
        if segments[i].segment_type == SegmentType::Label {
            return true;
        }
        i = i + 1;
    }
    false
}

/// The metric's data over one segment, and whether the segment is a label.
pub struct SegData<T> {
    pub label: bool,
    pub data: Vec<T>,
}

/// The non-empty data of the segments with the given label, in order.
pub open spec fn learning_series<T>(rs: Seq<Option<SegData<T>>>, label: bool) -> Seq<Seq<T>>
    decreases rs.len(),
{
    if rs.len() == 0 {
        Seq::empty()
    } else {
        let prev = learning_series(rs.drop_last(), label);
        match rs.last() {
            Some(sd) => if sd.label == label && sd.data@.len() > 0 {
                prev.push(sd.data@)
            } else {
                prev
            },
            None => prev,
        }
    }
}

/// The views of a list of series.
pub open spec fn series_views<T>(v: Seq<Vec<T>>) -> Seq<Seq<T>> {
    v.map_values(|x: Vec<T>| x@)
}

/// Splits the data read for each segment into pattern series (labels) and
/// anti-pattern series (detections), skipping empty ones; `None` when the data of
/// some segment could not be read (`rs[i]` is `None`).
pub fn split_learning_data<T>(rs: Vec<Option<SegData<T>>>) -> (r: Option<(Vec<Vec<T>>, Vec<Vec<T>>)>)
    ensures
        r is None <==> exists|i: int| 0 <= i < rs@.len() && rs@[i] is None,
        r matches Some(p) ==> series_views(p.0@) == learning_series(rs@, true) && series_views(p.1@)
            == learning_series(rs@, false),
{
    let ghost all = rs@;
    let total = rs.len();
    assert(all.len() == total);
    let mut pending = rs;
    let mut learn_tss: Vec<Vec<T>> = Vec::new();
    let mut learn_anti_tss: Vec<Vec<T>> = Vec::new();
    let mut k: usize = 0;
    while pending.len() > 0
        invariant
            k + pending@.len() == all.len(),
            all == rs@,
            all.len() <= usize::MAX,
            pending@ == all.skip(k as int),
            forall|j: int| 0 <= j < k ==> all[j] is Some,
            series_views(learn_tss@) == learning_series(all.take(k as int), true),
            series_views(learn_anti_tss@) == learning_series(all.take(k as int), false),
        decreases pending@.len(),
    {
        let item = pending.remove(0);
        proof {
            assert(item == all[k as int]);
            assert(pending@ =~= all.skip(k + 1));
            assert(all.take(k + 1).drop_last() =~= all.take(k as int));
            assert(all.take(k + 1).last() == all[k as int]);
        }
        match item {
            None => {
                proof {
                    assert(all[k as int] is None);
                    assert(exists|i: int| 0 <= i < all.len() && all[i] is None);
                }
                return None;
            },
            Some(sd) => {
                if sd.data.len() > 0 {
                    let ghost d = sd.data@;
                    if sd.label {
                        learn_tss.push(sd.data);
                        proof {
                            assert(series_views(learn_tss@) =~= series_views(learn_tss@.drop_last()).push(d));
                        }
                    } else {
                        learn_anti_tss.push(sd.data);
                        proof {
                            assert(series_views(learn_anti_tss@) =~= series_views(learn_anti_tss@.drop_last()).push(d));
                        }
                    }
                }
            },
        }
        k = k + 1;
    }
    proof {
        assert(all.take(k as int) =~= all);
    }
    Some((learn_tss, learn_anti_tss))
}

/// The total length of a list of series.
pub open spec fn total_length<T>(v: Seq<Vec<T>>) -> nat
    decreases v.len(),
{
    if v.len() == 0 {
        0
    } else {
        total_length(v.drop_last()) + v.last()@.len()
    }
}

/// The average length (rounded down) of the pattern and anti-pattern series.
pub fn avg_pattern_length<T>(patterns: &Vec<Vec<T>>, anti_patterns: &Vec<Vec<T>>) -> (n: usize)
    requires
        patterns@.len() + anti_patterns@.len() > 0,
        patterns@.len() + anti_patterns@.len() <= usize::MAX,
        total_length(patterns@) + total_length(anti_patterns@) <= usize::MAX,
    ensures
        n == (total_length(patterns@) + total_length(anti_patterns@)) / (patterns@.len()
            + anti_patterns@.len()) as nat,
{
    let a = series_length_sum(patterns);
    let b = series_length_sum(anti_patterns);
    (a + b) / (patterns.len() + anti_patterns.len())
}

proof fn lemma_total_length_prefix<T>(v: Seq<Vec<T>>, k: int)
    requires
        0 <= k <= v.len(),
    ensures
        total_length(v.take(k)) <= total_length(v),
    decreases v.len() - k,
{
    if k < v.len() {
        lemma_total_length_prefix(v, k + 1);
        assert(v.take(k + 1).drop_last() =~= v.take(k));
    } else {
        assert(v.take(k) =~= v);
    }
}

fn series_length_sum<T>(v: &Vec<Vec<T>>) -> (s: usize)
    requires
        total_length(v@) <= usize::MAX,
    ensures
        s == total_length(v@),
{
    let mut s: usize = 0;
    let mut i: usize = 0;
    while i < v.len()
        invariant
            i <= v@.len(),
            total_length(v@) <= usize::MAX,
            s == total_length(v@.take(i as int)),
        decreases v@.len() - i,
    {
        proof {
            assert(v@.take(i + 1).drop_last() =~= v@.take(i as int));
            lemma_total_length_prefix(v@, i + 1);
        }
        s = s + v[i].len();
        i = i + 1;
    }
    proof {
        assert(v@.take(i as int) =~= v@);
    }
    s
}

} // verus!
