use vstd::prelude::*;

verus! {

/// One step of scanning marked points from left to right: a marked point opens
/// an interval if none is open; an unmarked point closes the open one at its time.
pub open spec fn run_step(state: (Seq<(u64, u64)>, Option<u64>), p: (u64, bool)) -> (Seq<(u64, u64)>, Option<u64>) {
    if p.1 {
        (state.0, if state.1 is Some { state.1 } else { Some(p.0) })
    } else {
        match state.1 {
            Some(f) => (state.0.push((f, p.0)), None),
            None => (state.0, None),
        }
    }
}

/// The closed intervals and the start of the still open one after scanning `marks`.
pub open spec fn scan_runs(marks: Seq<(u64, bool)>) -> (Seq<(u64, u64)>, Option<u64>)
    decreases marks.len(),
{
    if marks.len() == 0 {
        (Seq::empty(), None)
    } else {
        run_step(scan_runs(marks.drop_last()), marks.last())
    }
}

/// The intervals of `marks`, where an interval still open at the end is closed at `end`.
pub open spec fn runs_closed_at(marks: Seq<(u64, bool)>, end: u64) -> Seq<(u64, u64)> {
    match scan_runs(marks).1 {
        Some(f) => scan_runs(marks).0.push((f, end)),
        None => scan_runs(marks).0,
    }
}

/// Scans points `(time, marked)` and returns the intervals from the first marked
/// point of each run to the first unmarked point after it, and the start of a
/// run that is still open at the end.
pub fn collect_runs(marks: &Vec<(u64, bool)>) -> (r: (Vec<(u64, u64)>, Option<u64>))
    ensures
        (r.0@, r.1) == scan_runs(marks@),
{
    let mut result: Vec<(u64, u64)> = Vec::new();
    let mut from: Option<u64> = None;
    let mut i: usize = 0;
    while i < marks.len()
        invariant
            i <= marks@.len(),
            (result@, from) == scan_runs(marks@.take(i as int)),
        decreases marks@.len() - i,
    {
        let (t, m) = marks[i];
        proof {
            assert(marks@.take(i + 1).drop_last() =~= marks@.take(i as int));
            assert(marks@.take(i + 1).last() == (t, m));
        }
        if m {
            if from.is_none() {
                from = Some(t);
            }
        } else {
            if from.is_some() {
                result.push((from.unwrap(), t));
                from = None;
            }
        }
        i = i + 1;
    }
    proof {
        assert(marks@.take(i as int) =~= marks@);
    }
    (result, from)
}

/// The intervals of `marks`, closing a run still open at the end at `end`.
pub fn runs_until(marks: &Vec<(u64, bool)>, end: u64) -> (r: Vec<(u64, u64)>)
    ensures
        r@ == runs_closed_at(marks@, end),
{
    let (mut result, open) = collect_runs(marks);
    if open.is_some() {
        result.push((open.unwrap(), end));
    }
    result
}

/// Times strictly increase along `marks`.
pub open spec fn increasing_times(marks: Seq<(u64, bool)>) -> bool {
    forall|i: int, j: int| 0 <= i < j < marks.len() ==> marks[i].0 < marks[j].0
}

/// Each interval starts before it ends, and each ends before the next one starts.
pub open spec fn ordered_runs(runs: Seq<(u64, u64)>) -> bool {
    &&& forall|i: int| 0 <= i < runs.len() ==> (#[trigger] runs[i]).0 < runs[i].1
    &&& forall|i: int, j: int| 0 <= i < j < runs.len() ==> (#[trigger] runs[i]).1 < (#[trigger] runs[j]).0
}

proof fn lemma_scan_runs_ordered_rec(marks: Seq<(u64, bool)>)
    requires
        increasing_times(marks),
        marks.len() > 0,
    ensures
        ordered_runs(scan_runs(marks).0),
        forall|k: int| 0 <= k < scan_runs(marks).0.len() ==> (#[trigger] scan_runs(marks).0[k]).1 <= marks.last().0,
        scan_runs(marks).1 matches Some(f) ==> f <= marks.last().0 && forall|k: int|
            0 <= k < scan_runs(marks).0.len() ==> (#[trigger] scan_runs(marks).0[k]).1 < f,
    decreases marks.len(),
{
    let d = marks.drop_last();
    let p = marks.last();
    if d.len() == 0 {
        assert(scan_runs(d) == (Seq::<(u64, u64)>::empty(), None::<u64>));
    } else {
        assert(increasing_times(d)) by {
            assert forall|i: int, j: int| 0 <= i < j < d.len() implies d[i].0 < d[j].0 by {
                assert(d[i] == marks[i] && d[j] == marks[j]);
            }
        }
        lemma_scan_runs_ordered_rec(d);
        assert(d.last() == marks[marks.len() - 2]);
        assert(p == marks[marks.len() - 1]);
        assert(d.last().0 < p.0);
        let (c, o) = scan_runs(d);
        if !p.1 {
            if let Some(f) = o {
                let c2 = c.push((f, p.0));
                assert forall|i: int, j: int| 0 <= i < j < c2.len() implies (#[trigger] c2[i]).1 < (
                #[trigger] c2[j]).0 by {
                    if j < c.len() {
                        assert(c2[i] == c[i] && c2[j] == c[j]);
                    } else {
                        assert(c2[i] == c[i]);
                    }
                }
                assert forall|i: int| 0 <= i < c2.len() implies (#[trigger] c2[i]).0 < c2[i].1 by {
                    if i < c.len() {
                        assert(c2[i] == c[i]);
                    }
                }
                assert forall|k: int| 0 <= k < c2.len() implies (#[trigger] c2[k]).1 <= p.0 by {
                    if k < c.len() {
                        assert(c2[k] == c[k]);
                    }
                }
            }
        }
    }
}

/// Over points whose times strictly increase, the detected intervals are ordered:
/// each starts before it ends and ends before the next one starts.
pub proof fn lemma_runs_ordered(marks: Seq<(u64, bool)>)
    requires
        increasing_times(marks),
    ensures
        ordered_runs(scan_runs(marks).0),
        scan_runs(marks).1 matches Some(f) ==> forall|k: int|
            0 <= k < scan_runs(marks).0.len() ==> (#[trigger] scan_runs(marks).0[k]).1 < f,
{
    if marks.len() > 0 {
        lemma_scan_runs_ordered_rec(marks);
    }
}


/// Some interval `[a, b)` of `runs` contains `x`.
pub open spec fn covered(runs: Seq<(u64, u64)>, x: u64) -> bool {
    exists|k: int| #![trigger runs[k]] 0 <= k < runs.len() && runs[k].0 <= x && x < runs[k].1
}

/// The point at time `x` is reported: a closed interval `[a, b)` holds it, or the
/// interval still open at the end started at or before it.
pub open spec fn reported(state: (Seq<(u64, u64)>, Option<u64>), x: u64) -> bool {
    covered(state.0, x) || (state.1 matches Some(f) && f <= x)
}

/// Over points whose times strictly increase, a point is reported exactly when it is
/// marked: the detected intervals cover the marked points and no others.
pub proof fn lemma_runs_cover_exactly_marked(marks: Seq<(u64, bool)>)
    requires
        increasing_times(marks),
    ensures
        forall|i: int| 0 <= i < marks.len() ==> ((#[trigger] marks[i]).1 <==> reported(scan_runs(marks), marks[i].0)),
    decreases marks.len(),
{
    if marks.len() > 0 {
        let d = marks.drop_last();
        let p = marks.last();
        assert(increasing_times(d)) by {
            assert forall|i: int, j: int| 0 <= i < j < d.len() implies d[i].0 < d[j].0 by {
                assert(d[i] == marks[i] && d[j] == marks[j]);
            }
        }
        lemma_runs_cover_exactly_marked(d);
        let (c, o) = scan_runs(d);
        let (c2, o2) = scan_runs(marks);
        assert(scan_runs(marks) == run_step(scan_runs(d), p));
        assert(p == marks[marks.len() - 1]);
        if d.len() > 0 {
            lemma_scan_runs_ordered_rec(d);
            assert(d.last() == marks[marks.len() - 2]);
        }
        assert forall|i: int| 0 <= i < marks.len() implies ((#[trigger] marks[i]).1 <==> reported(scan_runs(marks), marks[i].0)) by {
            let x = marks[i].0;
            if i < d.len() {
                assert(marks[i] == d[i]);
                assert(x < p.0);
                assert(d[i].1 <==> reported((c, o), x));
                if p.1 {
                    assert(c2 == c);
                    if o is None {
                        assert(o2 == Some(p.0));
                    } else {
                        assert(o2 == o);
                    }
                } else if o is None {
                    assert(c2 == c && o2 is None);
                } else {
                    if let Some(f) = o {
                        assert(c2 == c.push((f, p.0)));
                        assert(o2 is None);
                        if covered(c, x) {
                            let k = choose|k: int| #![trigger c[k]] 0 <= k < c.len() && c[k].0 <= x && x < c[k].1;
                            assert(c2[k] == c[k]);
                        }
                        if covered(c2, x) {
                            let k = choose|k: int| #![trigger c2[k]] 0 <= k < c2.len() && c2[k].0 <= x && x < c2[k].1;
                            if k < c.len() {
                                assert(c2[k] == c[k]);
                            }
                        }
                        if f <= x {
                            assert(c2[c.len() as int] == (f, p.0));
                        }
                    }
                }
            } else {
                assert(i == d.len());
                if d.len() > 0 {
                    assert(d.last().0 < p.0);
                }
                if p.1 {
                    if let Some(f) = o {
                        assert(f <= d.last().0);
                    }
                } else {
                    assert(o2 is None);
                    if covered(c2, x) {
                        let k = choose|k: int| #![trigger c2[k]] 0 <= k < c2.len() && c2[k].0 <= x && x < c2[k].1;
                        if k < c.len() {
                            if let Some(f) = o {
                                assert(c2 == c.push((f, p.0)));
                            }
                            assert(c2[k] == c[k]);
                            assert(c[k].1 <= d.last().0);
                        } else {
                            assert(c2[k].1 == p.0);
                        }
                    }
                }
            }
        }
    }
}

} // verus!
