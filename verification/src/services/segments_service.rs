use vstd::prelude::*;

use crate::utils::{get_random_str, is_alphanumeric_char};

verus! {

/// Length of the random id given to a stored segment.
pub const ID_LENGTH: usize = 20;

pub type SegmentId = String;

/// Whether a segment was labeled by a user or found by a detector.
#[derive(Debug, Clone, Copy, PartialEq, Eq, Structural)]
pub enum SegmentType {
    Label,
    Detection,
}

/// The integer a segment type is stored as.
pub open spec fn segment_type_code(t: SegmentType) -> u64 {
    match t {
        SegmentType::Label => 1,
        SegmentType::Detection => 2,
    }
}

/// The segment type an integer is read back as: `1` is a label, anything else a detection.
pub open spec fn segment_type_of_code(u: u64) -> SegmentType {
    if u == 1 {
        SegmentType::Label
    } else {
        SegmentType::Detection
    }
}

impl SegmentType {
    pub fn from(u: u64) -> (t: SegmentType)
        ensures
            t == segment_type_of_code(u),
    {
        if u == 1 {
            SegmentType::Label
        } else {
            SegmentType::Detection
        }
    }

    pub fn to_integer(&self) -> (u: u64)
        ensures
            u == segment_type_code(*self),
    {
        match self {
            SegmentType::Label => 1,
            SegmentType::Detection => 2,
        }
    }
}

/// Reading back the stored integer of a segment type gives the same type.
pub proof fn lemma_segment_type_code_roundtrip(t: SegmentType)
    ensures
        segment_type_of_code(segment_type_code(t)) == t,
{
}

/// A time interval `[from, to]` of the metric, labeled or detected.
#[derive(Debug, Clone)]
pub struct Segment {
    pub id: Option<SegmentId>,
    pub from: u64,
    pub to: u64,
    pub segment_type: SegmentType,
}

/// The mathematical value of a segment: its id as a character sequence.
pub struct SegmentView {
    pub id: Option<Seq<char>>,
    pub from: u64,
    pub to: u64,
    pub segment_type: SegmentType,
}

impl View for Segment {
    type V = SegmentView;

    open spec fn view(&self) -> SegmentView {
        SegmentView {
            id: match self.id {
                Some(s) => Some(s@),
                None => None,
            },
            from: self.from,
            to: self.to,
            segment_type: self.segment_type,
        }
    }
}

impl Segment {
    /// A copy of the segment.
    pub fn duplicate(&self) -> (r: Segment)
        ensures
            r@ == self@,
    {
        Segment {
            id: match &self.id {
                Some(s) => Some(s.clone()),
                None => None,
            },
            from: self.from,
            to: self.to,
            segment_type: self.segment_type,
        }
    }
}

/// The views of a sequence of segments.
pub open spec fn segment_views(s: Seq<Segment>) -> Seq<SegmentView> {
    s.map_values(|x: Segment| x@)
}

/// The segments of `s` that satisfy `p`, in their order.
pub open spec fn select(s: Seq<SegmentView>, p: spec_fn(SegmentView) -> bool) -> Seq<SegmentView>
    decreases s.len(),
{
    if s.len() == 0 {
        Seq::empty()
    } else if p(s.last()) {
        select(s.drop_last(), p).push(s.last())
    } else {
        select(s.drop_last(), p)
    }
}

/// The condition under which a stored segment `s` is returned for the range `[from, to]`:
/// one of the four endpoints lies within the other interval.
pub open spec fn intersects(s: SegmentView, from: u64, to: u64) -> bool {
    ||| (s.from <= from && from <= s.to)
    ||| (s.from <= to && to <= s.to)
    ||| (from <= s.from && s.from <= to)
    ||| (from <= s.to && s.to <= to)
}

/// `s` lies strictly inside `(from, to)`.
pub open spec fn strictly_inside(s: SegmentView, from: u64, to: u64) -> bool {
    from < s.from && s.to < to
}

/// `s` lies within `[from, to]`.
pub open spec fn within(s: SegmentView, from: u64, to: u64) -> bool {
    from <= s.from && s.to <= to
}

pub open spec fn intersecting(from: u64, to: u64) -> spec_fn(SegmentView) -> bool {
    |s: SegmentView| intersects(s, from, to)
}

pub open spec fn not_intersecting(from: u64, to: u64) -> spec_fn(SegmentView) -> bool {
    |s: SegmentView| !intersects(s, from, to)
}

pub open spec fn inside(from: u64, to: u64) -> spec_fn(SegmentView) -> bool {
    |s: SegmentView| strictly_inside(s, from, to)
}

pub open spec fn outside_range(from: u64, to: u64) -> spec_fn(SegmentView) -> bool {
    |s: SegmentView| !within(s, from, to)
}

pub open spec fn id_not_in(ids: Seq<Seq<char>>) -> spec_fn(SegmentView) -> bool {
    |s: SegmentView| !(s.id is Some && ids.contains(s.id.unwrap()))
}

/// The smallest start and largest end over `rows`, starting from `[from, to]`.
pub open spec fn merged_bounds(rows: Seq<SegmentView>, from: u64, to: u64) -> (u64, u64)
    decreases rows.len(),
{
    if rows.len() == 0 {
        (from, to)
    } else {
        let (lo, hi) = merged_bounds(rows.drop_last(), from, to);
        let r = rows.last();
        (if r.from < lo { r.from } else { lo }, if r.to > hi { r.to } else { hi })
    }
}

/// Every stored segment has an id, and no two share one.
pub open spec fn ids_unique(rows: Seq<SegmentView>) -> bool {
    &&& forall|i: int| 0 <= i < rows.len() ==> (#[trigger] rows[i]).id is Some
    &&& forall|i: int, j: int|
        0 <= i < rows.len() && 0 <= j < rows.len() && i != j ==> (#[trigger] rows[i]).id
            != (#[trigger] rows[j]).id
}

/// Closed intervals `[a.from, a.to]` and `[b.from, b.to]` share a point.
pub open spec fn overlap(a: SegmentView, b: SegmentView) -> bool {
    a.from <= b.to && b.from <= a.to
}

/// Every stored segment has `from <= to`.
pub open spec fn well_formed_intervals(rows: Seq<SegmentView>) -> bool {
    forall|i: int| 0 <= i < rows.len() ==> (#[trigger] rows[i]).from <= rows[i].to
}

/// No two stored segments share a point.
pub open spec fn pairwise_disjoint(rows: Seq<SegmentView>) -> bool {
    forall|i: int, j: int|
        0 <= i < rows.len() && 0 <= j < rows.len() && i != j ==> !overlap(
            #[trigger] rows[i],
            #[trigger] rows[j],
        )
}

/// What inserting `segment` under the fresh id `id` does to the table `rows`:
/// every stored segment that intersects it is removed, and one segment that spans
/// all of them and `segment` is added, unless `id` is already taken by a remaining row.
pub open spec fn insert_result(rows: Seq<SegmentView>, segment: SegmentView, id: Seq<char>) -> (
    Seq<SegmentView>,
    Option<SegmentView>,
) {
    let hits = select(rows, intersecting(segment.from, segment.to));
    let rest = select(rows, not_intersecting(segment.from, segment.to));
    let (lo, hi) = merged_bounds(hits, segment.from, segment.to);
    let merged = SegmentView { id: Some(id), from: lo, to: hi, segment_type: segment.segment_type };
    if exists|i: int| 0 <= i < rest.len() && rest[i].id == Some(id) {
        (rest, None)
    } else {
        (rest.push(merged), Some(merged))
    }
}

/// Errors of the segment table.
#[derive(Debug, Clone, Copy, PartialEq, Eq, Structural)]
pub enum SegmentsError {
    /// The id drawn for a new segment is already used by a stored one.
    DuplicateId,
}

/// The segment table: labeled and detected segments of the metric, in insertion order.
pub struct SegmentsService {
    segments: Vec<Segment>,
}

impl View for SegmentsService {
    type V = Seq<SegmentView>;

    closed spec fn view(&self) -> Seq<SegmentView> {
        segment_views(self.segments@)
    }
}

proof fn lemma_select_len(s: Seq<SegmentView>, p: spec_fn(SegmentView) -> bool)
    ensures
        select(s, p).len() <= s.len(),
    decreases s.len(),
{
    if s.len() > 0 {
        lemma_select_len(s.drop_last(), p);
    }
}

/// Everything `select` keeps comes from the input and satisfies the condition.
pub proof fn lemma_select_members(s: Seq<SegmentView>, p: spec_fn(SegmentView) -> bool)
    ensures
        forall|i: int|
            0 <= i < select(s, p).len() ==> p(#[trigger] select(s, p)[i]) && s.contains(
                select(s, p)[i],
            ),
    decreases s.len(),
{
    if s.len() > 0 {
        lemma_select_members(s.drop_last(), p);
        let r = select(s.drop_last(), p);
        assert forall|i: int| 0 <= i < select(s, p).len() implies p(
            #[trigger] select(s, p)[i],
        ) && s.contains(select(s, p)[i]) by {
            if i < r.len() {
                let k = choose|k: int| 0 <= k < s.drop_last().len() && s.drop_last()[k] == r[i];
                assert(s[k] == r[i]);
            } else {
                assert(s[s.len() - 1] == s.last());
            }
        }
    }
}

/// An element of the input that satisfies the condition is kept.
pub proof fn lemma_select_complete(s: Seq<SegmentView>, p: spec_fn(SegmentView) -> bool, x: SegmentView)
    requires
        s.contains(x),
        p(x),
    ensures
        select(s, p).contains(x),
    decreases s.len(),
{
    if s.last() == x {
        assert(select(s, p).last() == x);
    } else {
        let k = choose|k: int| 0 <= k < s.len() && s[k] == x;
        assert(s.drop_last()[k] == x);
        lemma_select_complete(s.drop_last(), p, x);
        let r = select(s.drop_last(), p);
        let j = choose|j: int| 0 <= j < r.len() && r[j] == x;
        if p(s.last()) {
            assert(select(s, p)[j] == x);
        }
    }
}

impl SegmentsService {
    /// Every stored segment has an id, and no two share one.
    pub open spec fn wf(&self) -> bool {
        ids_unique(self@)
    }

    /// An empty table.
    pub fn new() -> (s: SegmentsService)
        ensures
            s@ == Seq::<SegmentView>::empty(),
            s.wf(),
    {
        let s = SegmentsService { segments: Vec::new() };
        assert(s@ =~= Seq::<SegmentView>::empty());
        s
    }

    /// The number of stored segments.
    pub fn len(&self) -> (n: usize)
        ensures
            n == self@.len(),
    {
        self.segments.len()
    }

    /// A copy of the stored segment at position `i`.
    pub fn get(&self, i: usize) -> (s: Segment)
        requires
            i < self@.len(),
        ensures
            s@ == self@[i as int],
    {
        self.segments[i].duplicate()
    }

    /// The stored segments that lie strictly inside `(from, to)`.
    pub fn get_segments_inside(&self, from: u64, to: u64) -> (r: Vec<Segment>)
        ensures
            segment_views(r@) == select(self@, inside(from, to)),
    {
        select_rows(&self.segments, &RowFilter::Inside(from, to))
    }

    /// The stored segments that intersect `[from, to]`.
    pub fn get_segments_intersected(&self, from: u64, to: u64) -> (r: Vec<Segment>)
        ensures
            segment_views(r@) == select(self@, intersecting(from, to)),
    {
        select_rows(&self.segments, &RowFilter::Intersecting(from, to))
    }

    /// Removes the stored segments that lie within `[from, to]`; returns how many.
    pub fn delete_segments_in_range(&mut self, from: u64, to: u64) -> (n: usize)
        requires
            old(self).wf(),
        ensures
            final(self).wf(),
            final(self)@ == select(old(self)@, outside_range(from, to)),
            n == old(self)@.len() - final(self)@.len(),
    {
        let kept = select_rows(&self.segments, &RowFilter::OutsideRange(from, to));
        proof {
            lemma_select_len(self@, outside_range(from, to));
            lemma_select_keeps_ids_unique(self@, outside_range(from, to));
        }
        let n = self.segments.len() - kept.len();
        self.segments = kept;
        n
    }

    /// Removes the stored segments whose id is in `ids`; returns how many.
    pub fn delete_segments(&mut self, ids: &Vec<SegmentId>) -> (n: usize)
        requires
            old(self).wf(),
        ensures
            final(self).wf(),
            final(self)@ == select(old(self)@, id_not_in(id_views(ids@))),
            n == old(self)@.len() - final(self)@.len(),
    {
        if ids.len() == 0 {
            proof {
                lemma_select_all(self@, id_not_in(id_views(ids@)));
            }
            return 0;
        }
        let kept = select_rows(&self.segments, &RowFilter::IdNotIn(ids));
        proof {
            lemma_select_len(self@, id_not_in(id_views(ids@)));
            lemma_select_keeps_ids_unique(self@, id_not_in(id_views(ids@)));
        }
        let n = self.segments.len() - kept.len();
        self.segments = kept;
        n
    }

    /// Stores a segment that was read back from storage, as it is.
    pub fn add_row(&mut self, id: SegmentId, from: u64, to: u64, segment_type: SegmentType) -> (r: Result<(), SegmentsError>)
        requires
            old(self).wf(),
        ensures
            final(self).wf(),
            r is Ok <==> !id_taken(old(self)@, id@),
            r is Ok ==> final(self)@ == old(self)@.push(SegmentView { id: Some(id@), from, to, segment_type }),
            r is Err ==> final(self)@ == old(self)@,
    {
        if has_id(&self.segments, &id) {
            return Err(SegmentsError::DuplicateId);
        }
        let s = Segment { id: Some(id), from, to, segment_type };
        self.segments.push(s);
        proof {
            assert(self@ =~= old(self)@.push(s@));
            lemma_push_fresh_keeps_ids_unique(old(self)@, s@);
        }
        Ok(())
    }

    /// Inserts `segment` under the id `id`, merging it with every stored segment it
    /// intersects: those are removed and one segment spanning all of them is stored.
    pub fn insert_segment_with_id(&mut self, segment: &Segment, id: SegmentId) -> (r: Result<Segment, SegmentsError>)
        requires
            old(self).wf(),
        ensures
            final(self).wf(),
            (final(self)@, match r {
                Ok(s) => Some(s@),
                Err(_) => None,
            }) == insert_result(old(self)@, segment@, id@),
    {
        let ghost rows = self@;
        let hits = select_rows(&self.segments, &RowFilter::Intersecting(segment.from, segment.to));
        let mut lo = segment.from;
        let mut hi = segment.to;
        let mut i: usize = 0;
        while i < hits.len()
            invariant
                i <= hits@.len(),
                (lo, hi) == merged_bounds(segment_views(hits@).take(i as int), segment.from, segment.to),
            decreases hits@.len() - i,
        {
            proof {
                let hv = segment_views(hits@);
                assert(hv.take(i + 1).drop_last() =~= hv.take(i as int));
                assert(hv.take(i + 1).last() == hits@[i as int]@);
            }
            if hits[i].from < lo {
                lo = hits[i].from;
            }
            if hits[i].to > hi {
                hi = hits[i].to;
            }
            i = i + 1;
        }
        proof {
            assert(segment_views(hits@).take(i as int) =~= segment_views(hits@));
        }
        let rest = select_rows(&self.segments, &RowFilter::NotIntersecting(segment.from, segment.to));
        proof {
            lemma_select_keeps_ids_unique(rows, not_intersecting(segment.from, segment.to));
        }
        self.segments = rest;
        if has_id(&self.segments, &id) {
            return Err(SegmentsError::DuplicateId);
        }
        let merged = Segment { id: Some(id), from: lo, to: hi, segment_type: segment.segment_type };
        let out = merged.duplicate();
        let ghost before = self@;
        self.segments.push(merged);
        proof {
            assert(self@ =~= before.push(out@));
            lemma_push_fresh_keeps_ids_unique(before, out@);
        }
        Ok(out)
    }

    /// Inserts `segment` under a fresh random id, merging it with every stored
    /// segment it intersects (see `insert_segment_with_id`).
    pub fn insert_segment(&mut self, segment: &Segment) -> (r: Result<Segment, SegmentsError>)
        requires
            old(self).wf(),
        ensures
            final(self).wf(),
            exists|id: Seq<char>|
                #![trigger insert_result(old(self)@, segment@, id)]
                id.len() == ID_LENGTH && (forall|i: int| 0 <= i < id.len() ==> is_alphanumeric_char(#[trigger] id[i]))
                    && (final(self)@, match r {
                    Ok(s) => Some(s@),
                    Err(_) => None,
                }) == insert_result(old(self)@, segment@, id),
    {
        let id = get_random_str(ID_LENGTH);
        let ghost idv = id@;
        let r = self.insert_segment_with_id(segment, id);
        assert(idv.len() == ID_LENGTH);
        r
    }
}

/// The id views of a list of ids.
pub open spec fn id_views(ids: Seq<SegmentId>) -> Seq<Seq<char>> {
    ids.map_values(|s: SegmentId| s@)
}

/// Some stored segment already has the id `id`.
pub open spec fn id_taken(rows: Seq<SegmentView>, id: Seq<char>) -> bool {
    exists|i: int| 0 <= i < rows.len() && rows[i].id == Some(id)
}

/// A condition on stored segments, as the table's queries use them.
enum RowFilter<'a> {
    Intersecting(u64, u64),
    Inside(u64, u64),
    NotIntersecting(u64, u64),
    OutsideRange(u64, u64),
    IdNotIn(&'a Vec<SegmentId>),
}

spec fn filter_pred(f: RowFilter) -> spec_fn(SegmentView) -> bool {
    match f {
        RowFilter::Intersecting(from, to) => intersecting(from, to),
        RowFilter::Inside(from, to) => inside(from, to),
        RowFilter::NotIntersecting(from, to) => not_intersecting(from, to),
        RowFilter::OutsideRange(from, to) => outside_range(from, to),
        RowFilter::IdNotIn(ids) => id_not_in(id_views(ids@)),
    }
}

/// Whether `id` is one of `ids`.
fn contains_id(ids: &Vec<SegmentId>, id: &SegmentId) -> (b: bool)
    ensures
        b == id_views(ids@).contains(id@),
{
    let mut i: usize = 0;
    while i < ids.len()
        invariant
            i <= ids@.len(),
            forall|j: int| 0 <= j < i ==> ids@[j]@ != id@,
        decreases ids@.len() - i,
    {
        if ids[i].eq(id) {
            proof {
                assert(id_views(ids@)[i as int] == id@);
            }
            return true;
        }
        i = i + 1;
    }
    proof {
        if id_views(ids@).contains(id@) {
            let k = choose|k: int| 0 <= k < id_views(ids@).len() && id_views(ids@)[k] == id@;
            assert(ids@[k]@ == id@);
        }
    }
    false
}

/// Whether some segment of `rows` has the id `id`.
fn has_id(rows: &Vec<Segment>, id: &SegmentId) -> (b: bool)
    ensures
        b == id_taken(segment_views(rows@), id@),
{
    let mut i: usize = 0;
    while i < rows.len()
        invariant
            i <= rows@.len(),
            forall|j: int| 0 <= j < i ==> segment_views(rows@)[j].id != Some(id@),
        decreases rows@.len() - i,
    {
        match &rows[i].id {
            Some(s) => {
                if s.eq(id) {
                    proof {
                        assert(segment_views(rows@)[i as int].id == Some(id@));
                    }
                    return true;
                }
            },
            None => {},
        }
        i = i + 1;
    }
    false
}

fn row_matches(s: &Segment, f: &RowFilter) -> (b: bool)
    ensures
        b == filter_pred(*f)(s@),
{
    match f {
        RowFilter::Intersecting(from, to) => {
            let (from, to) = (*from, *to);
            (s.from <= from && from <= s.to) || (s.from <= to && to <= s.to) || (from <= s.from
                && s.from <= to) || (from <= s.to && s.to <= to)
        },
        RowFilter::Inside(from, to) => *from < s.from && s.to < *to,
        RowFilter::NotIntersecting(from, to) => {
            let (from, to) = (*from, *to);
            !((s.from <= from && from <= s.to) || (s.from <= to && to <= s.to) || (from <= s.from
                && s.from <= to) || (from <= s.to && s.to <= to))
        },
        RowFilter::OutsideRange(from, to) => !(*from <= s.from && s.to <= *to),
        RowFilter::IdNotIn(ids) => match &s.id {
            Some(id) => !contains_id(ids, id),
            None => true,
        },
    }
}

/// Copies of the rows that satisfy `f`, in order.
fn select_rows(rows: &Vec<Segment>, f: &RowFilter) -> (r: Vec<Segment>)
    ensures
        segment_views(r@) == select(segment_views(rows@), filter_pred(*f)),
{
    let ghost p = filter_pred(*f);
    let mut r: Vec<Segment> = Vec::new();
    let mut i: usize = 0;
    while i < rows.len()
        invariant
            i <= rows@.len(),
            p == filter_pred(*f),
            segment_views(r@) == select(segment_views(rows@).take(i as int), p),
        decreases rows@.len() - i,
    {
        let s = &rows[i];
        let keep = row_matches(s, f);
        proof {
            let all = segment_views(rows@);
            assert(all.take(i + 1).drop_last() =~= all.take(i as int));
            assert(all.take(i + 1).last() == s@);
        }
        if keep {
            let c = s.duplicate();
            r.push(c);
            proof {
                assert(segment_views(r@) =~= segment_views(r@.drop_last()).push(c@));
            }
        }
        i = i + 1;
    }
    proof {
        assert(segment_views(rows@).take(i as int) =~= segment_views(rows@));
    }
    r
}

proof fn lemma_select_all(s: Seq<SegmentView>, p: spec_fn(SegmentView) -> bool)
    requires
        forall|i: int| 0 <= i < s.len() ==> p(#[trigger] s[i]),
    ensures
        select(s, p) == s,
    decreases s.len(),
{
    if s.len() > 0 {
        assert(p(s[s.len() - 1]));
        lemma_select_all(s.drop_last(), p);
        assert(s.drop_last().push(s.last()) =~= s);
    }
}

proof fn lemma_select_keeps_ids_unique(s: Seq<SegmentView>, p: spec_fn(SegmentView) -> bool)
    requires
        ids_unique(s),
    ensures
        ids_unique(select(s, p)),
    decreases s.len(),
{
    if s.len() > 0 {
        let d = s.drop_last();
        assert(ids_unique(d)) by {
            assert forall|i: int, j: int| 0 <= i < d.len() && 0 <= j < d.len() && i != j implies (
            #[trigger] d[i]).id != (#[trigger] d[j]).id by {
                assert(d[i] == s[i] && d[j] == s[j]);
            }
        }
        lemma_select_keeps_ids_unique(d, p);
        if p(s.last()) {
            let r = select(d, p);
            lemma_select_members(d, p);
            assert forall|k: int| 0 <= k < r.len() implies (#[trigger] r[k]).id != s.last().id by {
                let m = choose|m: int| 0 <= m < d.len() && d[m] == r[k];
                assert(s[m] == d[m]);
                assert(s[s.len() - 1] == s.last());
            }
            lemma_push_fresh_keeps_ids_unique(r, s.last());
        }
    }
}

proof fn lemma_push_fresh_keeps_ids_unique(s: Seq<SegmentView>, x: SegmentView)
    requires
        ids_unique(s),
        x.id is Some,
        forall|k: int| 0 <= k < s.len() ==> (#[trigger] s[k]).id != x.id,
    ensures
        ids_unique(s.push(x)),
{
    let t = s.push(x);
    assert forall|i: int, j: int| 0 <= i < t.len() && 0 <= j < t.len() && i != j implies (
    #[trigger] t[i]).id != (#[trigger] t[j]).id by {
        if i < s.len() && j < s.len() {
            assert(t[i] == s[i] && t[j] == s[j]);
        } else if i < s.len() {
            assert(t[i] == s[i]);
        } else {
            assert(t[j] == s[j]);
        }
    }
}


/// For well-formed intervals, the table's intersection condition is plain overlap.
proof fn lemma_intersects_is_overlap(s: SegmentView, from: u64, to: u64)
    requires
        s.from <= s.to,
        from <= to,
    ensures
        intersects(s, from, to) <==> (s.from <= to && from <= s.to),
{
}

proof fn lemma_merged_bounds_cover(hits: Seq<SegmentView>, from: u64, to: u64)
    ensures
        merged_bounds(hits, from, to).0 <= from,
        to <= merged_bounds(hits, from, to).1,
    decreases hits.len(),
{
    if hits.len() > 0 {
        lemma_merged_bounds_cover(hits.drop_last(), from, to);
    }
}

proof fn lemma_merged_bounds_below(hits: Seq<SegmentView>, from: u64, to: u64, x: u64)
    requires
        x < from,
        forall|k: int| 0 <= k < hits.len() ==> x < (#[trigger] hits[k]).from,
    ensures
        x < merged_bounds(hits, from, to).0,
    decreases hits.len(),
{
    if hits.len() > 0 {
        assert(hits[hits.len() - 1] == hits.last());
        lemma_merged_bounds_below(hits.drop_last(), from, to, x);
    }
}

proof fn lemma_merged_bounds_above(hits: Seq<SegmentView>, from: u64, to: u64, x: u64)
    requires
        x > to,
        forall|k: int| 0 <= k < hits.len() ==> x > (#[trigger] hits[k]).to,
    ensures
        x > merged_bounds(hits, from, to).1,
    decreases hits.len(),
{
    if hits.len() > 0 {
        assert(hits[hits.len() - 1] == hits.last());
        lemma_merged_bounds_above(hits.drop_last(), from, to, x);
    }
}

/// Two members of a table with unique ids that are different values sit at
/// different positions, so a disjoint table keeps them apart.
proof fn lemma_members_disjoint(rows: Seq<SegmentView>, a: SegmentView, b: SegmentView)
    requires
        pairwise_disjoint(rows),
        rows.contains(a),
        rows.contains(b),
        a != b,
    ensures
        !overlap(a, b),
{
    let i = choose|i: int| 0 <= i < rows.len() && rows[i] == a;
    let j = choose|j: int| 0 <= j < rows.len() && rows[j] == b;
    assert(!overlap(rows[i], rows[j]));
}

/// Some stored segment with `from > to` does not meet `segment`, so it stays in the
/// table, yet both its ends lie within the span that inserting `segment` would store.
pub open spec fn reversed_within_span(rows: Seq<SegmentView>, segment: SegmentView) -> bool {
    let (lo, hi) = merged_bounds(select(rows, intersecting(segment.from, segment.to)), segment.from, segment.to);
    exists|i: int|
        0 <= i < rows.len() && (#[trigger] rows[i]).from > rows[i].to && !intersects(
            rows[i],
            segment.from,
            segment.to,
        ) && lo <= rows[i].to && rows[i].from <= hi
}

/// Inserting into a pairwise-disjoint table keeps it pairwise disjoint, unless a
/// stored segment with `from > to` lies within the stored span without meeting the
/// inserted one; the stored segment spans the inserted one, and a table whose
/// segments all have `from <= to` keeps that too.
pub proof fn lemma_insert_keeps_segments_disjoint(rows: Seq<SegmentView>, segment: SegmentView, id: Seq<char>)
    requires
        ids_unique(rows),
        pairwise_disjoint(rows),
        segment.from <= segment.to,
        !reversed_within_span(rows, segment),
    ensures
        pairwise_disjoint(insert_result(rows, segment, id).0),
        well_formed_intervals(rows) ==> well_formed_intervals(insert_result(rows, segment, id).0),
        insert_result(rows, segment, id).1 matches Some(m) ==> m.from <= segment.from
            && segment.to <= m.to,
{
    let (f, t) = (segment.from, segment.to);
    let hits = select(rows, intersecting(f, t));
    let rest = select(rows, not_intersecting(f, t));
    let (lo, hi) = merged_bounds(hits, f, t);
    let merged = SegmentView { id: Some(id), from: lo, to: hi, segment_type: segment.segment_type };
    lemma_select_members(rows, intersecting(f, t));
    lemma_select_members(rows, not_intersecting(f, t));
    lemma_select_keeps_ids_unique(rows, not_intersecting(f, t));
    lemma_merged_bounds_cover(hits, f, t);
    assert(pairwise_disjoint(rest)) by {
        assert forall|i: int, j: int| 0 <= i < rest.len() && 0 <= j < rest.len() && i != j implies !overlap(
            #[trigger] rest[i],
            #[trigger] rest[j],
        ) by {
            lemma_members_disjoint(rows, rest[i], rest[j]);
        }
    }
    assert forall|i: int| 0 <= i < rest.len() implies !overlap(#[trigger] rest[i], merged) by {
        let r = rest[i];
        let kr = choose|k: int| 0 <= k < rows.len() && rows[k] == r;
        if r.from <= r.to {
            lemma_intersects_is_overlap(r, f, t);
            if r.to < f {
                assert forall|k: int| 0 <= k < hits.len() implies r.to < (#[trigger] hits[k]).from by {
                    let h = hits[k];
                    if h.from <= h.to {
                        lemma_intersects_is_overlap(h, f, t);
                        lemma_members_disjoint(rows, r, h);
                    }
                }
                lemma_merged_bounds_below(hits, f, t, r.to);
            } else {
                assert forall|k: int| 0 <= k < hits.len() implies r.from > (#[trigger] hits[k]).to by {
                    let h = hits[k];
                    if h.from <= h.to {
                        lemma_intersects_is_overlap(h, f, t);
                        lemma_members_disjoint(rows, r, h);
                    }
                }
                lemma_merged_bounds_above(hits, f, t, r.from);
            }
        } else {
            assert(rows[kr].from > rows[kr].to && !intersects(rows[kr], f, t));
        }
    }
    if !(exists|i: int| 0 <= i < rest.len() && rest[i].id == Some(id)) {
        let out = rest.push(merged);
        if well_formed_intervals(rows) {
            assert forall|i: int| 0 <= i < out.len() implies (#[trigger] out[i]).from <= out[i].to by {
                if i < rest.len() {
                    assert(out[i] == rest[i]);
                    let k = choose|k: int| 0 <= k < rows.len() && rows[k] == rest[i];
                }
            }
        }
        assert forall|i: int, j: int| 0 <= i < out.len() && 0 <= j < out.len() && i != j implies !overlap(
            #[trigger] out[i],
            #[trigger] out[j],
        ) by {
            if i < rest.len() && j < rest.len() {
                assert(out[i] == rest[i] && out[j] == rest[j]);
            } else if i < rest.len() {
                assert(out[i] == rest[i] && out[j] == merged);
            } else {
                assert(out[j] == rest[j] && out[i] == merged);
                assert(!overlap(rest[j], merged));
            }
        }
    } else if well_formed_intervals(rows) {
        assert forall|i: int| 0 <= i < rest.len() implies (#[trigger] rest[i]).from <= rest[i].to by {
            let k = choose|k: int| 0 <= k < rows.len() && rows[k] == rest[i];
        }
    }
}

/// Removing segments from a pairwise-disjoint table keeps it so, and a table whose
/// segments all have `from <= to` keeps that too.
pub proof fn lemma_select_keeps_segments_disjoint(rows: Seq<SegmentView>, p: spec_fn(SegmentView) -> bool)
    requires
        ids_unique(rows),
        pairwise_disjoint(rows),
    ensures
        well_formed_intervals(rows) ==> well_formed_intervals(select(rows, p)),
        pairwise_disjoint(select(rows, p)),
{
    let kept = select(rows, p);
    lemma_select_members(rows, p);
    lemma_select_keeps_ids_unique(rows, p);
    if well_formed_intervals(rows) {
        assert forall|i: int| 0 <= i < kept.len() implies (#[trigger] kept[i]).from <= kept[i].to by {
            let k = choose|k: int| 0 <= k < rows.len() && rows[k] == kept[i];
        }
    }
    assert forall|i: int, j: int| 0 <= i < kept.len() && 0 <= j < kept.len() && i != j implies !overlap(
        #[trigger] kept[i],
        #[trigger] kept[j],
    ) by {
        lemma_members_disjoint(rows, kept[i], kept[j]);
    }
}


/// Inserting under a free id stores one new segment that carries that id and the
/// inserted segment's type (a label stays a label, a detection a detection), spans
/// the inserted interval, and is the table's last row.
pub proof fn lemma_insert_keeps_type_and_id(rows: Seq<SegmentView>, segment: SegmentView, id: Seq<char>)
    ensures
        insert_result(rows, segment, id).1 matches Some(m) ==> {
            &&& m.segment_type == segment.segment_type
            &&& m.id == Some(id)
            &&& m.from <= segment.from
            &&& segment.to <= m.to
            &&& insert_result(rows, segment, id).0.len() > 0
            &&& insert_result(rows, segment, id).0.last() == m
        },
{
    lemma_merged_bounds_cover(select(rows, intersecting(segment.from, segment.to)), segment.from, segment.to);
}

/// Deleting a range removes exactly the stored segments that lie within it,
/// `from <= start` and `end <= to`, and keeps every other stored segment.
pub proof fn lemma_delete_range_exact(rows: Seq<SegmentView>, from: u64, to: u64)
    ensures
        forall|i: int|
            0 <= i < rows.len() ==> (select(rows, outside_range(from, to)).contains(#[trigger] rows[i])
                <==> !(from <= rows[i].from && rows[i].to <= to)),
        forall|j: int|
            0 <= j < select(rows, outside_range(from, to)).len() ==> rows.contains(
                #[trigger] select(rows, outside_range(from, to))[j],
            ),
{
    lemma_select_exact(rows, outside_range(from, to));
}

proof fn lemma_select_exact(rows: Seq<SegmentView>, p: spec_fn(SegmentView) -> bool)
    ensures
        forall|i: int| 0 <= i < rows.len() ==> (select(rows, p).contains(#[trigger] rows[i]) <==> p(rows[i])),
        forall|j: int| 0 <= j < select(rows, p).len() ==> rows.contains(#[trigger] select(rows, p)[j]),
{
    let kept = select(rows, p);
    lemma_select_members(rows, p);
    assert forall|i: int| 0 <= i < rows.len() implies (kept.contains(#[trigger] rows[i]) <==> p(rows[i])) by {
        if p(rows[i]) {
            assert(rows.contains(rows[i]));
            lemma_select_complete(rows, p, rows[i]);
        }
        if kept.contains(rows[i]) {
            let j = choose|j: int| 0 <= j < kept.len() && kept[j] == rows[i];
            assert(p(kept[j]));
        }
    }
}

/// The range queries return exactly the stored segments they describe: those with
/// `from < start` and `end < to`, and those of which one of the four endpoints
/// lies within the other interval.
pub proof fn lemma_range_queries_exact(rows: Seq<SegmentView>, from: u64, to: u64)
    ensures
        forall|i: int|
            0 <= i < rows.len() ==> (select(rows, inside(from, to)).contains(#[trigger] rows[i])
                <==> from < rows[i].from && rows[i].to < to),
        forall|i: int|
            0 <= i < rows.len() ==> (select(rows, intersecting(from, to)).contains(#[trigger] rows[i])
                <==> (rows[i].from <= from <= rows[i].to || rows[i].from <= to <= rows[i].to || from
                <= rows[i].from <= to || from <= rows[i].to <= to)),
{
    lemma_select_exact(rows, inside(from, to));
    lemma_select_exact(rows, intersecting(from, to));
}

/// Deleting by ids removes exactly the stored segments whose id is listed and
/// keeps every other one.
pub proof fn lemma_delete_ids_exact(rows: Seq<SegmentView>, ids: Seq<Seq<char>>)
    ensures
        forall|i: int|
            0 <= i < rows.len() ==> (select(rows, id_not_in(ids)).contains(#[trigger] rows[i])
                <==> !(rows[i].id is Some && ids.contains(rows[i].id.unwrap()))),
{
    lemma_select_exact(rows, id_not_in(ids));
}

/// A segment just inserted is found again by a query for its range: the stored
/// merged segment intersects it.
pub proof fn lemma_inserted_segment_is_found(rows: Seq<SegmentView>, segment: SegmentView, id: Seq<char>)
    requires
        segment.from <= segment.to,
    ensures
        insert_result(rows, segment, id).1 matches Some(m) ==> select(
            insert_result(rows, segment, id).0,
            intersecting(segment.from, segment.to),
        ).contains(m),
{
    let hits = select(rows, intersecting(segment.from, segment.to));
    lemma_merged_bounds_cover(hits, segment.from, segment.to);
    if let Some(m) = insert_result(rows, segment, id).1 {
        let out = insert_result(rows, segment, id).0;
        assert(out.last() == m);
        assert(out.contains(m)) by {
            assert(out[out.len() - 1] == m);
        }
        assert(intersects(m, segment.from, segment.to));
        lemma_select_complete(out, intersecting(segment.from, segment.to), m);
    }
}

/// After deleting the segments within a range, none of the remaining ones lies within it.
pub proof fn lemma_deleted_range_is_empty(rows: Seq<SegmentView>, from: u64, to: u64)
    ensures
        forall|i: int|
            0 <= i < select(rows, outside_range(from, to)).len() ==> !within(
                #[trigger] select(rows, outside_range(from, to))[i],
                from,
                to,
            ),
{
    lemma_select_members(rows, outside_range(from, to));
}

} // verus!
