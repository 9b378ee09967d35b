use hastic::services::segments_service::{
    Segment, SegmentType, SegmentsError, SegmentsService, ID_LENGTH,
};
use hastic::utils::get_random_str;

fn seg(from: u64, to: u64) -> Segment {
    Segment { id: None, from, to, segment_type: SegmentType::Label }
}

fn bounds(v: &Vec<Segment>) -> Vec<(u64, u64)> {
    v.iter().map(|s| (s.from, s.to)).collect()
}

#[test]
fn insert_merges_intersecting_segments() {
    let mut s = SegmentsService::new();
    s.insert_segment(&seg(10, 20)).unwrap();
    s.insert_segment(&seg(30, 40)).unwrap();
    let merged = s.insert_segment(&seg(15, 35)).unwrap();
    assert_eq!(merged.from, 10);
    assert_eq!(merged.to, 40);
    assert_eq!(merged.segment_type, SegmentType::Label);
    assert_eq!(s.len(), 1);
    assert_eq!(merged.id.as_ref().unwrap().len(), ID_LENGTH);
}

#[test]
fn insert_keeps_disjoint_segments_apart() {
    let mut s = SegmentsService::new();
    s.insert_segment(&seg(10, 20)).unwrap();
    s.insert_segment(&seg(30, 40)).unwrap();
    s.insert_segment(&seg(50, 60)).unwrap();
    assert_eq!(s.len(), 3);
    let all = s.get_segments_intersected(0, 100);
    assert_eq!(bounds(&all), vec![(10, 20), (30, 40), (50, 60)]);
    for i in 0..all.len() {
        for j in 0..all.len() {
            if i != j {
                assert!(all[i].to < all[j].from || all[j].to < all[i].from);
            }
        }
    }
}

#[test]
fn touching_segments_are_merged() {
    let mut s = SegmentsService::new();
    s.insert_segment(&seg(10, 20)).unwrap();
    let m = s.insert_segment(&seg(20, 30)).unwrap();
    assert_eq!((m.from, m.to), (10, 30));
    assert_eq!(s.len(), 1);
}

#[test]
fn inserted_segment_is_found_by_its_range() {
    let mut s = SegmentsService::new();
    s.insert_segment(&seg(100, 200)).unwrap();
    let m = s.insert_segment(&seg(150, 300)).unwrap();
    let found = s.get_segments_intersected(150, 300);
    assert_eq!(found.len(), 1);
    assert_eq!(found[0].id, m.id);
    assert_eq!((found[0].from, found[0].to), (100, 300));
}

#[test]
fn segments_inside_are_strictly_inside() {
    let mut s = SegmentsService::new();
    s.add_row("a".to_string(), 10, 20, SegmentType::Label).unwrap();
    s.add_row("b".to_string(), 30, 40, SegmentType::Detection).unwrap();
    assert_eq!(bounds(&s.get_segments_inside(9, 41)), vec![(10, 20), (30, 40)]);
    assert_eq!(bounds(&s.get_segments_inside(10, 41)), vec![(30, 40)]);
    assert_eq!(bounds(&s.get_segments_inside(9, 40)), vec![(10, 20)]);
    assert_eq!(s.get_segments_inside(0, u64::MAX / 2).len(), 2);
}

#[test]
fn intersection_includes_endpoints() {
    let mut s = SegmentsService::new();
    s.add_row("a".to_string(), 10, 20, SegmentType::Label).unwrap();
    assert_eq!(s.get_segments_intersected(20, 25).len(), 1);
    assert_eq!(s.get_segments_intersected(0, 10).len(), 1);
    assert_eq!(s.get_segments_intersected(12, 15).len(), 1);
    assert_eq!(s.get_segments_intersected(21, 25).len(), 0);
    assert_eq!(s.get_segments_intersected(0, 9).len(), 0);
}

#[test]
fn delete_in_range_removes_contained_segments() {
    let mut s = SegmentsService::new();
    s.add_row("a".to_string(), 10, 20, SegmentType::Label).unwrap();
    s.add_row("b".to_string(), 30, 40, SegmentType::Label).unwrap();
    s.add_row("c".to_string(), 35, 50, SegmentType::Label).unwrap();
    let n = s.delete_segments_in_range(10, 40);
    assert_eq!(n, 2);
    assert_eq!(bounds(&s.get_segments_intersected(0, 100)), vec![(35, 50)]);
    assert_eq!(s.get_segments_inside(9, 41).len(), 0);
}

#[test]
fn delete_by_ids() {
    let mut s = SegmentsService::new();
    s.add_row("a".to_string(), 10, 20, SegmentType::Label).unwrap();
    s.add_row("b".to_string(), 30, 40, SegmentType::Label).unwrap();
    assert_eq!(s.delete_segments(&vec![]), 0);
    assert_eq!(s.delete_segments(&vec!["b".to_string(), "zz".to_string()]), 1);
    assert_eq!(s.len(), 1);
    assert_eq!(s.get(0).id, Some("a".to_string()));
}

#[test]
fn duplicate_id_is_refused() {
    let mut s = SegmentsService::new();
    assert!(s.add_row("a".to_string(), 10, 20, SegmentType::Label).is_ok());
    assert_eq!(s.add_row("a".to_string(), 30, 40, SegmentType::Label), Err(SegmentsError::DuplicateId));
    assert_eq!(s.len(), 1);
}

#[test]
fn insert_with_taken_id_deletes_then_fails() {
    let mut s = SegmentsService::new();
    s.add_row("a".to_string(), 10, 20, SegmentType::Label).unwrap();
    s.add_row("b".to_string(), 50, 60, SegmentType::Label).unwrap();
    let r = s.insert_segment_with_id(&seg(15, 25), "b".to_string());
    assert!(matches!(r, Err(SegmentsError::DuplicateId)));
    assert_eq!(bounds(&s.get_segments_intersected(0, 100)), vec![(50, 60)]);
    let ok = s.insert_segment_with_id(&seg(15, 25), "c".to_string()).unwrap();
    assert_eq!(ok.id, Some("c".to_string()));
    assert_eq!((ok.from, ok.to), (15, 25));
}

#[test]
fn segment_type_codes() {
    assert_eq!(SegmentType::Label.to_integer(), 1);
    assert_eq!(SegmentType::Detection.to_integer(), 2);
    assert_eq!(SegmentType::from(1), SegmentType::Label);
    assert_eq!(SegmentType::from(2), SegmentType::Detection);
    assert_eq!(SegmentType::from(7), SegmentType::Detection);
    for t in [SegmentType::Label, SegmentType::Detection] {
        assert_eq!(SegmentType::from(t.to_integer()), t);
    }
}

#[test]
fn random_strings_are_alphanumeric() {
    let s = get_random_str(ID_LENGTH);
    assert_eq!(s.chars().count(), 20);
    assert!(s.chars().all(|c| c.is_ascii_alphanumeric()));
    assert_eq!(get_random_str(0), "");
}

fn pairwise_disjoint(v: &Vec<Segment>) -> bool {
    for i in 0..v.len() {
        for j in 0..v.len() {
            if i != j && !(v[i].to < v[j].from || v[j].to < v[i].from) {
                return false;
            }
        }
    }
    true
}

#[test]
fn insert_keeps_disjoint_with_reversed_segment_outside_span() {
    let mut s = SegmentsService::new();
    s.add_row("a".to_string(), 0, 11, SegmentType::Label).unwrap();
    s.add_row("b".to_string(), 19, 30, SegmentType::Label).unwrap();
    s.add_row("c".to_string(), 45, 35, SegmentType::Label).unwrap();
    let m = s.insert_segment_with_id(&seg(10, 20), "d".to_string()).unwrap();
    assert_eq!((m.from, m.to), (0, 30));
    let all = s.get_segments_intersected(0, 100);
    assert_eq!(s.len(), 2);
    assert!(pairwise_disjoint(&all));
}

#[test]
fn reversed_segment_within_span_is_left_in_place() {
    let mut s = SegmentsService::new();
    s.add_row("a".to_string(), 0, 11, SegmentType::Label).unwrap();
    s.add_row("b".to_string(), 19, 30, SegmentType::Label).unwrap();
    s.add_row("c".to_string(), 25, 5, SegmentType::Label).unwrap();
    let m = s.insert_segment_with_id(&seg(10, 20), "d".to_string()).unwrap();
    assert_eq!((m.from, m.to), (0, 30));
    assert_eq!(s.len(), 2);
    assert_eq!((s.get(0).from, s.get(0).to), (25, 5));
}
