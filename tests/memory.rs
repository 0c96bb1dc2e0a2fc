use memobot::memory::{
    exceeds, last_document_id, next_document_id, search_one, search_smart, Document, Scroll,
    ScrollPage, ScrollPoint, ScrollRequest, PAGE_SIZE, RELEVANCE_BITS,
};

fn doc(id: i32, text: &str, score: f32) -> Document {
    Document::new(id, text.to_string(), score.to_bits())
}

fn scores(docs: &[Document]) -> Vec<f32> {
    docs.iter().map(|d| f32::from_bits(d.score_bits)).collect()
}

#[test]
fn threshold_is_six_tenths() {
    assert_eq!(RELEVANCE_BITS, 0.6f32.to_bits());
}

#[test]
fn float_bits_compare_as_floats() {
    let cases: [(f32, f32); 10] = [
        (0.9, 0.6),
        (0.6, 0.6),
        (0.5, 0.6),
        (-0.5, 0.6),
        (-0.5, -0.7),
        (-0.7, -0.5),
        (0.0, -0.0),
        (-0.0, 0.0),
        (f32::INFINITY, 0.6),
        (f32::NEG_INFINITY, -1.0),
    ];
    for (a, b) in cases {
        assert_eq!(exceeds(a.to_bits(), b.to_bits()), a > b, "{} > {}", a, b);
    }
    assert!(!exceeds(f32::NAN.to_bits(), 0.6f32.to_bits()));
    assert!(!exceeds(0.9f32.to_bits(), f32::NAN.to_bits()));
    assert!(!exceeds((-f32::NAN).to_bits(), (-1.0f32).to_bits()));
}

#[test]
fn smart_search_keeps_only_relevant_hits() {
    let found = vec![doc(1, "a", 0.9), doc(2, "b", 0.4), doc(3, "c", 0.3)];
    let chosen = search_smart(&found);
    assert_eq!(chosen.len(), 1);
    assert_eq!(chosen[0].id, 1);
    assert_eq!(scores(&chosen), vec![0.9]);
}

#[test]
fn smart_search_falls_back_to_top_hit() {
    let found = vec![doc(7, "top", 0.5), doc(8, "next", 0.4)];
    let chosen = search_smart(&found);
    assert_eq!(chosen, vec![doc(7, "top", 0.5)]);
}

#[test]
fn smart_search_of_nothing_is_nothing() {
    assert!(search_smart(&Vec::new()).is_empty());
}

#[test]
fn smart_search_keeps_every_relevant_hit_in_order() {
    let found = vec![doc(1, "a", 0.8), doc(2, "b", 0.61), doc(3, "c", 0.6)];
    let chosen = search_smart(&found);
    assert_eq!(chosen, vec![doc(1, "a", 0.8), doc(2, "b", 0.61)]);
}

#[test]
fn next_id_of_empty_store_is_one() {
    let empty: Vec<Document> = Vec::new();
    assert_eq!(last_document_id(&empty), 0);
    assert_eq!(next_document_id(&empty), Some(1));
}

#[test]
fn next_id_follows_the_largest() {
    let stored = vec![doc(1, "a", 0.0), doc(3, "b", 0.0)];
    assert_eq!(last_document_id(&stored), 3);
    assert_eq!(next_document_id(&stored), Some(4));
    let unordered = vec![doc(5, "a", 0.0), doc(2, "b", 0.0), doc(-4, "c", 0.0)];
    assert_eq!(next_document_id(&unordered), Some(6));
}

#[test]
fn next_id_reuses_a_vacated_top_id() {
    let stored = vec![doc(1, "a", 0.0)];
    assert_eq!(next_document_id(&stored), Some(2));
}

#[test]
fn no_next_id_after_the_largest_i32() {
    let stored = vec![doc(i32::MAX, "a", 0.0)];
    assert_eq!(next_document_id(&stored), None);
}

#[test]
fn single_search_takes_the_first_hit() {
    assert_eq!(search_one(&vec![doc(2, "x", 0.3), doc(5, "y", 0.1)]), Some(doc(2, "x", 0.3)));
    assert_eq!(search_one(&Vec::new()), None);
}

fn point(id: Option<i64>, has_payload: bool, text: Option<&str>) -> ScrollPoint {
    ScrollPoint { id, has_payload, text: text.map(|t| t.to_string()) }
}

#[test]
fn listing_follows_the_cursor() {
    let mut scroll = Scroll::new();
    assert!(!scroll.is_finished());
    assert_eq!(scroll.request(), ScrollRequest { limit: PAGE_SIZE, offset: None });
    scroll.absorb(ScrollPage {
        has_result: true,
        points: vec![
            point(Some(1), true, Some("one")),
            point(None, true, Some("no id")),
            point(Some(2), false, None),
            point(Some(3), true, None),
        ],
        next_offset: Some(4),
    });
    assert!(!scroll.is_finished());
    assert_eq!(scroll.request(), ScrollRequest { limit: 100, offset: Some(4) });
    scroll.absorb(ScrollPage {
        has_result: true,
        points: vec![point(Some(4), true, Some("four"))],
        next_offset: None,
    });
    assert!(scroll.is_finished());
    let docs = scroll.into_documents();
    assert_eq!(docs, vec![doc(1, "one", 0.0), doc(3, "", 0.0), doc(4, "four", 0.0)]);
}

#[test]
fn listing_stops_on_an_empty_page_or_no_result() {
    let mut scroll = Scroll::new();
    scroll.absorb(ScrollPage { has_result: true, points: vec![], next_offset: Some(9) });
    assert!(scroll.is_finished());
    let mut other = Scroll::new();
    other.absorb(ScrollPage { has_result: false, points: vec![], next_offset: None });
    assert!(other.is_finished());
    assert!(other.into_documents().is_empty());
}

#[test]
fn listed_ids_are_cut_to_32_bits() {
    let mut scroll = Scroll::new();
    scroll.absorb(ScrollPage {
        has_result: true,
        points: vec![point(Some((1i64 << 32) + 5), true, Some("wide"))],
        next_offset: None,
    });
    assert_eq!(scroll.into_documents()[0].id, 5);
}
