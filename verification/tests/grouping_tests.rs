use places_migrator::catalog::VisitType;
use places_migrator::entry::PlaceEntry;
use places_migrator::entry::SourceRow;
use places_migrator::grouper::Grouper;
use places_migrator::grouper::group_rows;

fn row(id: i64, url: &str, ts: i64, visit_type: i64) -> SourceRow {
    SourceRow {
        id,
        url: url.to_string(),
        url_hash: id * 1000,
        description: None,
        title: Some(format!("title {}", id)),
        frecency: 10 * id,
        visit_date: ts,
        visit_type,
    }
}

#[test]
fn grouping_folds_consecutive_rows_of_one_key() {
    let rows = vec![
        row(1, "http://a", 100, 1),
        row(1, "http://a", 200, 3),
        row(2, "http://b", 300, 1),
    ];
    let entities = group_rows(&rows);
    assert_eq!(entities.len(), 2);
    assert_eq!(entities[0].id, 1);
    assert_eq!(entities[0].url, "http://a");
    assert_eq!(entities[0].visits.len(), 2);
    assert_eq!(entities[0].visits[0].date, 100);
    assert_eq!(entities[0].visits[0].visit_type, VisitType::Link);
    assert_eq!(entities[0].visits[1].date, 200);
    assert_eq!(entities[0].visits[1].visit_type, VisitType::Bookmark);
    assert_eq!(entities[1].id, 2);
    assert_eq!(entities[1].visits.len(), 1);
    assert_eq!(entities[1].visits[0].date, 300);
}

#[test]
fn empty_source_emits_nothing() {
    let rows: Vec<SourceRow> = Vec::new();
    let entities = group_rows(&rows);
    assert_eq!(entities.len(), 0);
    let g = Grouper::new();
    assert!(g.finish().is_none());
}

#[test]
fn every_entity_has_at_least_one_visit() {
    let rows = vec![
        row(3, "http://c", 1, 1),
        row(5, "http://e", 2, 2),
        row(5, "http://e", 3, 2),
        row(9, "http://i", 4, 7),
    ];
    let entities = group_rows(&rows);
    assert_eq!(entities.len(), 3);
    for e in &entities {
        assert!(e.visits.len() >= 1);
    }
}

#[test]
fn grouper_emits_on_key_change_only() {
    let mut g = Grouper::new();
    assert!(g.push(&row(1, "http://a", 100, 1)).is_none());
    assert!(g.push(&row(1, "http://a", 200, 2)).is_none());
    let first = g.push(&row(2, "http://b", 300, 1));
    let first = first.expect("the key change emits the finished place");
    assert_eq!(first.id, 1);
    assert_eq!(first.visits.len(), 2);
    let last = g.finish().expect("the final place is emitted at the end");
    assert_eq!(last.id, 2);
    assert_eq!(last.visits.len(), 1);
}

#[test]
fn from_row_defaults_and_clamps() {
    let mut r = row(4, "http://d", 50, 0);
    r.title = None;
    let p = PlaceEntry::from_row(&r);
    assert_eq!(p.title, "");
    assert_eq!(p.visits.len(), 1);
    // A zero code is clamped to the first kind.
    assert_eq!(p.visits[0].visit_type, VisitType::Link);
    // Codes past the last kind and negative codes are clamped too.
    assert_eq!(PlaceEntry::from_row(&row(4, "u", 0, 10)).visits[0].visit_type, VisitType::Link);
    assert_eq!(PlaceEntry::from_row(&row(4, "u", 0, -5)).visits[0].visit_type, VisitType::Link);
    // In-range codes map 1-indexed onto the kinds.
    assert_eq!(PlaceEntry::from_row(&row(4, "u", 0, 1)).visits[0].visit_type, VisitType::Link);
    assert_eq!(PlaceEntry::from_row(&row(4, "u", 0, 2)).visits[0].visit_type, VisitType::Typed);
    assert_eq!(PlaceEntry::from_row(&row(4, "u", 0, 9)).visits[0].visit_type, VisitType::Reload);
}
