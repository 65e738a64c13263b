use places_migrator::builder::TransactBuilder;
use places_migrator::catalog::Catalog;
use places_migrator::catalog::VisitType;
use places_migrator::entry::AddStep;
use places_migrator::entry::PlaceEntry;
use places_migrator::entry::SourceRow;
use places_migrator::entry::Visit;
use places_migrator::grouper::group_rows;

fn sample_entity() -> PlaceEntry {
    PlaceEntry {
        id: 1,
        url: "http://a".to_string(),
        url_hash: 1000,
        description: None,
        title: "a title".to_string(),
        frecency: 50,
        visits: vec![
            Visit { date: 100, visit_type: VisitType::Link },
            Visit { date: 200, visit_type: VisitType::Bookmark },
        ],
    }
}

#[test]
fn bulk_policy_buffers_the_whole_entity() {
    let cat = Catalog::new();
    let mut b = TransactBuilder::new_with_size(1 << 30);
    let entity = sample_entity();
    let step = entity.add(&mut b, &cat);
    match step {
        AddStep::Buffered(pending) => assert!(pending.is_none()),
        AddStep::CommitPlace(_, _) => panic!("a nonzero threshold takes the bulk policy"),
    }
    // Place (4 statements, no description) plus two visits of 3 each.
    assert_eq!(b.finish(),
        "[\n [:db/add \"1\" :place/url \"http://a\"]\n [:db/add \"1\" :place/url_hash 1000]\n [:db/add \"1\" :place/title \"a title\"]\n [:db/add \"1\" :place/frecency 50]\n [:db/add \"2\" :visit/place \"1\"]\n [:db/add \"2\" :visit/date #instmicros 100]\n [:db/add \"2\" :visit/type :visit.type/link]\n [:db/add \"3\" :visit/place \"1\"]\n [:db/add \"3\" :visit/date #instmicros 200]\n [:db/add \"3\" :visit/type :visit.type/bookmark]\n]");
}

#[test]
fn policies_diverge_in_commits_but_not_in_statements() {
    let cat = Catalog::new();
    let entity = sample_entity();

    // Bulk policy, threshold far above the entity's size: no commit while
    // encoding, one final commit for everything.
    let mut bulk = TransactBuilder::new_with_size(1 << 30);
    let mut bulk_commits = 0;
    match entity.add(&mut bulk, &cat) {
        AddStep::Buffered(pending) => {
            if pending.is_some() {
                bulk_commits += 1;
            }
        },
        AddStep::CommitPlace(_, _) => panic!("a nonzero threshold takes the bulk policy"),
    }
    if bulk.transact().is_some() {
        bulk_commits += 1;
    }
    assert_eq!(bulk_commits, 1);

    // Per-child policy (threshold zero): the place commits alone, then each
    // visit commits on its own, referencing the resolved identifier.
    let mut per_child = TransactBuilder::new_with_size(0);
    let mut per_child_commits = 0;
    match entity.add(&mut per_child, &cat) {
        AddStep::Buffered(_) => panic!("a zero threshold takes the per-child policy"),
        AddStep::CommitPlace(batch, _tempid) => {
            assert!(batch.starts_with("[\n [:db/add \"1\" :place/url"));
            per_child_commits += 1;
            // The store resolved the place's temporary identifier.
            let place_eid: i64 = 65536;
            per_child.reset();
            for visit in &entity.visits {
                let visit_batch = PlaceEntry::add_visit(&mut per_child, &cat, place_eid, visit);
                assert!(visit_batch.contains(":visit/place 65536]"));
                per_child_commits += 1;
                per_child.reset();
            }
        },
    }
    assert_eq!(per_child_commits, 1 + entity.visits.len());
    assert_ne!(bulk_commits, per_child_commits);

    // Both policies wrote the same total number of statements.
    assert_eq!(bulk.total_terms, per_child.total_terms);
    assert_eq!(bulk.total_terms, 4 + 3 * entity.visits.len() as u64);
}

#[test]
fn description_adds_a_fifth_place_statement() {
    let cat = Catalog::new();
    let mut entity = sample_entity();
    entity.description = Some("about a".to_string());
    entity.visits = vec![Visit { date: 1, visit_type: VisitType::Typed }];
    let mut b = TransactBuilder::new_with_size(1 << 30);
    entity.add(&mut b, &cat);
    assert_eq!(b.total_terms, 5 + 3);
    assert!(b.finish().contains(" [:db/add \"1\" :place/description \"about a\"]\n"));
}

#[test]
fn end_to_end_bulk_scenario() {
    // Source rows: two visits of place 1, one visit of place 2, sorted by
    // key. Under the bulk policy with a roomy threshold the run makes
    // exactly one commit, carrying both entities.
    let rows = vec![
        SourceRow {
            id: 1,
            url: "http://a".to_string(),
            url_hash: 11,
            description: None,
            title: Some("a".to_string()),
            frecency: 1,
            visit_date: 100,
            visit_type: 1,
        },
        SourceRow {
            id: 1,
            url: "http://a".to_string(),
            url_hash: 11,
            description: None,
            title: Some("a".to_string()),
            frecency: 1,
            visit_date: 200,
            visit_type: 3,
        },
        SourceRow {
            id: 2,
            url: "http://b".to_string(),
            url_hash: 22,
            description: None,
            title: Some("b".to_string()),
            frecency: 2,
            visit_date: 300,
            visit_type: 1,
        },
    ];
    let cat = Catalog::new();
    let entities = group_rows(&rows);
    assert_eq!(entities.len(), 2);
    assert_eq!(entities[0].visits.len(), 2);
    assert_eq!(entities[1].visits.len(), 1);

    let mut builder = TransactBuilder::new_with_size(1 << 30);
    let mut commits: Vec<String> = Vec::new();
    for entity in &entities {
        match entity.add(&mut builder, &cat) {
            AddStep::Buffered(pending) => {
                if let Some(batch) = pending {
                    commits.push(batch);
                    builder.reset();
                }
            },
            AddStep::CommitPlace(_, _) => panic!("bulk policy expected"),
        }
    }
    if let Some(batch) = builder.transact() {
        commits.push(batch);
        builder.reset();
    }
    assert_eq!(commits.len(), 1);
    assert!(commits[0].contains("\"http://a\""));
    assert!(commits[0].contains("\"http://b\""));
    // Both entities' statements: (4 + 2 * 3) + (4 + 1 * 3).
    assert_eq!(builder.total_terms, 17);
}
