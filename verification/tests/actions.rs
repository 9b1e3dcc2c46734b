use std::sync::{Arc, Mutex};

use url_shortener::actions::{
    create_alias, handle_rejection, stats, view_data, CreateAliasRequest, Redirect, Rejection,
    Reply, Stats,
};
use url_shortener::db::{AliasRecord, Db};

fn record(alias: &str, destination: &str, visits: u64) -> AliasRecord {
    AliasRecord { alias: alias.to_string(), destination: destination.to_string(), visits }
}

fn request(url: &str) -> CreateAliasRequest {
    CreateAliasRequest { url: url.to_string() }
}

fn table_with_test_alias() -> Db {
    Db::from_records(vec![record("test", "https://google.com", 4)]).unwrap()
}

fn pairs(list: &[Stats]) -> Vec<(String, u64)> {
    list.iter().map(|line| (line.alias().clone(), line.count())).collect()
}

#[test]
fn test_create_alias() {
    let mut db = Db::new();
    let test_request = CreateAliasRequest { url: "https://google.com".to_string() };

    let created = create_alias("example".to_string(), test_request, &mut db);

    assert_eq!(created, Ok(()));
    assert_eq!(db.len(), 1);
    assert_eq!(
        db.get(&"example".to_string()),
        Some(&record("example", "https://google.com", 0))
    );
}

#[test]
fn test_get_data() {
    let mut db = table_with_test_alias();

    let followed = view_data("test".to_string(), &mut db);

    assert_eq!(
        followed,
        Ok(Redirect { location: "https://google.com".to_string(), visits: 5, milestone: false })
    );
    assert_eq!(db.get(&"test".to_string()), Some(&record("test", "https://google.com", 5)));
}

#[test]
fn test_get_stats() {
    let db = table_with_test_alias();

    let list = stats(&db);

    assert_eq!(pairs(&list), vec![("test".to_string(), 4)]);
    let mut lines = Vec::new();
    for line in &list {
        let mut object = serde_json::Map::new();
        object.insert("alias".to_string(), serde_json::Value::String(line.alias().clone()));
        object.insert("count".to_string(), serde_json::Value::from(line.count()));
        lines.push(serde_json::Value::Object(object));
    }
    let body = serde_json::to_string(&serde_json::Value::Array(lines)).unwrap();
    assert_eq!(body, r#"[{"alias":"test","count":4}]"#);
}

#[test]
fn second_creation_is_a_conflict() {
    let mut db = Db::new();

    assert_eq!(create_alias("a".to_string(), request("http://x"), &mut db), Ok(()));
    assert_eq!(
        create_alias("a".to_string(), request("http://y"), &mut db),
        Err(Rejection::Conflict)
    );

    assert_eq!(db.len(), 1);
    assert_eq!(db.rows(), &vec![record("a", "http://x", 0)]);
    assert_eq!(pairs(&stats(&db)), vec![("a".to_string(), 0)]);
}

#[test]
fn creation_is_case_sensitive() {
    let mut db = Db::new();

    assert_eq!(create_alias("a".to_string(), request("http://x"), &mut db), Ok(()));
    assert_eq!(create_alias("A".to_string(), request("http://y"), &mut db), Ok(()));

    assert_eq!(db.rows(), &vec![record("a", "http://x", 0), record("A", "http://y", 0)]);
}

#[test]
fn four_visits_count_four() {
    let mut db = Db::new();
    create_alias("t".to_string(), request("http://g.com"), &mut db).unwrap();

    for expected in 1..=4u64 {
        let followed = view_data("t".to_string(), &mut db).unwrap();
        assert_eq!(followed.location, "http://g.com");
        assert_eq!(followed.visits, expected);
        assert!(!followed.milestone);
    }

    assert_eq!(pairs(&stats(&db)), vec![("t".to_string(), 4)]);
}

#[test]
fn missing_alias_is_not_found_and_makes_no_record() {
    let mut db = Db::new();
    create_alias("t".to_string(), request("http://g.com"), &mut db).unwrap();

    assert_eq!(view_data("missing".to_string(), &mut db), Err(Rejection::NotFound));

    assert_eq!(db.len(), 1);
    assert!(!db.contains_key(&"missing".to_string()));
    assert_eq!(db.get(&"missing".to_string()), None);
    assert_eq!(db.rows(), &vec![record("t", "http://g.com", 0)]);
}

#[test]
fn missing_alias_in_an_empty_table() {
    let mut db = Db::new();

    assert_eq!(view_data("missing".to_string(), &mut db), Err(Rejection::NotFound));

    assert_eq!(db.len(), 0);
    assert!(stats(&db).is_empty());
}

#[test]
fn a_visit_leaves_the_other_aliases_alone() {
    let mut db = Db::from_records(vec![
        record("a", "http://x", 3),
        record("b", "http://y", 7),
        record("c", "http://z", 0),
    ])
    .unwrap();

    let followed = view_data("b".to_string(), &mut db).unwrap();

    assert_eq!(followed.visits, 8);
    assert_eq!(
        db.rows(),
        &vec![record("a", "http://x", 3), record("b", "http://y", 8), record("c", "http://z", 0)]
    );
}

#[test]
fn the_thousandth_visit_is_a_milestone() {
    let mut db = Db::from_records(vec![record("t", "http://g.com", 998)]).unwrap();

    let before = view_data("t".to_string(), &mut db).unwrap();
    let at = view_data("t".to_string(), &mut db).unwrap();
    let after = view_data("t".to_string(), &mut db).unwrap();

    assert_eq!((before.visits, before.milestone), (999, false));
    assert_eq!((at.visits, at.milestone), (1000, true));
    assert_eq!((after.visits, after.milestone), (1001, false));
}

#[test]
fn every_thousandth_visit_is_a_milestone() {
    let mut db = Db::from_records(vec![record("t", "http://g.com", 1999)]).unwrap();

    let followed = view_data("t".to_string(), &mut db).unwrap();

    assert_eq!((followed.visits, followed.milestone), (2000, true));
}

#[test]
fn the_last_count_can_still_be_reached() {
    let mut db = Db::from_records(vec![record("t", "http://g.com", u64::MAX - 1)]).unwrap();

    let followed = view_data("t".to_string(), &mut db).unwrap();

    assert_eq!(followed.visits, u64::MAX);
    assert_eq!(followed.milestone, u64::MAX % 1000 == 0);
}

#[test]
fn concurrent_visits_are_all_counted() {
    let mut db = Db::new();
    create_alias("t".to_string(), request("http://g.com"), &mut db).unwrap();
    let shared = Arc::new(Mutex::new(db));
    let runtime = tokio::runtime::Builder::new_multi_thread().worker_threads(4).build().unwrap();

    let mut callers = Vec::new();
    for _ in 0..8 {
        let shared = Arc::clone(&shared);
        callers.push(runtime.spawn(async move {
            let mut milestones = 0;
            for _ in 0..250 {
                let followed = {
                    let mut guard = shared.lock().unwrap();
                    view_data("t".to_string(), &mut guard).unwrap()
                };
                if followed.milestone {
                    milestones += 1;
                }
                tokio::task::yield_now().await;
            }
            milestones
        }));
    }
    let mut milestones = 0;
    for caller in callers {
        milestones += runtime.block_on(caller).unwrap();
    }

    let db = shared.lock().unwrap();
    assert_eq!(pairs(&stats(&db)), vec![("t".to_string(), 2000)]);
    assert_eq!(milestones, 2);
}

#[test]
fn stats_follow_the_order_of_creation() {
    let mut db = Db::new();
    create_alias("zeta".to_string(), request("http://z"), &mut db).unwrap();
    create_alias("alpha".to_string(), request("http://a"), &mut db).unwrap();
    view_data("alpha".to_string(), &mut db).unwrap();

    assert_eq!(
        pairs(&stats(&db)),
        vec![("zeta".to_string(), 0), ("alpha".to_string(), 1)]
    );
    assert_eq!(db.position(&"zeta".to_string()), Some(0));
    assert_eq!(db.position(&"alpha".to_string()), Some(1));
    assert_eq!(db.position(&"beta".to_string()), None);
}

#[test]
fn stats_of_an_empty_table() {
    assert!(stats(&Db::new()).is_empty());
}

#[test]
fn a_line_of_statistics_keeps_what_it_was_given() {
    let line = Stats::new("test".to_string(), 4);

    assert_eq!(line.alias(), "test");
    assert_eq!(line.count(), 4);
}

#[test]
fn not_found_is_answered_with_404() {
    assert_eq!(
        handle_rejection(Rejection::NotFound),
        Ok(Reply { status: 404, body: "Not Found".to_string() })
    );
}

#[test]
fn a_conflict_is_answered_as_not_found() {
    assert!(Rejection::Conflict.is_not_found());
    assert_eq!(
        handle_rejection(Rejection::Conflict),
        Ok(Reply { status: 404, body: "Not Found".to_string() })
    );
}

#[test]
fn another_rejection_is_handed_back() {
    assert!(Rejection::NotFound.is_not_found());
    assert!(!Rejection::Other.is_not_found());
    assert_eq!(handle_rejection(Rejection::Other), Err(Rejection::Other));
}
