use shaker::identity::reconcile_user;
use shaker::model::{DbError, Handshake, HandshakeContext, Timestamp, User, UserResoniteInfo};
use shaker::store::Database;

fn at(s: i64) -> Timestamp {
    Timestamp::from_unix_seconds(s)
}

fn ctx(id: &str, name: &str, world: &str) -> HandshakeContext {
    HandshakeContext { id: id.to_string(), name: name.to_string(), world: world.to_string() }
}

fn info(id: &str, name: &str) -> UserResoniteInfo {
    UserResoniteInfo { id: id.to_string(), name: name.to_string() }
}

#[test]
fn empty_store_counts_nothing() {
    let db = Database::new();
    assert_eq!(db.count_users(), 0);
    assert_eq!(db.count_handshakes(), 0);
    assert!(db.get_all_users().is_empty());
    assert!(db.get_all_user_resonite_names().is_empty());
    assert!(db.get_user(1).is_none());
    assert!(db.get_handshake(1).is_none());
}

#[test]
fn record_new_user_with_id_and_world() {
    let mut db = Database::new();
    let h = db.create_handshake(ctx("abc123", "Alice", "HubWorld"), at(100)).unwrap();
    assert_eq!(h.world_name.as_deref(), Some("HubWorld"));
    let u = db.get_user(h.user_id).unwrap();
    assert_eq!(u.resonite_id.as_deref(), Some("abc123"));
    assert_eq!(u.resonite_name, "Alice");
    assert_eq!(db.count_users(), 1);
    assert_eq!(db.count_handshakes(), 1);
}

#[test]
fn name_first_then_id_updates_in_place() {
    let mut db = Database::new();
    let h1 = db.create_handshake(ctx("", "Bob", ""), at(1)).unwrap();
    let first = db.get_user(h1.user_id).unwrap();
    assert_eq!(first.resonite_id, None);
    let h2 = db.create_handshake(ctx("xyz999", "Bob", ""), at(2)).unwrap();
    assert_eq!(h1.user_id, h2.user_id);
    let u = db.get_user(h2.user_id).unwrap();
    assert_eq!(u.resonite_id.as_deref(), Some("xyz999"));
    assert_eq!(u.resonite_name, "Bob");
    assert_eq!(u.created_at, at(1));
    assert_eq!(db.count_users(), 1);
    assert_eq!(db.count_handshakes(), 2);
}

#[test]
fn same_id_new_name_renames_one_user() {
    let mut db = Database::new();
    let h1 = db.create_handshake(ctx("id-7", "Carol", "A"), at(1)).unwrap();
    let h2 = db.create_handshake(ctx("id-7", "Caroline", "B"), at(2)).unwrap();
    assert_eq!(h1.user_id, h2.user_id);
    assert_eq!(db.count_users(), 1);
    assert_eq!(db.count_handshakes(), 2);
    let u = db.get_user(h1.user_id).unwrap();
    assert_eq!(u.resonite_name, "Caroline");
    assert_eq!(u.resonite_id.as_deref(), Some("id-7"));
    assert_eq!(db.get_all_user_resonite_names(), vec!["Caroline".to_string()]);
}

#[test]
fn name_only_calls_make_one_user() {
    let mut db = Database::new();
    let mut ids = Vec::new();
    for i in 0..4 {
        let h = db.create_handshake(ctx("", "Dave", "W"), at(i)).unwrap();
        ids.push(h.user_id);
    }
    assert_eq!(db.count_users(), 1);
    assert_eq!(db.count_handshakes(), 4);
    assert!(ids.iter().all(|&id| id == ids[0]));
    assert_eq!(db.count_user_handshakes(ids[0]), 4);
    assert_eq!(db.get_user(ids[0]).unwrap().resonite_id, None);
}

#[test]
fn count_for_user_starts_at_zero_and_increments() {
    let mut db = Database::new();
    let u = db.create_user(&info("e1", "Erin"), at(1)).unwrap();
    assert_eq!(db.count_user_handshakes(u.id), 0);
    assert_eq!(db.count_handshakes_for_user(&info("e1", "Erin")), Ok(0));
    db.create_handshake(ctx("e1", "Erin", "X"), at(2)).unwrap();
    assert_eq!(db.count_handshakes_for_user(&info("e1", "Erin")), Ok(1));
    db.create_handshake(ctx("other", "Frank", "X"), at(3)).unwrap();
    assert_eq!(db.count_handshakes_for_user(&info("e1", "Erin")), Ok(1));
    db.create_handshake(ctx("", "Erin", "Y"), at(4)).unwrap();
    assert_eq!(db.count_handshakes_for_user(&info("e1", "Erin")), Ok(2));
    assert_eq!(db.count_handshakes_for_user(&info("other", "Frank")), Ok(1));
}

#[test]
fn unmatched_pair_is_not_found() {
    let mut db = Database::new();
    assert_eq!(db.count_handshakes_for_user(&info("nobody", "Nobody")), Err(DbError::NotFound));
    db.create_handshake(ctx("g1", "Gina", ""), at(1)).unwrap();
    assert_eq!(db.count_handshakes_for_user(&info("g2", "Gin")), Err(DbError::NotFound));
    assert_eq!(db.count_handshakes_for_user(&info("", "gina")), Err(DbError::NotFound));
    assert!(db.get_user_by_resonite_info(&info("g2", "Gin")).is_none());
    // Lookup-only queries create nothing.
    assert_eq!(db.count_users(), 1);
    // A known name with an unknown ID still matches by name.
    assert_eq!(db.count_handshakes_for_user(&info("g2", "Gina")), Ok(1));
}

#[test]
fn recorded_handshake_round_trip() {
    let mut db = Database::new();
    db.create_handshake(ctx("h0", "Hal", "One"), at(10)).unwrap();
    let h = db.create_handshake(ctx("i0", "Ivy", "Two"), at(20)).unwrap();
    assert_ne!(h.id, 0);
    assert_eq!(h.id, 2);
    assert_eq!(h.created_at, at(20));
    let resolved = db.get_user_by_resonite_info(&info("i0", "Ivy")).unwrap();
    assert_eq!(h.user_id, resolved.id);
    assert_eq!(resolved.id, 2);
    let stored = db.get_handshake(h.id).unwrap();
    assert_eq!(stored.user_id, h.user_id);
    assert_eq!(stored.world_name.as_deref(), Some("Two"));
    assert_eq!(stored.created_at, at(20));
}

#[test]
fn empty_world_is_stored_verbatim() {
    let mut db = Database::new();
    let h = db.create_handshake(ctx("j", "Jo", ""), at(1)).unwrap();
    assert_eq!(h.world_name.as_deref(), Some(""));
}

#[test]
fn id_match_wins_over_name_match() {
    let mut db = Database::new();
    let a = db.create_handshake(ctx("k1", "Kim", ""), at(1)).unwrap();
    let b = db.create_handshake(ctx("k2", "Lee", ""), at(2)).unwrap();
    // ID of the first user, name of the second: the ID decides, and the first user is renamed.
    let c = db.create_handshake(ctx("k1", "Lee", ""), at(3)).unwrap();
    assert_eq!(c.user_id, a.user_id);
    assert_ne!(c.user_id, b.user_id);
    assert_eq!(db.count_users(), 2);
    assert_eq!(db.get_user(a.user_id).unwrap().resonite_name, "Lee");
    assert_eq!(db.get_user(b.user_id).unwrap().resonite_name, "Lee");
}

#[test]
fn present_external_id_is_never_overwritten() {
    let mut db = Database::new();
    let a = db.create_handshake(ctx("m1", "Max", ""), at(1)).unwrap();
    // Matched by name; its stored ID stays.
    let b = db.create_handshake(ctx("m2", "Max", ""), at(2)).unwrap();
    assert_eq!(a.user_id, b.user_id);
    assert_eq!(db.get_user(a.user_id).unwrap().resonite_id.as_deref(), Some("m1"));
    assert_eq!(db.count_users(), 1);
}

#[test]
fn name_match_is_case_sensitive() {
    let mut db = Database::new();
    db.create_handshake(ctx("", "Ned", ""), at(1)).unwrap();
    db.create_handshake(ctx("", "ned", ""), at(2)).unwrap();
    assert_eq!(db.count_users(), 2);
    assert!(db.get_user_by_resonite_name("ned").is_some());
    assert!(db.get_user_by_resonite_name("NED").is_none());
}

#[test]
fn empty_id_is_not_looked_up() {
    let mut db = Database::new();
    db.create_handshake(ctx("", "Olga", ""), at(1)).unwrap();
    // A user without an ID is not found by an empty ID.
    assert!(db.get_user_by_resonite_id("").is_none());
    let h = db.create_handshake(ctx("", "Pia", ""), at(2)).unwrap();
    assert_eq!(h.user_id, 2);
    assert_eq!(db.count_users(), 2);
}

#[test]
fn lookups_find_first_match() {
    let mut db = Database::new();
    db.create_handshake(ctx("q1", "Quinn", ""), at(1)).unwrap();
    db.create_handshake(ctx("r1", "Rae", ""), at(2)).unwrap();
    let u = db.get_user_by_resonite_id("r1").unwrap();
    assert_eq!(u.id, 2);
    let v = db.get_user_by_resonite_name("Quinn").unwrap();
    assert_eq!(v.id, 1);
    assert!(db.get_user_by_resonite_id("s1").is_none());
    assert_eq!(db.get_all_users().len(), 2);
    assert_eq!(db.get_all_handshakes().len(), 2);
    assert_eq!(
        db.get_all_user_resonite_names(),
        vec!["Quinn".to_string(), "Rae".to_string()]
    );
}

#[test]
fn create_user_assigns_next_id() {
    let mut db = Database::new();
    let a = db.create_user(&info("", "Sam"), at(5)).unwrap();
    let b = db.create_user(&info("t9", "Tia"), at(6)).unwrap();
    assert_eq!(a.id, 1);
    assert_eq!(a.resonite_id, None);
    assert_eq!(a.created_at, at(5));
    assert_eq!(b.id, 2);
    assert_eq!(b.resonite_id.as_deref(), Some("t9"));
    assert_eq!(db.count_users(), 2);
}

#[test]
fn update_user_rewrites_id_and_name_only() {
    let mut db = Database::new();
    let a = db.create_user(&info("", "Uma"), at(5)).unwrap();
    let changed = User {
        id: a.id,
        resonite_id: Some("u1".to_string()),
        resonite_name: "Umaa".to_string(),
        created_at: at(99),
    };
    assert!(db.update_user(&changed));
    let u = db.get_user(a.id).unwrap();
    assert_eq!(u.resonite_id.as_deref(), Some("u1"));
    assert_eq!(u.resonite_name, "Umaa");
    assert_eq!(u.created_at, at(5));
    let missing = User { id: 7, ..changed };
    assert!(!db.update_user(&missing));
    assert_eq!(db.count_users(), 1);
}

#[test]
fn reconcile_user_decisions() {
    let stored = User {
        id: 3,
        resonite_id: None,
        resonite_name: "Vic".to_string(),
        created_at: at(1),
    };
    let fixed = reconcile_user(&stored, &info("v1", "Vic")).unwrap();
    assert_eq!(fixed.resonite_id.as_deref(), Some("v1"));
    assert_eq!(fixed.id, 3);
    let with_id = User { resonite_id: Some("v1".to_string()), ..stored };
    assert!(reconcile_user(&with_id, &info("v1", "Vic")).is_none());
    let renamed = reconcile_user(&with_id, &info("v2", "Victor")).unwrap();
    assert_eq!(renamed.resonite_id.as_deref(), Some("v1"));
    assert_eq!(renamed.resonite_name, "Victor");
}

#[test]
fn legacy_import_reuses_names_and_skips_worlds() {
    let mut db = Database::new();
    db.create_handshake(ctx("w1", "Wes", "Hub"), at(1)).unwrap();
    let names = vec!["Wes".to_string(), "Xia".to_string(), "Xia".to_string()];
    let n = db.import_legacy(&names, at(2));
    assert_eq!(n, 3);
    assert_eq!(db.count_users(), 2);
    assert_eq!(db.count_handshakes(), 4);
    let xia = db.get_user_by_resonite_name("Xia").unwrap();
    assert_eq!(xia.resonite_id, None);
    assert_eq!(db.count_user_handshakes(xia.id), 2);
    assert_eq!(db.count_user_handshakes(1), 2);
    let last = db.get_handshake(4).unwrap();
    assert_eq!(last.world_name, None);
}

#[test]
fn legacy_user_and_handshake_steps() {
    let mut db = Database::new();
    let u = db.create_legacy_user("Yan", at(1)).unwrap();
    let again = db.create_legacy_user("Yan", at(2)).unwrap();
    assert_eq!(u.id, again.id);
    assert_eq!(db.count_users(), 1);
    let h = db.create_legacy_handshake(u.id, at(3)).unwrap();
    assert_eq!(h.world_name, None);
    assert_eq!(h.user_id, u.id);
    assert_eq!(db.create_legacy_handshake(9, at(4)).unwrap_err(), DbError::Store);
    assert_eq!(db.count_handshakes(), 1);
}

#[test]
fn restore_checks_rows() {
    let users = vec![User { id: 1, resonite_id: None, resonite_name: "Zed".to_string(), created_at: at(1) }];
    let shakes = vec![Handshake { id: 1, user_id: 1, world_name: None, created_at: at(2) }];
    let db = Database::restore(users, shakes).unwrap();
    assert_eq!(db.count_users(), 1);
    assert_eq!(db.count_user_handshakes(1), 1);

    let gap = vec![User { id: 2, resonite_id: None, resonite_name: "Zed".to_string(), created_at: at(1) }];
    assert!(Database::restore(gap, Vec::new()).is_none());

    let users = vec![User { id: 1, resonite_id: None, resonite_name: "Zed".to_string(), created_at: at(1) }];
    let dangling = vec![Handshake { id: 1, user_id: 2, world_name: None, created_at: at(2) }];
    assert!(Database::restore(users, dangling).is_none());
}

#[test]
fn resolve_or_create_reuses_and_creates() {
    let mut db = Database::new();
    let a = db.resolve_or_create(&info("", "Abe"), at(1)).unwrap();
    assert_eq!(a.id, 1);
    assert_eq!(a.resonite_id, None);
    let b = db.resolve_or_create(&info("a1", "Abe"), at(2)).unwrap();
    assert_eq!(b.id, 1);
    assert_eq!(b.resonite_id.as_deref(), Some("a1"));
    assert_eq!(b.created_at, at(1));
    let c = db.resolve_or_create(&info("b1", "Bea"), at(3)).unwrap();
    assert_eq!(c.id, 2);
    assert_eq!(db.count_users(), 2);
    assert_eq!(db.count_handshakes(), 0);
}

#[test]
fn stored_empty_id_is_filled_in() {
    let users = vec![User { id: 1, resonite_id: Some(String::new()), resonite_name: "Bob".to_string(), created_at: at(1) }];
    let mut db = Database::restore(users, Vec::new()).unwrap();
    let h = db.create_handshake(ctx("xyz999", "Bob", ""), at(2)).unwrap();
    assert_eq!(h.user_id, 1);
    let u = db.get_user(1).unwrap();
    assert_eq!(u.resonite_id.as_deref(), Some("xyz999"));
    assert_eq!(db.count_users(), 1);
    assert_eq!(db.count_handshakes(), 1);
}

#[test]
fn stored_empty_id_stays_for_name_only_call() {
    let users = vec![User { id: 1, resonite_id: Some(String::new()), resonite_name: "Cy".to_string(), created_at: at(1) }];
    let mut db = Database::restore(users, Vec::new()).unwrap();
    let h = db.create_handshake(ctx("", "Cy", ""), at(2)).unwrap();
    assert_eq!(h.user_id, 1);
    assert_eq!(db.get_user(1).unwrap().resonite_id.as_deref(), Some(""));
    assert_eq!(db.count_users(), 1);
}

#[test]
fn many_name_only_calls_attach_all_handshakes() {
    let mut db = Database::new();
    let n: i64 = 12;
    let mut first = 0;
    for i in 0..n {
        let h = db.create_handshake(ctx("", "Dee", &format!("W{i}")), at(i)).unwrap();
        if i == 0 {
            first = h.user_id;
        }
        assert_eq!(h.user_id, first);
    }
    assert_eq!(db.count_users(), 1);
    assert_eq!(db.count_handshakes(), n);
    assert_eq!(db.count_user_handshakes(first), n);
    assert_eq!(db.count_handshakes_for_user(&info("", "Dee")), Ok(n));
}
