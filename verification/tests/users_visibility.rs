use query_core::users::{
    GrantEntry, GrantObject, GrantObjectVisibilityChecker, RoleInfo, UserGrantSet, UserInfo,
};

fn grants(objects: Vec<GrantObject>) -> UserGrantSet {
    UserGrantSet::new(objects.into_iter().map(GrantEntry::new).collect())
}

fn user(objects: Vec<GrantObject>) -> UserInfo {
    UserInfo { name: "u".to_string(), grants: grants(objects) }
}

fn role(name: &str, objects: Vec<GrantObject>) -> RoleInfo {
    RoleInfo { name: name.to_string(), grants: grants(objects) }
}

fn db(catalog: &str, name: &str) -> GrantObject {
    GrantObject::Database(catalog.to_string(), name.to_string())
}

fn table(catalog: &str, database: &str, name: &str) -> GrantObject {
    GrantObject::Table(catalog.to_string(), database.to_string(), name.to_string())
}

#[test]
fn nothing_is_visible_without_grants() {
    let checker = GrantObjectVisibilityChecker::new(&user(vec![]), &vec![]);
    assert!(!checker.check_stage_visibility("s"));
    assert!(!checker.check_udf_visibility("f"));
    assert!(!checker.check_database_visibility("default", "db"));
    assert!(!checker.check_table_visibility("default", "db", "t"));
}

#[test]
fn global_grant_shows_everything() {
    let checker = GrantObjectVisibilityChecker::new(&user(vec![GrantObject::Global]), &vec![]);
    assert!(checker.check_stage_visibility("s"));
    assert!(checker.check_udf_visibility("f"));
    assert!(checker.check_database_visibility("default", "db"));
    assert!(checker.check_table_visibility("default", "db", "t"));
}

#[test]
fn global_grant_of_a_role_counts() {
    let roles = vec![role("r1", vec![]), role("r2", vec![GrantObject::Global])];
    let checker = GrantObjectVisibilityChecker::new(&user(vec![]), &roles);
    assert!(checker.check_table_visibility("c", "d", "t"));
}

#[test]
fn database_grant_shows_its_tables() {
    let checker = GrantObjectVisibilityChecker::new(&user(vec![db("default", "sales")]), &vec![]);
    assert!(checker.check_database_visibility("default", "sales"));
    assert!(checker.check_table_visibility("default", "sales", "orders"));
    assert!(!checker.check_database_visibility("default", "hr"));
    assert!(!checker.check_database_visibility("other", "sales"));
    assert!(!checker.check_table_visibility("default", "hr", "orders"));
}

#[test]
fn table_grant_shows_its_database_but_not_its_other_tables() {
    let roles = vec![role("r", vec![table("default", "sales", "orders")])];
    let checker = GrantObjectVisibilityChecker::new(&user(vec![]), &roles);
    assert!(checker.check_table_visibility("default", "sales", "orders"));
    assert!(!checker.check_table_visibility("default", "sales", "refunds"));
    assert!(checker.check_database_visibility("default", "sales"));
    assert!(!checker.check_database_visibility("default", "orders"));
}

#[test]
fn udf_and_stage_grants_are_kept_apart() {
    let objects = vec![GrantObject::UDF("f".to_string()), GrantObject::Stage("s".to_string())];
    let checker = GrantObjectVisibilityChecker::new(&user(objects), &vec![]);
    assert!(checker.check_udf_visibility("f"));
    assert!(!checker.check_udf_visibility("s"));
    assert!(checker.check_stage_visibility("s"));
    assert!(!checker.check_stage_visibility("f"));
}

#[test]
fn grants_given_twice_count_once() {
    let roles = vec![
        role("a", vec![db("c", "d"), table("c", "d", "t")]),
        role("b", vec![db("c", "d"), table("c", "d", "t"), table("c", "d", "u")]),
    ];
    let checker = GrantObjectVisibilityChecker::new(&user(vec![db("c", "d")]), &roles);
    assert!(checker.check_database_visibility("c", "d"));
    assert!(checker.check_table_visibility("c", "d", "u"));
}

#[test]
fn entries_hand_out_their_object() {
    let entry = GrantEntry::new(GrantObject::Stage("s".to_string()));
    assert!(matches!(entry.object(), GrantObject::Stage(s) if s == "s"));
    let set = grants(vec![GrantObject::Global]);
    assert_eq!(set.entries().len(), 1);
}
