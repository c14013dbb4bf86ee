use micro_crud::models::{CreateUser, UpdateUser};
use micro_crud::store::{RepoError, UserTable};

#[test]
fn empty_table_lists_nothing() {
    let t = UserTable::new();
    let rows = t.list();
    assert_eq!(rows.len(), 0);
}

#[test]
fn created_user_is_returned_with_generated_id() {
    let mut t = UserTable::new();
    let u = t.create(CreateUser { name: "John Doe".to_string(), email: "john@example.com".to_string() });
    assert_eq!(u.id, 1);
    assert_eq!(u.name, "John Doe");
    assert_eq!(u.email, "john@example.com");
}

#[test]
fn created_user_is_found_by_its_id_field_for_field() {
    let mut t = UserTable::new();
    let u = t.create(CreateUser { name: "A".to_string(), email: "a@x.com".to_string() });
    let got = t.get_by_id(u.id).unwrap();
    assert_eq!(got.id, u.id);
    assert_eq!(got.name, u.name);
    assert_eq!(got.email, u.email);
}

#[test]
fn missing_id_reports_not_found_never_storage() {
    let mut t = UserTable::new();
    t.create(CreateUser { name: "A".to_string(), email: "a@x.com".to_string() });
    assert!(matches!(t.get_by_id(42), Err(RepoError::NotFound)));
    assert!(matches!(t.delete(42), Err(RepoError::NotFound)));
    let upd = UpdateUser { name: None, email: None };
    assert!(matches!(t.update(42, &upd), Err(RepoError::NotFound)));
}

#[test]
fn empty_update_leaves_record_unchanged() {
    let mut t = UserTable::new();
    let u = t.create(CreateUser { name: "A".to_string(), email: "a@x.com".to_string() });
    let upd = UpdateUser { name: None, email: None };
    let after = t.update(u.id, &upd).unwrap();
    assert_eq!(after.id, 1);
    assert_eq!(after.name, "A");
    assert_eq!(after.email, "a@x.com");
    let got = t.get_by_id(u.id).unwrap();
    assert_eq!(got.name, "A");
    assert_eq!(got.email, "a@x.com");
}

#[test]
fn partial_update_merges_only_present_fields() {
    let mut t = UserTable::new();
    let u = t.create(CreateUser { name: "Old".to_string(), email: "e@x.com".to_string() });
    let upd = UpdateUser { name: Some("X".to_string()), email: None };
    let after = t.update(u.id, &upd).unwrap();
    assert_eq!(after.name, "X");
    assert_eq!(after.email, "e@x.com");
    let upd2 = UpdateUser { name: None, email: Some("new@x.com".to_string()) };
    let after2 = t.update(u.id, &upd2).unwrap();
    assert_eq!(after2.name, "X");
    assert_eq!(after2.email, "new@x.com");
    let upd3 = UpdateUser { name: Some("Y".to_string()), email: Some("y@x.com".to_string()) };
    let after3 = t.update(u.id, &upd3).unwrap();
    assert_eq!(after3.name, "Y");
    assert_eq!(after3.email, "y@x.com");
}

#[test]
fn deleted_user_is_gone() {
    let mut t = UserTable::new();
    let u = t.create(CreateUser { name: "A".to_string(), email: "a@x.com".to_string() });
    assert!(t.delete(u.id).is_ok());
    assert!(matches!(t.get_by_id(u.id), Err(RepoError::NotFound)));
    assert!(matches!(t.delete(u.id), Err(RepoError::NotFound)));
}

#[test]
fn list_returns_ascending_ids_in_creation_order() {
    let mut t = UserTable::new();
    t.create(CreateUser { name: "A".to_string(), email: "a@x.com".to_string() });
    t.create(CreateUser { name: "B".to_string(), email: "b@x.com".to_string() });
    t.create(CreateUser { name: "C".to_string(), email: "c@x.com".to_string() });
    let rows = t.list();
    assert_eq!(rows.len(), 3);
    assert_eq!(rows[0].id, 1);
    assert_eq!(rows[1].id, 2);
    assert_eq!(rows[2].id, 3);
    assert_eq!(rows[0].name, "A");
    assert_eq!(rows[1].name, "B");
    assert_eq!(rows[2].name, "C");
}

#[test]
fn ids_are_not_reused_after_delete() {
    let mut t = UserTable::new();
    let a = t.create(CreateUser { name: "A".to_string(), email: "a@x.com".to_string() });
    t.delete(a.id).unwrap();
    let b = t.create(CreateUser { name: "B".to_string(), email: "b@x.com".to_string() });
    assert_eq!(b.id, 2);
    let rows = t.list();
    assert_eq!(rows.len(), 1);
    assert_eq!(rows[0].id, 2);
}
