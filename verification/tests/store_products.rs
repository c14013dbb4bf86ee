use micro_crud::models::{CreateProduct, UpdateProduct};
use micro_crud::store::{ProductTable, RepoError};

fn laptop() -> CreateProduct {
    CreateProduct {
        name: "Laptop".to_string(),
        description: "High-performance laptop".to_string(),
        price_bits: 999.99f64.to_bits(),
    }
}

#[test]
fn created_product_is_found_by_its_id_field_for_field() {
    let mut t = ProductTable::new();
    let p = t.create(laptop());
    assert_eq!(p.id, 1);
    let got = t.get_by_id(p.id).unwrap();
    assert_eq!(got.id, p.id);
    assert_eq!(got.name, p.name);
    assert_eq!(got.description, p.description);
    assert_eq!(got.price_bits, p.price_bits);
    assert_eq!(f64::from_bits(got.price_bits), 999.99);
}

#[test]
fn missing_product_id_reports_not_found_never_storage() {
    let mut t = ProductTable::new();
    t.create(laptop());
    assert!(matches!(t.get_by_id(7), Err(RepoError::NotFound)));
    assert!(matches!(t.delete(7), Err(RepoError::NotFound)));
    let upd = UpdateProduct { name: None, description: None, price_bits: None };
    assert!(matches!(t.update(7, &upd), Err(RepoError::NotFound)));
}

#[test]
fn empty_product_update_leaves_record_unchanged() {
    let mut t = ProductTable::new();
    let p = t.create(laptop());
    let upd = UpdateProduct { name: None, description: None, price_bits: None };
    let after = t.update(p.id, &upd).unwrap();
    assert_eq!(after.name, "Laptop");
    assert_eq!(after.description, "High-performance laptop");
    assert_eq!(after.price_bits, 999.99f64.to_bits());
}

#[test]
fn partial_product_update_merges_only_present_fields() {
    let mut t = ProductTable::new();
    let p = t.create(laptop());
    let upd = UpdateProduct {
        name: Some("Gaming Laptop".to_string()),
        description: None,
        price_bits: Some(1299.99f64.to_bits()),
    };
    let after = t.update(p.id, &upd).unwrap();
    assert_eq!(after.name, "Gaming Laptop");
    assert_eq!(after.description, "High-performance laptop");
    assert_eq!(f64::from_bits(after.price_bits), 1299.99);
}

#[test]
fn deleted_product_is_gone() {
    let mut t = ProductTable::new();
    let p = t.create(laptop());
    assert!(t.delete(p.id).is_ok());
    assert!(matches!(t.get_by_id(p.id), Err(RepoError::NotFound)));
}

#[test]
fn product_list_returns_ascending_ids() {
    let mut t = ProductTable::new();
    t.create(laptop());
    let mut second = laptop();
    second.name = "Mouse".to_string();
    t.create(second);
    let rows = t.list();
    assert_eq!(rows.len(), 2);
    assert_eq!(rows[0].id, 1);
    assert_eq!(rows[1].id, 2);
    assert_eq!(rows[0].name, "Laptop");
    assert_eq!(rows[1].name, "Mouse");
}
