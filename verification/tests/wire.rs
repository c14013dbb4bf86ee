use micro_crud::http::{
    deleted_response, health_response, product_created_response, product_error_response,
    products_list_response, status_for_error, user_created_response, user_error_response,
    user_ok_response, users_list_response,
};
use micro_crud::json::{encode_product, encode_user, encode_users, health_body, not_found_body};
use micro_crud::models::{Product, User};
use micro_crud::store::RepoError;

fn user(id: i32, name: &str, email: &str) -> User {
    User { id, name: name.to_string(), email: email.to_string() }
}

#[test]
fn user_object_is_encoded_exactly() {
    let u = user(1, "John Doe", "john@example.com");
    assert_eq!(encode_user(&u), "{\"id\":1,\"name\":\"John Doe\",\"email\":\"john@example.com\"}");
}

#[test]
fn negative_and_large_ids_are_encoded_in_decimal() {
    let u = user(-57, "n", "n@x.com");
    assert_eq!(encode_user(&u), "{\"id\":-57,\"name\":\"n\",\"email\":\"n@x.com\"}");
    let v = user(2147483647, "m", "m@x.com");
    assert_eq!(encode_user(&v), "{\"id\":2147483647,\"name\":\"m\",\"email\":\"m@x.com\"}");
    let w = user(-2147483648, "p", "p@x.com");
    assert_eq!(encode_user(&w), "{\"id\":-2147483648,\"name\":\"p\",\"email\":\"p@x.com\"}");
}

#[test]
fn string_bodies_are_escaped() {
    let u = user(2, "quote \" backslash \\", "tab\there");
    assert_eq!(
        encode_user(&u),
        "{\"id\":2,\"name\":\"quote \\\" backslash \\\\\",\"email\":\"tab\\there\"}"
    );
    let v = user(3, "line\nbreak\r", "bell\u{07}x");
    assert_eq!(
        encode_user(&v),
        "{\"id\":3,\"name\":\"line\\nbreak\\r\",\"email\":\"bell\\u0007x\"}"
    );
}

#[test]
fn user_array_is_encoded_in_order_with_commas() {
    let rows = vec![user(1, "A", "a@x.com"), user(2, "B", "b@x.com")];
    assert_eq!(
        encode_users(&rows),
        "[{\"id\":1,\"name\":\"A\",\"email\":\"a@x.com\"},{\"id\":2,\"name\":\"B\",\"email\":\"b@x.com\"}]"
    );
    let none: Vec<User> = Vec::new();
    assert_eq!(encode_users(&none), "[]");
}

#[test]
fn product_object_is_encoded_around_price_text() {
    let p = Product {
        id: 1,
        name: "Laptop".to_string(),
        description: "Fast".to_string(),
        price_bits: 999.99f64.to_bits(),
    };
    let price = f64::from_bits(p.price_bits).to_string();
    assert_eq!(
        encode_product(&p, &price),
        "{\"id\":1,\"name\":\"Laptop\",\"description\":\"Fast\",\"price\":999.99}"
    );
}

#[test]
fn health_payload_has_ok_status() {
    let body = health_body("Rust Axum Microservice", "2020-01-01T00:00:00+00:00");
    assert_eq!(
        body,
        "{\"status\":\"ok\",\"service\":\"Rust Axum Microservice\",\"timestamp\":\"2020-01-01T00:00:00+00:00\"}"
    );
    let (status, live) = health_response("Rust Axum Microservice");
    assert_eq!(status, 200);
    assert!(live.starts_with("{\"status\":\"ok\",\"service\":\"Rust Axum Microservice\",\"timestamp\":\""));
}

#[test]
fn error_statuses_follow_the_taxonomy() {
    assert_eq!(status_for_error(RepoError::NotFound), 404);
    assert_eq!(status_for_error(RepoError::Storage), 500);
}

#[test]
fn user_responses_carry_the_mapped_status_and_body() {
    let u = user(1, "A", "a@x.com");
    let (s_ok, b_ok) = user_ok_response(&u);
    assert_eq!(s_ok, 200);
    assert_eq!(b_ok, "{\"id\":1,\"name\":\"A\",\"email\":\"a@x.com\"}");
    let (s_created, b_created) = user_created_response(&u);
    assert_eq!(s_created, 201);
    assert_eq!(b_created, b_ok);
    let (s_del, b_del) = deleted_response();
    assert_eq!(s_del, 204);
    assert_eq!(b_del, "");
    let (s_nf, b_nf) = user_error_response(RepoError::NotFound, 9, "ignored");
    assert_eq!(s_nf, 404);
    assert_eq!(b_nf, "User with id 9 not found");
    let (s_st, b_st) = user_error_response(RepoError::Storage, 9, "connection reset");
    assert_eq!(s_st, 500);
    assert_eq!(b_st, "connection reset");
    let rows = vec![u];
    let (s_list, b_list) = users_list_response(&rows);
    assert_eq!(s_list, 200);
    assert_eq!(b_list, "[{\"id\":1,\"name\":\"A\",\"email\":\"a@x.com\"}]");
}

#[test]
fn product_responses_carry_the_mapped_status_and_body() {
    let p = Product {
        id: 4,
        name: "Mouse".to_string(),
        description: "Wireless".to_string(),
        price_bits: 25.5f64.to_bits(),
    };
    let price = f64::from_bits(p.price_bits).to_string();
    let (s_created, b_created) = product_created_response(&p, &price);
    assert_eq!(s_created, 201);
    assert_eq!(b_created, "{\"id\":4,\"name\":\"Mouse\",\"description\":\"Wireless\",\"price\":25.5}");
    let (s_nf, b_nf) = product_error_response(RepoError::NotFound, 4, "ignored");
    assert_eq!(s_nf, 404);
    assert_eq!(b_nf, "Product with id 4 not found");
    let (s_st, b_st) = product_error_response(RepoError::Storage, 4, "timeout");
    assert_eq!(s_st, 500);
    assert_eq!(b_st, "timeout");
    let rows = vec![p];
    let prices = vec![price];
    let (s_list, b_list) = products_list_response(&rows, &prices);
    assert_eq!(s_list, 200);
    assert_eq!(b_list, "[{\"id\":4,\"name\":\"Mouse\",\"description\":\"Wireless\",\"price\":25.5}]");
}
