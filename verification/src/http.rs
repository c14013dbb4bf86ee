//! Mapping of operation outcomes to HTTP responses.
//!
//! Every response is a status code and a body.  Listings and single
//! records answer 200, a creation 201, a deletion 204 with an empty
//! body; a missing id maps to 404 with the not-found message, any
//! storage failure to 500 with the caller's detail text.  The health
//! response is built here as well: it reads no store state, only the
//! clock, so it stays available whatever the store's condition.

use vstd::prelude::*;

use crate::json::{
    encode_product, encode_products, encode_user, encode_users, health_body, health_json,
    not_found_body, not_found_message, prices_view, product_json, products_json, user_json,
    users_json,
};
use crate::models::{Product, User};
use crate::store::{RepoError, products_view, users_view};

verus! {

/// The status code a failed operation maps to: a missing id is 404,
/// any storage failure 500.
pub fn status_for_error(e: RepoError) -> (s: u16)
    ensures
        e == RepoError::NotFound ==> s == 404,
        e == RepoError::Storage ==> s == 500,
{
    match e {
        RepoError::NotFound => 404,
        RepoError::Storage => 500,
    }
}

/// A user listing: 200 with the wire array of the rows, in order.
pub fn users_list_response(rows: &Vec<User>) -> (r: (u16, String))
    ensures
        r.0 == 200,
        r.1@ == users_json(users_view(rows@)),
{
    (200, encode_users(rows))
}

/// A fetched user: 200 with the record's wire object.
pub fn user_ok_response(u: &User) -> (r: (u16, String))
    ensures
        r.0 == 200,
        r.1@ == user_json(u@),
{
    (200, encode_user(u))
}

/// A created user: 201 with the persisted record's wire object.
pub fn user_created_response(u: &User) -> (r: (u16, String))
    ensures
        r.0 == 201,
        r.1@ == user_json(u@),
{
    (201, encode_user(u))
}

/// A successful deletion: 204 with an empty body.
pub fn deleted_response() -> (r: (u16, String))
    ensures
        r.0 == 204,
        r.1@ == Seq::<char>::empty(),
{
    (204, String::new())
}

/// A failed user operation: 404 with the not-found message for a
/// missing id, else 500 with the storage detail supplied by the caller.
pub fn user_error_response(e: RepoError, id: i32, detail: &str) -> (r: (u16, String))
    ensures
        e == RepoError::NotFound ==> r.0 == 404 && r.1@ == not_found_message("User"@, id as int),
        e == RepoError::Storage ==> r.0 == 500 && r.1@ == detail@,
{
    match e {
        RepoError::NotFound => (404, not_found_body("User", id)),
        RepoError::Storage => (500, detail.to_owned()),
    }
}

/// A product listing: 200 with the wire array of the rows, in order,
/// around the rendered price texts matched by position.
pub fn products_list_response(rows: &Vec<Product>, prices: &Vec<String>) -> (r: (u16, String))
    requires
        rows@.len() == prices@.len(),
    ensures
        r.0 == 200,
        r.1@ == products_json(products_view(rows@), prices_view(prices@)),
{
    (200, encode_products(rows, prices))
}

/// A fetched product: 200 with the record's wire object.
pub fn product_ok_response(p: &Product, price: &str) -> (r: (u16, String))
    ensures
        r.0 == 200,
        r.1@ == product_json(p@, price@),
{
    (200, encode_product(p, price))
}

/// A created product: 201 with the persisted record's wire object.
pub fn product_created_response(p: &Product, price: &str) -> (r: (u16, String))
    ensures
        r.0 == 201,
        r.1@ == product_json(p@, price@),
{
    (201, encode_product(p, price))
}

/// A failed product operation: 404 with the not-found message for a
/// missing id, else 500 with the storage detail supplied by the caller.
pub fn product_error_response(e: RepoError, id: i32, detail: &str) -> (r: (u16, String))
    ensures
        e == RepoError::NotFound ==> r.0 == 404 && r.1@ == not_found_message(
            "Product"@,
            id as int,
        ),
        e == RepoError::Storage ==> r.0 == 500 && r.1@ == detail@,
{
    match e {
        RepoError::NotFound => (404, not_found_body("Product", id)),
        RepoError::Storage => (500, detail.to_owned()),
    }
}

/// Relies on chrono's Utc::now and to_rfc3339 for the current
/// wall-clock instant as text; nothing is assumed of the result, which
/// depends on the clock.
#[verifier::external_body]
fn now_rfc3339() -> (r: String) {
    chrono::Utc::now().to_rfc3339()
}

/// The health response: always 200 with the ok-status payload around
/// the service name and the current timestamp.
pub fn health_response(service: &str) -> (r: (u16, String))
    ensures
        r.0 == 200,
        exists|ts: Seq<char>| r.1@ == health_json(service@, ts),
{
    let ts = now_rfc3339();
    let body = health_body(service, ts.as_str());
    proof {
        assert(body@ == health_json(service@, ts@));
    }
    (200, body)
}

} // verus!
