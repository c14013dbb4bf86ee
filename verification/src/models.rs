//! Record types for the two entities and the transient payloads that
//! create and update them.
//!
//! A product's price travels through this layer opaquely: the store never
//! computes with it, so it is held as the 64 raw bits of the caller's
//! numeric value and handed back unchanged.

use vstd::prelude::*;

verus! {

/// Mathematical view of a stored user row.
#[verifier::ext_equal]
pub ghost struct UserView {
    pub id: int,
    pub name: Seq<char>,
    pub email: Seq<char>,
}

/// A persisted user record; the id is assigned by the store.
#[derive(Debug)]
pub struct User {
    pub id: i32,
    pub name: String,
    pub email: String,
}

impl View for User {
    type V = UserView;

    open spec fn view(&self) -> UserView {
        UserView { id: self.id as int, name: self.name@, email: self.email@ }
    }
}

/// Fields required to insert a new user.
#[derive(Debug)]
pub struct CreateUser {
    pub name: String,
    pub email: String,
}

/// Partial update of a user: an absent field keeps the stored value.
#[derive(Debug)]
pub struct UpdateUser {
    pub name: Option<String>,
    pub email: Option<String>,
}

/// Mathematical view of a stored product row.
#[verifier::ext_equal]
pub ghost struct ProductView {
    pub id: int,
    pub name: Seq<char>,
    pub description: Seq<char>,
    pub price_bits: u64,
}

/// A persisted product record; the id is assigned by the store.  The
/// price is carried as the raw bits of the caller's numeric value.
#[derive(Debug)]
pub struct Product {
    pub id: i32,
    pub name: String,
    pub description: String,
    pub price_bits: u64,
}

impl View for Product {
    type V = ProductView;

    open spec fn view(&self) -> ProductView {
        ProductView {
            id: self.id as int,
            name: self.name@,
            description: self.description@,
            price_bits: self.price_bits,
        }
    }
}

/// Fields required to insert a new product.
#[derive(Debug)]
pub struct CreateProduct {
    pub name: String,
    pub description: String,
    pub price_bits: u64,
}

/// Partial update of a product: an absent field keeps the stored value.
#[derive(Debug)]
pub struct UpdateProduct {
    pub name: Option<String>,
    pub description: Option<String>,
    pub price_bits: Option<u64>,
}

/// The merge policy for a partial user update: a present field overrides
/// the stored value, an absent one retains it, and the id never changes.
pub open spec fn merged_user(cur: UserView, upd: UpdateUser) -> UserView {
    UserView {
        id: cur.id,
        name: match upd.name {
            Some(n) => n@,
            None => cur.name,
        },
        email: match upd.email {
            Some(e) => e@,
            None => cur.email,
        },
    }
}

/// The merge policy for a partial product update.
pub open spec fn merged_product(cur: ProductView, upd: UpdateProduct) -> ProductView {
    ProductView {
        id: cur.id,
        name: match upd.name {
            Some(n) => n@,
            None => cur.name,
        },
        description: match upd.description {
            Some(d) => d@,
            None => cur.description,
        },
        price_bits: match upd.price_bits {
            Some(p) => p,
            None => cur.price_bits,
        },
    }
}

/// Resolves a partial user update against the stored record.
pub fn merge_user(cur: &User, upd: &UpdateUser) -> (r: User)
    ensures
        r@ == merged_user(cur@, *upd),
{
    let name = match &upd.name {
        Some(n) => n.clone(),
        None => cur.name.clone(),
    };
    let email = match &upd.email {
        Some(e) => e.clone(),
        None => cur.email.clone(),
    };
    let r = User { id: cur.id, name, email };
    proof {
        assert(r@ =~= merged_user(cur@, *upd));
    }
    r
}

/// Resolves a partial product update against the stored record.
pub fn merge_product(cur: &Product, upd: &UpdateProduct) -> (r: Product)
    ensures
        r@ == merged_product(cur@, *upd),
{
    let name = match &upd.name {
        Some(n) => n.clone(),
        None => cur.name.clone(),
    };
    let description = match &upd.description {
        Some(d) => d.clone(),
        None => cur.description.clone(),
    };
    let price_bits = match upd.price_bits {
        Some(p) => p,
        None => cur.price_bits,
    };
    let r = Product { id: cur.id, name, description, price_bits };
    proof {
        assert(r@ =~= merged_product(cur@, *upd));
    }
    r
}

/// Law: a merge that sets no field is the identity on the record, and a
/// merge never touches the id; each present field lands verbatim and each
/// absent field is retained, so the policy holds for every subset of
/// fields.
pub proof fn lemma_user_merge_fields(cur: UserView, upd: UpdateUser)
    ensures
        merged_user(cur, upd).id == cur.id,
        upd.name is None ==> merged_user(cur, upd).name == cur.name,
        upd.name matches Some(n) ==> merged_user(cur, upd).name == n@,
        upd.email is None ==> merged_user(cur, upd).email == cur.email,
        upd.email matches Some(e) ==> merged_user(cur, upd).email == e@,
        upd.name is None && upd.email is None ==> merged_user(cur, upd) == cur,
{
    if upd.name is None && upd.email is None {
        assert(merged_user(cur, upd) =~= cur);
    }
}

/// Law: the product merge policy, field by field, for every subset of
/// fields; with no field set it is the identity.
pub proof fn lemma_product_merge_fields(cur: ProductView, upd: UpdateProduct)
    ensures
        merged_product(cur, upd).id == cur.id,
        upd.name is None ==> merged_product(cur, upd).name == cur.name,
        upd.name matches Some(n) ==> merged_product(cur, upd).name == n@,
        upd.description is None ==> merged_product(cur, upd).description == cur.description,
        upd.description matches Some(d) ==> merged_product(cur, upd).description == d@,
        upd.price_bits is None ==> merged_product(cur, upd).price_bits == cur.price_bits,
        upd.price_bits matches Some(p) ==> merged_product(cur, upd).price_bits == p,
        upd.name is None && upd.description is None && upd.price_bits is None
            ==> merged_product(cur, upd) == cur,
{
    if upd.name is None && upd.description is None && upd.price_bits is None {
        assert(merged_product(cur, upd) =~= cur);
    }
}

} // verus!
