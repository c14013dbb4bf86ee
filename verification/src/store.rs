//! In-memory model of the two entity tables.
//!
//! Each table keeps its rows in ascending id order and assigns ids
//! sequentially from 1, so a row read back after a write reflects exactly
//! the fields just written.  Every operation carries an exact contract:
//! lookup and delete report `NotFound` precisely when the id is absent and
//! never any other error, creation appends the persisted record, and a
//! partial update merges present fields over the stored row.

use vstd::prelude::*;

use crate::models::{
    CreateProduct, CreateUser, Product, ProductView, UpdateProduct, UpdateUser, User, UserView,
    merged_product, merged_user,
};

verus! {

/// Error taxonomy of a store operation: a missing id, or any failure of
/// the underlying store (connection loss, constraint violation, timeout).
#[derive(Clone, Copy, Debug, PartialEq, Eq, Structural)]
pub enum RepoError {
    NotFound,
    Storage,
}

/// The rows of a user table, as mathematical records.
pub open spec fn users_view(s: Seq<User>) -> Seq<UserView> {
    Seq::new(s.len(), |i: int| s[i]@)
}

/// The rows of a product table, as mathematical records.
pub open spec fn products_view(s: Seq<Product>) -> Seq<ProductView> {
    Seq::new(s.len(), |i: int| s[i]@)
}

/// Ids strictly ascend along the sequence (so each id occurs once).
pub open spec fn user_ids_ascending(s: Seq<UserView>) -> bool {
    forall|i: int, j: int| 0 <= i < j < s.len() ==> #[trigger] s[i].id < #[trigger] s[j].id
}

/// Ids strictly ascend along the sequence (so each id occurs once).
pub open spec fn product_ids_ascending(s: Seq<ProductView>) -> bool {
    forall|i: int, j: int| 0 <= i < j < s.len() ==> #[trigger] s[i].id < #[trigger] s[j].id
}

/// Some row of the sequence carries the id.
pub open spec fn user_has_id(s: Seq<UserView>, id: int) -> bool {
    exists|i: int| 0 <= i < s.len() && #[trigger] s[i].id == id
}

/// Some row of the sequence carries the id.
pub open spec fn product_has_id(s: Seq<ProductView>, id: int) -> bool {
    exists|i: int| 0 <= i < s.len() && #[trigger] s[i].id == id
}

/// The user table: rows in ascending id order plus the next fresh id.
pub struct UserTable {
    rows: Vec<User>,
    next_id: i32,
}

impl View for UserTable {
    type V = Seq<UserView>;

    closed spec fn view(&self) -> Seq<UserView> {
        users_view(self.rows@)
    }
}

impl UserTable {
    /// The id the next created row will receive.
    pub closed spec fn spec_next_id(&self) -> int {
        self.next_id as int
    }

    /// Well-formed: ids are positive, below the next fresh id, and
    /// strictly ascending.
    pub open spec fn wf(&self) -> bool {
        &&& 1 <= self.spec_next_id()
        &&& forall|i: int|
            0 <= i < self@.len() ==> 1 <= #[trigger] self@[i].id < self.spec_next_id()
        &&& user_ids_ascending(self@)
    }

    /// A fresh, empty table; ids are assigned sequentially from 1.
    pub fn new() -> (t: UserTable)
        ensures
            t.wf(),
            t@ == Seq::<UserView>::empty(),
            t.spec_next_id() == 1,
    {
        let t = UserTable { rows: Vec::new(), next_id: 1 };
        proof {
            assert(t@ =~= Seq::<UserView>::empty());
        }
        t
    }

    /// Every row, in stored order: ascending by id, which matches
    /// creation order since ids are assigned sequentially.
    pub fn list(&self) -> (r: Vec<User>)
        requires
            self.wf(),
        ensures
            users_view(r@) == self@,
            user_ids_ascending(users_view(r@)),
    {
        let mut out: Vec<User> = Vec::new();
        let mut i: usize = 0;
        while i < self.rows.len()
            invariant
                i <= self.rows.len(),
                out@.len() == i,
                forall|j: int| 0 <= j < i as int ==> #[trigger] out@[j]@ == self@[j],
            decreases self.rows.len() - i,
        {
            let row = &self.rows[i];
            let u = User { id: row.id, name: row.name.clone(), email: row.email.clone() };
            proof {
                assert(u@ =~= self@[i as int]);
            }
            out.push(u);
            i += 1;
        }
        proof {
            assert(users_view(out@) =~= self@);
        }
        out
    }

    /// Looks up the row with the given id.  An absent id yields
    /// `NotFound` and never `Storage`; a present id yields the stored
    /// record, field for field.
    pub fn get_by_id(&self, id: i32) -> (r: Result<User, RepoError>)
        requires
            self.wf(),
        ensures
            r is Ok <==> user_has_id(self@, id as int),
            r matches Ok(u) ==> u@.id == id as int && exists|i: int|
                0 <= i < self@.len() && #[trigger] self@[i] == u@,
            r matches Err(e) ==> e == RepoError::NotFound,
    {
        let mut i: usize = 0;
        while i < self.rows.len()
            invariant
                i <= self.rows.len(),
                forall|j: int| 0 <= j < i as int ==> (#[trigger] self@[j]).id != id as int,
            decreases self.rows.len() - i,
        {
            if self.rows[i].id == id {
                let row = &self.rows[i];
                let u = User { id: row.id, name: row.name.clone(), email: row.email.clone() };
                proof {
                    assert(u@ =~= self@[i as int]);
                    assert(self@[i as int].id == id as int);
                    assert(user_has_id(self@, id as int));
                }
                return Ok(u);
            }
            i += 1;
        }
        Err(RepoError::NotFound)
    }

    /// Inserts a new row under the next server-generated id and returns
    /// the persisted record.  The new id was not present before, the row
    /// is appended after all existing rows, and the next id grows by one.
    pub fn create(&mut self, payload: CreateUser) -> (u: User)
        requires
            old(self).wf(),
            old(self).spec_next_id() < i32::MAX as int,
        ensures
            final(self).wf(),
            u@.id == old(self).spec_next_id(),
            u@.name == payload.name@,
            u@.email == payload.email@,
            !user_has_id(old(self)@, u@.id),
            final(self)@ == old(self)@.push(u@),
            final(self).spec_next_id() == old(self).spec_next_id() + 1,
    {
        let id = self.next_id;
        let stored = User { id, name: payload.name, email: payload.email };
        let ret = User { id, name: stored.name.clone(), email: stored.email.clone() };
        proof {
            assert(ret@ =~= stored@);
        }
        self.rows.push(stored);
        self.next_id = id + 1;
        proof {
            assert(self@ =~= old(self)@.push(ret@));
            assert forall|i: int, j: int| 0 <= i < j < self@.len() implies
                (#[trigger] self@[i]).id < (#[trigger] self@[j]).id by {
                if j < old(self)@.len() {
                    assert(old(self)@[i].id < old(self)@[j].id);
                } else {
                    assert(old(self)@[i].id < id as int);
                }
            }
            assert(self.wf());
        }
        ret
    }

    /// Partial update: the stored row is fetched, every present field of
    /// the payload overrides it, absent fields are retained, and the
    /// merged record is written back and returned.  An absent id yields
    /// `NotFound` and never `Storage`, and leaves the table unchanged.
    /// The fetch and the write happen as one step on this table, so
    /// nothing can slip between them.
    pub fn update(&mut self, id: i32, upd: &UpdateUser) -> (r: Result<User, RepoError>)
        requires
            old(self).wf(),
        ensures
            final(self).wf(),
            final(self).spec_next_id() == old(self).spec_next_id(),
            r is Ok <==> user_has_id(old(self)@, id as int),
            r matches Ok(u) ==> exists|i: int|
                0 <= i < old(self)@.len()
                && (#[trigger] old(self)@[i]).id == id as int
                && u@ == merged_user(old(self)@[i], *upd)
                && final(self)@ == old(self)@.update(i, u@),
            r matches Err(e) ==> e == RepoError::NotFound && final(self)@ == old(self)@,
    {
        let mut i: usize = 0;
        while i < self.rows.len()
            invariant
                i <= self.rows.len(),
                old(self).wf(),
                self.rows@ == old(self).rows@,
                self.next_id == old(self).next_id,
                forall|j: int| 0 <= j < i as int ==> (#[trigger] self@[j]).id != id as int,
            decreases self.rows.len() - i,
        {
            if self.rows[i].id == id {
                proof {
                    assert(old(self)@[i as int].id == id as int);
                    assert(user_has_id(old(self)@, id as int));
                }
                let merged = crate::models::merge_user(&self.rows[i], upd);
                let ret = User {
                    id: merged.id,
                    name: merged.name.clone(),
                    email: merged.email.clone(),
                };
                proof {
                    assert(ret@ =~= merged@);
                }
                self.rows[i] = merged;
                proof {
                    assert(self@ =~= old(self)@.update(i as int, ret@));
                    assert forall|k: int| 0 <= k < self@.len() implies
                        (#[trigger] self@[k]).id == old(self)@[k].id by {}
                    assert forall|k: int| 0 <= k < self@.len() implies
                        1 <= (#[trigger] self@[k]).id < self.spec_next_id() by {
                        assert(1 <= old(self)@[k].id < old(self).spec_next_id());
                    }
                    assert forall|k: int, l: int| 0 <= k < l < self@.len() implies
                        (#[trigger] self@[k]).id < (#[trigger] self@[l]).id by {
                        assert(old(self)@[k].id < old(self)@[l].id);
                    }
                    assert(self.wf());
                }
                return Ok(ret);
            }
            i += 1;
        }
        proof {
            assert forall|j: int| 0 <= j < old(self)@.len() implies
                (#[trigger] old(self)@[j]).id != id as int by {
                assert(self@[j].id != id as int);
            }
        }
        Err(RepoError::NotFound)
    }

    /// Removes the row with the given id.  One row is removed exactly
    /// when the id was present, after which no row carries it; an absent
    /// id yields `NotFound` and never `Storage`.
    pub fn delete(&mut self, id: i32) -> (r: Result<(), RepoError>)
        requires
            old(self).wf(),
        ensures
            final(self).wf(),
            final(self).spec_next_id() == old(self).spec_next_id(),
            r is Ok <==> user_has_id(old(self)@, id as int),
            r is Ok ==> exists|i: int|
                0 <= i < old(self)@.len()
                && (#[trigger] old(self)@[i]).id == id as int
                && final(self)@ == old(self)@.remove(i),
            r is Ok ==> !user_has_id(final(self)@, id as int),
            r matches Err(e) ==> e == RepoError::NotFound && final(self)@ == old(self)@,
    {
        let mut i: usize = 0;
        while i < self.rows.len()
            invariant
                i <= self.rows.len(),
                old(self).wf(),
                self.rows@ == old(self).rows@,
                self.next_id == old(self).next_id,
                forall|j: int| 0 <= j < i as int ==> (#[trigger] self@[j]).id != id as int,
            decreases self.rows.len() - i,
        {
            if self.rows[i].id == id {
                proof {
                    assert(old(self)@[i as int].id == id as int);
                    assert(user_has_id(old(self)@, id as int));
                }
                self.rows.remove(i);
                proof {
                    assert(self@ =~= old(self)@.remove(i as int));
                    assert forall|j: int| 0 <= j < self@.len() implies
                        (#[trigger] self@[j]).id != id as int by {
                        assert(user_ids_ascending(old(self)@));
                        assert((i as int) < old(self)@.len());
                        if j < i as int {
                            assert(self@[j] == old(self)@[j]);
                            assert(old(self)@[j].id < old(self)@[i as int].id);
                        } else {
                            assert(self@[j] == old(self)@[j + 1]);
                            assert(old(self)@[i as int].id < old(self)@[j + 1].id);
                        }
                    }
                    assert forall|k: int, l: int| 0 <= k < l < self@.len() implies
                        (#[trigger] self@[k]).id < (#[trigger] self@[l]).id by {
                        if l < i as int {
                            assert(old(self)@[k].id < old(self)@[l].id);
                        } else if k < i as int {
                            assert(old(self)@[k].id < old(self)@[l + 1].id);
                        } else {
                            assert(old(self)@[k + 1].id < old(self)@[l + 1].id);
                        }
                    }
                    assert(self.wf());
                }
                return Ok(());
            }
            i += 1;
        }
        proof {
            assert forall|j: int| 0 <= j < old(self)@.len() implies
                (#[trigger] old(self)@[j]).id != id as int by {
                assert(self@[j].id != id as int);
            }
        }
        Err(RepoError::NotFound)
    }
}

/// Law: a row whose id is new to the table is found after insertion, and
/// it is the only row under that id, so a lookup by the fresh id returns
/// the created record field for field.
pub proof fn lemma_create_then_get_user(s: Seq<UserView>, u: UserView)
    requires
        !user_has_id(s, u.id),
    ensures
        user_has_id(s.push(u), u.id),
        forall|i: int|
            0 <= i < s.push(u).len() && (#[trigger] s.push(u)[i]).id == u.id ==> s.push(u)[i] == u,
{
    assert(s.push(u)[s.len() as int] == u);
    assert forall|i: int|
        0 <= i < s.push(u).len() && (#[trigger] s.push(u)[i]).id == u.id implies s.push(u)[i]
        == u by {
        if i < s.len() {
            assert(s[i] == s.push(u)[i]);
            assert(user_has_id(s, u.id));
        }
    }
}

/// Law: an update that sets no field writes the stored record back
/// unchanged, so the table is left as it was.
pub proof fn lemma_update_empty_user(s: Seq<UserView>, i: int, upd: UpdateUser)
    requires
        0 <= i < s.len(),
        upd.name is None,
        upd.email is None,
    ensures
        s.update(i, merged_user(s[i], upd)) == s,
{
    crate::models::lemma_user_merge_fields(s[i], upd);
    assert(s.update(i, merged_user(s[i], upd)) =~= s);
}

/// Law: once a row is removed from a table with ascending (hence unique)
/// ids, no row carries its id any more, so a later lookup or delete of
/// that id reports not-found.
pub proof fn lemma_delete_then_get_user(s: Seq<UserView>, i: int)
    requires
        user_ids_ascending(s),
        0 <= i < s.len(),
    ensures
        !user_has_id(s.remove(i), s[i].id),
{
    assert forall|j: int| 0 <= j < s.remove(i).len() implies
        (#[trigger] s.remove(i)[j]).id != s[i].id by {
        if j < i {
            assert(s.remove(i)[j] == s[j]);
            assert(s[j].id < s[i].id);
        } else {
            assert(s.remove(i)[j] == s[j + 1]);
            assert(s[i].id < s[j + 1].id);
        }
    }
}

/// The product table: rows in ascending id order plus the next fresh id.
pub struct ProductTable {
    rows: Vec<Product>,
    next_id: i32,
}

impl View for ProductTable {
    type V = Seq<ProductView>;

    closed spec fn view(&self) -> Seq<ProductView> {
        products_view(self.rows@)
    }
}

impl ProductTable {
    /// The id the next created row will receive.
    pub closed spec fn spec_next_id(&self) -> int {
        self.next_id as int
    }

    /// Well-formed: ids are positive, below the next fresh id, and
    /// strictly ascending.
    pub open spec fn wf(&self) -> bool {
        &&& 1 <= self.spec_next_id()
        &&& forall|i: int|
            0 <= i < self@.len() ==> 1 <= #[trigger] self@[i].id < self.spec_next_id()
        &&& product_ids_ascending(self@)
    }

    /// A fresh, empty table; ids are assigned sequentially from 1.
    pub fn new() -> (t: ProductTable)
        ensures
            t.wf(),
            t@ == Seq::<ProductView>::empty(),
            t.spec_next_id() == 1,
    {
        let t = ProductTable { rows: Vec::new(), next_id: 1 };
        proof {
            assert(t@ =~= Seq::<ProductView>::empty());
        }
        t
    }

    /// Every row, in stored order: ascending by id, which matches
    /// creation order since ids are assigned sequentially.
    pub fn list(&self) -> (r: Vec<Product>)
        requires
            self.wf(),
        ensures
            products_view(r@) == self@,
            product_ids_ascending(products_view(r@)),
    {
        let mut out: Vec<Product> = Vec::new();
        let mut i: usize = 0;
        while i < self.rows.len()
            invariant
                i <= self.rows.len(),
                out@.len() == i,
                forall|j: int| 0 <= j < i as int ==> #[trigger] out@[j]@ == self@[j],
            decreases self.rows.len() - i,
        {
            let row = &self.rows[i];
            let u = Product { id: row.id, name: row.name.clone(),
                description: row.description.clone(),
                price_bits: row.price_bits, };
            proof {
                assert(u@ =~= self@[i as int]);
            }
            out.push(u);
            i += 1;
        }
        proof {
            assert(products_view(out@) =~= self@);
        }
        out
    }

    /// Looks up the row with the given id.  An absent id yields
    /// `NotFound` and never `Storage`; a present id yields the stored
    /// record, field for field.
    pub fn get_by_id(&self, id: i32) -> (r: Result<Product, RepoError>)
        requires
            self.wf(),
        ensures
            r is Ok <==> product_has_id(self@, id as int),
            r matches Ok(u) ==> u@.id == id as int && exists|i: int|
                0 <= i < self@.len() && #[trigger] self@[i] == u@,
            r matches Err(e) ==> e == RepoError::NotFound,
    {
        let mut i: usize = 0;
        while i < self.rows.len()
            invariant
                i <= self.rows.len(),
                forall|j: int| 0 <= j < i as int ==> (#[trigger] self@[j]).id != id as int,
            decreases self.rows.len() - i,
        {
            if self.rows[i].id == id {
                let row = &self.rows[i];
                let u = Product { id: row.id, name: row.name.clone(),
                description: row.description.clone(),
                price_bits: row.price_bits, };
                proof {
                    assert(u@ =~= self@[i as int]);
                    assert(self@[i as int].id == id as int);
                    assert(product_has_id(self@, id as int));
                }
                return Ok(u);
            }
            i += 1;
        }
        Err(RepoError::NotFound)
    }

    /// Inserts a new row under the next server-generated id and returns
    /// the persisted record.  The new id was not present before, the row
    /// is appended after all existing rows, and the next id grows by one.
    pub fn create(&mut self, payload: CreateProduct) -> (u: Product)
        requires
            old(self).wf(),
            old(self).spec_next_id() < i32::MAX as int,
        ensures
            final(self).wf(),
            u@.id == old(self).spec_next_id(),
            u@.name == payload.name@,
            u@.description == payload.description@,
            u@.price_bits == payload.price_bits,
            !product_has_id(old(self)@, u@.id),
            final(self)@ == old(self)@.push(u@),
            final(self).spec_next_id() == old(self).spec_next_id() + 1,
    {
        let id = self.next_id;
        let stored = Product {
            id,
            name: payload.name,
            description: payload.description,
            price_bits: payload.price_bits,
        };
        let ret = Product {
            id,
            name: stored.name.clone(),
            description: stored.description.clone(),
            price_bits: stored.price_bits,
        };
        proof {
            assert(ret@ =~= stored@);
        }
        self.rows.push(stored);
        self.next_id = id + 1;
        proof {
            assert(self@ =~= old(self)@.push(ret@));
            assert forall|i: int, j: int| 0 <= i < j < self@.len() implies
                (#[trigger] self@[i]).id < (#[trigger] self@[j]).id by {
                if j < old(self)@.len() {
                    assert(old(self)@[i].id < old(self)@[j].id);
                } else {
                    assert(old(self)@[i].id < id as int);
                }
            }
            assert(self.wf());
        }
        ret
    }

    /// Partial update: the stored row is fetched, every present field of
    /// the payload overrides it, absent fields are retained, and the
    /// merged record is written back and returned.  An absent id yields
    /// `NotFound` and never `Storage`, and leaves the table unchanged.
    /// The fetch and the write happen as one step on this table, so
    /// nothing can slip between them.
    pub fn update(&mut self, id: i32, upd: &UpdateProduct) -> (r: Result<Product, RepoError>)
        requires
            old(self).wf(),
        ensures
            final(self).wf(),
            final(self).spec_next_id() == old(self).spec_next_id(),
            r is Ok <==> product_has_id(old(self)@, id as int),
            r matches Ok(u) ==> exists|i: int|
                0 <= i < old(self)@.len()
                && (#[trigger] old(self)@[i]).id == id as int
                && u@ == merged_product(old(self)@[i], *upd)
                && final(self)@ == old(self)@.update(i, u@),
            r matches Err(e) ==> e == RepoError::NotFound && final(self)@ == old(self)@,
    {
        let mut i: usize = 0;
        while i < self.rows.len()
            invariant
                i <= self.rows.len(),
                old(self).wf(),
                self.rows@ == old(self).rows@,
                self.next_id == old(self).next_id,
                forall|j: int| 0 <= j < i as int ==> (#[trigger] self@[j]).id != id as int,
            decreases self.rows.len() - i,
        {
            if self.rows[i].id == id {
                proof {
                    assert(old(self)@[i as int].id == id as int);
                    assert(product_has_id(old(self)@, id as int));
                }
                let merged = crate::models::merge_product(&self.rows[i], upd);
                let ret = Product {
                    id: merged.id,
                    name: merged.name.clone(),
                    description: merged.description.clone(),
                    price_bits: merged.price_bits,
                };
                proof {
                    assert(ret@ =~= merged@);
                }
                self.rows[i] = merged;
                proof {
                    assert(self@ =~= old(self)@.update(i as int, ret@));
                    assert forall|k: int| 0 <= k < self@.len() implies
                        (#[trigger] self@[k]).id == old(self)@[k].id by {}
                    assert forall|k: int| 0 <= k < self@.len() implies
                        1 <= (#[trigger] self@[k]).id < self.spec_next_id() by {
                        assert(1 <= old(self)@[k].id < old(self).spec_next_id());
                    }
                    assert forall|k: int, l: int| 0 <= k < l < self@.len() implies
                        (#[trigger] self@[k]).id < (#[trigger] self@[l]).id by {
                        assert(old(self)@[k].id < old(self)@[l].id);
                    }
                    assert(self.wf());
                }
                return Ok(ret);
            }
            i += 1;
        }
        proof {
            assert forall|j: int| 0 <= j < old(self)@.len() implies
                (#[trigger] old(self)@[j]).id != id as int by {
                assert(self@[j].id != id as int);
            }
        }
        Err(RepoError::NotFound)
    }

    /// Removes the row with the given id.  One row is removed exactly
    /// when the id was present, after which no row carries it; an absent
    /// id yields `NotFound` and never `Storage`.
    pub fn delete(&mut self, id: i32) -> (r: Result<(), RepoError>)
        requires
            old(self).wf(),
        ensures
            final(self).wf(),
            final(self).spec_next_id() == old(self).spec_next_id(),
            r is Ok <==> product_has_id(old(self)@, id as int),
            r is Ok ==> exists|i: int|
                0 <= i < old(self)@.len()
                && (#[trigger] old(self)@[i]).id == id as int
                && final(self)@ == old(self)@.remove(i),
            r is Ok ==> !product_has_id(final(self)@, id as int),
            r matches Err(e) ==> e == RepoError::NotFound && final(self)@ == old(self)@,
    {
        let mut i: usize = 0;
        while i < self.rows.len()
            invariant
                i <= self.rows.len(),
                old(self).wf(),
                self.rows@ == old(self).rows@,
                self.next_id == old(self).next_id,
                forall|j: int| 0 <= j < i as int ==> (#[trigger] self@[j]).id != id as int,
            decreases self.rows.len() - i,
        {
            if self.rows[i].id == id {
                proof {
                    assert(old(self)@[i as int].id == id as int);
                    assert(product_has_id(old(self)@, id as int));
                }
                self.rows.remove(i);
                proof {
                    assert(self@ =~= old(self)@.remove(i as int));
                    assert forall|j: int| 0 <= j < self@.len() implies
                        (#[trigger] self@[j]).id != id as int by {
                        assert(product_ids_ascending(old(self)@));
                        assert((i as int) < old(self)@.len());
                        if j < i as int {
                            assert(self@[j] == old(self)@[j]);
                            assert(old(self)@[j].id < old(self)@[i as int].id);
                        } else {
                            assert(self@[j] == old(self)@[j + 1]);
                            assert(old(self)@[i as int].id < old(self)@[j + 1].id);
                        }
                    }
                    assert forall|k: int, l: int| 0 <= k < l < self@.len() implies
                        (#[trigger] self@[k]).id < (#[trigger] self@[l]).id by {
                        if l < i as int {
                            assert(old(self)@[k].id < old(self)@[l].id);
                        } else if k < i as int {
                            assert(old(self)@[k].id < old(self)@[l + 1].id);
                        } else {
                            assert(old(self)@[k + 1].id < old(self)@[l + 1].id);
                        }
                    }
                    assert(self.wf());
                }
                return Ok(());
            }
            i += 1;
        }
        proof {
            assert forall|j: int| 0 <= j < old(self)@.len() implies
                (#[trigger] old(self)@[j]).id != id as int by {
                assert(self@[j].id != id as int);
            }
        }
        Err(RepoError::NotFound)
    }
}

/// Law: a row whose id is new to the table is found after insertion, and
/// it is the only row under that id, so a lookup by the fresh id returns
/// the created record field for field.
pub proof fn lemma_create_then_get_product(s: Seq<ProductView>, u: ProductView)
    requires
        !product_has_id(s, u.id),
    ensures
        product_has_id(s.push(u), u.id),
        forall|i: int|
            0 <= i < s.push(u).len() && (#[trigger] s.push(u)[i]).id == u.id ==> s.push(u)[i] == u,
{
    assert(s.push(u)[s.len() as int] == u);
    assert forall|i: int|
        0 <= i < s.push(u).len() && (#[trigger] s.push(u)[i]).id == u.id implies s.push(u)[i]
        == u by {
        if i < s.len() {
            assert(s[i] == s.push(u)[i]);
            assert(product_has_id(s, u.id));
        }
    }
}

/// Law: an update that sets no field writes the stored record back
/// unchanged, so the table is left as it was.
pub proof fn lemma_update_empty_product(s: Seq<ProductView>, i: int, upd: UpdateProduct)
    requires
        0 <= i < s.len(),
        upd.name is None,
        upd.description is None,
        upd.price_bits is None,
    ensures
        s.update(i, merged_product(s[i], upd)) == s,
{
    crate::models::lemma_product_merge_fields(s[i], upd);
    assert(s.update(i, merged_product(s[i], upd)) =~= s);
}

/// Law: once a row is removed from a table with ascending (hence unique)
/// ids, no row carries its id any more, so a later lookup or delete of
/// that id reports not-found.
pub proof fn lemma_delete_then_get_product(s: Seq<ProductView>, i: int)
    requires
        product_ids_ascending(s),
        0 <= i < s.len(),
    ensures
        !product_has_id(s.remove(i), s[i].id),
{
    assert forall|j: int| 0 <= j < s.remove(i).len() implies
        (#[trigger] s.remove(i)[j]).id != s[i].id by {
        if j < i {
            assert(s.remove(i)[j] == s[j]);
            assert(s[j].id < s[i].id);
        } else {
            assert(s.remove(i)[j] == s[j + 1]);
            assert(s[i].id < s[j + 1].id);
        }
    }
}


} // verus!
