//! Startup lifecycle helpers: assembling the store's connection string
//! and ordering the schema migrations that are still to run.

use vstd::prelude::*;

use vstd::string::StringExecFns;

verus! {

/// The connection string for the store, assembled from its parts.
pub open spec fn connection_string(
    user: Seq<char>,
    password: Seq<char>,
    host: Seq<char>,
    port: Seq<char>,
    name: Seq<char>,
) -> Seq<char> {
    "postgres://"@ + user + ":"@ + password + "@"@ + host + ":"@ + port + "/"@ + name
}

/// Builds the connection string for the store from its configured
/// parts, exactly as `connection_string` lays them out.
pub fn database_url(user: &str, password: &str, host: &str, port: &str, name: &str) -> (r: String)
    ensures
        r@ == connection_string(user@, password@, host@, port@, name@),
{
    let mut out = String::new();
    out.append("postgres://");
    out.append(user);
    out.append(":");
    out.append(password);
    out.append("@");
    out.append(host);
    out.append(":");
    out.append(port);
    out.append("/");
    out.append(name);
    proof {
        assert(out@ =~= connection_string(user@, password@, host@, port@, name@));
    }
    out
}

/// The migration versions still to apply: those available but not yet
/// recorded as applied, kept in their given order, each considered
/// exactly once.
pub open spec fn pending_of(available: Seq<u64>, applied: Seq<u64>) -> Seq<u64>
    decreases available.len(),
{
    if available.len() == 0 {
        Seq::empty()
    } else {
        let rest = pending_of(available.drop_last(), applied);
        if !applied.contains(available.last()) {
            rest.push(available.last())
        } else {
            rest
        }
    }
}

/// Whether the version is recorded among the applied ones.
fn contains_version(applied: &Vec<u64>, v: u64) -> (r: bool)
    ensures
        r == applied@.contains(v),
{
    let mut i: usize = 0;
    while i < applied.len()
        invariant
            i <= applied@.len(),
            forall|j: int| 0 <= j < i as int ==> applied@[j] != v,
        decreases applied@.len() - i,
    {
        if applied[i] == v {
            proof {
                assert(applied@[i as int] == v);
                assert(applied@.contains(v));
            }
            return true;
        }
        i += 1;
    }
    proof {
        assert(!applied@.contains(v));
    }
    false
}

/// Selects the migrations still to run: every available version that is
/// not yet applied, in the given (version-ascending) order, so each
/// script is applied exactly once over the store's lifetime.
pub fn pending_migrations(available: &Vec<u64>, applied: &Vec<u64>) -> (r: Vec<u64>)
    ensures
        r@ == pending_of(available@, applied@),
{
    let mut out: Vec<u64> = Vec::new();
    let mut i: usize = 0;
    while i < available.len()
        invariant
            i <= available@.len(),
            out@ == pending_of(available@.subrange(0, i as int), applied@),
        decreases available@.len() - i,
    {
        let v = available[i];
        if !contains_version(applied, v) {
            out.push(v);
        }
        proof {
            let t1 = available@.subrange(0, i as int + 1);
            let t0 = available@.subrange(0, i as int);
            assert(t1.drop_last() =~= t0);
            assert(t1.last() == available@[i as int]);
            assert(out@ == pending_of(t1, applied@));
        }
        i += 1;
    }
    proof {
        assert(available@.subrange(0, available@.len() as int) =~= available@);
    }
    out
}

} // verus!
