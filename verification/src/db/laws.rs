//! The store's laws, stated over the abstract model that every
//! backend's contracts speak of, and proved once for all of them.
use vstd::prelude::*;

use crate::db::{ens_ns, with_record, StoreModel};
use crate::utils::convert::le_bytes_of;

verus! {

/// What a point read observes in a model.
pub open spec fn spec_lookup(m: StoreModel, t: Seq<char>, k: Seq<u8>) -> Option<Seq<u8>> {
    if m.contains_key(t) && m[t].contains_key(k) {
        Some(m[t][k])
    } else {
        None
    }
}

/// What one insert-or-fetch returns: the stored value of a held
/// digest, nothing on a first sighting. Mirrors the result clauses of
/// `DbOperation::insert_or_get_existing`.
pub open spec fn iof_result(m: StoreModel, t: Seq<char>, k: Seq<u8>) -> Option<Seq<u8>> {
    spec_lookup(m, t, k)
}

/// What one insert-or-fetch leaves behind: a first sighting binds the
/// digest to the caller's encoded identifier, a duplicate leaves the
/// store untouched. Mirrors the state clauses of
/// `DbOperation::insert_or_get_existing`.
pub open spec fn iof_post(m: StoreModel, t: Seq<char>, k: Seq<u8>, id: i32) -> StoreModel {
    if spec_lookup(m, t, k) is Some {
        m
    } else {
        with_record(m, t, k, le_bytes_of(id))
    }
}

/// The store after a whole sequence of insert-or-fetch calls on one
/// namespace and digest, one call per identifier.
pub open spec fn iof_seq_post(m: StoreModel, t: Seq<char>, k: Seq<u8>, ids: Seq<i32>) -> StoreModel
    decreases ids.len(),
{
    if ids.len() == 0 {
        m
    } else {
        iof_seq_post(iof_post(m, t, k, ids[0]), t, k, ids.drop_first())
    }
}

/// A store holding the digest is a fixed point of insert-or-fetch on
/// it: no sequence of further calls changes anything.
proof fn lemma_iof_stable(m: StoreModel, t: Seq<char>, k: Seq<u8>, ids: Seq<i32>)
    requires
        spec_lookup(m, t, k) is Some,
    ensures
        iof_seq_post(m, t, k, ids) == m,
    decreases ids.len(),
{
    if ids.len() > 0 {
        assert(iof_post(m, t, k, ids[0]) == m);
        lemma_iof_stable(m, t, k, ids.drop_first());
    }
}

/// Law (uniqueness): of all insert-or-fetch calls on one namespace
/// and digest, exactly the first returns nothing and persists its
/// identifier; every later call returns that first identifier's
/// stored record, and the store never changes again.
pub proof fn lemma_insert_or_fetch_unique(
    m: StoreModel,
    t: Seq<char>,
    k: Seq<u8>,
    id: i32,
    ids: Seq<i32>,
)
    requires
        spec_lookup(m, t, k) is None,
    ensures
        iof_result(m, t, k) is None,
        spec_lookup(iof_post(m, t, k, id), t, k) == Some(le_bytes_of(id)),
        iof_seq_post(iof_post(m, t, k, id), t, k, ids) == iof_post(m, t, k, id),
        forall|i: int|
            0 <= i < ids.len() ==> iof_result(
                #[trigger] iof_seq_post(iof_post(m, t, k, id), t, k, ids.take(i)),
                t,
                k,
            ) == Some(le_bytes_of(id)),
{
    let m1 = iof_post(m, t, k, id);
    assert(spec_lookup(m1, t, k) == Some(le_bytes_of(id)));
    lemma_iof_stable(m1, t, k, ids);
    assert forall|i: int| 0 <= i < ids.len() implies iof_result(
        #[trigger] iof_seq_post(m1, t, k, ids.take(i)),
        t,
        k,
    ) == Some(le_bytes_of(id)) by {
        lemma_iof_stable(m1, t, k, ids.take(i));
    }
}

/// Law (namespace isolation): writing a record into one namespace
/// changes nothing another namespace holds, and creates no other
/// namespace.
pub proof fn lemma_namespace_isolation(
    m: StoreModel,
    a: Seq<char>,
    k: Seq<u8>,
    v: Seq<u8>,
    b: Seq<char>,
    d: Seq<u8>,
)
    requires
        b != a,
    ensures
        spec_lookup(with_record(m, a, k, v), b, d) == spec_lookup(m, b, d),
        with_record(m, a, k, v).contains_key(b) == m.contains_key(b),
{
}

/// Law (idempotent namespace creation): ensuring a namespace twice
/// leaves the same store as ensuring it once.
pub proof fn lemma_ensure_namespace_idempotent(m: StoreModel, t: Seq<char>)
    ensures
        ens_ns(ens_ns(m, t), t) == ens_ns(m, t),
{
}

/// Law (drop removes all): after a namespace is dropped, a lookup of
/// any digest in it observes nothing, and the namespace no longer
/// exists.
pub proof fn lemma_drop_removes_all(m: StoreModel, t: Seq<char>)
    ensures
        forall|d: Seq<u8>| #![auto] spec_lookup(m.remove(t), t, d) is None,
        !m.remove(t).contains_key(t),
{
}

} // verus!
