//! The content-addressed deduplication store: one abstract contract,
//! served by interchangeable storage engines.
//!
//! A store holds isolated namespaces, each a mapping from a content
//! digest to the stored value bytes: the 4-byte little-endian encoding
//! of the identifier of the message that first carried the digest.
pub mod cache;
pub mod laws;
pub mod sleddb;
pub mod sqlite;

use vstd::prelude::*;

use crate::utils::convert::le_i32_of;

verus! {

/// Abstract contents of a store: namespace name, to digest, to the
/// stored value bytes.
pub type StoreModel = Map<Seq<char>, Map<Seq<u8>, Seq<u8>>>;

/// `m` with namespace `t` present: untouched when it already exists,
/// added empty when it does not.
pub open spec fn ens_ns(m: StoreModel, t: Seq<char>) -> StoreModel {
    if m.contains_key(t) {
        m
    } else {
        m.insert(t, Map::empty())
    }
}

/// `m` with namespace `t` present and `k` bound to `v` in it.
pub open spec fn with_record(m: StoreModel, t: Seq<char>, k: Seq<u8>, v: Seq<u8>) -> StoreModel {
    let m1 = ens_ns(m, t);
    m1.insert(t, m1[t].insert(k, v))
}

/// What a failed operation on namespace `t` may leave behind: every
/// other namespace untouched, and `t` itself at worst present with a
/// part of what it held (empty, when it did not exist before).
pub open spec fn frame_err(pre: StoreModel, post: StoreModel, t: Seq<char>) -> bool {
    &&& forall|ns: Seq<char>|
        ns != t ==> (#[trigger] post.contains_key(ns) <==> pre.contains_key(ns))
    &&& forall|ns: Seq<char>|
        ns != t && pre.contains_key(ns) ==> #[trigger] post[ns] == pre[ns]
    &&& post.contains_key(t) ==> {
        ||| pre.contains_key(t) && post[t].submap_of(pre[t])
        ||| !pre.contains_key(t) && post[t] =~= Map::<Seq<u8>, Seq<u8>>::empty()
    }
    &&& !post.contains_key(t) ==> !pre.contains_key(t)
}

/// Whether `c` may stand in a namespace name: an ASCII digit, a
/// lowercase ASCII letter, `-` or `_`. That is enough for every
/// stringified chat identifier, is safe as part of a storage-unit
/// name in each engine, and — because uppercase letters are refused —
/// no two valid names can reach the same relational table, whose
/// identifiers compare case-insensitively for ASCII letters.
pub open spec fn valid_name_char(c: char) -> bool {
    (48 <= c as u32 && c as u32 <= 57) || (97 <= c as u32 && c as u32 <= 122) || c as u32 == 45
        || c as u32 == 95
}

/// Whether `s` may name a namespace.
pub open spec fn spec_valid_table_name(s: Seq<char>) -> bool {
    s.len() >= 1 && forall|i: int| 0 <= i < s.len() ==> valid_name_char(#[trigger] s[i])
}

/// Runtime check for `spec_valid_table_name`.
pub fn valid_table_name(t: &str) -> (r: bool)
    ensures
        r == spec_valid_table_name(t@),
{
    let n = t.unicode_len();
    if n == 0 {
        return false;
    }
    let mut i: usize = 0;
    while i < n
        invariant
            n == t@.len(),
            i <= n,
            forall|j: int| 0 <= j < i ==> valid_name_char(#[trigger] t@[j]),
        decreases n - i,
    {
        let c = t.get_char(i);
        let u = c as u32;
        if !((48 <= u && u <= 57) || (97 <= u && u <= 122) || u == 45 || u == 95) {
            return false;
        }
        i += 1;
    }
    true
}

/// The record the store keeps: the identifier of the message that first
/// carried a digest, and the digest itself.
#[derive(Debug, Clone, PartialEq, Eq)]
pub struct MarsImage {
    /// The message id in a chat.
    pub id: i32,
    /// The content hash of the attachment.
    pub sha: Vec<u8>,
}

impl MarsImage {
    pub fn new(id: i32, sha: Vec<u8>) -> (r: MarsImage)
        ensures
            r.id == id,
            r.sha@ == sha@,
    {
        MarsImage { id, sha }
    }
}

/// What a store operation can fail with.
#[derive(Debug)]
pub enum StoreError {
    /// The digest is already present; raised by a plain insert only.
    Conflict,
    /// The namespace does not exist; raised by a drop only.
    NotFound,
    /// The namespace name cannot name a storage unit.
    InvalidName,
    /// A stored value is not a well-formed identifier encoding.
    Codec,
    /// The underlying engine failed; carries the engine's message.
    Storage(String),
    /// The selected backend is reserved and not implemented.
    Unimplemented,
}

/// The capability set every storage engine offers.
///
/// Contracts speak of `model()`: what the engine persistently holds.
/// Success cannot be promised — any engine call may fail on the storage
/// medium — but every outcome is pinned: `Ok` results and the errors
/// `Conflict`, `NotFound`, `InvalidName` and `Codec` each say exactly
/// what held before the call and what holds after it, and any failure
/// leaves every namespace but the named one untouched.
pub trait DbOperation: Sized {
    /// The abstract contents of the store.
    spec fn model(&self) -> StoreModel;

    /// Internal well-formedness; constructors establish it and every
    /// operation preserves it.
    spec fn inv(&self) -> bool;

    /// Idempotently make `table` ready: an absent namespace appears
    /// empty, an existing one is untouched.
    fn create_table_if_not_exist(&mut self, table: &str) -> (r: Result<(), StoreError>)
        requires
            old(self).inv(),
        ensures
            final(self).inv(),
            r is Ok ==> final(self).model() == ens_ns(old(self).model(), table@),
            r is Err ==> final(self).model() == old(self).model(),
            !spec_valid_table_name(table@) ==> r == Err::<(), StoreError>(StoreError::InvalidName)
                && final(self).model() == old(self).model(),
            r matches Err(e) ==> (e is InvalidName ==> !spec_valid_table_name(table@)),
            r matches Err(e) ==> e is InvalidName || e is Storage || e is Unimplemented,
    ;

    /// Point read of one digest. Never changes the store; absent
    /// namespaces and absent digests read as nothing.
    fn query_from_table(&mut self, table: &str, key: &[u8]) -> (r: Result<
        Option<MarsImage>,
        StoreError,
    >)
        requires
            old(self).inv(),
        ensures
            final(self).inv(),
            final(self).model() == old(self).model(),
            ({
                let m = old(self).model();
                let present = m.contains_key(table@) && m[table@].contains_key(key@);
                &&& r matches Ok(o) ==> {
                    if present && m[table@][key@].len() == 4 {
                        o matches Some(img) && img.id == le_i32_of(m[table@][key@]) && img.sha@
                            == key@
                    } else {
                        o is None && !present
                    }
                }
                &&& r matches Err(e) ==> (e is Codec ==> present && m[table@][key@].len() != 4)
                &&& !spec_valid_table_name(table@) ==> r == Err::<
                    Option<MarsImage>,
                    StoreError,
                >(StoreError::InvalidName)
                &&& r matches Err(e) ==> (e is InvalidName ==> !spec_valid_table_name(table@))
                &&& r matches Err(e) ==> e is InvalidName || e is Storage || e is Codec
                    || e is Unimplemented
            }),
    ;

    /// Unconditional insert: fails with `Conflict` when the digest is
    /// already present, creates the namespace when it is absent.
    fn insert_to_table(&mut self, table: &str, item: MarsImage) -> (r: Result<(), StoreError>)
        requires
            old(self).inv(),
        ensures
            final(self).inv(),
            ({
                let pre = old(self).model();
                let post = final(self).model();
                &&& r is Ok ==> !ens_ns(pre, table@)[table@].contains_key(item.sha@) && post
                    == with_record(
                    pre,
                    table@,
                    item.sha@,
                    crate::utils::convert::le_bytes_of(item.id),
                )
                &&& r matches Err(e) ==> (e is Conflict ==> pre.contains_key(table@)
                    && pre[table@].contains_key(item.sha@) && post == pre)
                &&& r is Err ==> post == pre || post == ens_ns(pre, table@)
                &&& !spec_valid_table_name(table@) ==> r == Err::<(), StoreError>(
                    StoreError::InvalidName,
                ) && post == pre
                &&& r matches Err(e) ==> (e is InvalidName ==> !spec_valid_table_name(table@))
                &&& r matches Err(e) ==> e is InvalidName || e is Storage || e is Conflict
                    || e is Unimplemented
            }),
    ;

    /// Whether the namespace exists. No side effect on the contents.
    fn exist_table(&mut self, table: &str) -> (r: Result<bool, StoreError>)
        requires
            old(self).inv(),
        ensures
            final(self).inv(),
            final(self).model() == old(self).model(),
            r matches Ok(b) ==> b == old(self).model().contains_key(table@),
            r matches Err(e) ==> e is Storage || e is Unimplemented,
    ;

    /// The principal operation: atomically insert the record, or hand
    /// back the one already stored for its digest.
    ///
    /// Nothing comes back on a first sighting, and the record is
    /// persisted; on a duplicate the store is untouched and the result
    /// carries the first writer's identifier, never the caller's.
    fn insert_or_get_existing(&mut self, table: &str, item: MarsImage) -> (r: Result<
        Option<MarsImage>,
        StoreError,
    >)
        requires
            old(self).inv(),
        ensures
            final(self).inv(),
            ({
                let pre = old(self).model();
                let post = final(self).model();
                &&& r matches Ok(o) ==> (o is None ==> !ens_ns(pre, table@)[table@].contains_key(
                    item.sha@,
                ) && post == with_record(
                    pre,
                    table@,
                    item.sha@,
                    crate::utils::convert::le_bytes_of(item.id),
                ))
                &&& r matches Ok(o) ==> (o matches Some(ex) ==> pre.contains_key(table@)
                    && pre[table@].contains_key(item.sha@) && pre[table@][item.sha@].len() == 4
                    && ex.id == le_i32_of(pre[table@][item.sha@]) && ex.sha@ == item.sha@ && post
                    == pre)
                &&& r is Ok ==> post == crate::db::laws::iof_post(pre, table@, item.sha@, item.id)
                &&& r matches Ok(o) ==> ((o is Some) <==> crate::db::laws::iof_result(
                    pre,
                    table@,
                    item.sha@,
                ) is Some)
                &&& r matches Err(e) ==> (e is Codec ==> pre.contains_key(table@)
                    && pre[table@].contains_key(item.sha@) && pre[table@][item.sha@].len() != 4
                    && post == pre)
                &&& r is Err ==> post == pre || post == ens_ns(pre, table@)
                &&& !spec_valid_table_name(table@) ==> r == Err::<
                    Option<MarsImage>,
                    StoreError,
                >(StoreError::InvalidName) && post == pre
                &&& r matches Err(e) ==> (e is InvalidName ==> !spec_valid_table_name(table@))
                &&& r matches Err(e) ==> e is InvalidName || e is Storage || e is Codec
                    || e is Unimplemented
            }),
    ;

    /// Destroy the namespace and every record in it; fails with
    /// `NotFound` when it does not exist.
    fn drop_table(&mut self, table: &str) -> (r: Result<(), StoreError>)
        requires
            old(self).inv(),
        ensures
            final(self).inv(),
            ({
                let pre = old(self).model();
                let post = final(self).model();
                &&& r is Ok ==> pre.contains_key(table@) && post == pre.remove(table@)
                &&& r matches Err(e) ==> (e is NotFound ==> spec_valid_table_name(table@)
                    && !pre.contains_key(table@) && post == pre)
                &&& r is Err ==> frame_err(pre, post, table@)
                &&& !spec_valid_table_name(table@) ==> r == Err::<(), StoreError>(
                    StoreError::InvalidName,
                ) && post == pre
                &&& r matches Err(e) ==> (e is InvalidName ==> !spec_valid_table_name(table@))
                &&& r matches Err(e) ==> e is InvalidName || e is Storage || e is NotFound
                    || e is Unimplemented
            }),
    ;
}

/// Which storage engine backs the store.
pub enum BackendKind {
    /// The relational engine.
    Sqlite,
    /// The ordered-kv engine.
    Sled,
    /// Reserved; every operation fails fast with `Unimplemented`.
    PlainText,
}

/// The backend facade: exactly one engine, chosen at process start
/// and fixed thereafter. It owns the only handle to persistent
/// storage; every call dispatches to the active engine.
pub enum Backend {
    Sqlite(crate::db::sqlite::Sqlite),
    Sled(crate::db::sleddb::SledDb),
    PlainText,
}

impl DbOperation for Backend {
    open spec fn model(&self) -> StoreModel {
        match self {
            Backend::Sqlite(s) => s.model(),
            Backend::Sled(s) => s.model(),
            Backend::PlainText => Map::empty(),
        }
    }

    open spec fn inv(&self) -> bool {
        match self {
            Backend::Sqlite(s) => s.inv(),
            Backend::Sled(s) => s.inv(),
            Backend::PlainText => true,
        }
    }

    fn create_table_if_not_exist(&mut self, table: &str) -> (r: Result<(), StoreError>) {
        match self {
            Backend::Sqlite(s) => s.create_table_if_not_exist(table),
            Backend::Sled(s) => s.create_table_if_not_exist(table),
            Backend::PlainText => {
                if !valid_table_name(table) {
                    Err(StoreError::InvalidName)
                } else {
                    Err(StoreError::Unimplemented)
                }
            },
        }
    }

    fn query_from_table(&mut self, table: &str, key: &[u8]) -> (r: Result<
        Option<MarsImage>,
        StoreError,
    >) {
        match self {
            Backend::Sqlite(s) => s.query_from_table(table, key),
            Backend::Sled(s) => s.query_from_table(table, key),
            Backend::PlainText => {
                if !valid_table_name(table) {
                    Err(StoreError::InvalidName)
                } else {
                    Err(StoreError::Unimplemented)
                }
            },
        }
    }

    fn insert_to_table(&mut self, table: &str, item: MarsImage) -> (r: Result<(), StoreError>) {
        match self {
            Backend::Sqlite(s) => s.insert_to_table(table, item),
            Backend::Sled(s) => s.insert_to_table(table, item),
            Backend::PlainText => {
                if !valid_table_name(table) {
                    Err(StoreError::InvalidName)
                } else {
                    Err(StoreError::Unimplemented)
                }
            },
        }
    }

    fn exist_table(&mut self, table: &str) -> (r: Result<bool, StoreError>) {
        match self {
            Backend::Sqlite(s) => s.exist_table(table),
            Backend::Sled(s) => s.exist_table(table),
            Backend::PlainText => Err(StoreError::Unimplemented),
        }
    }

    fn insert_or_get_existing(&mut self, table: &str, item: MarsImage) -> (r: Result<
        Option<MarsImage>,
        StoreError,
    >) {
        match self {
            Backend::Sqlite(s) => s.insert_or_get_existing(table, item),
            Backend::Sled(s) => s.insert_or_get_existing(table, item),
            Backend::PlainText => {
                if !valid_table_name(table) {
                    Err(StoreError::InvalidName)
                } else {
                    Err(StoreError::Unimplemented)
                }
            },
        }
    }

    fn drop_table(&mut self, table: &str) -> (r: Result<(), StoreError>) {
        match self {
            Backend::Sqlite(s) => s.drop_table(table),
            Backend::Sled(s) => s.drop_table(table),
            Backend::PlainText => {
                if !valid_table_name(table) {
                    Err(StoreError::InvalidName)
                } else {
                    Err(StoreError::Unimplemented)
                }
            },
        }
    }
}

/// The store over the chosen engine, rooted at `path`: a database
/// file for the relational engine, a directory for the ordered-kv
/// one.
pub fn new_db(kind: BackendKind, path: &str) -> (r: Result<Backend, StoreError>)
    ensures
        r matches Ok(b) ==> b.inv(),
        r matches Ok(b) ==> (match kind {
            BackendKind::Sqlite => b is Sqlite,
            BackendKind::Sled => b is Sled,
            BackendKind::PlainText => b is PlainText,
        }),
        kind is PlainText ==> r is Ok,
{
    match kind {
        BackendKind::Sqlite => match crate::db::sqlite::Sqlite::new(path) {
            Ok(s) => Ok(Backend::Sqlite(s)),
            Err(e) => Err(e),
        },
        BackendKind::Sled => match crate::db::sleddb::SledDb::new(path) {
            Ok(s) => Ok(Backend::Sled(s)),
            Err(e) => Err(e),
        },
        BackendKind::PlainText => Ok(Backend::PlainText),
    }
}

} // verus!
