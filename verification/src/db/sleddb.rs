//! Ordered-kv backend: one database, one keyspace per namespace, and a
//! bounded least-recently-used cache of open keyspace handles.
//!
//! Namespace existence is kept in a registry: the database's default
//! keyspace, with one key per namespace. A namespace's records live in
//! a keyspace whose name is the namespace under a fixed prefix, so it
//! can never collide with the registry. A keyspace is cleared before
//! its namespace leaves the registry, so a registered namespace's
//! keyspace holds exactly its records and an unregistered one holds
//! nothing.
//!
//! Every call into the engine goes through a trusted wrapper whose
//! contract speaks of the names below for what the database holds,
//! on a storage directory that only this process touches.
use vstd::prelude::*;
use vstd::slice::slice_to_vec;
use vstd::string::StringExecFns;

use crate::db::cache::LruCache;
use crate::db::{
    ens_ns, valid_table_name, with_record, DbOperation, MarsImage, StoreError, StoreModel,
};
use crate::utils::convert::{le_bytes_of, FromVecU8, IntoVecU8};

verus! {

#[verifier::external_type_specification]
#[verifier::external_body]
pub struct ExSledDb(sled::Db);

#[verifier::external_type_specification]
#[verifier::external_body]
pub struct ExSledTree(sled::Tree);

#[verifier::external_type_specification]
#[verifier::external_body]
pub struct ExSledError(sled::Error);

/// Identity of the database behind a handle; keyspace handles carry
/// their owner's identity.
pub uninterp spec fn sled_db_ident(db: sled::Db) -> int;

/// The registry: what the database's default keyspace holds, keyed by
/// the characters whose encoding forms the stored key.
pub uninterp spec fn sled_registry(db: sled::Db) -> Map<Seq<char>, Seq<u8>>;

/// What every named keyspace of the database holds; a keyspace that
/// was never written reads as empty, so this is total over names.
pub uninterp spec fn sled_trees(db: sled::Db) -> Map<Seq<char>, Map<Seq<u8>, Seq<u8>>>;

/// The name of the keyspace behind a handle.
pub uninterp spec fn sled_tree_label(t: sled::Tree) -> Seq<char>;

/// The identity of the database a keyspace handle belongs to.
pub uninterp spec fn sled_tree_owner(t: sled::Tree) -> int;

/// Relies on sled::open: opens or creates the storage directory.
/// Nothing is known of what an existing directory holds.
#[verifier::external_body]
fn sled_open_db(path: &str) -> Result<sled::Db, sled::Error> {
    sled::open(path)
}

/// Relies on sled::Db::open_tree: the handle to the named keyspace of
/// this database, created empty when absent, so the contents of every
/// keyspace stay as they were.
#[verifier::external_body]
fn sled_open_tree(db: &sled::Db, name: &str) -> (r: Result<sled::Tree, sled::Error>)
    ensures
        r matches Ok(t) ==> sled_tree_label(t) == name@ && sled_tree_owner(t) == sled_db_ident(
            *db,
        ),
{
    db.open_tree(name.as_bytes())
}

/// Relies on sled::Tree::get: the value stored under `key` in the
/// handle's keyspace.
#[verifier::external_body]
fn sled_tree_get(db: &sled::Db, t: &sled::Tree, key: &[u8]) -> (r: Result<
    Option<Vec<u8>>,
    sled::Error,
>)
    requires
        sled_tree_owner(*t) == sled_db_ident(*db),
        sled_tree_label(*t) != "__sled__default"@,
    ensures
        r matches Ok(o) ==> (o matches Some(v) ==> sled_trees(*db)[sled_tree_label(
            *t,
        )].contains_key(key@) && v@ == sled_trees(*db)[sled_tree_label(*t)][key@]),
        r matches Ok(o) ==> (o is None ==> !sled_trees(*db)[sled_tree_label(*t)].contains_key(
            key@,
        )),
{
    match t.get(key) {
        Ok(Some(v)) => Ok(Some(v.to_vec())),
        Ok(None) => Ok(None),
        Err(e) => Err(e),
    }
}

/// Relies on sled::Tree::insert: binds `key` to `val` in the handle's
/// keyspace, returning the value it replaced; a single insert either
/// applies whole or fails with the keyspaces unchanged, and the
/// default keyspace stays untouched.
#[verifier::external_body]
fn sled_tree_insert(db: &mut sled::Db, t: &sled::Tree, key: &[u8], val: &Vec<u8>) -> (r: Result<
    Option<Vec<u8>>,
    sled::Error,
>)
    requires
        sled_tree_owner(*t) == sled_db_ident(*old(db)),
        sled_tree_label(*t) != "__sled__default"@,
    ensures
        sled_db_ident(*final(db)) == sled_db_ident(*old(db)),
        sled_registry(*final(db)) == sled_registry(*old(db)),
        r matches Ok(prev) ==> sled_trees(*final(db)) == sled_trees(*old(db)).insert(
            sled_tree_label(*t),
            sled_trees(*old(db))[sled_tree_label(*t)].insert(key@, val@),
        ),
        r matches Ok(prev) ==> (prev matches Some(v) ==> sled_trees(*old(db))[sled_tree_label(
            *t,
        )].contains_key(key@) && v@ == sled_trees(*old(db))[sled_tree_label(*t)][key@]),
        r matches Ok(prev) ==> (prev is None ==> !sled_trees(*old(db))[sled_tree_label(
            *t,
        )].contains_key(key@)),
        r is Err ==> sled_trees(*final(db)) == sled_trees(*old(db)),
{
    match t.insert(key, val.as_slice()) {
        Ok(Some(v)) => Ok(Some(v.to_vec())),
        Ok(None) => Ok(None),
        Err(e) => Err(e),
    }
}

/// Relies on sled::Tree::clear: removes every key of the handle's
/// keyspace, one at a time, so a failure may leave a part of them;
/// other keyspaces and the default keyspace stay untouched.
#[verifier::external_body]
fn sled_tree_clear(db: &mut sled::Db, t: &sled::Tree) -> (r: Result<(), sled::Error>)
    requires
        sled_tree_owner(*t) == sled_db_ident(*old(db)),
        sled_tree_label(*t) != "__sled__default"@,
    ensures
        sled_db_ident(*final(db)) == sled_db_ident(*old(db)),
        sled_registry(*final(db)) == sled_registry(*old(db)),
        r is Ok ==> sled_trees(*final(db)) == sled_trees(*old(db)).insert(
            sled_tree_label(*t),
            Map::empty(),
        ),
        r is Err ==> forall|s: Seq<char>|
            s != sled_tree_label(*t) ==> #[trigger] sled_trees(*final(db))[s] == sled_trees(
                *old(db),
            )[s],
        r is Err ==> sled_trees(*final(db))[sled_tree_label(*t)].submap_of(
            sled_trees(*old(db))[sled_tree_label(*t)],
        ),
        r is Err ==> sled_trees(*final(db)).dom() == sled_trees(*old(db)).dom(),
{
    t.clear()
}

/// Relies on sled::Tree::insert through the database handle, which
/// reaches the default keyspace: records `name` in the registry with
/// an empty value, leaving every named keyspace untouched.
#[verifier::external_body]
fn sled_registry_add(db: &mut sled::Db, name: &str) -> (r: Result<(), sled::Error>)
    ensures
        sled_db_ident(*final(db)) == sled_db_ident(*old(db)),
        sled_trees(*final(db)) == sled_trees(*old(db)),
        r is Ok ==> sled_registry(*final(db)) == sled_registry(*old(db)).insert(
            name@,
            Seq::empty(),
        ),
        r is Err ==> sled_registry(*final(db)) == sled_registry(*old(db)),
{
    let empty: &[u8] = &[];
    match db.insert(name.as_bytes(), empty) {
        Ok(_) => Ok(()),
        Err(e) => Err(e),
    }
}

/// Relies on sled::Tree::contains_key through the database handle:
/// whether the registry holds `name`.
#[verifier::external_body]
fn sled_registry_contains(db: &sled::Db, name: &str) -> (r: Result<bool, sled::Error>)
    ensures
        r matches Ok(b) ==> b == sled_registry(*db).contains_key(name@),
{
    db.contains_key(name.as_bytes())
}

/// Relies on sled::Tree::remove through the database handle: takes
/// `name` out of the registry, leaving every named keyspace untouched.
#[verifier::external_body]
fn sled_registry_remove(db: &mut sled::Db, name: &str) -> (r: Result<(), sled::Error>)
    ensures
        sled_db_ident(*final(db)) == sled_db_ident(*old(db)),
        sled_trees(*final(db)) == sled_trees(*old(db)),
        r is Ok ==> sled_registry(*final(db)) == sled_registry(*old(db)).remove(name@),
        r is Err ==> sled_registry(*final(db)) == sled_registry(*old(db)),
{
    match db.remove(name.as_bytes()) {
        Ok(_) => Ok(()),
        Err(e) => Err(e),
    }
}

/// Relies on the Display impl of sled::Error for the engine's message.
#[verifier::external_body]
fn sled_err_text(e: sled::Error) -> String {
    format!("{}", e)
}

/// The keyspace name that carries a namespace: the namespace under a
/// fixed prefix, so it can never be the engine's reserved default
/// keyspace name.
pub open spec fn spec_tree_name(ns: Seq<char>) -> Seq<char> {
    seq!['t', '_'] + ns
}

fn tree_name_string(table: &str) -> (s: String)
    ensures
        s@ == spec_tree_name(table@),
{
    let mut s = String::from_str("t_");
    s.append(table);
    proof {
        reveal_strlit("t_");
        assert(s@ =~= spec_tree_name(table@));
    }
    s
}

/// Distinct namespaces use distinct keyspaces.
proof fn lemma_tree_name_inj(a: Seq<char>, b: Seq<char>)
    ensures
        spec_tree_name(a) == spec_tree_name(b) ==> a == b,
{
    if spec_tree_name(a) == spec_tree_name(b) {
        assert(a =~= spec_tree_name(a).subrange(2, spec_tree_name(a).len() as int));
        assert(b =~= spec_tree_name(b).subrange(2, spec_tree_name(b).len() as int));
    }
}

/// A namespace's keyspace is never the reserved default one.
proof fn lemma_tree_name_not_default(ns: Seq<char>)
    ensures
        spec_tree_name(ns) != "__sled__default"@,
{
    reveal_strlit("__sled__default");
    assert(spec_tree_name(ns)[0] == 't');
}

/// The ordered-kv backend.
pub struct SledDb {
    pub db: sled::Db,
    pub connection: LruCache<sled::Tree>,
}

impl SledDb {
    /// Well-formed: the cache is shaped right and every cached handle
    /// belongs to this database and carries its namespace's keyspace
    /// name.
    pub open spec fn wf(&self) -> bool {
        &&& self.connection.wf()
        &&& forall|i: int|
            0 <= i < self.connection.vals@.len() ==> sled_tree_owner(
                #[trigger] self.connection.vals@[i],
            ) == sled_db_ident(self.db)
        &&& forall|i: int|
            0 <= i < self.connection.vals@.len() ==> sled_tree_label(
                #[trigger] self.connection.vals@[i],
            ) == spec_tree_name(self.connection.names@[i]@)
    }

    /// Open or create the storage directory at `path`. Nothing is
    /// known of the contents an existing directory brings along.
    pub fn new(path: &str) -> (r: Result<SledDb, StoreError>)
        ensures
            r matches Ok(s) ==> s.inv(),
    {
        match sled_open_db(path) {
            Ok(db) => Ok(SledDb { db, connection: LruCache::new(50) }),
            Err(e) => Err(StoreError::Storage(sled_err_text(e))),
        }
    }

    /// Index of a cached handle for `table`'s keyspace, opening and
    /// caching one on a miss; the entry moves to the front.
    fn ensure_handle(&mut self, table: &str) -> (r: Result<usize, StoreError>)
        requires
            old(self).wf(),
        ensures
            final(self).wf(),
            final(self).db == old(self).db,
            r matches Ok(i) ==> i < final(self).connection.vals@.len()
                && final(self).connection.names@[i as int]@ == table@,
            r matches Err(e) ==> e is Storage,
    {
        match self.connection.position(table) {
            Some(i) => {
                self.connection.promote(i);
                proof {
                    assert forall|j: int| 0 <= j < self.connection.vals@.len() implies sled_tree_owner(
                        #[trigger] self.connection.vals@[j],
                    ) == sled_db_ident(self.db) && sled_tree_label(self.connection.vals@[j])
                        == spec_tree_name(self.connection.names@[j]@) by {
                        if j == 0 {
                            assert(self.connection.vals@[j] == old(self).connection.vals@[i as int]);
                            assert(self.connection.names@[j] == old(self).connection.names@[i as int]);
                        } else if j <= i as int {
                            assert(self.connection.vals@[j] == old(self).connection.vals@[j - 1]);
                            assert(self.connection.names@[j] == old(self).connection.names@[j - 1]);
                        } else {
                            assert(self.connection.vals@[j] == old(self).connection.vals@[j]);
                            assert(self.connection.names@[j] == old(self).connection.names@[j]);
                        }
                    }
                }
                Ok(0)
            },
            None => {
                let tname = tree_name_string(table);
                match sled_open_tree(&self.db, tname.as_str()) {
                    Ok(t) => {
                        let _evicted = self.connection.insert_front(table.to_owned(), t);
                        proof {
                            assert forall|j: int| 0 <= j < self.connection.vals@.len() implies sled_tree_owner(
                                #[trigger] self.connection.vals@[j],
                            ) == sled_db_ident(self.db) && sled_tree_label(self.connection.vals@[j])
                                == spec_tree_name(self.connection.names@[j]@) by {
                                if j > 0 {
                                    assert(self.connection.vals@[j] == old(self).connection.vals@[j - 1]);
                                    assert(self.connection.names@[j] == old(self).connection.names@[j - 1]);
                                }
                            }
                        }
                        Ok(0)
                    },
                    Err(e) => Err(StoreError::Storage(sled_err_text(e))),
                }
            },
        }
    }
}

impl DbOperation for SledDb {
    open spec fn model(&self) -> StoreModel {
        Map::new(
            |ns: Seq<char>| sled_registry(self.db).contains_key(ns),
            |ns: Seq<char>| sled_trees(self.db)[spec_tree_name(ns)],
        )
    }

    open spec fn inv(&self) -> bool {
        self.wf()
    }

    fn create_table_if_not_exist(&mut self, table: &str) -> (r: Result<(), StoreError>) {
        if !valid_table_name(table) {
            return Err(StoreError::InvalidName);
        }
        let ghost pre = self.model();
        match sled_registry_contains(&self.db, table) {
            Err(e) => Err(StoreError::Storage(sled_err_text(e))),
            Ok(true) => {
                proof {
                    assert(ens_ns(pre, table@) =~~= pre);
                }
                Ok(())
            },
            Ok(false) => {
                let i = match self.ensure_handle(table) {
                    Ok(i) => i,
                    Err(e) => {
                        return Err(e);
                    },
                };
                proof {
                    lemma_tree_name_not_default(table@);
                }
                match sled_tree_clear(&mut self.db, &self.connection.vals[i]) {
                    Err(e) => {
                        proof {
                            assert forall|ns: Seq<char>|
                                ns != table@ && pre.contains_key(ns) implies self.model()[ns]
                                == pre[ns] by {
                                lemma_tree_name_inj(ns, table@);
                            }
                            assert(!self.model().contains_key(table@));
                            assert(self.model() =~~= pre);
                        }
                        Err(StoreError::Storage(sled_err_text(e)))
                    },
                    Ok(()) => {
                        let ghost mid = self.model();
                        proof {
                            assert forall|ns: Seq<char>| ns != table@ implies sled_trees(
                                self.db,
                            )[spec_tree_name(ns)] == sled_trees(old(self).db)[spec_tree_name(
                                ns,
                            )] by {
                                lemma_tree_name_inj(ns, table@);
                            }
                            assert(mid =~~= pre);
                        }
                        match sled_registry_add(&mut self.db, table) {
                            Ok(()) => {
                                proof {
                                    assert forall|ns: Seq<char>|
                                        ns != table@ && pre.contains_key(ns) implies self.model()[
                                        ns] == pre[ns] by {
                                        lemma_tree_name_inj(ns, table@);
                                    }
                                    assert(self.model() =~~= ens_ns(pre, table@));
                                }
                                Ok(())
                            },
                            Err(e) => {
                                proof {
                                    assert(self.model() =~~= pre);
                                }
                                Err(StoreError::Storage(sled_err_text(e)))
                            },
                        }
                    },
                }
            },
        }
    }

    fn query_from_table(&mut self, table: &str, key: &[u8]) -> (r: Result<
        Option<MarsImage>,
        StoreError,
    >) {
        if !valid_table_name(table) {
            return Err(StoreError::InvalidName);
        }
        match sled_registry_contains(&self.db, table) {
            Err(e) => Err(StoreError::Storage(sled_err_text(e))),
            Ok(false) => Ok(None),
            Ok(true) => {
                let i = match self.ensure_handle(table) {
                    Ok(i) => i,
                    Err(e) => {
                        return Err(e);
                    },
                };
                proof {
                    lemma_tree_name_not_default(table@);
                }
                match sled_tree_get(&self.db, &self.connection.vals[i], key) {
                    Err(e) => Err(StoreError::Storage(sled_err_text(e))),
                    Ok(None) => Ok(None),
                    Ok(Some(v)) => {
                        if v.len() == 4 {
                            let id = i32::from_vec_u8(v.as_slice());
                            Ok(Some(MarsImage::new(id, slice_to_vec(key))))
                        } else {
                            Err(StoreError::Codec)
                        }
                    },
                }
            },
        }
    }

    fn insert_to_table(&mut self, table: &str, item: MarsImage) -> (r: Result<(), StoreError>) {
        if !valid_table_name(table) {
            return Err(StoreError::InvalidName);
        }
        let ghost pre = self.model();
        match self.create_table_if_not_exist(table) {
            Ok(()) => {},
            Err(e) => {
                return Err(e);
            },
        }
        let ghost m1 = self.model();
        proof {
            assert(m1 == ens_ns(pre, table@));
        }
        let i = match self.ensure_handle(table) {
            Ok(i) => i,
            Err(e) => {
                return Err(e);
            },
        };
        proof {
            lemma_tree_name_not_default(table@);
        }
        match sled_tree_get(&self.db, &self.connection.vals[i], item.sha.as_slice()) {
            Err(e) => Err(StoreError::Storage(sled_err_text(e))),
            Ok(Some(_)) => {
                proof {
                    assert(sled_tree_label(self.connection.vals@[i as int]) == spec_tree_name(
                        table@,
                    ));
                    assert(m1.contains_key(table@));
                    assert(m1[table@] == sled_trees(self.db)[spec_tree_name(table@)]);
                    assert(m1[table@].contains_key(item.sha@));
                    assert(pre.contains_key(table@));
                    assert(ens_ns(pre, table@) =~~= pre);
                }
                Err(StoreError::Conflict)
            },
            Ok(None) => {
                let enc = item.id.into_vec_u8();
                match sled_tree_insert(
                    &mut self.db,
                    &self.connection.vals[i],
                    item.sha.as_slice(),
                    &enc,
                ) {
                    Ok(_prev) => {
                        proof {
                            assert forall|ns: Seq<char>|
                                ns != table@ && ens_ns(pre, table@).contains_key(
                                    ns,
                                ) implies self.model()[ns] == ens_ns(pre, table@)[ns] by {
                                lemma_tree_name_inj(ns, table@);
                            }
                            assert(self.model() =~~= with_record(
                                pre,
                                table@,
                                item.sha@,
                                le_bytes_of(item.id),
                            ));
                        }
                        Ok(())
                    },
                    Err(e) => Err(StoreError::Storage(sled_err_text(e))),
                }
            },
        }
    }

    fn exist_table(&mut self, table: &str) -> (r: Result<bool, StoreError>) {
        match sled_registry_contains(&self.db, table) {
            Ok(b) => Ok(b),
            Err(e) => Err(StoreError::Storage(sled_err_text(e))),
        }
    }

    fn insert_or_get_existing(&mut self, table: &str, item: MarsImage) -> (r: Result<
        Option<MarsImage>,
        StoreError,
    >) {
        if !valid_table_name(table) {
            return Err(StoreError::InvalidName);
        }
        let ghost pre = self.model();
        match self.create_table_if_not_exist(table) {
            Ok(()) => {},
            Err(e) => {
                return Err(e);
            },
        }
        let ghost m1 = self.model();
        proof {
            assert(m1 == ens_ns(pre, table@));
        }
        let i = match self.ensure_handle(table) {
            Ok(i) => i,
            Err(e) => {
                return Err(e);
            },
        };
        proof {
            lemma_tree_name_not_default(table@);
        }
        match sled_tree_get(&self.db, &self.connection.vals[i], item.sha.as_slice()) {
            Err(e) => Err(StoreError::Storage(sled_err_text(e))),
            Ok(Some(v)) => {
                proof {
                    assert(sled_tree_label(self.connection.vals@[i as int]) == spec_tree_name(
                        table@,
                    ));
                    assert(m1.contains_key(table@));
                    assert(m1[table@] == sled_trees(self.db)[spec_tree_name(table@)]);
                    assert(m1[table@].contains_key(item.sha@));
                    assert(pre.contains_key(table@));
                    assert(ens_ns(pre, table@) =~~= pre);
                }
                if v.len() == 4 {
                    let id = i32::from_vec_u8(v.as_slice());
                    Ok(Some(MarsImage::new(id, item.sha)))
                } else {
                    Err(StoreError::Codec)
                }
            },
            Ok(None) => {
                let enc = item.id.into_vec_u8();
                match sled_tree_insert(
                    &mut self.db,
                    &self.connection.vals[i],
                    item.sha.as_slice(),
                    &enc,
                ) {
                    Ok(_prev) => {
                        proof {
                            assert forall|ns: Seq<char>|
                                ns != table@ && ens_ns(pre, table@).contains_key(
                                    ns,
                                ) implies self.model()[ns] == ens_ns(pre, table@)[ns] by {
                                lemma_tree_name_inj(ns, table@);
                            }
                            assert(self.model() =~~= with_record(
                                pre,
                                table@,
                                item.sha@,
                                le_bytes_of(item.id),
                            ));
                        }
                        Ok(None)
                    },
                    Err(e) => Err(StoreError::Storage(sled_err_text(e))),
                }
            },
        }
    }

    fn drop_table(&mut self, table: &str) -> (r: Result<(), StoreError>) {
        if !valid_table_name(table) {
            return Err(StoreError::InvalidName);
        }
        let ghost pre = self.model();
        match sled_registry_contains(&self.db, table) {
            Err(e) => Err(StoreError::Storage(sled_err_text(e))),
            Ok(false) => Err(StoreError::NotFound),
            Ok(true) => {
                let i = match self.ensure_handle(table) {
                    Ok(i) => i,
                    Err(e) => {
                        return Err(e);
                    },
                };
                proof {
                    lemma_tree_name_not_default(table@);
                }
                match sled_tree_clear(&mut self.db, &self.connection.vals[i]) {
                    Err(e) => {
                        proof {
                            assert forall|ns: Seq<char>| ns != table@ implies (
                            #[trigger] self.model().contains_key(ns) <==> pre.contains_key(ns))
                                && (pre.contains_key(ns) ==> self.model()[ns] == pre[ns]) by {
                                lemma_tree_name_inj(ns, table@);
                            }
                            assert(self.model().contains_key(table@));
                            assert(self.model()[table@].submap_of(pre[table@]));
                        }
                        Err(StoreError::Storage(sled_err_text(e)))
                    },
                    Ok(()) => {
                        match sled_registry_remove(&mut self.db, table) {
                            Ok(()) => {
                                proof {
                                    assert forall|ns: Seq<char>|
                                        ns != table@ && pre.contains_key(ns) implies self.model()[
                                        ns] == pre[ns] by {
                                        lemma_tree_name_inj(ns, table@);
                                    }
                                    assert(self.model() =~~= pre.remove(table@));
                                }
                                Ok(())
                            },
                            Err(e) => {
                                proof {
                                    assert forall|ns: Seq<char>|
                                        ns != table@ && pre.contains_key(ns) implies self.model()[
                                        ns] == pre[ns] by {
                                        lemma_tree_name_inj(ns, table@);
                                    }
                                    assert(self.model().contains_key(table@) && self.model()[
                                        table@] =~= Map::empty());
                                    assert(self.model()[table@].submap_of(pre[table@]));
                                }
                                Err(StoreError::Storage(sled_err_text(e)))
                            },
                        }
                    },
                }
            },
        }
    }
}

} // verus!
