//! The embedded on-disk key-value store.
//!
//! [`SledAdapter`] plugs the `sled` engine into the generic key-value
//! backend: objects are stored whole under their absolute path. The engine's
//! calls stand behind a small set of trusted wrappers whose contracts speak
//! of one named map — what the store currently holds for keys that are valid
//! text; anything else on disk is invisible to this adapter.
//!
//! The storage format of this backend is not stable; do not use it to
//! persist data across versions.

use vstd::prelude::*;
use vstd::string::*;

use crate::accessor::{last_value_of, Accessor, Builder};
use crate::error::{Error, ErrorKind};
use crate::kv::{scan_item_sound, KvAdapter, KvBackend};
use crate::meta::{AccessorMetadata, MetaView, Scheme};
use crate::ops::CapabilitySet;
use crate::path::{
    basename_of, check_child_of, dir_form_of, get_basename, get_parent, is_child_of,
    is_normalized_root, normalized_root_of, parent_of, to_dir_path,
};

verus! {

/// An open handle to one on-disk store. Exclusive: the engine locks the
/// data directory, and every mutation goes through this handle.
#[verifier::external_body]
pub struct SledStore {
    db: sled::Db,
}

/// What the store holds: content bytes keyed by the stored key's text.
pub uninterp spec fn sled_contents(s: SledStore) -> Map<Seq<char>, Seq<u8>>;

/// Relies on sled::open: opens the on-disk store at the data directory,
/// creating it when missing. What it holds depends on the disk, so nothing
/// is assumed of the contents.
#[verifier::external_body]
fn sled_open_store(path: &str) -> (r: Result<SledStore, Error>)
{
    match sled::open(path) {
        Ok(db) => Ok(SledStore { db }),
        Err(e) => Err(
            Error::new(ErrorKind::BackendConfigInvalid, "unable to open the data directory")
                .with_context("datadir", path),
        ),
    }
}

/// Relies on sled::Tree::get: returns the value last stored under the key
/// through this handle, or nothing when the key is absent.
#[verifier::external_body]
fn sled_get(s: &SledStore, key: &str) -> (r: Result<Option<Vec<u8>>, Error>)
    ensures
        r matches Ok(Some(v)) ==> sled_contents(*s).contains_key(key@) && v@ == sled_contents(
            *s,
        )[key@],
        r matches Ok(None) ==> !sled_contents(*s).contains_key(key@),
{
    match s.db.get(key.as_bytes()) {
        Ok(v) => Ok(v.map(|iv| iv.to_vec())),
        Err(_) => Err(Error::new(ErrorKind::Unexpected, "unable to read from the store")),
    }
}

/// Relies on sled::Tree::insert: stores the value under the key,
/// overwriting any earlier value.
#[verifier::external_body]
fn sled_insert(s: &mut SledStore, key: &str, value: Vec<u8>) -> (r: Result<(), Error>)
    ensures
        r is Ok ==> sled_contents(*final(s)) == sled_contents(*old(s)).insert(key@, value@),
{
    match s.db.insert(key.as_bytes(), value) {
        Ok(_) => Ok(()),
        Err(_) => Err(Error::new(ErrorKind::Unexpected, "unable to write to the store")),
    }
}

/// Relies on sled::Tree::remove: removes the key; removing an absent key
/// succeeds.
#[verifier::external_body]
fn sled_remove(s: &mut SledStore, key: &str) -> (r: Result<(), Error>)
    ensures
        r is Ok ==> sled_contents(*final(s)) == sled_contents(*old(s)).remove(key@),
{
    match s.db.remove(key.as_bytes()) {
        Ok(_) => Ok(()),
        Err(_) => Err(Error::new(ErrorKind::Unexpected, "unable to delete from the store")),
    }
}

/// Relies on sled::Tree::iter: enumerates every stored key with its value's
/// size, each exactly the store's entry for that key.
#[verifier::external_body]
fn sled_scan_all(s: &SledStore) -> (r: Result<Vec<(String, u64)>, Error>)
    ensures
        r matches Ok(items) ==> {
            &&& (forall|t: int|
                0 <= t < items@.len() ==> sled_contents(*s).contains_key(
                    (#[trigger] items@[t]).0@,
                ) && items@[t].1 == sled_contents(*s)[items@[t].0@].len())
            &&& (forall|k: Seq<char>|
                sled_contents(*s).contains_key(k) ==> exists|t: int|
                    0 <= t < items@.len() && (#[trigger] items@[t]).0@ == k && items@[t].1
                        == sled_contents(*s)[k].len())
        },
{
    let mut items: Vec<(String, u64)> = Vec::new();
    for pair in s.db.iter() {
        match pair {
            Ok((k, v)) => {
                if let Ok(name) = String::from_utf8(k.to_vec()) {
                    items.push((name, v.len() as u64));
                }
            },
            Err(_) => {
                return Err(Error::new(ErrorKind::Unexpected, "unable to enumerate the store"));
            },
        }
    }
    Ok(items)
}

/// The on-disk key-value adapter.
pub struct SledAdapter {
    store: SledStore,
    datadir: String,
}

impl KvAdapter for SledAdapter {
    closed spec fn view(&self) -> Map<Seq<char>, Seq<u8>> {
        sled_contents(self.store)
    }

    closed spec fn infallible(&self) -> bool {
        false
    }

    closed spec fn kv_meta(&self) -> MetaView {
        MetaView {
            scheme: Scheme::Sled,
            root: normalized_root_of("/"@),
            name: self.datadir@,
            caps: sled_caps(),
        }
    }

    fn metadata(&self) -> (r: AccessorMetadata) {
        let caps = CapabilitySet {
            read: true,
            write: true,
            list: true,
            presign: false,
            multipart: false,
            blocking: true,
        };
        proof {
            assert(caps == sled_caps());
            crate::path::lemma_normalized_root_idempotent("/"@);
        }
        AccessorMetadata::new(Scheme::Sled, "/", self.datadir.as_str(), caps)
    }

    fn get(&self, key: &str) -> (r: Result<Option<Vec<u8>>, Error>) {
        sled_get(&self.store, key)
    }

    fn set(&mut self, key: &str, value: Vec<u8>) -> (r: Result<(), Error>) {
        sled_insert(&mut self.store, key, value)
    }

    fn delete(&mut self, key: &str) -> (r: Result<(), Error>) {
        sled_remove(&mut self.store, key)
    }

    fn scan(&self, ns: &str) -> (r: Result<Vec<(String, u64)>, Error>) {
        let ghost view = sled_contents(self.store);
        let all = match sled_scan_all(&self.store) {
            Ok(v) => v,
            Err(e) => {
                return Err(e);
            },
        };
        let ns_owned = ns.to_owned();
        let dir = to_dir_path(ns);
        let n = all.len();
        let mut items: Vec<(String, u64)> = Vec::new();
        let mut i: usize = 0;
        while i < n
            invariant
                ns_owned@ == ns@,
                dir@ == dir_form_of(ns@),
                n == all@.len(),
                view == sled_contents(self.store),
                forall|t: int|
                    0 <= t < all@.len() ==> view.contains_key((#[trigger] all@[t]).0@) && all@[t].1
                        == view[all@[t].0@].len(),
                i <= n,
                forall|t: int|
                    0 <= t < items@.len() ==> scan_item_sound(
                        view,
                        ns@,
                        (#[trigger] items@[t]).0@,
                        items@[t].1,
                    ),
                forall|u: int|
                    {
                        &&& 0 <= u < i
                        &&& parent_of((#[trigger] all@[u]).0@) == ns@
                        &&& is_child_of(dir_form_of(ns@), all@[u].0@)
                    } ==> exists|t: int|
                        0 <= t < items@.len() && (#[trigger] items@[t]).0@ == basename_of(
                            all@[u].0@,
                        ) && items@[t].1 == view[all@[u].0@].len(),
            decreases n - i,
        {
            let key_str = all[i].0.as_str();
            let parent = get_parent(key_str);
            if parent == ns_owned && check_child_of(dir.as_str(), key_str) {
                let name = get_basename(key_str);
                let len = all[i].1;
                let ghost old_items = items@;
                proof {
                    assert(scan_item_sound(view, ns@, name@, len));
                }
                items.push((name, len));
                proof {
                    let k = all@[i as int].0@;
                    assert(forall|t: int| 0 <= t < old_items.len() ==> items@[t] == old_items[t]);
                    let last_t = old_items.len() as int;
                    assert(items@[last_t].0@ == basename_of(k) && items@[last_t].1
                        == view[k].len());
                }
            }
            i = i + 1;
        }
        proof {
            assert forall|k: Seq<char>|
                view.contains_key(k) && #[trigger] parent_of(k) == ns@ && is_child_of(
                    dir_form_of(ns@),
                    k,
                ) implies exists|t: int|
                0 <= t < items@.len() && (#[trigger] items@[t]).0@ == basename_of(k) && items@[t].1
                    == view[k].len() by {
                let u = choose|u: int|
                    0 <= u < all@.len() && (#[trigger] all@[u]).0@ == k && all@[u].1
                        == view[k].len();
                assert(parent_of(all@[u].0@) == ns@ && is_child_of(dir_form_of(ns@), all@[u].0@));
            }
        }
        let ghost snap = items@;
        let result: Result<Vec<(String, u64)>, Error> = Ok(items);
        proof {
            assert(result matches Ok(out) && out@ == snap);
        }
        result
    }
}

/// The capability set the on-disk backend declares.
pub open spec fn sled_caps() -> CapabilitySet {
    CapabilitySet {
        read: true,
        write: true,
        list: true,
        presign: false,
        multipart: false,
        blocking: true,
    }
}

/// The configuration of the on-disk backend: only the data directory.
pub struct SledBuilder {
    datadir: Option<String>,
}

impl SledBuilder {
    /// Whether a data directory has been configured, and which.
    pub closed spec fn datadir_spec(&self) -> Option<Seq<char>> {
        match self.datadir {
            Some(ref d) => Some(d@),
            None => None,
        }
    }

    /// An empty configuration.
    pub fn new() -> (r: SledBuilder)
        ensures
            r.datadir_spec() is None,
    {
        SledBuilder { datadir: None }
    }

    /// Set the path to the data directory; it is created when missing.
    pub fn datadir(&mut self, path: &str)
        ensures
            final(self).datadir_spec() == Some(path@),
    {
        self.datadir = Some(path.to_owned());
    }
}

impl Builder for SledBuilder {
    type Accessor = KvBackend<SledAdapter>;

    fn from_map(map: Vec<(String, String)>) -> (r: SledBuilder)
        ensures
            r.datadir_spec() == last_value_of(map@, "datadir"@),
    {
        let key = String::from_str("datadir");
        let mut builder = SledBuilder::new();
        let n = map.len();
        let mut i: usize = 0;
        proof {
            assert(map@.take(0int) =~= Seq::<(String, String)>::empty());
        }
        while i < n
            invariant
                key@ == "datadir"@,
                i <= n,
                n == map@.len(),
                builder.datadir_spec() == last_value_of(map@.take(i as int), "datadir"@),
            decreases n - i,
        {
            proof {
                assert(map@.take(i + 1).drop_last() =~= map@.take(i as int));
                assert(map@.take(i + 1).last() == map@[i as int]);
            }
            let hit = map[i].0 == key;
            if hit {
                builder.datadir(map[i].1.as_str());
            }
            i = i + 1;
        }
        proof {
            assert(map@.take(n as int) =~= map@);
        }
        builder
    }

    fn build(&mut self) -> (r: Result<KvBackend<SledAdapter>, Error>)
        ensures
            old(self).datadir_spec() is None ==> (r matches Err(e) && e.kind()
                == ErrorKind::BackendConfigInvalid),
            r matches Ok(b) ==> (old(self).datadir_spec() matches Some(d) && b.meta_view().name
                == d),
            final(self).datadir_spec() is None,
    {
        let dir = match &self.datadir {
            Some(d) => d.clone(),
            None => {
                return Err(
                    Error::new(ErrorKind::BackendConfigInvalid, "datadir is required but not set")
                        .with_context("service", "sled"),
                );
            },
        };
        self.datadir = None;
        let store = match sled_open_store(dir.as_str()) {
            Ok(s) => s,
            Err(e) => {
                return Err(e.with_context("service", "sled"));
            },
        };
        Ok(KvBackend::new(SledAdapter { store, datadir: dir }))
    }
}

} // verus!
