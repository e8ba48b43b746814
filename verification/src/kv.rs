//! The generic key-value adapter.
//!
//! A minimal store exposing `get` / `set` / `delete` / `scan` — the
//! [`KvAdapter`] trait — is promoted into a full hierarchical [`Accessor`] by
//! [`KvBackend`]: every absolute path is a key; the parent component of a
//! path addresses one enumerable namespace and the leaf name is the key
//! within it; directories are marker keys with a trailing separator; byte
//! ranges are applied in memory to the value fetched whole; listing derives
//! its pages from the namespace enumeration.

use vstd::prelude::*;

use crate::accessor::{
    create_key_of, list_ns_of, valid_list_entry, valid_listing, Accessor, OpAbortMultipart,
    OpCompleteMultipart, OpCreate, OpCreateMultipart, OpDelete, OpList, OpPresign, OpRead, OpStat,
    OpWrite, OpWriteMultipart, RpAbortMultipart, RpCompleteMultipart, RpCreate, RpCreateMultipart,
    RpDelete, RpList, RpPresign, RpRead, RpStat, RpWrite, RpWriteMultipart,
};
use crate::error::{Error, ErrorKind};
use crate::meta::{AccessorMetadata, MetaView, ObjectEntry, ObjectMetadata, ObjectMode};
use crate::ops::{check_operation, Operation};
use crate::pager::DirPager;
use crate::path::{
    basename_of, build_abs_path, dir_form_of, is_child_of, is_dir_path,
    is_normalized_root, is_parent_form, is_valid_name, join_of, join_path, lemma_join_is_child,
    lemma_parent_form, lemma_split_roundtrip, parent_of, to_dir_path, to_effective_path,
    to_parent_form,
};
use crate::range::apply_range;
use crate::reader::Cursor;

verus! {

/// The minimal interface a concrete store implements to plug in. Its model
/// is a map from key to stored bytes; `infallible` says whether the store
/// can fail at all.
pub trait KvAdapter: Sized {
    /// The stored bytes, keyed by key.
    spec fn view(&self) -> Map<Seq<char>, Seq<u8>>;

    /// Whether the store is failure-free.
    spec fn infallible(&self) -> bool;

    /// The identity the derived accessor will carry.
    spec fn kv_meta(&self) -> MetaView;

    /// The store's identity; its root is always in normalized form.
    fn metadata(&self) -> (r: AccessorMetadata)
        ensures
            r@ == self.kv_meta(),
            is_normalized_root(self.kv_meta().root),
    ;

    /// Fetch the value of a key; an absent key yields `None`, not an error.
    fn get(&self, key: &str) -> (r: Result<Option<Vec<u8>>, Error>)
        ensures
            match r {
                Ok(Some(v)) => self.view().contains_key(key@) && v@ == self.view()[key@],
                Ok(None) => !self.view().contains_key(key@),
                Err(_) => true,
            },
            self.infallible() ==> r is Ok,
    ;

    /// Store a value under a key, overwriting any earlier value.
    fn set(&mut self, key: &str, value: Vec<u8>) -> (r: Result<(), Error>)
        ensures
            final(self).kv_meta() == old(self).kv_meta(),
            final(self).infallible() == old(self).infallible(),
            r is Ok ==> final(self).view() == old(self).view().insert(key@, value@),
            old(self).infallible() ==> r is Ok,
    ;

    /// Remove a key; removing an absent key is not an error.
    fn delete(&mut self, key: &str) -> (r: Result<(), Error>)
        ensures
            final(self).kv_meta() == old(self).kv_meta(),
            final(self).infallible() == old(self).infallible(),
            r is Ok ==> final(self).view() == old(self).view().remove(key@),
            old(self).infallible() ==> r is Ok,
    ;

    /// Enumerate the keys lying directly inside one namespace: for each such
    /// key its leaf name and its value's size.
    fn scan(&self, ns: &str) -> (r: Result<Vec<(String, u64)>, Error>)
        ensures
            match r {
                Ok(items) => {
                    &&& (forall|t: int|
                        0 <= t < items@.len() ==> scan_item_sound(
                            self.view(),
                            ns@,
                            (#[trigger] items@[t]).0@,
                            items@[t].1,
                        ))
                    &&& (forall|k: Seq<char>|
                        self.view().contains_key(k) && #[trigger] parent_of(k) == ns@
                            && is_child_of(dir_form_of(ns@), k) ==> exists|t: int|
                            0 <= t < items@.len() && (#[trigger] items@[t]).0@ == basename_of(k)
                                && items@[t].1 == self.view()[k].len())
                },
                Err(_) => true,
            },
            self.infallible() ==> r is Ok,
    ;
}

/// One scan item is sound: some stored key directly inside the namespace has
/// this leaf name, and the reported size is its value's size.
pub open spec fn scan_item_sound(
    view: Map<Seq<char>, Seq<u8>>,
    ns: Seq<char>,
    name: Seq<char>,
    len: u64,
) -> bool {
    exists|k: Seq<char>|
        {
            &&& #[trigger] view.contains_key(k)
            &&& parent_of(k) == ns
            &&& is_child_of(dir_form_of(ns), k)
            &&& basename_of(k) == name
            &&& len == view[k].len()
        }
}

/// A key directly inside a parent-form namespace is the join of the
/// namespace and the key's leaf name.
proof fn lemma_child_key_join(ns: Seq<char>, k: Seq<char>)
    requires
        is_parent_form(ns),
        is_child_of(dir_form_of(ns), k),
    ensures
        is_valid_name(basename_of(k)),
        k == join_of(ns, basename_of(k)),
        basename_of(k) == k.subrange(dir_form_of(ns).len() as int, k.len() as int),
{
    let d = dir_form_of(ns);
    let rest = k.subrange(d.len() as int, k.len() as int);
    assert(k =~= d + rest);
    assert(join_of(ns, rest) =~= d + rest) by {
        if ns == seq!['/'] {
            assert(d =~= ns);
        } else {
            assert(d =~= ns + seq!['/']);
        }
    }
    lemma_split_roundtrip(ns, rest);
}

/// The hierarchical accessor derived from a minimal key-value store.
pub struct KvBackend<S: KvAdapter> {
    adapter: S,
    history: Ghost<Seq<Operation>>,
}

impl<S: KvAdapter> KvBackend<S> {
    /// Wrap a store; the fresh accessor has performed no operation yet.
    pub fn new(adapter: S) -> (r: KvBackend<S>)
        ensures
            r.meta_view() == adapter.kv_meta(),
            r.store() == adapter.view(),
            r.oplog() == Seq::<Operation>::empty(),
            r.reliable() == adapter.infallible(),
    {
        KvBackend { adapter, history: Ghost(Seq::empty()) }
    }

    /// The wrapped store.
    pub fn inner(&self) -> (r: &S)
        ensures
            r.view() == self.store(),
            r.kv_meta() == self.meta_view(),
    {
        &self.adapter
    }
}

impl<S: KvAdapter> Accessor for KvBackend<S> {
    type Reader = Cursor;

    type Pager = DirPager;

    closed spec fn meta_view(&self) -> MetaView {
        self.adapter.kv_meta()
    }

    closed spec fn store(&self) -> Map<Seq<char>, Seq<u8>> {
        self.adapter.view()
    }

    closed spec fn oplog(&self) -> Seq<Operation> {
        self.history@
    }

    closed spec fn reliable(&self) -> bool {
        self.adapter.infallible()
    }

    fn metadata(&self) -> (r: AccessorMetadata) {
        self.adapter.metadata()
    }

    fn create(&mut self, path: &str, args: OpCreate) -> (r: Result<RpCreate, Error>) {
        let meta = self.adapter.metadata();
        if let Err(e) = check_operation(meta.capabilities(), Operation::Create) {
            return Err(e);
        }
        proof {
            self.history@ = self.history@.push(Operation::Create);
        }
        let abs = build_abs_path(meta.root(), path);
        let key = match args.mode {
            ObjectMode::Dir => to_dir_path(abs.as_str()),
            ObjectMode::File => to_effective_path(abs.as_str()),
        };
        let marker: Vec<u8> = Vec::new();
        proof {
            assert(marker@ =~= Seq::<u8>::empty());
        }
        match self.adapter.set(key.as_str(), marker) {
            Ok(_) => Ok(RpCreate {  }),
            Err(e) => Err(
                Error::new(ErrorKind::Unexpected, "key-value store rejected the write").set_source(
                    e,
                ),
            ),
        }
    }

    fn read(&mut self, path: &str, args: OpRead) -> (r: Result<(RpRead, Cursor), Error>) {
        let meta = self.adapter.metadata();
        if let Err(e) = check_operation(meta.capabilities(), Operation::Read) {
            return Err(e);
        }
        proof {
            self.history@ = self.history@.push(Operation::Read);
        }
        let abs = build_abs_path(meta.root(), path);
        let fetched = match self.adapter.get(abs.as_str()) {
            Ok(v) => v,
            Err(e) => {
                return Err(
                    Error::new(ErrorKind::Unexpected, "key-value store access failed").set_source(
                        e,
                    ),
                );
            },
        };
        let value = match fetched {
            Some(v) => v,
            None => {
                return Err(
                    Error::new(ErrorKind::ObjectNotFound, "object not found").with_context(
                        "path",
                        path,
                    ),
                );
            },
        };
        match apply_range(&value, args.range) {
            Some(window) => {
                let len = window.len() as u64;
                let rp = RpRead {
                    meta: ObjectMetadata::new(ObjectMode::File).with_content_length(len),
                };
                Ok((rp, Cursor::new(window)))
            },
            None => Err(
                Error::new(ErrorKind::Unexpected, "byte range does not fit the object")
                    .with_context("path", path),
            ),
        }
    }

    fn write(&mut self, path: &str, args: OpWrite, source: Vec<u8>) -> (r: Result<RpWrite, Error>) {
        let meta = self.adapter.metadata();
        if let Err(e) = check_operation(meta.capabilities(), Operation::Write) {
            return Err(e);
        }
        proof {
            self.history@ = self.history@.push(Operation::Write);
        }
        let abs = build_abs_path(meta.root(), path);
        let written = source.len() as u64;
        match self.adapter.set(abs.as_str(), source) {
            Ok(_) => Ok(RpWrite { written }),
            Err(e) => Err(
                Error::new(ErrorKind::Unexpected, "key-value store rejected the write").set_source(
                    e,
                ),
            ),
        }
    }

    fn stat(&mut self, path: &str, args: OpStat) -> (r: Result<RpStat, Error>) {
        let meta = self.adapter.metadata();
        if let Err(e) = check_operation(meta.capabilities(), Operation::Stat) {
            return Err(e);
        }
        proof {
            self.history@ = self.history@.push(Operation::Stat);
        }
        let abs = build_abs_path(meta.root(), path);
        let fetched = match self.adapter.get(abs.as_str()) {
            Ok(v) => v,
            Err(e) => {
                return Err(
                    Error::new(ErrorKind::Unexpected, "key-value store access failed").set_source(
                        e,
                    ),
                );
            },
        };
        match fetched {
            Some(v) => {
                let mode = if check_dir_str(abs.as_str()) {
                    ObjectMode::Dir
                } else {
                    ObjectMode::File
                };
                let rp = RpStat {
                    meta: ObjectMetadata::new(mode).with_content_length(v.len() as u64),
                };
                Ok(rp)
            },
            None => Err(
                Error::new(ErrorKind::ObjectNotFound, "object not found").with_context(
                    "path",
                    path,
                ),
            ),
        }
    }

    fn delete(&mut self, path: &str, args: OpDelete) -> (r: Result<RpDelete, Error>) {
        let meta = self.adapter.metadata();
        if let Err(e) = check_operation(meta.capabilities(), Operation::Delete) {
            return Err(e);
        }
        proof {
            self.history@ = self.history@.push(Operation::Delete);
        }
        let abs = build_abs_path(meta.root(), path);
        match self.adapter.delete(abs.as_str()) {
            Ok(_) => Ok(RpDelete {  }),
            Err(e) => Err(
                Error::new(ErrorKind::Unexpected, "key-value store rejected the delete")
                    .set_source(e),
            ),
        }
    }

    fn list(&mut self, path: &str, args: OpList) -> (r: Result<(RpList, DirPager), Error>) {
        let meta = self.adapter.metadata();
        if let Err(e) = check_operation(meta.capabilities(), Operation::List) {
            return Err(e);
        }
        proof {
            self.history@ = self.history@.push(Operation::List);
        }
        let abs = build_abs_path(meta.root(), path);
        let ns = to_parent_form(abs.as_str());
        proof {
            lemma_parent_form(abs@);
        }
        let items = match self.adapter.scan(ns.as_str()) {
            Ok(v) => v,
            Err(e) => {
                return Err(
                    Error::new(ErrorKind::Unexpected, "key-value store enumeration failed")
                        .set_source(e),
                );
            },
        };
        let ghost view = self.adapter.view();
        let ghost nsv = ns@;
        let mut entries: Vec<ObjectEntry> = Vec::new();
        let mut t: usize = 0;
        while t < items.len()
            invariant
                nsv == ns@,
                is_parent_form(nsv),
                forall|u: int|
                    0 <= u < items@.len() ==> scan_item_sound(
                        view,
                        nsv,
                        (#[trigger] items@[u]).0@,
                        items@[u].1,
                    ),
                t <= items@.len(),
                entries@.len() == t,
                forall|j: int|
                    0 <= j < t ==> valid_list_entry(view, nsv, (#[trigger] entries@[j])@),
                forall|u: int|
                    0 <= u < t ==> (#[trigger] entries@[u])@.path == join_of(nsv, items@[u].0@),
            decreases items@.len() - t,
        {
            let name_len;
            let ghost key: Seq<char>;
            proof {
                assert(scan_item_sound(view, nsv, items@[t as int].0@, items@[t as int].1));
                key = choose|k: Seq<char>|
                    {
                        &&& #[trigger] view.contains_key(k)
                        &&& parent_of(k) == nsv
                        &&& is_child_of(dir_form_of(nsv), k)
                        &&& basename_of(k) == items@[t as int].0@
                        &&& items@[t as int].1 == view[k].len()
                    };
                lemma_child_key_join(nsv, key);
                lemma_join_is_child(nsv, basename_of(key));
            }
            let item_name = &items[t].0;
            let item_len = items[t].1;
            name_len = item_name.as_str().unicode_len();
            let entry_path = join_path(ns.as_str(), item_name.as_str());
            let mode = if item_name.as_str().get_char(name_len - 1) == '/' {
                ObjectMode::Dir
            } else {
                ObjectMode::File
            };
            let entry_meta = ObjectMetadata::new(mode).with_content_length(item_len);
            let entry = ObjectEntry::new(entry_path.as_str(), entry_meta);
            proof {
                assert(entry_path@ == join_of(nsv, items@[t as int].0@));
                assert(entry@.path == key);
                assert(valid_list_entry(view, nsv, entry@));
            }
            entries.push(entry);
            t = t + 1;
        }
        proof {
            let evs = entries@.map_values(|e: ObjectEntry| e@);
            assert forall|k: Seq<char>|
                view.contains_key(k) && #[trigger] parent_of(k) == nsv && is_child_of(
                    dir_form_of(nsv),
                    k,
                ) implies exists|i: int| 0 <= i < evs.len() && #[trigger] evs[i].path == k by {
                lemma_child_key_join(nsv, k);
                let t0 = choose|t0: int|
                    0 <= t0 < items@.len() && (#[trigger] items@[t0]).0@ == basename_of(k)
                        && items@[t0].1 == view[k].len();
                assert(entries@[t0]@.path == join_of(nsv, items@[t0].0@));
                assert(evs[t0] == entries@[t0]@);
                assert(evs[t0].path == k);
            }
            assert forall|i: int| 0 <= i < evs.len() implies valid_list_entry(
                view,
                nsv,
                #[trigger] evs[i],
            ) by {
                assert(evs[i] == entries@[i]@);
            }
            assert(valid_listing(view, nsv, evs));
        }
        let pager = DirPager::new(entries, 256);
        Ok((RpList {  }, pager))
    }

    fn presign(&mut self, path: &str, args: OpPresign) -> (r: Result<RpPresign, Error>) {
        let meta = self.adapter.metadata();
        if let Err(e) = check_operation(meta.capabilities(), Operation::Presign) {
            return Err(e);
        }
        proof {
            self.history@ = self.history@.push(Operation::Presign);
        }
        Err(Error::new(ErrorKind::Unexpected, "presigning is not available on key-value backends"))
    }

    fn create_multipart(&mut self, path: &str, args: OpCreateMultipart) -> (r: Result<
        RpCreateMultipart,
        Error,
    >) {
        let meta = self.adapter.metadata();
        if let Err(e) = check_operation(meta.capabilities(), Operation::CreateMultipart) {
            return Err(e);
        }
        proof {
            self.history@ = self.history@.push(Operation::CreateMultipart);
        }
        Err(
            Error::new(
                ErrorKind::Unexpected,
                "staged uploads are not available on key-value backends",
            ),
        )
    }

    fn write_multipart(&mut self, path: &str, args: OpWriteMultipart, source: Vec<u8>) -> (r:
        Result<RpWriteMultipart, Error>) {
        let meta = self.adapter.metadata();
        if let Err(e) = check_operation(meta.capabilities(), Operation::WriteMultipart) {
            return Err(e);
        }
        proof {
            self.history@ = self.history@.push(Operation::WriteMultipart);
        }
        Err(
            Error::new(
                ErrorKind::Unexpected,
                "staged uploads are not available on key-value backends",
            ),
        )
    }

    fn complete_multipart(&mut self, path: &str, args: OpCompleteMultipart) -> (r: Result<
        RpCompleteMultipart,
        Error,
    >) {
        let meta = self.adapter.metadata();
        if let Err(e) = check_operation(meta.capabilities(), Operation::CompleteMultipart) {
            return Err(e);
        }
        proof {
            self.history@ = self.history@.push(Operation::CompleteMultipart);
        }
        Err(
            Error::new(
                ErrorKind::Unexpected,
                "staged uploads are not available on key-value backends",
            ),
        )
    }

    fn abort_multipart(&mut self, path: &str, args: OpAbortMultipart) -> (r: Result<
        RpAbortMultipart,
        Error,
    >) {
        let meta = self.adapter.metadata();
        if let Err(e) = check_operation(meta.capabilities(), Operation::AbortMultipart) {
            return Err(e);
        }
        proof {
            self.history@ = self.history@.push(Operation::AbortMultipart);
        }
        Err(
            Error::new(
                ErrorKind::Unexpected,
                "staged uploads are not available on key-value backends",
            ),
        )
    }

    fn close_reader(&mut self, reader: Cursor) {
    }
}

/// Exec check of [`is_dir_path`] on a string slice.
fn check_dir_str(path: &str) -> (r: bool)
    ensures
        r == is_dir_path(path@),
{
    crate::path::check_dir_path(path)
}

} // verus!
