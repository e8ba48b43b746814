//! The primitive polymorphic storage interface.
//!
//! Every backend and every layer implements [`Accessor`]. An accessor is
//! modelled by four ghost views: its immutable identity ([`MetaView`]), the
//! store it fronts (a map from absolute path to content bytes, where a path
//! with a trailing separator is a directory marker), the log of operations
//! that reached the backend, and a reliability flag saying whether the
//! backing store can fail.
//!
//! The contract every implementation obeys:
//! - the identity never changes, and `metadata` returns it without I/O;
//! - an operation outside the declared capability set fails fast with an
//!   `Unsupported` error, before anything reaches the backend (the operation
//!   log and the store stay as they were);
//! - an admitted operation is logged exactly once, and its effect on the
//!   store is exactly what its name says;
//! - when the backing store cannot fail, success is owed wherever the
//!   arguments allow it.

use vstd::prelude::*;

use crate::error::{Error, ErrorKind};
use crate::meta::{AccessorMetadata, EntryView, MetaView, ObjectMetadata, ObjectMode};
use crate::ops::{spec_supports, Operation};
use crate::pager::Page;
use crate::path::{
    abs_path_of, basename_of, dir_form_of, effective_path, is_abs_path, is_child_of, is_dir_path,
    is_normalized_root, is_valid_name, parent_form_of, parent_of,
};
use crate::range::{range_fits, range_window, BytesRange};
use crate::reader::OutputRead;

verus! {

/// Arguments of `create`: the mode decides between a leaf object and a
/// directory marker.
#[derive(Clone, Copy, Debug)]
pub struct OpCreate {
    pub mode: ObjectMode,
}

impl OpCreate {
    pub fn new(mode: ObjectMode) -> (r: OpCreate)
        ensures
            r.mode == mode,
    {
        OpCreate { mode }
    }
}

/// Arguments of `read`: an optional byte range.
#[derive(Clone, Copy, Debug)]
pub struct OpRead {
    pub range: BytesRange,
}

impl OpRead {
    pub fn new(range: BytesRange) -> (r: OpRead)
        ensures
            r.range == range,
    {
        OpRead { range }
    }

    /// Read the whole object.
    pub fn full() -> (r: OpRead)
        ensures
            r.range.spec_offset() is None && r.range.spec_size() is None,
    {
        OpRead { range: BytesRange::full() }
    }
}

/// Arguments of `write`: the declared size and an optional content type.
#[derive(Clone, Debug)]
pub struct OpWrite {
    pub size: u64,
    pub content_type: Option<String>,
}

impl OpWrite {
    pub fn new(size: u64) -> (r: OpWrite)
        ensures
            r.size == size && r.content_type is None,
    {
        OpWrite { size, content_type: None }
    }
}

/// Arguments of `stat`.
#[derive(Clone, Copy, Debug)]
pub struct OpStat {}

impl OpStat {
    pub fn new() -> OpStat {
        OpStat {  }
    }
}

/// Arguments of `delete`.
#[derive(Clone, Copy, Debug)]
pub struct OpDelete {}

impl OpDelete {
    pub fn new() -> OpDelete {
        OpDelete {  }
    }
}

/// Arguments of `list`.
#[derive(Clone, Copy, Debug)]
pub struct OpList {}

impl OpList {
    pub fn new() -> OpList {
        OpList {  }
    }
}

/// Arguments of `presign`: how long the signed request may be used.
#[derive(Clone, Copy, Debug)]
pub struct OpPresign {
    pub expire_seconds: u64,
}

/// Arguments of the multipart family.
#[derive(Clone, Copy, Debug)]
pub struct OpCreateMultipart {}

#[derive(Clone, Debug)]
pub struct OpWriteMultipart {
    pub upload_id: String,
    pub part_number: u64,
}

#[derive(Clone, Debug)]
pub struct OpCompleteMultipart {
    pub upload_id: String,
}

#[derive(Clone, Debug)]
pub struct OpAbortMultipart {
    pub upload_id: String,
}

/// Receipt of `create`.
#[derive(Clone, Copy, Debug)]
pub struct RpCreate {}

/// Receipt of `read`: the resolved metadata of the selected window.
#[derive(Clone, Copy, Debug)]
pub struct RpRead {
    pub meta: ObjectMetadata,
}

/// Receipt of `write`: how many bytes were ingested.
#[derive(Clone, Copy, Debug)]
pub struct RpWrite {
    pub written: u64,
}

/// Receipt of `stat`: the object's metadata.
#[derive(Clone, Copy, Debug)]
pub struct RpStat {
    pub meta: ObjectMetadata,
}

/// Receipt of `delete`.
#[derive(Clone, Copy, Debug)]
pub struct RpDelete {}

/// Receipt of `list`.
#[derive(Clone, Copy, Debug)]
pub struct RpList {}

/// Receipt of `presign`: the signed request descriptor.
#[derive(Clone, Debug)]
pub struct RpPresign {
    pub url: String,
}

/// Receipts of the multipart family.
#[derive(Clone, Debug)]
pub struct RpCreateMultipart {
    pub upload_id: String,
}

#[derive(Clone, Copy, Debug)]
pub struct RpWriteMultipart {}

#[derive(Clone, Copy, Debug)]
pub struct RpCompleteMultipart {}

#[derive(Clone, Copy, Debug)]
pub struct RpAbortMultipart {}

/// The key `create` writes: the absolute path, forced into directory form
/// for a directory and into leaf form for a leaf object.
pub open spec fn create_key_of(root: Seq<char>, path: Seq<char>, mode: ObjectMode) -> Seq<char> {
    let a = abs_path_of(root, path);
    match mode {
        ObjectMode::Dir => if is_dir_path(a) {
            a
        } else {
            a + seq!['/']
        },
        ObjectMode::File => effective_path(a),
    }
}

/// The namespace a `list` call enumerates: the absolute path in parent form
/// (no trailing separator, except the root namespace itself).
pub open spec fn list_ns_of(root: Seq<char>, path: Seq<char>) -> Seq<char> {
    parent_form_of(abs_path_of(root, path))
}

/// One listed entry is sound for a store and namespace: it names a stored
/// key directly inside the namespace, its mode matches the key's shape, and
/// its content length is the stored value's size.
pub open spec fn valid_list_entry(
    store: Map<Seq<char>, Seq<u8>>,
    ns: Seq<char>,
    e: EntryView,
) -> bool {
    &&& store.contains_key(e.path)
    &&& parent_of(e.path) == ns
    &&& is_valid_name(basename_of(e.path))
    &&& is_child_of(dir_form_of(ns), e.path)
    &&& e.meta.mode == (if is_dir_path(e.path) {
        ObjectMode::Dir
    } else {
        ObjectMode::File
    })
    &&& e.meta.content_length == Some(store[e.path].len() as u64)
}

/// A listing is valid when every entry is sound and every well-formed child
/// key of the namespace appears.
pub open spec fn valid_listing(
    store: Map<Seq<char>, Seq<u8>>,
    ns: Seq<char>,
    entries: Seq<EntryView>,
) -> bool {
    &&& forall|i: int| 0 <= i < entries.len() ==> valid_list_entry(store, ns, #[trigger] entries[i])
    &&& forall|k: Seq<char>|
        store.contains_key(k) && #[trigger] parent_of(k) == ns && is_child_of(dir_form_of(ns), k)
            ==> exists|i: int| 0 <= i < entries.len() && #[trigger] entries[i].path == k
}

/// The primitive storage interface every backend and layer implements.
pub trait Accessor: Sized {
    /// The reader type of this accessor's `read`.
    type Reader: OutputRead;

    /// The pager type of this accessor's `list`.
    type Pager: Page;

    /// The accessor's immutable identity.
    spec fn meta_view(&self) -> MetaView;

    /// The store the accessor fronts: content bytes keyed by absolute path.
    spec fn store(&self) -> Map<Seq<char>, Seq<u8>>;

    /// The operations that reached the backend, in order.
    spec fn oplog(&self) -> Seq<Operation>;

    /// Whether the backing store is failure-free.
    spec fn reliable(&self) -> bool;

    /// The accessor's identity. No I/O; callable before any capability
    /// check. The root is always in normalized form.
    fn metadata(&self) -> (r: AccessorMetadata)
        ensures
            r@ == self.meta_view(),
            is_normalized_root(self.meta_view().root),
    ;

    /// Create a leaf object or a directory marker. An existing object at the
    /// same path is overwritten by an empty one.
    fn create(&mut self, path: &str, args: OpCreate) -> (r: Result<RpCreate, Error>)
        ensures
            final(self).meta_view() == old(self).meta_view(),
            final(self).reliable() == old(self).reliable(),
            !spec_supports(old(self).meta_view().caps, Operation::Create) ==> {
                &&& r matches Err(e) && e.kind() == ErrorKind::Unsupported
                &&& final(self).store() == old(self).store()
                &&& final(self).oplog() == old(self).oplog()
            },
            spec_supports(old(self).meta_view().caps, Operation::Create) ==> final(self).oplog()
                == old(self).oplog().push(Operation::Create),
            r is Ok ==> spec_supports(old(self).meta_view().caps, Operation::Create) && final(self).store() == old(self).store().insert(
                create_key_of(old(self).meta_view().root, path@, args.mode),
                Seq::empty(),
            ),
            spec_supports(old(self).meta_view().caps, Operation::Create) && old(self).reliable()
                ==> r is Ok,
    ;

    /// Read an object, or the window of it a byte range selects. Fails with
    /// `ObjectNotFound` when the object is absent, and with `Unexpected`
    /// when the range does not fit the stored value.
    fn read(&mut self, path: &str, args: OpRead) -> (r: Result<(RpRead, Self::Reader), Error>)
        ensures
            final(self).meta_view() == old(self).meta_view(),
            final(self).reliable() == old(self).reliable(),
            final(self).store() == old(self).store(),
            !spec_supports(old(self).meta_view().caps, Operation::Read) ==> {
                &&& r matches Err(e) && e.kind() == ErrorKind::Unsupported
                &&& final(self).oplog() == old(self).oplog()
            },
            spec_supports(old(self).meta_view().caps, Operation::Read) ==> final(self).oplog()
                == old(self).oplog().push(Operation::Read),
            r matches Ok((rp, reader)) ==> {
                let key = abs_path_of(old(self).meta_view().root, path@);
                let data = old(self).store()[key];
                &&& old(self).store().contains_key(key)
                &&& range_fits(args.range.spec_offset(), args.range.spec_size(), data.len())
                &&& reader.remaining() == range_window(
                    data,
                    args.range.spec_offset(),
                    args.range.spec_size(),
                )
                &&& rp.meta.content_length == Some(reader.remaining().len() as u64)
            },
            r matches Err(e) && e.kind() == ErrorKind::ObjectNotFound ==> !old(self).store().contains_key(abs_path_of(old(self).meta_view().root, path@)),
            spec_supports(old(self).meta_view().caps, Operation::Read) && old(self).reliable()
                ==> {
                let key = abs_path_of(old(self).meta_view().root, path@);
                &&& (old(self).store().contains_key(key) && range_fits(
                    args.range.spec_offset(),
                    args.range.spec_size(),
                    old(self).store()[key].len(),
                ) <==> r is Ok)
                &&& (!old(self).store().contains_key(key) ==> (r matches Err(e) && e.kind()
                    == ErrorKind::ObjectNotFound))
            },
    ;

    /// Write an object whole: the stored value becomes exactly the source
    /// bytes.
    fn write(&mut self, path: &str, args: OpWrite, source: Vec<u8>) -> (r: Result<RpWrite, Error>)
        ensures
            final(self).meta_view() == old(self).meta_view(),
            final(self).reliable() == old(self).reliable(),
            !spec_supports(old(self).meta_view().caps, Operation::Write) ==> {
                &&& r matches Err(e) && e.kind() == ErrorKind::Unsupported
                &&& final(self).store() == old(self).store()
                &&& final(self).oplog() == old(self).oplog()
            },
            spec_supports(old(self).meta_view().caps, Operation::Write) ==> final(self).oplog()
                == old(self).oplog().push(Operation::Write),
            r matches Ok(rp) ==> {
                &&& final(self).store() == old(self).store().insert(
                    abs_path_of(old(self).meta_view().root, path@),
                    source@,
                )
                &&& rp.written == source@.len()
            },
            spec_supports(old(self).meta_view().caps, Operation::Write) && old(self).reliable()
                ==> r is Ok,
    ;

    /// The metadata of one object. Fails with `ObjectNotFound` when absent.
    fn stat(&mut self, path: &str, args: OpStat) -> (r: Result<RpStat, Error>)
        ensures
            final(self).meta_view() == old(self).meta_view(),
            final(self).reliable() == old(self).reliable(),
            final(self).store() == old(self).store(),
            !spec_supports(old(self).meta_view().caps, Operation::Stat) ==> {
                &&& r matches Err(e) && e.kind() == ErrorKind::Unsupported
                &&& final(self).oplog() == old(self).oplog()
            },
            spec_supports(old(self).meta_view().caps, Operation::Stat) ==> final(self).oplog()
                == old(self).oplog().push(Operation::Stat),
            r matches Ok(rp) ==> {
                let key = abs_path_of(old(self).meta_view().root, path@);
                &&& old(self).store().contains_key(key)
                &&& rp.meta.mode == (if is_dir_path(key) {
                    ObjectMode::Dir
                } else {
                    ObjectMode::File
                })
                &&& rp.meta.content_length == Some(old(self).store()[key].len() as u64)
            },
            r matches Err(e) && e.kind() == ErrorKind::ObjectNotFound ==> !old(self).store().contains_key(abs_path_of(old(self).meta_view().root, path@)),
            spec_supports(old(self).meta_view().caps, Operation::Stat) && old(self).reliable()
                ==> {
                let key = abs_path_of(old(self).meta_view().root, path@);
                &&& (r is Ok <==> old(self).store().contains_key(key))
                &&& (!old(self).store().contains_key(key) ==> (r matches Err(e) && e.kind()
                    == ErrorKind::ObjectNotFound))
            },
    ;

    /// Delete one object. Deleting an absent object is not an error.
    fn delete(&mut self, path: &str, args: OpDelete) -> (r: Result<RpDelete, Error>)
        ensures
            final(self).meta_view() == old(self).meta_view(),
            final(self).reliable() == old(self).reliable(),
            !spec_supports(old(self).meta_view().caps, Operation::Delete) ==> {
                &&& r matches Err(e) && e.kind() == ErrorKind::Unsupported
                &&& final(self).store() == old(self).store()
                &&& final(self).oplog() == old(self).oplog()
            },
            spec_supports(old(self).meta_view().caps, Operation::Delete) ==> final(self).oplog()
                == old(self).oplog().push(Operation::Delete),
            r is Ok ==> final(self).store() == old(self).store().remove(
                abs_path_of(old(self).meta_view().root, path@),
            ),
            spec_supports(old(self).meta_view().caps, Operation::Delete) && old(self).reliable()
                ==> r is Ok,
    ;

    /// List the namespace a directory path addresses: a receipt and a pager
    /// over its entries.
    fn list(&mut self, path: &str, args: OpList) -> (r: Result<(RpList, Self::Pager), Error>)
        ensures
            final(self).meta_view() == old(self).meta_view(),
            final(self).reliable() == old(self).reliable(),
            final(self).store() == old(self).store(),
            !spec_supports(old(self).meta_view().caps, Operation::List) ==> {
                &&& r matches Err(e) && e.kind() == ErrorKind::Unsupported
                &&& final(self).oplog() == old(self).oplog()
            },
            spec_supports(old(self).meta_view().caps, Operation::List) ==> final(self).oplog()
                == old(self).oplog().push(Operation::List),
            r matches Ok((rp, pager)) ==> valid_listing(
                old(self).store(),
                list_ns_of(old(self).meta_view().root, path@),
                pager.remaining_entries(),
            ) && !pager.exhausted() && (old(self).reliable() ==> pager.infallible()),
            spec_supports(old(self).meta_view().caps, Operation::List) && old(self).reliable()
                ==> r is Ok,
    ;

    /// Return a signed request descriptor for later use; no I/O.
    fn presign(&mut self, path: &str, args: OpPresign) -> (r: Result<RpPresign, Error>)
        ensures
            final(self).meta_view() == old(self).meta_view(),
            final(self).reliable() == old(self).reliable(),
            final(self).store() == old(self).store(),
            !spec_supports(old(self).meta_view().caps, Operation::Presign) ==> {
                &&& r matches Err(e) && e.kind() == ErrorKind::Unsupported
                &&& final(self).oplog() == old(self).oplog()
            },
            spec_supports(old(self).meta_view().caps, Operation::Presign) ==> final(self).oplog()
                == old(self).oplog().push(Operation::Presign),
    ;

    /// Start a staged upload.
    fn create_multipart(&mut self, path: &str, args: OpCreateMultipart) -> (r: Result<
        RpCreateMultipart,
        Error,
    >)
        ensures
            final(self).meta_view() == old(self).meta_view(),
            final(self).reliable() == old(self).reliable(),
            final(self).store() == old(self).store(),
            !spec_supports(old(self).meta_view().caps, Operation::CreateMultipart) ==> {
                &&& r matches Err(e) && e.kind() == ErrorKind::Unsupported
                &&& final(self).oplog() == old(self).oplog()
            },
            spec_supports(old(self).meta_view().caps, Operation::CreateMultipart) ==> final(self).oplog() == old(self).oplog().push(Operation::CreateMultipart),
    ;

    /// Upload one part of a staged upload.
    fn write_multipart(&mut self, path: &str, args: OpWriteMultipart, source: Vec<u8>) -> (r:
        Result<RpWriteMultipart, Error>)
        ensures
            final(self).meta_view() == old(self).meta_view(),
            final(self).reliable() == old(self).reliable(),
            final(self).store() == old(self).store(),
            !spec_supports(old(self).meta_view().caps, Operation::WriteMultipart) ==> {
                &&& r matches Err(e) && e.kind() == ErrorKind::Unsupported
                &&& final(self).oplog() == old(self).oplog()
            },
            spec_supports(old(self).meta_view().caps, Operation::WriteMultipart) ==> final(self).oplog() == old(self).oplog().push(Operation::WriteMultipart),
    ;

    /// Seal a staged upload.
    fn complete_multipart(&mut self, path: &str, args: OpCompleteMultipart) -> (r: Result<
        RpCompleteMultipart,
        Error,
    >)
        ensures
            final(self).meta_view() == old(self).meta_view(),
            final(self).reliable() == old(self).reliable(),
            final(self).store() == old(self).store(),
            !spec_supports(old(self).meta_view().caps, Operation::CompleteMultipart) ==> {
                &&& r matches Err(e) && e.kind() == ErrorKind::Unsupported
                &&& final(self).oplog() == old(self).oplog()
            },
            spec_supports(old(self).meta_view().caps, Operation::CompleteMultipart) ==> final(self).oplog() == old(self).oplog().push(Operation::CompleteMultipart),
    ;

    /// Abandon a staged upload.
    fn abort_multipart(&mut self, path: &str, args: OpAbortMultipart) -> (r: Result<
        RpAbortMultipart,
        Error,
    >)
        ensures
            final(self).meta_view() == old(self).meta_view(),
            final(self).reliable() == old(self).reliable(),
            final(self).store() == old(self).store(),
            !spec_supports(old(self).meta_view().caps, Operation::AbortMultipart) ==> {
                &&& r matches Err(e) && e.kind() == ErrorKind::Unsupported
                &&& final(self).oplog() == old(self).oplog()
            },
            spec_supports(old(self).meta_view().caps, Operation::AbortMultipart) ==> final(self).oplog() == old(self).oplog().push(Operation::AbortMultipart),
    ;

    /// Give a reader back to the accessor that handed it out. This is the
    /// reader's finalization point: a layer that observes consumption flushes
    /// its accounting here, exactly once, whether or not the reader was fully
    /// consumed. It never touches the store.
    fn close_reader(&mut self, reader: Self::Reader)
        ensures
            final(self).meta_view() == old(self).meta_view(),
            final(self).reliable() == old(self).reliable(),
            final(self).store() == old(self).store(),
            final(self).oplog() == old(self).oplog(),
    ;
}

/// A transformation of accessors: given an inner accessor, produce an outer
/// one implementing the identical contract while adding behavior. A layer
/// preserves the inner accessor's identity, store, log and reliability.
pub trait Layer<A: Accessor> {
    /// The concrete accessor type the layer produces.
    type LayeredAccessor: Accessor;

    fn layer(&self, inner: A) -> (r: Self::LayeredAccessor)
        ensures
            r.meta_view() == inner.meta_view(),
            r.store() == inner.store(),
            r.oplog() == inner.oplog(),
            r.reliable() == inner.reliable(),
    ;
}

/// The last value a configuration map gives a key, scanning backwards.
pub open spec fn last_value_of(map: Seq<(String, String)>, key: Seq<char>) -> Option<Seq<char>>
    decreases map.len(),
{
    if map.len() == 0 {
        None
    } else if map.last().0@ == key {
        Some(map.last().1@)
    } else {
        last_value_of(map.drop_last(), key)
    }
}

/// The last non-empty value a configuration map gives a key, scanning
/// backwards; empty values are ignored, as the setters ignore them.
pub open spec fn last_nonempty_of(map: Seq<(String, String)>, key: Seq<char>) -> Option<Seq<char>>
    decreases map.len(),
{
    if map.len() == 0 {
        None
    } else if map.last().0@ == key && map.last().1@.len() > 0 {
        Some(map.last().1@)
    } else {
        last_nonempty_of(map.drop_last(), key)
    }
}

/// A backend configuration that can be turned into an accessor.
pub trait Builder: Sized {
    /// The accessor the builder builds.
    type Accessor: Accessor;

    /// Build a configuration from key/value pairs; unknown keys are ignored,
    /// and of repeated keys the last wins.
    fn from_map(map: Vec<(String, String)>) -> Self;

    /// Consume the configuration and build the backend. A fresh accessor has
    /// performed no I/O yet.
    fn build(&mut self) -> (r: Result<Self::Accessor, Error>)
        ensures
            r matches Ok(a) ==> a.oplog() == Seq::<Operation>::empty(),
    ;
}

} // verus!
