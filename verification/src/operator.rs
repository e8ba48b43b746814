//! The user-facing facade.
//!
//! An [`Operator`] is built from a backend accessor, optionally wrapped in
//! layers, and exposes the storage operations to callers. Layers are applied
//! inside-out through [`OperatorBuilder::layer`], each application producing
//! a new accessor type, so the chain's shape is fixed at build time.
//! [`BatchOperator`] drives the batch operations — ordered walks and
//! recursive delete — on top of the same accessor.

use vstd::prelude::*;

use crate::accessor::{
    list_ns_of, valid_listing, Accessor, Builder, Layer, OpCreate, OpDelete, OpList, OpRead,
    OpStat, OpWrite, RpCreate, RpDelete, RpList, RpRead, RpStat, RpWrite,
};
use crate::errcontext::{ErrorContextAccessor, ErrorContextLayer};
use crate::error::{Error, ErrorKind};
use crate::meta::{AccessorMetadata, EntryView, ObjectEntry, ObjectMode, Scheme};
use crate::ops::{spec_supports, Operation};
use crate::pager::Page;
use crate::path::{abs_path_of, is_dir_path};
use crate::range::{range_fits, range_window};
use crate::reader::OutputRead;
use crate::accessor::valid_list_entry;
use crate::path::parent_of;
use crate::walker::{
    appended_only, bottomup_ordered, topdown_ordered, walk_bottom_up_all, walk_top_down_all,
    WALK_LIST_LIMIT,
};

verus! {

/// The user-facing handle over a fully composed accessor chain.
pub struct Operator<A: Accessor> {
    accessor: A,
}

/// A typed builder for an [`Operator`]: wrap the accessor in layers, then
/// `finish`.
pub struct OperatorBuilder<A: Accessor> {
    accessor: A,
}

/// A handle for batch operations — walks and recursive delete — built by
/// [`Operator::batch`].
pub struct BatchOperator<A: Accessor> {
    src: Operator<A>,
}

/// A path handle: the name of one object, to be used with an operator's
/// operations.
pub struct Object {
    path: String,
}

impl View for Object {
    type V = Seq<char>;

    closed spec fn view(&self) -> Seq<char> {
        self.path@
    }
}

impl Object {
    /// Wrap a path.
    pub fn new(path: &str) -> (r: Object)
        ensures
            r@ == path@,
    {
        Object { path: path.to_owned() }
    }

    /// The object's path.
    pub fn path(&self) -> (r: &str)
        ensures
            r@ == self@,
    {
        self.path.as_str()
    }
}

/// The collected result of a walk: a forward-only cursor over its entries.
pub struct ObjectLister {
    entries: Vec<ObjectEntry>,
    cursor: usize,
}

impl ObjectLister {
    /// The entries not yet handed out, in walk order.
    pub closed spec fn remaining_entries(&self) -> Seq<EntryView> {
        if self.cursor <= self.entries@.len() {
            self.entries@.skip(self.cursor as int).map_values(|e: ObjectEntry| e@)
        } else {
            Seq::empty()
        }
    }

    /// Wrap collected entries.
    pub fn new(entries: Vec<ObjectEntry>) -> (r: ObjectLister)
        ensures
            r.remaining_entries() == entries@.map_values(|e: ObjectEntry| e@),
    {
        let r = ObjectLister { entries, cursor: 0 };
        proof {
            assert(r.remaining_entries() =~= r.entries@.map_values(|e: ObjectEntry| e@));
        }
        r
    }

    /// The next entry, or nothing once every entry has been handed out.
    pub fn next_entry(&mut self) -> (r: Option<ObjectEntry>)
        ensures
            match r {
                Some(e) => old(self).remaining_entries().len() > 0 && e@ == old(self).remaining_entries()[0] && final(self).remaining_entries() == old(self).remaining_entries().skip(1),
                None => old(self).remaining_entries().len() == 0 && final(self).remaining_entries()
                    == old(self).remaining_entries(),
            },
    {
        if self.cursor >= self.entries.len() {
            return None;
        }
        let e = self.entries[self.cursor].duplicate();
        self.cursor = self.cursor + 1;
        proof {
            assert(final(self).remaining_entries() =~= old(self).remaining_entries().skip(1));
        }
        Some(e)
    }

    /// How many entries are left.
    pub fn remaining_len(&self) -> (r: usize)
        ensures
            r == self.remaining_entries().len(),
    {
        if self.cursor <= self.entries.len() {
            self.entries.len() - self.cursor
        } else {
            0
        }
    }
}

impl<A: Accessor> Operator<A> {
    /// Start building an operator around a backend accessor. The
    /// error-context layer is attached first, so every error leaving the
    /// finished chain carries its call's coordinates.
    pub fn new(acc: A) -> (r: OperatorBuilder<ErrorContextAccessor<A>>)
        ensures
            r.accessor_meta() == acc.meta_view(),
            r.accessor_store() == acc.store(),
            r.accessor_oplog() == acc.oplog(),
            r.accessor_reliable() == acc.reliable(),
    {
        OperatorBuilder::new(acc)
    }

    /// Build the backend from its configuration, then start building an
    /// operator around it.
    pub fn create<B: Builder<Accessor = A>>(mut ab: B) -> (r: Result<
        OperatorBuilder<ErrorContextAccessor<A>>,
        Error,
    >)
        ensures
            r matches Ok(b) ==> b.accessor_oplog() == Seq::<Operation>::empty(),
    {
        let acc = ab.build()?;
        Ok(OperatorBuilder::new(acc))
    }

    /// Build the backend from configuration key/value pairs, then start
    /// building an operator around it. Of repeated keys the last wins.
    pub fn from_map<B: Builder<Accessor = A>>(map: Vec<(String, String)>) -> (r: Result<
        OperatorBuilder<ErrorContextAccessor<A>>,
        Error,
    >)
        ensures
            r matches Ok(b) ==> b.accessor_oplog() == Seq::<Operation>::empty(),
    {
        let mut ab = B::from_map(map);
        let acc = ab.build()?;
        Ok(OperatorBuilder::new(acc))
    }

    /// Build the backend from a sequence of configuration pairs; equivalent
    /// to [`Operator::from_map`].
    pub fn from_iter<B: Builder<Accessor = A>>(pairs: Vec<(String, String)>) -> (r: Result<
        OperatorBuilder<ErrorContextAccessor<A>>,
        Error,
    >)
        ensures
            r matches Ok(b) ==> b.accessor_oplog() == Seq::<Operation>::empty(),
    {
        Self::from_map::<B>(pairs)
    }

    /// The composed accessor's identity.
    pub closed spec fn meta_view(&self) -> crate::meta::MetaView {
        self.accessor.meta_view()
    }

    /// The store the operator fronts.
    pub closed spec fn store(&self) -> Map<Seq<char>, Seq<u8>> {
        self.accessor.store()
    }

    /// The operations that reached the backend.
    pub closed spec fn oplog(&self) -> Seq<Operation> {
        self.accessor.oplog()
    }

    /// Whether the backing store is failure-free.
    pub closed spec fn reliable(&self) -> bool {
        self.accessor.reliable()
    }

    /// The composed accessor chain, for layer implementers.
    pub fn inner(&self) -> (r: &A)
        ensures
            r.meta_view() == self.meta_view(),
            r.store() == self.store(),
            r.oplog() == self.oplog(),
            r.reliable() == self.reliable(),
    {
        &self.accessor
    }

    /// Wrap the composed chain in one more layer.
    pub fn layer<L: Layer<A>>(self, layer: L) -> (r: Operator<L::LayeredAccessor>)
        ensures
            r.meta_view() == self.meta_view(),
            r.store() == self.store(),
            r.oplog() == self.oplog(),
            r.reliable() == self.reliable(),
    {
        Operator { accessor: layer.layer(self.accessor) }
    }

    /// The identity of the underlying accessor.
    pub fn metadata(&self) -> (r: OperatorMetadata)
        ensures
            r@ == self.meta_view(),
    {
        OperatorMetadata { acc: self.accessor.metadata() }
    }

    /// A handle for batch operations.
    pub fn batch(self) -> (r: BatchOperator<A>)
        ensures
            r.src_meta() == self.meta_view(),
            r.src_store() == self.store(),
            r.src_oplog() == self.oplog(),
            r.src_reliable() == self.reliable(),
    {
        BatchOperator { src: self }
    }

    /// A path handle for one object.
    pub fn object(&self, path: &str) -> (r: Object)
        ensures
            r@ == path@,
    {
        Object::new(path)
    }

    /// Read an object, or the window a byte range selects.
    pub fn read(&mut self, path: &str, args: OpRead) -> (r: Result<(RpRead, A::Reader), Error>)
        ensures
            final(self).meta_view() == old(self).meta_view(),
            final(self).reliable() == old(self).reliable(),
            final(self).store() == old(self).store(),
            r matches Ok((rp, reader)) ==> {
                let key = abs_path_of(old(self).meta_view().root, path@);
                let data = old(self).store()[key];
                &&& old(self).store().contains_key(key)
                &&& range_fits(args.range.spec_offset(), args.range.spec_size(), data.len())
                &&& reader.remaining() == range_window(
                    data,
                    args.range.spec_offset(),
                    args.range.spec_size(),
                )
            },
            r matches Err(e) && e.kind() == ErrorKind::ObjectNotFound ==> !old(self).store().contains_key(abs_path_of(old(self).meta_view().root, path@)),
            spec_supports(old(self).meta_view().caps, Operation::Read) && old(self).reliable()
                ==> {
                let key = abs_path_of(old(self).meta_view().root, path@);
                r is Ok <==> old(self).store().contains_key(key) && range_fits(
                    args.range.spec_offset(),
                    args.range.spec_size(),
                    old(self).store()[key].len(),
                )
            },
    {
        self.accessor.read(path, args)
    }

    /// Write an object whole.
    pub fn write(&mut self, path: &str, args: OpWrite, source: Vec<u8>) -> (r: Result<
        RpWrite,
        Error,
    >)
        ensures
            final(self).meta_view() == old(self).meta_view(),
            final(self).reliable() == old(self).reliable(),
            r matches Ok(rp) ==> final(self).store() == old(self).store().insert(
                abs_path_of(old(self).meta_view().root, path@),
                source@,
            ) && rp.written == source@.len(),
            spec_supports(old(self).meta_view().caps, Operation::Write) && old(self).reliable()
                ==> r is Ok,
    {
        self.accessor.write(path, args, source)
    }

    /// Create a leaf object or a directory marker.
    pub fn create_object(&mut self, path: &str, args: OpCreate) -> (r: Result<RpCreate, Error>)
        ensures
            final(self).meta_view() == old(self).meta_view(),
            final(self).reliable() == old(self).reliable(),
            r is Ok ==> final(self).store() == old(self).store().insert(
                crate::accessor::create_key_of(old(self).meta_view().root, path@, args.mode),
                Seq::empty(),
            ),
            spec_supports(old(self).meta_view().caps, Operation::Create) && old(self).reliable()
                ==> r is Ok,
    {
        self.accessor.create(path, args)
    }

    /// The metadata of one object.
    pub fn stat(&mut self, path: &str, args: OpStat) -> (r: Result<RpStat, Error>)
        ensures
            final(self).meta_view() == old(self).meta_view(),
            final(self).reliable() == old(self).reliable(),
            final(self).store() == old(self).store(),
            r matches Ok(rp) ==> {
                let key = abs_path_of(old(self).meta_view().root, path@);
                &&& old(self).store().contains_key(key)
                &&& rp.meta.mode == (if is_dir_path(key) {
                    ObjectMode::Dir
                } else {
                    ObjectMode::File
                })
                &&& rp.meta.content_length == Some(old(self).store()[key].len() as u64)
            },
            r matches Err(e) && e.kind() == ErrorKind::ObjectNotFound ==> !old(self).store().contains_key(abs_path_of(old(self).meta_view().root, path@)),
            spec_supports(old(self).meta_view().caps, Operation::Stat) && old(self).reliable()
                ==> (r is Ok <==> old(self).store().contains_key(
                abs_path_of(old(self).meta_view().root, path@),
            )),
    {
        self.accessor.stat(path, args)
    }

    /// Delete one object; deleting an absent object is not an error.
    pub fn delete(&mut self, path: &str, args: OpDelete) -> (r: Result<RpDelete, Error>)
        ensures
            final(self).meta_view() == old(self).meta_view(),
            final(self).reliable() == old(self).reliable(),
            r is Ok ==> final(self).store() == old(self).store().remove(
                abs_path_of(old(self).meta_view().root, path@),
            ),
            spec_supports(old(self).meta_view().caps, Operation::Delete) && old(self).reliable()
                ==> r is Ok,
    {
        self.accessor.delete(path, args)
    }

    /// List the namespace a directory path addresses.
    pub fn list(&mut self, path: &str, args: OpList) -> (r: Result<(RpList, A::Pager), Error>)
        ensures
            final(self).meta_view() == old(self).meta_view(),
            final(self).reliable() == old(self).reliable(),
            final(self).store() == old(self).store(),
            r matches Ok((rp, pager)) ==> valid_listing(
                old(self).store(),
                list_ns_of(old(self).meta_view().root, path@),
                pager.remaining_entries(),
            ),
            spec_supports(old(self).meta_view().caps, Operation::List) && old(self).reliable()
                ==> r is Ok,
    {
        self.accessor.list(path, args)
    }

    /// Give a reader back to the chain that handed it out, running its
    /// finalization exactly once.
    pub fn close_reader(&mut self, reader: A::Reader)
        ensures
            final(self).meta_view() == old(self).meta_view(),
            final(self).reliable() == old(self).reliable(),
            final(self).store() == old(self).store(),
            final(self).oplog() == old(self).oplog(),
    {
        self.accessor.close_reader(reader)
    }

    /// Check that the operator can reach its backend: list the root and
    /// surface any error other than the root not existing yet.
    pub fn check(&mut self) -> (r: Result<(), Error>)
        ensures
            final(self).meta_view() == old(self).meta_view(),
            final(self).reliable() == old(self).reliable(),
            final(self).store() == old(self).store(),
            old(self).reliable() && spec_supports(old(self).meta_view().caps, Operation::List)
                ==> r is Ok,
            r matches Err(e) ==> e.kind() != ErrorKind::ObjectNotFound,
            spec_supports(old(self).meta_view().caps, Operation::List) ==> final(self).oplog()
                == old(self).oplog().push(Operation::List),
            !spec_supports(old(self).meta_view().caps, Operation::List) ==> final(self).oplog()
                == old(self).oplog() && r is Err,
    {
        match self.accessor.list("/", OpList::new()) {
            Ok(_) => Ok(()),
            Err(e) => {
                if e.kind() == ErrorKind::ObjectNotFound {
                    Ok(())
                } else {
                    Err(e)
                }
            },
        }
    }
}

impl<A: Accessor> OperatorBuilder<A> {
    /// The wrapped accessor's identity.
    pub closed spec fn accessor_meta(&self) -> crate::meta::MetaView {
        self.accessor.meta_view()
    }

    /// The wrapped accessor's store.
    pub closed spec fn accessor_store(&self) -> Map<Seq<char>, Seq<u8>> {
        self.accessor.store()
    }

    /// The wrapped accessor's operation log.
    pub closed spec fn accessor_oplog(&self) -> Seq<Operation> {
        self.accessor.oplog()
    }

    /// Whether the wrapped accessor's store is failure-free.
    pub closed spec fn accessor_reliable(&self) -> bool {
        self.accessor.reliable()
    }

    /// Start a builder around a backend accessor, attaching the
    /// error-context layer so that every error leaving the chain carries its
    /// call's coordinates. No read-completion layer is attached or needed:
    /// every reader's contract pins the bytes it has left exactly, so a
    /// short read near the end of a stream is never ambiguous.
    pub fn new(accessor: A) -> (r: OperatorBuilder<ErrorContextAccessor<A>>)
        ensures
            r.accessor_meta() == accessor.meta_view(),
            r.accessor_store() == accessor.store(),
            r.accessor_oplog() == accessor.oplog(),
            r.accessor_reliable() == accessor.reliable(),
    {
        OperatorBuilder { accessor }.layer(ErrorContextLayer)
    }

    /// Wrap the accessor in one more layer; the layer preserves the
    /// accessor's contract.
    pub fn layer<L: Layer<A>>(self, layer: L) -> (r: OperatorBuilder<L::LayeredAccessor>)
        ensures
            r.accessor_meta() == self.accessor_meta(),
            r.accessor_store() == self.accessor_store(),
            r.accessor_oplog() == self.accessor_oplog(),
            r.accessor_reliable() == self.accessor_reliable(),
    {
        OperatorBuilder { accessor: layer.layer(self.accessor) }
    }

    /// Finish composing and expose the chain as an operator.
    pub fn finish(self) -> (r: Operator<A>)
        ensures
            r.meta_view() == self.accessor_meta(),
            r.store() == self.accessor_store(),
            r.oplog() == self.accessor_oplog(),
            r.reliable() == self.accessor_reliable(),
    {
        Operator { accessor: self.accessor }
    }
}

impl<A: Accessor> BatchOperator<A> {
    /// The source operator's identity.
    pub closed spec fn src_meta(&self) -> crate::meta::MetaView {
        self.src.meta_view()
    }

    /// The source operator's store.
    pub closed spec fn src_store(&self) -> Map<Seq<char>, Seq<u8>> {
        self.src.store()
    }

    /// The source operator's operation log.
    pub closed spec fn src_oplog(&self) -> Seq<Operation> {
        self.src.oplog()
    }

    /// Whether the source operator's store is failure-free.
    pub closed spec fn src_reliable(&self) -> bool {
        self.src.reliable()
    }

    /// Wrap an operator for batch work.
    pub fn new(op: Operator<A>) -> (r: BatchOperator<A>)
        ensures
            r.src_meta() == op.meta_view(),
            r.src_store() == op.store(),
            r.src_oplog() == op.oplog(),
            r.src_reliable() == op.reliable(),
    {
        BatchOperator { src: op }
    }

    /// Hand the operator back.
    pub fn into_operator(self) -> (r: Operator<A>)
        ensures
            r.meta_view() == self.src_meta(),
            r.store() == self.src_store(),
            r.oplog() == self.src_oplog(),
            r.reliable() == self.src_reliable(),
    {
        self.src
    }

    /// Walk a directory tree in the order best suited to the backend; the
    /// order across siblings is backend-defined and not to be relied on.
    pub fn walk(&mut self, path: &str) -> (r: Result<ObjectLister, Error>)
        ensures
            final(self).src_meta() == old(self).src_meta(),
            final(self).src_store() == old(self).src_store(),
            final(self).src_reliable() == old(self).src_reliable(),
            appended_only(old(self).src_oplog(), final(self).src_oplog(), Operation::List),
            r matches Ok(lister) ==> {
                &&& topdown_ordered(lister.remaining_entries())
                &&& forall|i: int, j: int|
                    0 <= i < j < lister.remaining_entries().len() ==> (
                    #[trigger] lister.remaining_entries()[i]).path != (
                    #[trigger] lister.remaining_entries()[j]).path
                &&& forall|i: int|
                    1 <= i < lister.remaining_entries().len() ==> valid_list_entry(
                        old(self).src_store(),
                        parent_of((#[trigger] lister.remaining_entries()[i]).path),
                        lister.remaining_entries()[i],
                    )
            },
            old(self).src_reliable() && spec_supports(
                old(self).src_meta().caps,
                Operation::List,
            ) && r is Err ==> final(self).src_oplog().len() == old(self).src_oplog().len()
                + WALK_LIST_LIMIT,
    {
        self.walk_top_down(path)
    }

    /// Walk a directory tree top-down: every directory strictly before
    /// anything discovered inside it.
    pub fn walk_top_down(&mut self, path: &str) -> (r: Result<ObjectLister, Error>)
        ensures
            final(self).src_meta() == old(self).src_meta(),
            final(self).src_store() == old(self).src_store(),
            final(self).src_reliable() == old(self).src_reliable(),
            appended_only(old(self).src_oplog(), final(self).src_oplog(), Operation::List),
            r matches Ok(lister) ==> {
                &&& topdown_ordered(lister.remaining_entries())
                &&& forall|i: int, j: int|
                    0 <= i < j < lister.remaining_entries().len() ==> (
                    #[trigger] lister.remaining_entries()[i]).path != (
                    #[trigger] lister.remaining_entries()[j]).path
                &&& forall|i: int|
                    1 <= i < lister.remaining_entries().len() ==> valid_list_entry(
                        old(self).src_store(),
                        parent_of((#[trigger] lister.remaining_entries()[i]).path),
                        lister.remaining_entries()[i],
                    )
            },
            old(self).src_reliable() && spec_supports(
                old(self).src_meta().caps,
                Operation::List,
            ) && r is Err ==> final(self).src_oplog().len() == old(self).src_oplog().len()
                + WALK_LIST_LIMIT,
    {
        let entries = walk_top_down_all(&mut self.src.accessor, path)?;
        Ok(ObjectLister::new(entries))
    }

    /// Walk a directory tree bottom-up: everything discovered inside a
    /// directory strictly before the directory itself.
    pub fn walk_bottom_up(&mut self, path: &str) -> (r: Result<ObjectLister, Error>)
        ensures
            final(self).src_meta() == old(self).src_meta(),
            final(self).src_store() == old(self).src_store(),
            final(self).src_reliable() == old(self).src_reliable(),
            appended_only(old(self).src_oplog(), final(self).src_oplog(), Operation::List),
            r matches Ok(lister) ==> {
                &&& bottomup_ordered(lister.remaining_entries())
                &&& forall|i: int, j: int|
                    0 <= i < j < lister.remaining_entries().len() ==> (
                    #[trigger] lister.remaining_entries()[i]).path != (
                    #[trigger] lister.remaining_entries()[j]).path
                &&& forall|i: int|
                    0 <= i < lister.remaining_entries().len() - 1 ==> valid_list_entry(
                        old(self).src_store(),
                        parent_of((#[trigger] lister.remaining_entries()[i]).path),
                        lister.remaining_entries()[i],
                    )
            },
            old(self).src_reliable() && spec_supports(
                old(self).src_meta().caps,
                Operation::List,
            ) && r is Err ==> final(self).src_oplog().len() == old(self).src_oplog().len()
                + WALK_LIST_LIMIT,
    {
        let entries = walk_bottom_up_all(&mut self.src.accessor, path)?;
        Ok(ObjectLister::new(entries))
    }

    /// Remove the object at `path` and, when it is a directory, everything
    /// inside it, children strictly before their parent. The first failure
    /// is surfaced; what was already deleted stays deleted, and nothing is
    /// ever added or altered — the store only shrinks.
    ///
    /// A leaf object is removed by exactly one delete call, with no listing:
    /// the operation log grows by exactly a stat and a delete. A missing
    /// object surfaces the stat's not-found error with nothing issued after
    /// the stat. On a reliable backend a directory removal succeeds unless
    /// the tree exhausts the walk limit, and on success the directory's own
    /// marker is gone.
    pub fn remove_all(&mut self, path: &str) -> (r: Result<(), Error>)
        ensures
            final(self).src_meta() == old(self).src_meta(),
            final(self).src_reliable() == old(self).src_reliable(),
            forall|i: int|
                old(self).src_oplog().len() <= i < final(self).src_oplog().len() ==> (final(self).src_oplog()[i] == Operation::Stat || final(self).src_oplog()[i]
                    == Operation::Delete || final(self).src_oplog()[i] == Operation::List),
            // the stat comes first; nothing is issued before it
            final(self).src_oplog().len() > old(self).src_oplog().len() ==> final(self).src_oplog()[old(self).src_oplog().len() as int] == Operation::Stat,
            // the capability gate: no stat capability, no I/O at all
            !spec_supports(old(self).src_meta().caps, Operation::Stat) ==> r is Err && final(self).src_oplog() == old(self).src_oplog() && final(self).src_store() == old(self).src_store(),
            // the store only shrinks: nothing is added or altered
            r is Ok || old(self).src_reliable() ==> (forall|k: Seq<char>| #[trigger]
                final(self).src_store().contains_key(k) ==> old(self).src_store().contains_key(k)
                    && final(self).src_store()[k] == old(self).src_store()[k]),
            // a missing object surfaces the stat's error, with nothing after
            ({
                let key = abs_path_of(old(self).src_meta().root, path@);
                old(self).src_reliable() && spec_supports(old(self).src_meta().caps, Operation::Stat)
                    && !old(self).src_store().contains_key(key) ==> (r matches Err(e) && e.kind()
                    == ErrorKind::ObjectNotFound) && final(self).src_oplog() == old(self).src_oplog().push(Operation::Stat) && final(self).src_store() == old(self).src_store()
            }),
            // a leaf is removed with exactly one delete and no listing
            ({
                let key = abs_path_of(old(self).src_meta().root, path@);
                old(self).src_reliable() && spec_supports(old(self).src_meta().caps, Operation::Stat)
                    && spec_supports(old(self).src_meta().caps, Operation::Delete) && old(self).src_store().contains_key(key) && !is_dir_path(key) ==> r is Ok
                    && final(self).src_oplog() == old(self).src_oplog() + seq![
                    Operation::Stat,
                    Operation::Delete,
                ] && final(self).src_store() == old(self).src_store().remove(key)
            }),
            // a directory removal on a reliable backend fails only by
            // exhausting the walk limit, and success removes its marker
            ({
                let key = abs_path_of(old(self).src_meta().root, path@);
                let kd = abs_path_of(
                    old(self).src_meta().root,
                    (if is_dir_path(path@) {
                        path@
                    } else {
                        path@ + seq!['/']
                    }),
                );
                old(self).src_reliable() && spec_supports(old(self).src_meta().caps, Operation::Stat)
                    && spec_supports(old(self).src_meta().caps, Operation::Delete)
                    && spec_supports(old(self).src_meta().caps, Operation::List) && old(self).src_store().contains_key(key) && is_dir_path(key) ==> (r is Ok || final(self).src_oplog().len() > old(self).src_oplog().len() + WALK_LIST_LIMIT) && (r is Ok
                    ==> !final(self).src_store().contains_key(kd))
            }),
    {
        let ghost base = old(self).src_oplog();
        let ghost store_base = old(self).src_store();
        let ghost root0 = old(self).src_meta().root;
        proof {
            lemma_batch_refl(base);
        }
        let st = match self.src.accessor.stat(path, crate::accessor::OpStat::new()) {
            Ok(v) => v,
            Err(e) => {
                proof {
                    if spec_supports(old(self).src_meta().caps, Operation::Stat) {
                        lemma_batch_push(base, base, Operation::Stat);
                        assert(self.src.accessor.oplog() == base.push(Operation::Stat));
                        if old(self).src_reliable() && !old(self).src_store().contains_key(
                            abs_path_of(root0, path@),
                        ) {
                            assert(e.kind() == ErrorKind::ObjectNotFound);
                        }
                    }
                }
                return Err(e);
            },
        };
        proof {
            lemma_batch_push(base, base, Operation::Stat);
            assert(spec_supports(old(self).src_meta().caps, Operation::Stat));
        }
        let is_leaf = match st.meta.mode() {
            ObjectMode::File => true,
            ObjectMode::Dir => false,
        };
        if is_leaf {
            let ghost mid = self.src.accessor.oplog();
            match self.src.accessor.delete(path, OpDelete::new()) {
                Ok(_) => {
                    proof {
                        lemma_batch_push(base, mid, Operation::Delete);
                        assert(self.src.accessor.oplog() =~= base + seq![
                            Operation::Stat,
                            Operation::Delete,
                        ]);
                        lemma_remove_frame(store_base, abs_path_of(root0, path@));
                    }
                    Ok(())
                },
                Err(e) => {
                    proof {
                        if spec_supports(old(self).src_meta().caps, Operation::Delete) {
                            lemma_batch_push(base, mid, Operation::Delete);
                        }
                    }
                    Err(e)
                },
            }
        } else {
            let ghost mid = self.src.accessor.oplog();
            let walk_result = walk_bottom_up_all(&mut self.src.accessor, path);
            proof {
                lemma_batch_join(base, mid, self.src.accessor.oplog());
                assert(self.src.accessor.oplog()[base.len() as int] == Operation::Stat) by {
                    let cur = self.src.accessor.oplog();
                    assert(cur.subrange(0, mid.len() as int)[base.len() as int] == cur[base.len() as int]);
                }
            }
            let entries = match walk_result {
                Ok(v) => v,
                Err(e) => {
                    return Err(e);
                },
            };
            let n = entries.len();
            let mut i: usize = 0;
            while i < n
                invariant
                    n == entries@.len(),
                    n >= 1,
                    i <= n,
                    self.src.accessor.meta_view() == old(self).src_meta(),
                    self.src.accessor.reliable() == old(self).src_reliable(),
                    batch_ops_only(base, self.src.accessor.oplog()),
                    base == old(self).src_oplog(),
                    store_base == old(self).src_store(),
                    root0 == old(self).src_meta().root,
                    spec_supports(old(self).src_meta().caps, Operation::Stat),
                    old(self).src_reliable() ==> old(self).src_store().contains_key(
                        abs_path_of(root0, path@),
                    ),
                    self.src.accessor.oplog().len() > base.len(),
                    self.src.accessor.oplog()[base.len() as int] == Operation::Stat,
                    // nothing was added or altered so far
                    forall|k: Seq<char>| #[trigger]
                        self.src.accessor.store().contains_key(k) ==> store_base.contains_key(k)
                            && self.src.accessor.store()[k] == store_base[k],
                    // everything deleted so far stays gone
                    forall|j: int|
                        0 <= j < i ==> !self.src.accessor.store().contains_key(
                            abs_path_of(root0, (#[trigger] entries@[j])@.path),
                        ),
                decreases n - i,
            {
                let ghost pre = self.src.accessor.oplog();
                let ghost store_pre = self.src.accessor.store();
                let entry_path = entries[i].path();
                match self.src.accessor.delete(entry_path, OpDelete::new()) {
                    Ok(_) => {
                        proof {
                            if self.src.accessor.oplog() != pre {
                                lemma_batch_push(base, pre, Operation::Delete);
                            }
                            let key_i = abs_path_of(root0, entries@[i as int]@.path);
                            assert(self.src.accessor.store() == store_pre.remove(key_i));
                            lemma_remove_frame(store_pre, key_i);
                            assert forall|k: Seq<char>|
                                self.src.accessor.store().contains_key(k) implies
                                store_base.contains_key(k) && self.src.accessor.store()[k]
                                == store_base[k] by {
                                assert(store_pre.remove(key_i).contains_key(k));
                                assert(store_pre.contains_key(k));
                                assert(self.src.accessor.store()[k] == store_pre.remove(key_i)[k]);
                            }
                        }
                    },
                    Err(e) => {
                        proof {
                            if self.src.accessor.oplog() != pre {
                                lemma_batch_push(base, pre, Operation::Delete);
                            }
                        }
                        return Err(e);
                    },
                }
                i = i + 1;
            }
            proof {
                assert(!self.src.accessor.store().contains_key(
                    abs_path_of(root0, entries@[n - 1]@.path),
                ));
            }
            Ok(())
        }
    }
}

/// Removing a key only shrinks a map: every surviving key keeps its value.
proof fn lemma_remove_frame(m: Map<Seq<char>, Seq<u8>>, key: Seq<char>)
    ensures
        forall|k: Seq<char>| #[trigger]
            m.remove(key).contains_key(k) ==> m.contains_key(k) && m.remove(key)[k] == m[k],
{
}

/// The batch operations extend the log with stats, deletes and listings
/// alone.
pub open spec fn batch_ops_only(base: Seq<Operation>, cur: Seq<Operation>) -> bool {
    &&& cur.len() >= base.len()
    &&& cur.subrange(0, base.len() as int) == base
    &&& forall|i: int|
        base.len() <= i < cur.len() ==> (cur[i] == Operation::Stat || cur[i] == Operation::Delete
            || cur[i] == Operation::List)
}

proof fn lemma_batch_refl(base: Seq<Operation>)
    ensures
        batch_ops_only(base, base),
{
    assert(base.subrange(0, base.len() as int) =~= base);
}

proof fn lemma_batch_push(base: Seq<Operation>, cur: Seq<Operation>, op: Operation)
    requires
        batch_ops_only(base, cur),
        op == Operation::Stat || op == Operation::Delete || op == Operation::List,
    ensures
        batch_ops_only(base, cur.push(op)),
{
    assert(cur.push(op).subrange(0, base.len() as int) =~= cur.subrange(0, base.len() as int));
}

proof fn lemma_batch_join(base: Seq<Operation>, mid: Seq<Operation>, cur: Seq<Operation>)
    requires
        batch_ops_only(base, mid),
        crate::walker::appended_only(mid, cur, Operation::List),
    ensures
        batch_ops_only(base, cur),
{
    assert(cur.subrange(0, base.len() as int) =~= cur.subrange(0, mid.len() as int).subrange(
        0,
        base.len() as int,
    ));
    assert forall|i: int| base.len() <= i < cur.len() implies (cur[i] == Operation::Stat || cur[i]
        == Operation::Delete || cur[i] == Operation::List) by {
        if i < mid.len() {
            assert(cur.subrange(0, mid.len() as int)[i] == cur[i]);
            assert(mid[i] == Operation::Stat || mid[i] == Operation::Delete || mid[i]
                == Operation::List);
        }
    }
}

/// The identity of an operator: scheme, root, name and boolean capability
/// queries derived from the declared capability set.
pub struct OperatorMetadata {
    acc: AccessorMetadata,
}

impl View for OperatorMetadata {
    type V = crate::meta::MetaView;

    closed spec fn view(&self) -> crate::meta::MetaView {
        self.acc@
    }
}

impl OperatorMetadata {
    /// The backend's scheme.
    pub fn scheme(&self) -> (r: Scheme)
        ensures
            r == self@.scheme,
    {
        self.acc.scheme()
    }

    /// The normalized root all operations happen under.
    pub fn root(&self) -> (r: &str)
        ensures
            r@ == self@.root,
    {
        self.acc.root()
    }

    /// The backend's name; empty when the backend has no namespace concept.
    pub fn name(&self) -> (r: &str)
        ensures
            r@ == self@.name,
    {
        self.acc.name()
    }

    /// Whether the backend declares support for `read`.
    pub fn can_read(&self) -> (r: bool)
        ensures
            r == self@.caps.read,
    {
        self.acc.capabilities().has_read()
    }

    /// Whether the backend declares support for `write`.
    pub fn can_write(&self) -> (r: bool)
        ensures
            r == self@.caps.write,
    {
        self.acc.capabilities().has_write()
    }

    /// Whether the backend declares support for `list`.
    pub fn can_list(&self) -> (r: bool)
        ensures
            r == self@.caps.list,
    {
        self.acc.capabilities().has_list()
    }

    /// Whether the backend declares support for `presign`.
    pub fn can_presign(&self) -> (r: bool)
        ensures
            r == self@.caps.presign,
    {
        self.acc.capabilities().presign_flag()
    }

    /// Whether the backend declares support for staged uploads.
    pub fn can_multipart(&self) -> (r: bool)
        ensures
            r == self@.caps.multipart,
    {
        self.acc.capabilities().multipart_flag()
    }

    /// Whether the backend declares support for blocking execution.
    pub fn can_blocking(&self) -> (r: bool)
        ensures
            r == self@.caps.blocking,
    {
        self.acc.capabilities().blocking_flag()
    }
}

} // verus!
