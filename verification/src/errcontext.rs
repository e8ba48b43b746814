//! The error-context layer.
//!
//! [`ErrorContextLayer`] wraps an accessor so that every error leaving the
//! chain is enriched — never replaced — with the backend's service, the
//! operation that failed and the path it was addressed to. The error's kind,
//! message, flag and source chain are preserved; the context is appended,
//! so no information is dropped on the way out.

use vstd::prelude::*;

use crate::accessor::{
    Accessor, Layer, OpAbortMultipart, OpCompleteMultipart, OpCreate, OpCreateMultipart, OpDelete,
    OpList, OpPresign, OpRead, OpStat, OpWrite, OpWriteMultipart, RpAbortMultipart,
    RpCompleteMultipart, RpCreate, RpCreateMultipart, RpDelete, RpList, RpPresign, RpRead, RpStat,
    RpWrite, RpWriteMultipart,
};
use crate::error::Error;
use crate::meta::{scheme_name_of, AccessorMetadata, MetaView, Scheme};
use crate::ops::{op_name_of, Operation};

verus! {

/// An error carries the enrichment of one failed call: its last three
/// context entries name the service, the operation and the path.
pub open spec fn enriched_with(e: Error, scheme: Scheme, op: Operation, path: Seq<char>) -> bool {
    let c = e.spec_context();
    &&& c.len() >= 3
    &&& c[c.len() - 3] == ("service"@, scheme_name_of(scheme))
    &&& c[c.len() - 2] == ("operation"@, op_name_of(op))
    &&& c[c.len() - 1] == ("path"@, path)
}

/// Enrich an error with the failed call's coordinates; everything else about
/// the error is preserved.
fn enrich(e: Error, scheme: Scheme, op: Operation, path: &str) -> (r: Error)
    ensures
        r.kind() == e.kind(),
        r.spec_message() == e.spec_message(),
        r.is_temporary() == e.is_temporary(),
        r.spec_has_source() == e.spec_has_source(),
        r.spec_context().len() == e.spec_context().len() + 3,
        enriched_with(r, scheme, op, path@),
{
    e.with_context("service", scheme.name()).with_context("operation", op.name()).with_context(
        "path",
        path,
    )
}

/// Wrap every operation of an accessor with error enrichment.
#[derive(Clone, Copy, Debug)]
pub struct ErrorContextLayer;

/// The accessor produced by [`ErrorContextLayer`]: it delegates, and every
/// error comes back carrying the call's coordinates.
pub struct ErrorContextAccessor<A: Accessor> {
    inner: A,
}

impl<A: Accessor> ErrorContextAccessor<A> {
    /// The wrapped accessor.
    pub fn inner(&self) -> (r: &A)
        ensures
            r.meta_view() == self.meta_view(),
            r.store() == self.store(),
            r.oplog() == self.oplog(),
            r.reliable() == self.reliable(),
    {
        &self.inner
    }
}

impl<A: Accessor> Layer<A> for ErrorContextLayer {
    type LayeredAccessor = ErrorContextAccessor<A>;

    fn layer(&self, inner: A) -> (r: ErrorContextAccessor<A>)
        ensures
            r.meta_view() == inner.meta_view(),
            r.store() == inner.store(),
            r.oplog() == inner.oplog(),
            r.reliable() == inner.reliable(),
    {
        ErrorContextAccessor { inner }
    }
}

impl<A: Accessor> Accessor for ErrorContextAccessor<A> {
    type Reader = A::Reader;

    type Pager = A::Pager;

    closed spec fn meta_view(&self) -> MetaView {
        self.inner.meta_view()
    }

    closed spec fn store(&self) -> Map<Seq<char>, Seq<u8>> {
        self.inner.store()
    }

    closed spec fn oplog(&self) -> Seq<Operation> {
        self.inner.oplog()
    }

    closed spec fn reliable(&self) -> bool {
        self.inner.reliable()
    }

    fn metadata(&self) -> (r: AccessorMetadata) {
        self.inner.metadata()
    }

    fn create(&mut self, path: &str, args: OpCreate) -> (r: Result<RpCreate, Error>)
        ensures
            r matches Err(e) ==> enriched_with(
                e,
                old(self).meta_view().scheme,
                Operation::Create,
                path@,
            ),
    {
        let scheme = self.inner.metadata().scheme();
        match self.inner.create(path, args) {
            Ok(v) => Ok(v),
            Err(e) => Err(enrich(e, scheme, Operation::Create, path)),
        }
    }

    fn read(&mut self, path: &str, args: OpRead) -> (r: Result<(RpRead, A::Reader), Error>)
        ensures
            r matches Err(e) ==> enriched_with(
                e,
                old(self).meta_view().scheme,
                Operation::Read,
                path@,
            ),
    {
        let scheme = self.inner.metadata().scheme();
        match self.inner.read(path, args) {
            Ok(v) => Ok(v),
            Err(e) => Err(enrich(e, scheme, Operation::Read, path)),
        }
    }

    fn write(&mut self, path: &str, args: OpWrite, source: Vec<u8>) -> (r: Result<RpWrite, Error>)
        ensures
            r matches Err(e) ==> enriched_with(
                e,
                old(self).meta_view().scheme,
                Operation::Write,
                path@,
            ),
    {
        let scheme = self.inner.metadata().scheme();
        match self.inner.write(path, args, source) {
            Ok(v) => Ok(v),
            Err(e) => Err(enrich(e, scheme, Operation::Write, path)),
        }
    }

    fn stat(&mut self, path: &str, args: OpStat) -> (r: Result<RpStat, Error>)
        ensures
            r matches Err(e) ==> enriched_with(
                e,
                old(self).meta_view().scheme,
                Operation::Stat,
                path@,
            ),
    {
        let scheme = self.inner.metadata().scheme();
        match self.inner.stat(path, args) {
            Ok(v) => Ok(v),
            Err(e) => Err(enrich(e, scheme, Operation::Stat, path)),
        }
    }

    fn delete(&mut self, path: &str, args: OpDelete) -> (r: Result<RpDelete, Error>)
        ensures
            r matches Err(e) ==> enriched_with(
                e,
                old(self).meta_view().scheme,
                Operation::Delete,
                path@,
            ),
    {
        let scheme = self.inner.metadata().scheme();
        match self.inner.delete(path, args) {
            Ok(v) => Ok(v),
            Err(e) => Err(enrich(e, scheme, Operation::Delete, path)),
        }
    }

    fn list(&mut self, path: &str, args: OpList) -> (r: Result<(RpList, A::Pager), Error>)
        ensures
            r matches Err(e) ==> enriched_with(
                e,
                old(self).meta_view().scheme,
                Operation::List,
                path@,
            ),
    {
        let scheme = self.inner.metadata().scheme();
        match self.inner.list(path, args) {
            Ok(v) => Ok(v),
            Err(e) => Err(enrich(e, scheme, Operation::List, path)),
        }
    }

    fn presign(&mut self, path: &str, args: OpPresign) -> (r: Result<RpPresign, Error>)
        ensures
            r matches Err(e) ==> enriched_with(
                e,
                old(self).meta_view().scheme,
                Operation::Presign,
                path@,
            ),
    {
        let scheme = self.inner.metadata().scheme();
        match self.inner.presign(path, args) {
            Ok(v) => Ok(v),
            Err(e) => Err(enrich(e, scheme, Operation::Presign, path)),
        }
    }

    fn create_multipart(&mut self, path: &str, args: OpCreateMultipart) -> (r: Result<
        RpCreateMultipart,
        Error,
    >)
        ensures
            r matches Err(e) ==> enriched_with(
                e,
                old(self).meta_view().scheme,
                Operation::CreateMultipart,
                path@,
            ),
    {
        let scheme = self.inner.metadata().scheme();
        match self.inner.create_multipart(path, args) {
            Ok(v) => Ok(v),
            Err(e) => Err(enrich(e, scheme, Operation::CreateMultipart, path)),
        }
    }

    fn write_multipart(&mut self, path: &str, args: OpWriteMultipart, source: Vec<u8>) -> (r:
        Result<RpWriteMultipart, Error>)
        ensures
            r matches Err(e) ==> enriched_with(
                e,
                old(self).meta_view().scheme,
                Operation::WriteMultipart,
                path@,
            ),
    {
        let scheme = self.inner.metadata().scheme();
        match self.inner.write_multipart(path, args, source) {
            Ok(v) => Ok(v),
            Err(e) => Err(enrich(e, scheme, Operation::WriteMultipart, path)),
        }
    }

    fn complete_multipart(&mut self, path: &str, args: OpCompleteMultipart) -> (r: Result<
        RpCompleteMultipart,
        Error,
    >)
        ensures
            r matches Err(e) ==> enriched_with(
                e,
                old(self).meta_view().scheme,
                Operation::CompleteMultipart,
                path@,
            ),
    {
        let scheme = self.inner.metadata().scheme();
        match self.inner.complete_multipart(path, args) {
            Ok(v) => Ok(v),
            Err(e) => Err(enrich(e, scheme, Operation::CompleteMultipart, path)),
        }
    }

    fn abort_multipart(&mut self, path: &str, args: OpAbortMultipart) -> (r: Result<
        RpAbortMultipart,
        Error,
    >)
        ensures
            r matches Err(e) ==> enriched_with(
                e,
                old(self).meta_view().scheme,
                Operation::AbortMultipart,
                path@,
            ),
    {
        let scheme = self.inner.metadata().scheme();
        match self.inner.abort_multipart(path, args) {
            Ok(v) => Ok(v),
            Err(e) => Err(enrich(e, scheme, Operation::AbortMultipart, path)),
        }
    }

    fn close_reader(&mut self, reader: A::Reader) {
        self.inner.close_reader(reader)
    }
}

} // verus!
