//! Operations and capabilities.
//!
//! An [`Operation`] names every primitive call an accessor can serve; it is
//! used as a label for observability and for capability checks, never as
//! control data. A [`CapabilitySet`] records which classes of operations a
//! backend declares support for; callers and layers must check it before
//! dispatch, and an accessor must never silently succeed an operation outside
//! its declared capability set.

use vstd::prelude::*;

use crate::error::{Error, ErrorKind};

verus! {

/// One primitive operation of the storage interface.
#[derive(Clone, Copy, Debug, PartialEq, Eq, Structural)]
pub enum Operation {
    Metadata,
    Create,
    Read,
    Write,
    Stat,
    Delete,
    List,
    Presign,
    CreateMultipart,
    WriteMultipart,
    CompleteMultipart,
    AbortMultipart,
    BlockingCreate,
    BlockingRead,
    BlockingWrite,
    BlockingStat,
    BlockingDelete,
    BlockingList,
}

/// The label of an operation, as observability output spells it.
pub open spec fn op_name_of(op: Operation) -> Seq<char> {
    match op {
        Operation::Metadata => "metadata"@,
        Operation::Create => "create"@,
        Operation::Read => "read"@,
        Operation::Write => "write"@,
        Operation::Stat => "stat"@,
        Operation::Delete => "delete"@,
        Operation::List => "list"@,
        Operation::Presign => "presign"@,
        Operation::CreateMultipart => "create_multipart"@,
        Operation::WriteMultipart => "write_multipart"@,
        Operation::CompleteMultipart => "complete_multipart"@,
        Operation::AbortMultipart => "abort_multipart"@,
        Operation::BlockingCreate => "blocking_create"@,
        Operation::BlockingRead => "blocking_read"@,
        Operation::BlockingWrite => "blocking_write"@,
        Operation::BlockingStat => "blocking_stat"@,
        Operation::BlockingDelete => "blocking_delete"@,
        Operation::BlockingList => "blocking_list"@,
    }
}

impl Operation {
    /// The operation's label, used in error context and observability output.
    pub fn name(&self) -> (r: &'static str)
        ensures
            r@ == op_name_of(*self),
    {
        match self {
            Operation::Metadata => "metadata",
            Operation::Create => "create",
            Operation::Read => "read",
            Operation::Write => "write",
            Operation::Stat => "stat",
            Operation::Delete => "delete",
            Operation::List => "list",
            Operation::Presign => "presign",
            Operation::CreateMultipart => "create_multipart",
            Operation::WriteMultipart => "write_multipart",
            Operation::CompleteMultipart => "complete_multipart",
            Operation::AbortMultipart => "abort_multipart",
            Operation::BlockingCreate => "blocking_create",
            Operation::BlockingRead => "blocking_read",
            Operation::BlockingWrite => "blocking_write",
            Operation::BlockingStat => "blocking_stat",
            Operation::BlockingDelete => "blocking_delete",
            Operation::BlockingList => "blocking_list",
        }
    }
}

/// One class of operations a backend can declare support for.
#[derive(Clone, Copy, Debug, PartialEq, Eq, Structural)]
pub enum Capability {
    Read,
    Write,
    List,
    Presign,
    Multipart,
    Blocking,
}

/// The set of capabilities a backend declares. Immutable per accessor.
#[derive(Clone, Copy, Debug, PartialEq, Eq, Structural)]
pub struct CapabilitySet {
    pub read: bool,
    pub write: bool,
    pub list: bool,
    pub presign: bool,
    pub multipart: bool,
    pub blocking: bool,
}

impl CapabilitySet {
    /// Spec-level membership test.
    pub open spec fn spec_has(&self, c: Capability) -> bool {
        match c {
            Capability::Read => self.read,
            Capability::Write => self.write,
            Capability::List => self.list,
            Capability::Presign => self.presign,
            Capability::Multipart => self.multipart,
            Capability::Blocking => self.blocking,
        }
    }

    /// The empty capability set.
    pub fn none() -> (r: CapabilitySet)
        ensures
            forall|c: Capability| !r.spec_has(c),
    {
        CapabilitySet { read: false, write: false, list: false, presign: false, multipart: false, blocking: false }
    }

    /// O(1) membership test.
    #[verifier::when_used_as_spec(spec_has)]
    pub fn has(&self, c: Capability) -> (r: bool)
        ensures
            r == self.spec_has(c),
    {
        match c {
            Capability::Read => self.read,
            Capability::Write => self.write,
            Capability::List => self.list,
            Capability::Presign => self.presign,
            Capability::Multipart => self.multipart,
            Capability::Blocking => self.blocking,
        }
    }

    pub fn with_read(self) -> (r: CapabilitySet)
        ensures
            r == (CapabilitySet { read: true, ..self }),
    {
        CapabilitySet { read: true, ..self }
    }

    pub fn with_write(self) -> (r: CapabilitySet)
        ensures
            r == (CapabilitySet { write: true, ..self }),
    {
        CapabilitySet { write: true, ..self }
    }

    pub fn with_list(self) -> (r: CapabilitySet)
        ensures
            r == (CapabilitySet { list: true, ..self }),
    {
        CapabilitySet { list: true, ..self }
    }

    pub fn with_presign(self) -> (r: CapabilitySet)
        ensures
            r == (CapabilitySet { presign: true, ..self }),
    {
        CapabilitySet { presign: true, ..self }
    }

    pub fn with_multipart(self) -> (r: CapabilitySet)
        ensures
            r == (CapabilitySet { multipart: true, ..self }),
    {
        CapabilitySet { multipart: true, ..self }
    }

    pub fn with_blocking(self) -> (r: CapabilitySet)
        ensures
            r == (CapabilitySet { blocking: true, ..self }),
    {
        CapabilitySet { blocking: true, ..self }
    }

    pub fn has_read(&self) -> (r: bool)
        ensures
            r == self.read,
    {
        self.read
    }

    pub fn has_write(&self) -> (r: bool)
        ensures
            r == self.write,
    {
        self.write
    }

    pub fn has_list(&self) -> (r: bool)
        ensures
            r == self.list,
    {
        self.list
    }

    pub fn presign_flag(&self) -> (r: bool)
        ensures
            r == self.presign,
    {
        self.presign
    }

    pub fn multipart_flag(&self) -> (r: bool)
        ensures
            r == self.multipart,
    {
        self.multipart
    }

    pub fn blocking_flag(&self) -> (r: bool)
        ensures
            r == self.blocking,
    {
        self.blocking
    }
}

/// The capability a backend must declare before it may serve the operation.
/// `Metadata` needs no capability at all: it must be callable before any
/// capability check.
pub open spec fn spec_required_capability(op: Operation) -> Option<Capability> {
    match op {
        Operation::Metadata => None,
        Operation::Create => Some(Capability::Write),
        Operation::Read => Some(Capability::Read),
        Operation::Write => Some(Capability::Write),
        Operation::Stat => Some(Capability::Read),
        Operation::Delete => Some(Capability::Write),
        Operation::List => Some(Capability::List),
        Operation::Presign => Some(Capability::Presign),
        Operation::CreateMultipart => Some(Capability::Multipart),
        Operation::WriteMultipart => Some(Capability::Multipart),
        Operation::CompleteMultipart => Some(Capability::Multipart),
        Operation::AbortMultipart => Some(Capability::Multipart),
        Operation::BlockingCreate => Some(Capability::Write),
        Operation::BlockingRead => Some(Capability::Read),
        Operation::BlockingWrite => Some(Capability::Write),
        Operation::BlockingStat => Some(Capability::Read),
        Operation::BlockingDelete => Some(Capability::Write),
        Operation::BlockingList => Some(Capability::List),
    }
}

/// Whether a capability set admits an operation. Blocking variants need the
/// `Blocking` capability on top of the capability of the base operation.
pub open spec fn spec_supports(caps: CapabilitySet, op: Operation) -> bool {
    &&& match spec_required_capability(op) {
        None => true,
        Some(c) => caps.spec_has(c),
    }
    &&& (spec_is_blocking(op) ==> caps.blocking)
}

/// Whether the operation is a blocking variant.
pub open spec fn spec_is_blocking(op: Operation) -> bool {
    match op {
        Operation::BlockingCreate
        | Operation::BlockingRead
        | Operation::BlockingWrite
        | Operation::BlockingStat
        | Operation::BlockingDelete
        | Operation::BlockingList => true,
        _ => false,
    }
}

#[verifier::when_used_as_spec(spec_required_capability)]
pub fn required_capability(op: Operation) -> (r: Option<Capability>)
    ensures
        r == spec_required_capability(op),
{
    match op {
        Operation::Metadata => None,
        Operation::Create => Some(Capability::Write),
        Operation::Read => Some(Capability::Read),
        Operation::Write => Some(Capability::Write),
        Operation::Stat => Some(Capability::Read),
        Operation::Delete => Some(Capability::Write),
        Operation::List => Some(Capability::List),
        Operation::Presign => Some(Capability::Presign),
        Operation::CreateMultipart => Some(Capability::Multipart),
        Operation::WriteMultipart => Some(Capability::Multipart),
        Operation::CompleteMultipart => Some(Capability::Multipart),
        Operation::AbortMultipart => Some(Capability::Multipart),
        Operation::BlockingCreate => Some(Capability::Write),
        Operation::BlockingRead => Some(Capability::Read),
        Operation::BlockingWrite => Some(Capability::Write),
        Operation::BlockingStat => Some(Capability::Read),
        Operation::BlockingDelete => Some(Capability::Write),
        Operation::BlockingList => Some(Capability::List),
    }
}

#[verifier::when_used_as_spec(spec_is_blocking)]
pub fn is_blocking(op: Operation) -> (r: bool)
    ensures
        r == spec_is_blocking(op),
{
    match op {
        Operation::BlockingCreate
        | Operation::BlockingRead
        | Operation::BlockingWrite
        | Operation::BlockingStat
        | Operation::BlockingDelete
        | Operation::BlockingList => true,
        _ => false,
    }
}

/// The capability gate. Every accessor calls this before performing an
/// operation: when the operation lies outside the declared capability set it
/// fails with an `Unsupported`, permanent error, before any I/O is attempted.
pub fn check_operation(caps: CapabilitySet, op: Operation) -> (r: Result<(), Error>)
    ensures
        r is Ok <==> spec_supports(caps, op),
        r matches Err(e) ==> e.kind() == ErrorKind::Unsupported && !e.is_temporary(),
{
    let supported = match required_capability(op) {
        None => true,
        Some(c) => caps.has(c),
    };
    let supported = supported && (!is_blocking(op) || caps.blocking);
    if supported {
        Ok(())
    } else {
        Err(Error::new(ErrorKind::Unsupported, "operation is not supported by this backend"))
    }
}

} // verus!
