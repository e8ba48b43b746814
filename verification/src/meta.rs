//! Identity and object metadata.
//!
//! [`AccessorMetadata`] identifies a backend: its scheme, its normalized root,
//! its backend name and its declared capability set. It is immutable per
//! accessor instance and must be available before any capability check.
//! [`ObjectMetadata`] describes one stored object; its mode is the
//! discriminant between directories and leaf objects.

use vstd::prelude::*;

use crate::ops::CapabilitySet;
use crate::path::{is_normalized_root, normalize_root, normalized_root_of};

verus! {

/// The kind of a backend.
#[derive(Clone, Copy, Debug, PartialEq, Eq, Structural)]
pub enum Scheme {
    /// The in-memory key-value backend.
    Memory,
    /// The embedded on-disk key-value backend.
    Sled,
    /// The HDFS REST backend.
    Webhdfs,
}

/// The label of a scheme.
pub open spec fn scheme_name_of(s: Scheme) -> Seq<char> {
    match s {
        Scheme::Memory => "memory"@,
        Scheme::Sled => "sled"@,
        Scheme::Webhdfs => "webhdfs"@,
    }
}

impl Scheme {
    /// The scheme's label, used in error context and observability output.
    pub fn name(&self) -> (r: &'static str)
        ensures
            r@ == scheme_name_of(*self),
    {
        match self {
            Scheme::Memory => "memory",
            Scheme::Sled => "sled",
            Scheme::Webhdfs => "webhdfs",
        }
    }
}

/// Whether an object is a directory or a leaf object.
#[derive(Clone, Copy, Debug, PartialEq, Eq, Structural)]
pub enum ObjectMode {
    /// A leaf object holding bytes.
    File,
    /// A directory marker.
    Dir,
}

/// Metadata of one stored object. The content length is authoritative only
/// once populated by a stat or list call.
#[derive(Clone, Copy, Debug)]
pub struct ObjectMetadata {
    /// Directory or leaf.
    pub mode: ObjectMode,
    /// Total length of the object's content in bytes, when known.
    pub content_length: Option<u64>,
    /// Seconds since the epoch of the last modification, when known.
    pub last_modified: Option<i64>,
}

impl ObjectMetadata {
    /// Fresh metadata of the given mode, with nothing else known yet.
    pub fn new(mode: ObjectMode) -> (r: ObjectMetadata)
        ensures
            r == (ObjectMetadata { mode, content_length: None, last_modified: None }),
    {
        ObjectMetadata { mode, content_length: None, last_modified: None }
    }

    /// The same metadata with the content length populated.
    pub fn with_content_length(self, len: u64) -> (r: ObjectMetadata)
        ensures
            r == (ObjectMetadata { content_length: Some(len), ..self }),
    {
        ObjectMetadata { content_length: Some(len), ..self }
    }

    /// The same metadata with the last-modified time populated.
    pub fn with_last_modified(self, at: i64) -> (r: ObjectMetadata)
        ensures
            r == (ObjectMetadata { last_modified: Some(at), ..self }),
    {
        ObjectMetadata { last_modified: Some(at), ..self }
    }

    pub fn mode(&self) -> (r: ObjectMode)
        ensures
            r == self.mode,
    {
        self.mode
    }

    pub fn content_length(&self) -> (r: Option<u64>)
        ensures
            r == self.content_length,
    {
        self.content_length
    }

    pub fn last_modified(&self) -> (r: Option<i64>)
        ensures
            r == self.last_modified,
    {
        self.last_modified
    }
}

/// The ghost image of an [`ObjectEntry`].
pub struct EntryView {
    pub path: Seq<char>,
    pub meta: ObjectMetadata,
}

/// One object named by a listing or a walk: a path and its metadata.
#[derive(Clone, Debug)]
pub struct ObjectEntry {
    path: String,
    meta: ObjectMetadata,
}

impl View for ObjectEntry {
    type V = EntryView;

    closed spec fn view(&self) -> EntryView {
        EntryView { path: self.path@, meta: self.meta }
    }
}

impl ObjectEntry {
    /// Pack a path and its metadata into an entry.
    pub fn new(path: &str, meta: ObjectMetadata) -> (r: ObjectEntry)
        ensures
            r@.path == path@,
            r@.meta == meta,
    {
        ObjectEntry { path: path.to_owned(), meta }
    }

    /// A fresh entry equal to this one, with its model preserved.
    pub fn duplicate(&self) -> (r: ObjectEntry)
        ensures
            r@ == self@,
    {
        ObjectEntry { path: self.path.clone(), meta: self.meta }
    }

    pub fn path(&self) -> (r: &str)
        ensures
            r@ == self@.path,
    {
        &self.path
    }

    pub fn metadata(&self) -> (r: ObjectMetadata)
        ensures
            r == self@.meta,
    {
        self.meta
    }

    pub fn mode(&self) -> (r: ObjectMode)
        ensures
            r == self@.meta.mode,
    {
        self.meta.mode
    }
}

/// The ghost image of an [`AccessorMetadata`].
pub struct MetaView {
    pub scheme: Scheme,
    pub root: Seq<char>,
    pub name: Seq<char>,
    pub caps: CapabilitySet,
}

/// The identity of one accessor: scheme, normalized root, backend name and
/// declared capability set. Immutable once built.
#[derive(Clone, Debug)]
pub struct AccessorMetadata {
    scheme: Scheme,
    root: String,
    name: String,
    caps: CapabilitySet,
}

impl View for AccessorMetadata {
    type V = MetaView;

    closed spec fn view(&self) -> MetaView {
        MetaView { scheme: self.scheme, root: self.root@, name: self.name@, caps: self.caps }
    }
}

impl AccessorMetadata {
    /// Build accessor metadata. The root is normalized to its absolute,
    /// slash-terminated form.
    pub fn new(scheme: Scheme, root: &str, name: &str, caps: CapabilitySet) -> (r:
        AccessorMetadata)
        ensures
            r@.scheme == scheme,
            r@.root == normalized_root_of(root@),
            is_normalized_root(r@.root),
            r@.name == name@,
            r@.caps == caps,
    {
        AccessorMetadata { scheme, root: normalize_root(root), name: name.to_owned(), caps }
    }

    /// A fresh metadata value equal to this one, with its model preserved.
    pub fn duplicate(&self) -> (r: AccessorMetadata)
        ensures
            r@ == self@,
    {
        AccessorMetadata {
            scheme: self.scheme,
            root: self.root.clone(),
            name: self.name.clone(),
            caps: self.caps,
        }
    }

    pub fn scheme(&self) -> (r: Scheme)
        ensures
            r == self@.scheme,
    {
        self.scheme
    }

    /// The normalized root all operations happen under.
    pub fn root(&self) -> (r: &str)
        ensures
            r@ == self@.root,
    {
        &self.root
    }

    /// The backend name; empty when the backend has no namespace concept.
    pub fn name(&self) -> (r: &str)
        ensures
            r@ == self@.name,
    {
        &self.name
    }

    pub fn capabilities(&self) -> (r: CapabilitySet)
        ensures
            r == self@.caps,
    {
        self.caps
    }
}

} // verus!
