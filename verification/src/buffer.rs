//! In-memory byte buffers with an optional persistent origin.

use vstd::prelude::*;

verus! {

/// Error of a flush attempt on a buffer with no persistent backing.
#[derive(Clone, Copy, PartialEq, Eq, Structural, Debug)]
pub enum FlushError {
    /// The buffer was never loaded from, nor bound to, persistent storage.
    NoOrigin,
}

/// Mathematical view of a [`FileBuffer`].
pub struct BufView {
    /// Handle of the persistent resource the bytes came from, if any.
    pub origin: Option<u64>,
    /// The byte content.
    pub data: Seq<u8>,
    /// Whether the content was mutated since load or since the last flush.
    pub dirty: bool,
}

/// A byte sequence loaded into memory, the handle of the external resource
/// it came from (`None` for a purely in-memory buffer), and a modified flag.
/// The length of `data` is fixed after load: edits overwrite bytes in place.
///
/// The handle is an opaque identifier assigned by the host; the host maps it
/// back to a real resource when it performs the actual I/O.
pub struct FileBuffer {
    /// Handle of the persistent resource, if any.
    pub origin: Option<u64>,
    /// The byte content.
    pub data: Vec<u8>,
    /// True iff `data` was mutated since load or since the last flush.
    pub dirty: bool,
}

impl View for FileBuffer {
    type V = BufView;

    open spec fn view(&self) -> BufView {
        BufView { origin: self.origin, data: self.data@, dirty: self.dirty }
    }
}

impl FileBuffer {
    /// A fresh buffer with no content and no persistent backing.
    pub fn new_empty() -> (r: Self)
        ensures
            r@.origin is None,
            r@.data.len() == 0,
            !r@.dirty,
    {
        FileBuffer { origin: None, data: Vec::new(), dirty: false }
    }

    /// A buffer freshly loaded from an external resource: the host reads the
    /// resource named by `origin` into `data` and hands both over. The
    /// modified flag starts clear.
    pub fn from_bytes(origin: Option<u64>, data: Vec<u8>) -> (r: Self)
        ensures
            r@.origin == origin,
            r@.data == data@,
            !r@.dirty,
    {
        FileBuffer { origin, data, dirty: false }
    }

    /// Number of bytes held.
    pub fn len(&self) -> (n: usize)
        ensures
            n == self@.data.len(),
    {
        self.data.len()
    }

    /// Overwrites the byte at `offset` and marks the buffer modified.
    /// Callers validate the offset first: an out-of-range write is a
    /// programming error here, not a recoverable condition.
    pub fn write_byte(&mut self, offset: usize, value: u8)
        requires
            offset < old(self)@.data.len(),
        ensures
            final(self)@.data == old(self)@.data.update(offset as int, value),
            final(self)@.origin == old(self)@.origin,
            final(self)@.dirty,
    {
        self.data.set(offset, value);
        self.dirty = true;
    }

    /// Start of a flush: names the resource the content must be written to.
    /// Fails with [`FlushError::NoOrigin`] exactly when the buffer has no
    /// persistent backing (there is no implicit "save as").
    pub fn flush_target(&self) -> (r: Result<u64, FlushError>)
        ensures
            r is Ok <==> self@.origin is Some,
            r is Ok ==> Some(r->Ok_0) == self@.origin,
            r is Err ==> r->Err_0 == FlushError::NoOrigin,
    {
        match self.origin {
            Some(h) => Ok(h),
            None => Err(FlushError::NoOrigin),
        }
    }

    /// End of a successful flush: the host has written `data` verbatim to the
    /// origin, so the content is no longer ahead of persistent storage.
    pub fn mark_flushed(&mut self)
        ensures
            final(self)@.origin == old(self)@.origin,
            final(self)@.data == old(self)@.data,
            !final(self)@.dirty,
    {
        self.dirty = false;
    }
}

} // verus!
