//! Shared byte buffers and the table that tells which of them a pool holds.
use polars_arrow::buffer::Buffer;
use polars_utils::aliases::PlHashMap;
use vstd::prelude::*;

verus! {

#[verifier::external_type_specification]
#[verifier::external_body]
#[verifier::reject_recursive_types(T)]
pub struct ExBuffer<T>(Buffer<T>);

/// What tells one buffer from another: where its bytes start and how many
/// they are. Two buffers with equal bytes at different places are different
/// buffers.
pub type BufferKey = (usize, usize);

/// The bytes that a buffer holds, first to last.
pub uninterp spec fn buffer_bytes(buffer: Buffer<u8>) -> Seq<u8>;

/// `Buffer::as_slice`, `<[u8]>::as_ptr` and `Buffer::len` of polars-arrow and
/// std: the address of the first byte and the number of bytes. Nothing is
/// claimed of the address.
#[verifier::external_body]
fn storage_key(bytes: &Buffer<u8>) -> (key: BufferKey)
    ensures
        key.1 == buffer_bytes(*bytes).len(),
{
    (bytes.as_slice().as_ptr() as usize, bytes.len())
}

/// `<Buffer<u8> as Clone>::clone` of polars-arrow: a second handle on the same
/// bytes.
#[verifier::external_body]
fn share_storage(bytes: &Buffer<u8>) -> (shared: Buffer<u8>)
    ensures
        shared == *bytes,
{
    bytes.clone()
}

/// A shared byte buffer together with its key.
pub struct SharedBuffer {
    start: usize,
    len: usize,
    bytes: Buffer<u8>,
}

impl SharedBuffer {
    /// The second part of the key is the number of bytes of the buffer.
    #[verifier::type_invariant]
    spec fn keyed_by_len(self) -> bool {
        self.len == buffer_bytes(self.bytes).len()
    }

    /// What tells this buffer from others.
    pub closed spec fn key(&self) -> BufferKey {
        (self.start, self.len)
    }

    /// The number of bytes that views into this buffer are held against.
    pub open spec fn len_spec(&self) -> usize {
        self.key().1
    }

    /// The buffer that is held.
    pub closed spec fn storage(&self) -> Buffer<u8> {
        self.bytes
    }

    /// Takes a buffer in; its key is where its bytes lie and how many they are.
    pub fn new(bytes: Buffer<u8>) -> (buffer: SharedBuffer)
        ensures
            buffer.storage() == bytes,
            buffer.len_spec() == buffer_bytes(bytes).len(),
    {
        let key = storage_key(&bytes);
        SharedBuffer { start: key.0, len: key.1, bytes }
    }

    /// What tells this buffer from others.
    pub fn key_of(&self) -> (key: BufferKey)
        ensures
            key == self.key(),
    {
        (self.start, self.len)
    }

    /// The number of bytes.
    pub fn len(&self) -> (n: usize)
        ensures
            n == self.len_spec(),
            n == buffer_bytes(self.storage()).len(),
    {
        proof {
            use_type_invariant(self);
        }
        self.len
    }

    /// The bytes.
    pub fn bytes(&self) -> (bytes: &Buffer<u8>)
        ensures
            *bytes == self.storage(),
    {
        &self.bytes
    }

    /// A second handle on the same buffer. No byte is copied.
    pub fn share(&self) -> (shared: SharedBuffer)
        ensures
            shared == *self,
    {
        proof {
            use_type_invariant(self);
        }
        SharedBuffer { start: self.start, len: self.len, bytes: share_storage(&self.bytes) }
    }
}

/// A hash table from buffer keys to positions in a pool.
#[verifier::external_body]
pub struct BufferTable {
    inner: PlHashMap<BufferKey, u32>,
}

/// The entries a table holds.
pub uninterp spec fn table_entries(table: BufferTable) -> Map<BufferKey, u32>;

/// The table without an entry.
pub open spec fn no_entries() -> Map<BufferKey, u32> {
    Map::empty()
}

impl BufferTable {
    /// A table without an entry.
    pub fn new() -> (table: BufferTable)
        ensures
            table_entries(table) == no_entries(),
    {
        BufferTable::with_capacity(8)
    }

    /// `HashMap::with_capacity_and_hasher` of hashbrown: a table without an
    /// entry.
    #[verifier::external_body]
    pub(crate) fn with_capacity(capacity: usize) -> (table: BufferTable)
        ensures
            table_entries(table) == no_entries(),
    {
        BufferTable { inner: PlHashMap::with_capacity_and_hasher(capacity, Default::default()) }
    }

    /// `HashMap::get` of hashbrown: the position stored under `key`, if the
    /// table has one.
    #[verifier::external_body]
    pub(crate) fn get(&self, key: BufferKey) -> (found: Option<u32>)
        ensures
            found == (if table_entries(*self).contains_key(key) {
                Some(table_entries(*self)[key])
            } else {
                None
            }),
    {
        self.inner.get(&key).copied()
    }

    /// `HashMap::insert` of hashbrown: afterwards `key` leads to `position`, and
    /// every other key to what it led to before.
    #[verifier::external_body]
    pub(crate) fn insert(&mut self, key: BufferKey, position: u32)
        ensures
            table_entries(*final(self)) == table_entries(*old(self)).insert(key, position),
    {
        self.inner.insert(key, position);
    }
}

} // verus!
