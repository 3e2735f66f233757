//! GenICam node graph and register-description engine, together with the
//! register-layout primitive of the USB3 device emulator.

use vstd::prelude::*;

pub mod elem_type;
pub mod emulator;
pub mod engine;
pub mod formula;
pub mod int_codec;
pub mod int_reg;
pub mod masked_int_reg;
pub mod node;
pub mod node_base;
pub mod parser;
pub mod register_base;
pub mod register_description;
pub mod store;
pub mod utils;

pub use int_reg::IntRegNode;
pub use masked_int_reg::MaskedIntRegNode;
pub use node_base::NodeBase;
pub use register_base::RegisterBase;
pub use register_description::RegisterDescription;

verus! {

/// Why a device refused or failed an access to its memory.
#[derive(Debug)]
pub struct DeviceError {
    pub message: String,
}

/// Why an operation on a node failed.
#[derive(Debug)]
pub enum GenApiError {
    /// Device I/O error.
    Device(DeviceError),
    /// Read or write access to the node is denied.
    AccessDenied(&'static str),
    /// The node doesn't implement the requested interface.
    InvalidNode(&'static str),
    /// The value is not valid for the node, for instance because it exceeds
    /// the maximum of the node.
    InvalidData(String),
    /// The operation needs chunk data that is absent.
    ChunkDataMissing,
    /// The length of the given buffer differs from the length of the register.
    InvalidBuffer,
    /// The value of the node depends on itself.
    CycleDetected,
    /// A formula of the node has no value.
    Formula(formula::FormulaError),
}

pub type GenApiResult<T> = Result<T, GenApiError>;

/// The mutable state of a node graph: its literal values and its caches.
pub struct ValueCtxt<T, U> where T: store::ValueStore, U: store::CacheStore {
    pub value_store: T,
    pub cache_store: U,
}

impl<T, U> ValueCtxt<T, U> where T: store::ValueStore, U: store::CacheStore {
    /// A context over the values `value_store` and the caches `cache_store`.
    pub fn new(value_store: T, cache_store: U) -> (r: Self)
        ensures
            r.value_store == value_store,
            r.cache_store == cache_store,
    {
        ValueCtxt { value_store, cache_store }
    }

    /// The literal values.
    pub fn value_store(&self) -> (r: &T)
        ensures
            *r == self.value_store,
    {
        &self.value_store
    }

    /// The literal values, to change them.
    pub fn value_store_mut(&mut self) -> (r: &mut T)
        ensures
            *r == old(self).value_store,
            final(self).value_store == *final(r),
            final(self).cache_store == old(self).cache_store,
    {
        &mut self.value_store
    }

    /// The caches.
    pub fn cache_store(&mut self) -> (r: &U)
        ensures
            *r == old(self).cache_store,
            *final(self) == *old(self),
    {
        &self.cache_store
    }

    /// The caches, to change them.
    pub fn cache_store_mut(&mut self) -> (r: &mut U)
        ensures
            *r == old(self).cache_store,
            final(self).cache_store == *final(r),
            final(self).value_store == old(self).value_store,
    {
        &mut self.cache_store
    }
}


/// The memory `mem` after `data` has been written at `address`.
pub open spec fn written(mem: Map<int, u8>, address: int, data: Seq<u8>) -> Map<int, u8> {
    Map::new(
        |a: int| mem.dom().contains(a) || address <= a < address + data.len(),
        |a: int|
            if address <= a < address + data.len() {
                data[a - address]
            } else {
                mem[a]
            },
    )
}

/// The `len` bytes of `mem` at `address`.
pub open spec fn bytes_at(mem: Map<int, u8>, address: int, len: nat) -> Seq<u8> {
    Seq::new(len, |i: int| mem[address + i])
}

/// What is written is what is read back from the same place.
pub proof fn lemma_bytes_at_written(mem: Map<int, u8>, address: int, data: Seq<u8>)
    ensures
        bytes_at(written(mem, address, data), address, data.len()) == data,
{
    assert(bytes_at(written(mem, address, data), address, data.len()) =~= data);
}

/// A device as the engine sees it: a memory of bytes, read and written by
/// address.
///
/// The engine reaches the bytes of every register through these two
/// operations only. The contracts describe the device as a plain memory: a
/// read leaves it as it is and, where it succeeds, returns what the memory
/// holds; a write that succeeds stores the data. An implementation for a
/// device with registers that change by themselves does not meet them.
pub trait Device {
    /// The bytes of the device, by address.
    ///
    /// An implementation that is verified states its memory here; one that
    /// is not leaves the default.
    open spec fn memory(&self) -> Map<int, u8> {
        Map::empty()
    }

    /// Fills `buf` with the bytes at `address`.
    fn read_mem(&mut self, address: u64, buf: &mut [u8]) -> (r: Result<(), DeviceError>)
        ensures
            final(self).memory() == old(self).memory(),
            final(buf)@.len() == old(buf)@.len(),
            r is Ok
                ==> final(buf)@ == bytes_at(old(self).memory(), address as int, old(buf)@.len()),
    ;

    /// Stores `data` at `address`.
    fn write_mem(&mut self, address: u64, data: &[u8]) -> (r: Result<(), DeviceError>)
        ensures
            r is Ok ==> final(self).memory() == written(old(self).memory(), address as int, data@),
    ;
}

impl<T> Device for &mut T where T: Device {
    open spec fn memory(&self) -> Map<int, u8> {
        (**self).memory()
    }

    fn read_mem(&mut self, address: u64, buf: &mut [u8]) -> (r: Result<(), DeviceError>) {
        (**self).read_mem(address, buf)
    }

    fn write_mem(&mut self, address: u64, data: &[u8]) -> (r: Result<(), DeviceError>) {
        (**self).write_mem(address, data)
    }
}

} // verus!
