//! Integer register: a number that occupies all bytes of a register.

use vstd::prelude::*;

use crate::elem_type::{Endianness, IntegerRepresentation, Sign};
use crate::int_codec::{
    decode_int, encode_int, int_bytes, int_value, lemma_int_value_of_bytes, max_value, min_value,
};
use crate::node_base::{opt_view, NodeAttributeBase, NodeBase};
use crate::elem_type::CachingMode;
use crate::register_base::{
    lemma_read_after_write, valid_range, RegisterBase, RegisterBaseView,
};
use crate::store::CacheEntryView;
use crate::store::{CacheStore, NodeId};
use crate::{written, Device, GenApiError, GenApiResult};

verus! {

/// An integer register.
#[derive(Debug)]
pub struct IntRegNode {
    pub attr_base: NodeAttributeBase,
    pub register_base: RegisterBase,
    pub sign: Sign,
    pub endianness: Endianness,
    pub unit: Option<String>,
    pub representation: IntegerRepresentation,
    pub p_selected: Vec<NodeId>,
}

/// An `IntRegNode` as plain values.
pub struct IntRegView {
    pub attr_base: NodeAttributeBase,
    pub register_base: RegisterBaseView,
    pub sign: Sign,
    pub endianness: Endianness,
    pub unit: Option<Seq<char>>,
    pub representation: IntegerRepresentation,
    pub p_selected: Seq<NodeId>,
}

impl View for IntRegNode {
    type V = IntRegView;

    open spec fn view(&self) -> IntRegView {
        IntRegView {
            attr_base: self.attr_base,
            register_base: self.register_base@,
            sign: self.sign,
            endianness: self.endianness,
            unit: opt_view(self.unit),
            representation: self.representation,
            p_selected: self.p_selected@,
        }
    }
}

impl IntRegView {
    /// The number that the register holds where its bytes are `bytes`.
    pub open spec fn spec_value(self, bytes: Seq<u8>) -> int {
        int_value(bytes, self.endianness, self.sign)
    }

    /// The bytes of the register where it holds `value` in `len` bytes.
    pub open spec fn spec_bytes(self, value: i64, len: nat) -> Seq<u8> {
        int_bytes(value as int, len, self.endianness, self.sign)
    }

    /// Whether `value` is one of the numbers that the register holds in
    /// `len` bytes: the register has no more than eight bytes, and the
    /// number lies within the range of that many bytes, signed or unsigned
    /// as the register is.
    pub open spec fn holds(self, len: nat, value: i64) -> bool {
        len <= 8 && min_value(len, self.sign) <= value <= max_value(len, self.sign)
    }
}

impl IntRegNode {
    /// What the register carries as a node.
    pub fn node_base(&self) -> (r: NodeBase<'_>)
        ensures
            r.attr_base() == self.attr_base,
            r.elem_base() == self.register_base.elem_base,
    {
        NodeBase::new(&self.attr_base, &self.register_base.elem_base)
    }

    /// What the register carries as a register.
    pub fn register_base(&self) -> (r: &RegisterBase)
        ensures
            *r == self.register_base,
    {
        &self.register_base
    }

    /// The signedness of the value.
    pub fn sign(&self) -> (r: Sign)
        ensures
            r == self.sign,
    {
        self.sign
    }

    /// The byte order of the register.
    pub fn endianness(&self) -> (r: Endianness)
        ensures
            r == self.endianness,
    {
        self.endianness
    }

    /// The unit of the value.
    pub fn unit(&self) -> (r: Option<&str>)
        ensures
            r is Some <==> self.unit is Some,
            r matches Some(t) ==> t@ == self.unit.unwrap()@,
    {
        match &self.unit {
            Some(t) => Some(t.as_str()),
            None => None,
        }
    }

    /// The recommended presentation of the value.
    pub fn representation(&self) -> (r: IntegerRepresentation)
        ensures
            r == self.representation,
    {
        self.representation
    }

    /// The nodes that this node selects.
    pub fn p_selected(&self) -> (r: &[NodeId])
        ensures
            r@ == self.p_selected@,
    {
        self.p_selected.as_slice()
    }

    /// The number that the bytes `bytes` of the register stand for.
    ///
    /// Fails with `InvalidData` for more than eight bytes, and for a number
    /// that a signed 64-bit integer cannot hold.
    pub fn value_of_bytes(&self, bytes: &[u8]) -> (r: GenApiResult<i64>)
        ensures
            match r {
                Ok(v) => bytes@.len() <= 8 && v == self@.spec_value(bytes@),
                Err(e) => e is InvalidData && (bytes@.len() > 8 || self@.spec_value(bytes@)
                    > i64::MAX),
            },
    {
        match decode_int(bytes, self.endianness, self.sign) {
            Some(v) => Ok(v),
            None => Err(
                GenApiError::InvalidData(
                    "the register does not hold a 64-bit integer".to_owned(),
                ),
            ),
        }
    }

    /// The bytes that stand for `value` in a register of `length` bytes.
    ///
    /// Fails with `InvalidData` where the register does not hold `value`.
    pub fn bytes_of_value(&self, value: i64, length: i64) -> (r: GenApiResult<Vec<u8>>)
        ensures
            match r {
                Ok(b) => 0 <= length && self@.holds(length as nat, value) && b@
                    == self@.spec_bytes(value, length as nat) && b@.len() == length,
                Err(e) => e is InvalidData && !(0 <= length && self@.holds(
                    length as nat,
                    value,
                )),
            },
    {
        if length < 0 || length > 8 {
            return Err(GenApiError::InvalidData("the length is not valid".to_owned()));
        }
        match encode_int(value, length as usize, self.endianness, self.sign) {
            Some(b) => {
                proof {
                    lemma_int_value_of_bytes(
                        value as int,
                        length as nat,
                        self.endianness,
                        self.sign,
                    );
                }
                Ok(b)
            },
            None => Err(GenApiError::InvalidData("the value is out of range".to_owned())),
        }
    }

    /// Reads the register `length` bytes long at `address`.
    ///
    /// Fails with `AccessDenied` where the register may not be read; with
    /// `InvalidData` where the address or the length is not valid; with
    /// `Device` where the device fails; and with `InvalidData` where the
    /// bytes stand for no 64-bit integer; the first that applies, in this
    /// order.
    pub fn value_at<D: Device, U: CacheStore>(
        &self,
        address: i64,
        length: i64,
        device: &mut D,
        cache: &mut U,
    ) -> (r: GenApiResult<i64>)
        ensures
            final(cache).pairs() == old(cache).pairs(),
            (*final(device)).memory() == (*old(device)).memory(),
            !self@.register_base.readable() ==> r matches Err(GenApiError::AccessDenied(_)),
            self@.register_base.readable() && !valid_range(address, length) ==> r matches Err(
                GenApiError::InvalidData(_),
            ),
            !self@.register_base.readable() || !valid_range(address, length)
                || self@.register_base.cached(
                self@.attr_base.id,
                address,
                length,
                old(cache).entries(),
            ) is Some ==> *final(device) == *old(device)
                && final(cache).entries() == old(cache).entries(),
            self@.register_base.readable() && valid_range(address, length) ==> ({
                let bytes = self@.register_base.bytes_read(
                    self@.attr_base.id,
                    address,
                    length,
                    (*old(device)).memory(),
                    old(cache).entries(),
                );
                let fetched = self@.register_base.entries_after_fetch(
                    self@.attr_base.id,
                    address,
                    length,
                    (*old(device)).memory(),
                    old(cache).entries(),
                );
                match r {
                    Ok(v) => bytes.len() <= 8 && v == self@.spec_value(bytes)
                        && final(cache).entries() == fetched,
                    Err(GenApiError::Device(_)) => final(cache).entries() == old(cache).entries()
                        && self@.register_base.cached(
                        self@.attr_base.id,
                        address,
                        length,
                        old(cache).entries(),
                    ) is None,
                    Err(e) => e is InvalidData && (bytes.len() > 8 || self@.spec_value(bytes)
                        > i64::MAX) && final(cache).entries() == fetched,
                }
            }),
    {
        let bytes = self.register_base.read_bytes(self.attr_base.id, address, length, device, cache)?;
        self.value_of_bytes(bytes.as_slice())
    }

    /// Writes `value` to the register `length` bytes long at `address`.
    ///
    /// Fails with `AccessDenied` where the register may not be written;
    /// with `InvalidData` where the address or the length is not valid or
    /// the register does not hold `value`; and with `Device` where the
    /// device fails; the first that applies, in this order. The device is
    /// called once where the write is let through, and not at all
    /// otherwise.
    pub fn set_value_at<D: Device, U: CacheStore>(
        &self,
        value: i64,
        address: i64,
        length: i64,
        device: &mut D,
        cache: &mut U,
    ) -> (r: GenApiResult<()>)
        ensures
            final(cache).pairs() == old(cache).pairs(),
            !self@.register_base.writable() ==> r matches Err(GenApiError::AccessDenied(_)),
            self@.register_base.writable() && !(valid_range(address, length) && self@.holds(
                length as nat,
                value,
            )) ==> r matches Err(GenApiError::InvalidData(_)),
            !self@.register_base.writable() || !valid_range(address, length) || !self@.holds(
                length as nat,
                value,
            ) ==> *final(device) == *old(device) && final(cache).entries() == old(cache).entries(),
            self@.register_base.writable() && valid_range(address, length) && self@.holds(
                length as nat,
                value,
            ) ==> match r {
                Ok(()) => (*final(device)).memory() == written(
                    (*old(device)).memory(),
                    address as int,
                    self@.spec_bytes(value, length as nat),
                ) && final(cache).entries() == self@.register_base.entries_after_write(
                    self@.attr_base.id,
                    address,
                    length,
                    self@.spec_bytes(value, length as nat),
                    old(cache).entries(),
                    old(cache).pairs(),
                ),
                Err(e) => e is Device && final(cache).entries() == old(cache).entries(),
            },
    {
        if !self.register_base.is_writable() {
            return Err(GenApiError::AccessDenied("the register is not writable"));
        }
        if address < 0 || length < 0 || length as u64 > usize::MAX as u64 {
            return Err(GenApiError::InvalidData("invalid address or length".to_owned()));
        }
        let bytes = self.bytes_of_value(value, length)?;
        self.register_base.write_bytes(
            self.attr_base.id,
            address,
            length,
            bytes.as_slice(),
            device,
            cache,
        )
    }
}


/// What is written to an integer register is what the next read of it
/// yields, for every number that the register holds, in either byte order
/// and with either signedness. The write calls the device once; the read
/// does not call it where the register is written through.
pub proof fn lemma_write_then_read(
    reg: IntRegView,
    value: i64,
    address: i64,
    length: i64,
    mem: Map<int, u8>,
    entries: Map<NodeId, CacheEntryView>,
    pairs: Set<(NodeId, NodeId)>,
)
    requires
        valid_range(address, length),
        reg.holds(length as nat, value),
    ensures
        ({
            let nid = reg.attr_base.id;
            let data = reg.spec_bytes(value, length as nat);
            let after = reg.register_base.entries_after_write(
                nid,
                address,
                length,
                data,
                entries,
                pairs,
            );
            &&& reg.spec_value(
                reg.register_base.bytes_read(
                    nid,
                    address,
                    length,
                    written(mem, address as int, data),
                    after,
                ),
            ) == value
            &&& reg.register_base.cached(nid, address, length, after) is Some
                <==> reg.register_base.cacheable == CachingMode::WriteThrough
        }),
{
    lemma_int_value_of_bytes(value as int, length as nat, reg.endianness, reg.sign);
    lemma_read_after_write(
        reg.register_base,
        reg.attr_base.id,
        address,
        length,
        reg.spec_bytes(value, length as nat),
        mem,
        entries,
        pairs,
    );
}

} // verus!
