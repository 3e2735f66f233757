//! Integer register whose value occupies a range of bits of its bytes.

use vstd::prelude::*;

use crate::elem_type::{BitMask, Endianness, IntegerRepresentation, Sign};
use crate::int_codec::{
    lemma_le_value_bound, lemma_le_value_of_bytes, lemma_pow256_values, pow256, unsigned_bytes,
    unsigned_value,
};
use crate::node_base::{opt_view, NodeAttributeBase, NodeBase};
use crate::register_base::{RegisterBase, RegisterBaseView};
use crate::int_codec::{decode_unsigned, encode_unsigned};
use crate::register_base::{lemma_read_after_write, valid_range};
use crate::store::CacheEntryView;
use crate::store::{CacheStore, NodeId};
use crate::{bytes_at, written, Device, GenApiError, GenApiResult};

verus! {

/// A masked integer register.
#[derive(Debug)]
pub struct MaskedIntRegNode {
    pub attr_base: NodeAttributeBase,
    pub register_base: RegisterBase,
    pub bit_mask: BitMask,
    pub sign: Sign,
    pub endianness: Endianness,
    pub unit: Option<String>,
    pub representation: IntegerRepresentation,
    pub p_selected: Vec<NodeId>,
}

/// A `MaskedIntRegNode` as plain values.
pub struct MaskedIntRegView {
    pub attr_base: NodeAttributeBase,
    pub register_base: RegisterBaseView,
    pub bit_mask: BitMask,
    pub sign: Sign,
    pub endianness: Endianness,
    pub unit: Option<Seq<char>>,
    pub representation: IntegerRepresentation,
    pub p_selected: Seq<NodeId>,
}

impl View for MaskedIntRegNode {
    type V = MaskedIntRegView;

    open spec fn view(&self) -> MaskedIntRegView {
        MaskedIntRegView {
            attr_base: self.attr_base,
            register_base: self.register_base@,
            bit_mask: self.bit_mask,
            sign: self.sign,
            endianness: self.endianness,
            unit: opt_view(self.unit),
            representation: self.representation,
            p_selected: self.p_selected@,
        }
    }
}


impl MaskedIntRegNode {
    /// What the register carries as a node.
    pub fn node_base(&self) -> (r: NodeBase<'_>)
        ensures
            r.attr_base() == self.attr_base,
            r.elem_base() == self.register_base.elem_base,
    {
        NodeBase::new(&self.attr_base, &self.register_base.elem_base)
    }

    /// What the register carries as a register.
    pub fn register_base(&self) -> (r: &RegisterBase)
        ensures
            *r == self.register_base,
    {
        &self.register_base
    }

    /// The bits of the register that hold the value.
    pub fn bit_mask(&self) -> (r: BitMask)
        ensures
            r == self.bit_mask,
    {
        self.bit_mask
    }

    /// The signedness of the value.
    pub fn sign(&self) -> (r: Sign)
        ensures
            r == self.sign,
    {
        self.sign
    }

    /// The byte order of the register.
    pub fn endianness(&self) -> (r: Endianness)
        ensures
            r == self.endianness,
    {
        self.endianness
    }

    /// The unit of the value.
    pub fn unit(&self) -> (r: Option<&str>)
        ensures
            r is Some <==> self.unit is Some,
            r matches Some(t) ==> t@ == self.unit.unwrap()@,
    {
        match &self.unit {
            Some(t) => Some(t.as_str()),
            None => None,
        }
    }

    /// The recommended presentation of the value.
    pub fn representation(&self) -> (r: IntegerRepresentation)
        ensures
            r == self.representation,
    {
        self.representation
    }

    /// The nodes that this node selects.
    pub fn p_selected(&self) -> (r: &[NodeId])
        ensures
            r@ == self.p_selected@,
    {
        self.p_selected.as_slice()
    }
}


/// The `width` low bits.
pub open spec fn low_mask(width: u64) -> u64 {
    if width >= 64 {
        0xffff_ffff_ffff_ffff
    } else {
        ((1u64 << width) - 1) as u64
    }
}

/// The bits `lsb` to `lsb + width - 1`.
pub open spec fn field_mask(lsb: u64, width: u64) -> u64 {
    low_mask(width) << lsb
}

/// The field of `width` bits that starts at bit `lsb` of `reg`.
pub open spec fn extract_field(reg: u64, lsb: u64, width: u64) -> u64 {
    (reg >> lsb) & low_mask(width)
}

/// The register `reg` with the `width` low bits of `field` in place of its
/// bits `lsb` to `lsb + width - 1`.
pub open spec fn insert_field(reg: u64, lsb: u64, width: u64, field: u64) -> u64 {
    (reg & !field_mask(lsb, width)) | ((field << lsb) & field_mask(lsb, width))
}

/// The number that a field of `width` bits stands for: the field itself
/// where it is unsigned; in two's complement where it is signed.
pub open spec fn field_value(field: u64, width: u64, sign: Sign) -> int {
    match sign {
        Sign::Unsigned => field as int,
        Sign::Signed => if width >= 1 && (field >> ((width - 1) as u64)) & 1 == 1 {
            (field | !low_mask(width)) as i64 as int
        } else {
            field as int
        },
    }
}

/// The smallest number that a field of `width` bits holds.
pub open spec fn field_min(width: u64, sign: Sign) -> int {
    match sign {
        Sign::Unsigned => 0,
        Sign::Signed => if width >= 1 {
            -(low_mask((width - 1) as u64) as int) - 1
        } else {
            0
        },
    }
}

/// The largest number that a field of `width` bits holds.
pub open spec fn field_max(width: u64, sign: Sign) -> int {
    match sign {
        Sign::Unsigned => low_mask(width) as int,
        Sign::Signed => if width >= 1 {
            low_mask((width - 1) as u64) as int
        } else {
            0
        },
    }
}

/// The field of `width` bits that stands for the number `value`.
pub open spec fn field_of_value(value: i64, width: u64) -> u64 {
    (value as u64) & low_mask(width)
}

/// A field that is written into a register is read back from it.
pub proof fn lemma_extract_inserted(reg: u64, lsb: u64, width: u64, field: u64)
    requires
        lsb + width <= 64,
    ensures
        extract_field(insert_field(reg, lsb, width, field), lsb, width) == field & low_mask(width),
{
    assert(extract_field(insert_field(reg, lsb, width, field), lsb, width) == field & low_mask(
        width,
    )) by (bit_vector)
        requires
            lsb + width <= 64,
    ;
}

/// Writing a field leaves the bits outside of it as they are.
pub proof fn lemma_insert_keeps_outside(reg: u64, lsb: u64, width: u64, field: u64)
    ensures
        insert_field(reg, lsb, width, field) & !field_mask(lsb, width) == reg & !field_mask(
            lsb,
            width,
        ),
{
    assert(insert_field(reg, lsb, width, field) & !field_mask(lsb, width) == reg & !field_mask(
        lsb,
        width,
    )) by (bit_vector);
}

/// The field of a number within the range of the field stands for that
/// number.
pub proof fn lemma_field_value_of_value(value: i64, width: u64, sign: Sign)
    requires
        1 <= width <= 64,
        field_min(width, sign) <= value <= field_max(width, sign),
    ensures
        field_value(field_of_value(value, width), width, sign) == value,
        field_of_value(value, width) & low_mask(width) == field_of_value(value, width),
{
    let f = field_of_value(value, width);
    assert(f & low_mask(width) == f) by (bit_vector)
        requires
            f == (value as u64) & low_mask(width),
    ;
    match sign {
        Sign::Unsigned => {
            assert(f == value) by (bit_vector)
                requires
                    f == (value as u64) & low_mask(width),
                    0 <= value <= low_mask(width),
                    1 <= width <= 64,
            ;
        },
        Sign::Signed => {
            let w1 = (width - 1) as u64;
            assert(field_value(f, width, Sign::Signed) == value) by (bit_vector)
                requires
                    f == (value as u64) & low_mask(width),
                    w1 == width - 1,
                    -(low_mask(w1) as int) - 1 <= value <= low_mask(w1),
                    1 <= width <= 64,
            ;
        },
    }
}

/// What is read from a field lies within the range of the field.
pub proof fn lemma_field_value_in_range(field: u64, width: u64, sign: Sign)
    requires
        1 <= width <= 64,
        field & low_mask(width) == field,
    ensures
        field_min(width, sign) <= field_value(field, width, sign) <= field_max(width, sign),
{
    match sign {
        Sign::Unsigned => {
            assert(field <= low_mask(width)) by (bit_vector)
                requires
                    field & low_mask(width) == field,
            ;
        },
        Sign::Signed => {
            let w1 = (width - 1) as u64;
            assert(-(low_mask(w1) as int) - 1 <= field_value(field, width, Sign::Signed)
                <= low_mask(w1)) by (bit_vector)
                requires
                    field & low_mask(width) == field,
                    w1 == width - 1,
                    1 <= width <= 64,
            ;
        },
    }
}


impl BitMask {
    /// The field that the mask selects in a register of `len` bytes in the
    /// byte order `endianness`: its least significant bit, counted from
    /// the least significant bit of the register, and its width.
    ///
    /// A mask is valid where the register has no more than eight bytes and
    /// the field lies within it, least significant bit first.
    pub open spec fn spec_field(self, len: nat, endianness: Endianness) -> Option<(u64, u64)> {
        let (l, m) = match self {
            BitMask::SingleBit(bit) => (bit, bit),
            BitMask::Range { lsb, msb } => (lsb, msb),
        };
        let bits = 8 * len;
        if len > 8 || l >= bits || m >= bits {
            None
        } else {
            let (lo, hi) = match endianness {
                Endianness::LE => (l as int, m as int),
                Endianness::BE => (bits - 1 - l, bits - 1 - m),
            };
            if lo <= hi {
                Some((lo as u64, (hi - lo + 1) as u64))
            } else {
                None
            }
        }
    }

    /// The field that the mask selects, as `spec_field` states it.
    pub fn field(self, len: usize, endianness: Endianness) -> (r: Option<(u64, u64)>)
        ensures
            r == self.spec_field(len as nat, endianness),
            r matches Some((lsb, width)) ==> 1 <= width && lsb + width <= 8 * len <= 64,
    {
        let (l, m) = match self {
            BitMask::SingleBit(bit) => (bit, bit),
            BitMask::Range { lsb, msb } => (lsb, msb),
        };
        if len > 8 {
            return None;
        }
        let bits: u64 = 8 * (len as u64);
        if l >= bits || m >= bits {
            return None;
        }
        let (lo, hi) = match endianness {
            Endianness::LE => (l, m),
            Endianness::BE => (bits - 1 - l, bits - 1 - m),
        };
        if lo <= hi {
            Some((lo, hi - lo + 1))
        } else {
            None
        }
    }
}

/// The `width` low bits.
pub(crate) fn low_mask_of(width: u64) -> (r: u64)
    ensures
        r == low_mask(width),
{
    if width >= 64 {
        0xffff_ffff_ffff_ffff
    } else {
        assert((1u64 << width) >= 1) by (bit_vector)
            requires
                width < 64,
        ;
        (1u64 << width) - 1
    }
}

/// Takes the field of `width` bits at bit `lsb` out of `reg`.
pub(crate) fn extract(reg: u64, lsb: u64, width: u64) -> (r: u64)
    requires
        lsb < 64,
    ensures
        r == extract_field(reg, lsb, width),
{
    (reg >> lsb) & low_mask_of(width)
}

/// Puts the `width` low bits of `field` into `reg` at bit `lsb`.
pub(crate) fn insert(reg: u64, lsb: u64, width: u64, field: u64) -> (r: u64)
    requires
        lsb < 64,
    ensures
        r == insert_field(reg, lsb, width, field),
{
    let mask = low_mask_of(width) << lsb;
    (reg & !mask) | ((field << lsb) & mask)
}

/// The number that a field stands for, if a signed 64-bit integer holds it.
pub(crate) fn field_to_int(field: u64, width: u64, sign: Sign) -> (r: Option<i64>)
    requires
        width <= 64,
    ensures
        r is Some <==> field_value(field, width, sign) <= i64::MAX,
        r matches Some(v) ==> v == field_value(field, width, sign),
{
    match sign {
        Sign::Unsigned => {
            if field <= 0x7fff_ffff_ffff_ffff {
                Some(field as i64)
            } else {
                None
            }
        },
        Sign::Signed => {
            if width >= 1 && (field >> (width - 1)) & 1 == 1 {
                let extended = field | !low_mask_of(width);
                Some(extended as i64)
            } else if field <= 0x7fff_ffff_ffff_ffff {
                Some(field as i64)
            } else {
                None
            }
        },
    }
}

/// The field that stands for `value`, if `value` lies within the range of a
/// field of `width` bits.
pub(crate) fn value_to_field(value: i64, width: u64, sign: Sign) -> (r: Option<u64>)
    requires
        1 <= width <= 64,
    ensures
        r is Some <==> field_min(width, sign) <= value <= field_max(width, sign),
        r matches Some(f) ==> f == field_of_value(value, width),
{
    let in_range = match sign {
        Sign::Unsigned => value >= 0 && (value as u64) <= low_mask_of(width),
        Sign::Signed => {
            let limit = low_mask_of(width - 1);
            assert(limit <= 0x7fff_ffff_ffff_ffff) by (bit_vector)
                requires
                    limit == low_mask((width - 1) as u64),
                    1 <= width <= 64,
            ;
            let limit = limit as i64;
            -limit - 1 <= value && value <= limit
        },
    };
    if in_range {
        Some((value as u64) & low_mask_of(width))
    } else {
        None
    }
}


/// `len` bytes hold the numbers of `8 * len` bits.
pub proof fn lemma_pow256_is_low_mask(len: nat)
    requires
        len <= 8,
    ensures
        pow256(len) == low_mask((8 * len) as u64) + 1,
{
    lemma_pow256_values();
    assert(low_mask(0) == 0) by (bit_vector);
    assert(low_mask(8) == 0xff) by (bit_vector);
    assert(low_mask(16) == 0xffff) by (bit_vector);
    assert(low_mask(24) == 0xff_ffff) by (bit_vector);
    assert(low_mask(32) == 0xffff_ffff) by (bit_vector);
    assert(low_mask(40) == 0xff_ffff_ffff) by (bit_vector);
    assert(low_mask(48) == 0xffff_ffff_ffff) by (bit_vector);
    assert(low_mask(56) == 0xff_ffff_ffff_ffff) by (bit_vector);
    assert(low_mask(64) == 0xffff_ffff_ffff_ffff) by (bit_vector);
}

/// A field that lies within the low `bits` bits of a register leaves the
/// register within these bits.
pub proof fn lemma_insert_stays_within(reg: u64, lsb: u64, width: u64, field: u64, bits: u64)
    requires
        reg <= low_mask(bits),
        lsb + width <= bits <= 64,
    ensures
        insert_field(reg, lsb, width, field) <= low_mask(bits),
{
    assert(insert_field(reg, lsb, width, field) <= low_mask(bits)) by (bit_vector)
        requires
            reg <= low_mask(bits),
            lsb + width <= bits <= 64,
    ;
}

impl MaskedIntRegView {
    /// The number that the register holds where its bytes are `bytes`:
    /// the field that the bit mask selects, read with the signedness of the
    /// register. `None` where the mask is not valid for that many bytes.
    pub open spec fn spec_value(self, bytes: Seq<u8>) -> Option<int> {
        match self.bit_mask.spec_field(bytes.len(), self.endianness) {
            Some((lsb, width)) => Some(
                field_value(
                    extract_field(unsigned_value(bytes, self.endianness) as u64, lsb, width),
                    width,
                    self.sign,
                ),
            ),
            None => None,
        }
    }

    /// The smallest number that the register holds in `len` bytes.
    pub open spec fn spec_min(self, len: nat) -> Option<int> {
        match self.bit_mask.spec_field(len, self.endianness) {
            Some((lsb, width)) => Some(field_min(width, self.sign)),
            None => None,
        }
    }

    /// The largest number that the register holds in `len` bytes.
    pub open spec fn spec_max(self, len: nat) -> Option<int> {
        match self.bit_mask.spec_field(len, self.endianness) {
            Some((lsb, width)) => Some(field_max(width, self.sign)),
            None => None,
        }
    }

    /// Whether `value` is one of the numbers that the register holds in
    /// `len` bytes.
    pub open spec fn holds(self, len: nat, value: i64) -> bool {
        self.spec_min(len) matches Some(min) && self.spec_max(len) matches Some(max) && min
            <= value <= max
    }

    /// The register as an unsigned number where its bytes are `bytes`.
    pub open spec fn spec_register(self, bytes: Seq<u8>) -> u64 {
        unsigned_value(bytes, self.endianness) as u64
    }

    /// The bits of the register that the mask selects.
    pub open spec fn spec_mask(self, len: nat) -> u64 {
        match self.bit_mask.spec_field(len, self.endianness) {
            Some((lsb, width)) => field_mask(lsb, width),
            None => 0,
        }
    }

    /// The bytes of the register after `value` has been written, where its
    /// bytes were `bytes` before: the field that the mask selects stands
    /// for `value`, and the other bits are as they were.
    pub open spec fn spec_bytes_with(self, bytes: Seq<u8>, value: i64) -> Seq<u8> {
        match self.bit_mask.spec_field(bytes.len(), self.endianness) {
            Some((lsb, width)) => unsigned_bytes(
                insert_field(
                    self.spec_register(bytes),
                    lsb,
                    width,
                    field_of_value(value, width),
                ) as nat,
                bytes.len(),
                self.endianness,
            ),
            None => bytes,
        }
    }
}

/// What is written to a masked integer register is read back from it, and
/// the bits of the register outside the mask stay as they are.
pub proof fn lemma_masked_write_then_read(reg: MaskedIntRegView, bytes: Seq<u8>, value: i64)
    requires
        reg.holds(bytes.len(), value),
    ensures
        reg.spec_bytes_with(bytes, value).len() == bytes.len(),
        reg.spec_value(reg.spec_bytes_with(bytes, value)) == Some(value as int),
        reg.spec_register(reg.spec_bytes_with(bytes, value)) & !reg.spec_mask(bytes.len())
            == reg.spec_register(bytes) & !reg.spec_mask(bytes.len()),
{
    let len = bytes.len();
    let (lsb, width) = reg.bit_mask.spec_field(len, reg.endianness).unwrap();
    let ordered = match reg.endianness {
        Endianness::LE => bytes,
        Endianness::BE => bytes.reverse(),
    };
    lemma_le_value_bound(ordered);
    lemma_pow256_is_low_mask(len);
    let old_reg = reg.spec_register(bytes);
    let field = field_of_value(value, width);
    let new_reg = insert_field(old_reg, lsb, width, field);
    let bits = (8 * len) as u64;
    assert(old_reg == unsigned_value(bytes, reg.endianness));
    lemma_insert_stays_within(old_reg, lsb, width, field, bits);
    lemma_le_value_of_bytes(new_reg as nat, len);
    let le = crate::int_codec::le_bytes(new_reg as nat, len);
    assert(le.reverse().reverse() =~= le);
    let new_bytes = reg.spec_bytes_with(bytes, value);
    assert(new_bytes.len() == len);
    assert(unsigned_value(new_bytes, reg.endianness) == new_reg);
    assert(reg.spec_register(new_bytes) == new_reg);
    lemma_extract_inserted(old_reg, lsb, width, field);
    lemma_field_value_of_value(value, width, reg.sign);
    lemma_insert_keeps_outside(old_reg, lsb, width, field);
}


impl MaskedIntRegNode {
    /// The number that the bytes `bytes` of the register stand for.
    ///
    /// Fails with `InvalidData` where the bit mask is not valid for that
    /// many bytes, and for a number that a signed 64-bit integer cannot
    /// hold.
    pub fn value_of_bytes(&self, bytes: &[u8]) -> (r: GenApiResult<i64>)
        ensures
            match r {
                Ok(v) => self@.spec_value(bytes@) == Some(v as int),
                Err(e) => e is InvalidData && match self@.spec_value(bytes@) {
                    Some(v) => v > i64::MAX,
                    None => true,
                },
            },
    {
        let (lsb, width) = match self.bit_mask.field(bytes.len(), self.endianness) {
            Some(f) => f,
            None => {
                return Err(GenApiError::InvalidData("the bit mask is not valid".to_owned()));
            },
        };
        let reg = match decode_unsigned(bytes, self.endianness) {
            Some(reg) => reg,
            None => {
                return Err(GenApiError::InvalidData("the register is too long".to_owned()));
            },
        };
        match field_to_int(extract(reg, lsb, width), width, self.sign) {
            Some(v) => Ok(v),
            None => Err(
                GenApiError::InvalidData(
                    "the register does not hold a 64-bit integer".to_owned(),
                ),
            ),
        }
    }

    /// The bytes of the register after `value` has been written to it,
    /// where its bytes were `bytes` before.
    ///
    /// Fails with `InvalidData` where the register does not hold `value`
    /// in that many bytes.
    pub fn bytes_with_value(&self, bytes: &[u8], value: i64) -> (r: GenApiResult<Vec<u8>>)
        ensures
            match r {
                Ok(b) => self@.holds(bytes@.len(), value) && b@ == self@.spec_bytes_with(
                    bytes@,
                    value,
                ) && b@.len() == bytes@.len(),
                Err(e) => e is InvalidData && !self@.holds(bytes@.len(), value),
            },
    {
        let (lsb, width) = match self.bit_mask.field(bytes.len(), self.endianness) {
            Some(f) => f,
            None => {
                return Err(GenApiError::InvalidData("the bit mask is not valid".to_owned()));
            },
        };
        let field = match value_to_field(value, width, self.sign) {
            Some(f) => f,
            None => {
                return Err(GenApiError::InvalidData("the value is out of range".to_owned()));
            },
        };
        let reg = decode_unsigned(bytes, self.endianness).unwrap();
        let new_reg = insert(reg, lsb, width, field);
        proof {
            lemma_pow256_is_low_mask(bytes@.len());
            lemma_insert_stays_within(reg, lsb, width, field, (8 * bytes@.len()) as u64);
        }
        Ok(encode_unsigned(new_reg, bytes.len(), self.endianness).unwrap())
    }

    /// Reads the register `length` bytes long at `address`.
    ///
    /// Fails with `AccessDenied` where the register may not be read; with
    /// `InvalidData` where the address or the length is not valid; with
    /// `Device` where the device fails; and with `InvalidData` where the
    /// bit mask is not valid or the field stands for no 64-bit integer; the
    /// first that applies, in this order.
    pub fn value_at<D: Device, U: CacheStore>(
        &self,
        address: i64,
        length: i64,
        device: &mut D,
        cache: &mut U,
    ) -> (r: GenApiResult<i64>)
        ensures
            final(cache).pairs() == old(cache).pairs(),
            (*final(device)).memory() == (*old(device)).memory(),
            !self@.register_base.readable() ==> r matches Err(GenApiError::AccessDenied(_)),
            self@.register_base.readable() && !valid_range(address, length) ==> r matches Err(
                GenApiError::InvalidData(_),
            ),
            !self@.register_base.readable() || !valid_range(address, length)
                || self@.register_base.cached(
                self@.attr_base.id,
                address,
                length,
                old(cache).entries(),
            ) is Some ==> *final(device) == *old(device)
                && final(cache).entries() == old(cache).entries(),
            self@.register_base.readable() && valid_range(address, length) ==> ({
                let bytes = self@.register_base.bytes_read(
                    self@.attr_base.id,
                    address,
                    length,
                    (*old(device)).memory(),
                    old(cache).entries(),
                );
                let fetched = self@.register_base.entries_after_fetch(
                    self@.attr_base.id,
                    address,
                    length,
                    (*old(device)).memory(),
                    old(cache).entries(),
                );
                match r {
                    Ok(v) => self@.spec_value(bytes) == Some(v as int) && final(cache).entries()
                        == fetched,
                    Err(GenApiError::Device(_)) => final(cache).entries() == old(cache).entries()
                        && self@.register_base.cached(
                        self@.attr_base.id,
                        address,
                        length,
                        old(cache).entries(),
                    ) is None,
                    Err(e) => e is InvalidData && final(cache).entries() == fetched
                        && match self@.spec_value(bytes) {
                        Some(v) => v > i64::MAX,
                        None => true,
                    },
                }
            }),
    {
        let bytes = self.register_base.read_bytes(self.attr_base.id, address, length, device, cache)?;
        self.value_of_bytes(bytes.as_slice())
    }

    /// Writes `value` to the register `length` bytes long at `address`: the
    /// bytes of the register are read from the device, the field that the
    /// bit mask selects is replaced, and the bytes are written back. The
    /// bits of the register outside the field stay as the device holds
    /// them.
    ///
    /// Fails with `AccessDenied` where the register may not be written;
    /// with `InvalidData` where the address or the length is not valid or
    /// the register does not hold `value`; and with `Device` where the
    /// device fails; the first that applies, in this order. The device is
    /// called twice where the write is let through, once to read and once
    /// to write, and not at all otherwise.
    pub fn set_value_at<D: Device, U: CacheStore>(
        &self,
        value: i64,
        address: i64,
        length: i64,
        device: &mut D,
        cache: &mut U,
    ) -> (r: GenApiResult<()>)
        ensures
            final(cache).pairs() == old(cache).pairs(),
            !self@.register_base.writable() ==> r matches Err(GenApiError::AccessDenied(_)),
            self@.register_base.writable() && !(valid_range(address, length) && self@.holds(
                length as nat,
                value,
            )) ==> r matches Err(GenApiError::InvalidData(_)),
            !self@.register_base.writable() || !valid_range(address, length) || !self@.holds(
                length as nat,
                value,
            ) ==> *final(device) == *old(device) && final(cache).entries() == old(cache).entries(),
            self@.register_base.writable() && valid_range(address, length) && self@.holds(
                length as nat,
                value,
            ) ==> ({
                let data = self@.spec_bytes_with(
                    bytes_at((*old(device)).memory(), address as int, length as nat),
                    value,
                );
                match r {
                    Ok(()) => (*final(device)).memory() == written(
                        (*old(device)).memory(),
                        address as int,
                        data,
                    ) && final(cache).entries() == self@.register_base.entries_after_write(
                        self@.attr_base.id,
                        address,
                        length,
                        data,
                        old(cache).entries(),
                        old(cache).pairs(),
                    ),
                    Err(e) => e is Device && final(cache).entries() == old(cache).entries(),
                }
            }),
    {
        if !self.register_base.is_writable() {
            return Err(GenApiError::AccessDenied("the register is not writable"));
        }
        if address < 0 || length < 0 || length as u64 > usize::MAX as u64 {
            return Err(GenApiError::InvalidData("invalid address or length".to_owned()));
        }
        if length > 8 {
            return Err(GenApiError::InvalidData("the register is too long".to_owned()));
        }
        match self.bit_mask.field(length as usize, self.endianness) {
            Some((_, width)) => {
                if value_to_field(value, width, self.sign).is_none() {
                    return Err(GenApiError::InvalidData("the value is out of range".to_owned()));
                }
            },
            None => {
                return Err(GenApiError::InvalidData("the bit mask is not valid".to_owned()));
            },
        }
        let current = self.register_base.read_device(address, length, device)?;
        let bytes = self.bytes_with_value(current.as_slice(), value)?;
        self.register_base.write_bytes(
            self.attr_base.id,
            address,
            length,
            bytes.as_slice(),
            device,
            cache,
        )
    }
}

/// What is written to a masked integer register is what the next read of
/// it yields, and the write leaves the bits of the register outside the
/// mask as the device held them, whatever the cache held.
pub proof fn lemma_masked_write_then_read_at(
    reg: MaskedIntRegView,
    value: i64,
    address: i64,
    length: i64,
    mem: Map<int, u8>,
    entries: Map<NodeId, CacheEntryView>,
    pairs: Set<(NodeId, NodeId)>,
)
    requires
        valid_range(address, length),
        reg.holds(length as nat, value),
    ensures
        ({
            let nid = reg.attr_base.id;
            let before = bytes_at(mem, address as int, length as nat);
            let data = reg.spec_bytes_with(before, value);
            let mem_after = written(mem, address as int, data);
            let after = reg.register_base.bytes_read(
                nid,
                address,
                length,
                mem_after,
                reg.register_base.entries_after_write(nid, address, length, data, entries, pairs),
            );
            &&& after == data
            &&& bytes_at(mem_after, address as int, length as nat) == data
            &&& reg.spec_value(after) == Some(value as int)
            &&& reg.spec_register(data) & !reg.spec_mask(length as nat) == reg.spec_register(
                before,
            ) & !reg.spec_mask(length as nat)
        }),
{
    let nid = reg.attr_base.id;
    let before = bytes_at(mem, address as int, length as nat);
    lemma_masked_write_then_read(reg, before, value);
    let data = reg.spec_bytes_with(before, value);
    lemma_read_after_write(reg.register_base, nid, address, length, data, mem, entries, pairs);
    crate::lemma_bytes_at_written(mem, address as int, data);
}

} // verus!
