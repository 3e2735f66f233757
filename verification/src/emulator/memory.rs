//! Register layout: a run of bytes divided into named entries, each with a
//! length, an access right and a type, together with the bytes that the
//! entries start with and the map of access rights.

use vstd::prelude::*;
use vstd::string::*;

use crate::elem_type::{Endianness, Sign};
use crate::int_codec::{
    decode_int, decode_unsigned, encode_int, encode_unsigned, int_bytes, int_value, max_value,
    min_value, pow256, unsigned_bytes, unsigned_value,
};
use crate::utils::{str_eq, str_from_utf8};
use crate::{bytes_at, written, Device, DeviceError};

verus! {

/// What may be done with a byte of a register.
#[derive(Clone, Copy, Debug, PartialEq, Eq, Structural)]
pub enum AccessRight {
    /// Neither read nor written.
    NA,
    /// Read only.
    RO,
    /// Written only.
    WO,
    /// Read and written.
    RW,
}

impl AccessRight {
    /// Whether the right allows reading.
    pub open spec fn spec_is_readable(self) -> bool {
        self == AccessRight::RO || self == AccessRight::RW
    }

    /// Whether the right allows writing.
    pub open spec fn spec_is_writable(self) -> bool {
        self == AccessRight::WO || self == AccessRight::RW
    }

    /// The right that allows reading where `readable` holds and writing
    /// where `writable` holds.
    pub open spec fn spec_from_flags(readable: bool, writable: bool) -> AccessRight {
        if readable && writable {
            AccessRight::RW
        } else if readable {
            AccessRight::RO
        } else if writable {
            AccessRight::WO
        } else {
            AccessRight::NA
        }
    }

    /// The strictest of two rights: what both allow.
    pub open spec fn spec_meet(self, rhs: AccessRight) -> AccessRight {
        Self::spec_from_flags(
            self.spec_is_readable() && rhs.spec_is_readable(),
            self.spec_is_writable() && rhs.spec_is_writable(),
        )
    }

    /// Whether the right allows reading.
    #[verifier::when_used_as_spec(spec_is_readable)]
    pub fn is_readable(self) -> (r: bool)
        ensures
            r == self.spec_is_readable(),
    {
        self == AccessRight::RO || self == AccessRight::RW
    }

    /// Whether the right allows writing.
    #[verifier::when_used_as_spec(spec_is_writable)]
    pub fn is_writable(self) -> (r: bool)
        ensures
            r == self.spec_is_writable(),
    {
        self == AccessRight::WO || self == AccessRight::RW
    }

    /// The right that allows reading where `readable` holds and writing
    /// where `writable` holds.
    #[verifier::when_used_as_spec(spec_from_flags)]
    pub fn from_flags(readable: bool, writable: bool) -> (r: AccessRight)
        ensures
            r == Self::spec_from_flags(readable, writable),
    {
        if readable && writable {
            AccessRight::RW
        } else if readable {
            AccessRight::RO
        } else if writable {
            AccessRight::WO
        } else {
            AccessRight::NA
        }
    }

    /// The strictest of two rights: what both allow.
    #[verifier::when_used_as_spec(spec_meet)]
    pub fn meet(self, rhs: AccessRight) -> (r: AccessRight)
        ensures
            r == self.spec_meet(rhs),
    {
        AccessRight::from_flags(
            self.is_readable() && rhs.is_readable(),
            self.is_writable() && rhs.is_writable(),
        )
    }
}

/// The meet of access rights is their intersection: it is commutative,
/// associative and idempotent, `RW` is neutral and `NA` absorbs.
pub proof fn lemma_meet_is_intersection(a: AccessRight, b: AccessRight, c: AccessRight)
    ensures
        a.spec_meet(b) == b.spec_meet(a),
        a.spec_meet(b).spec_meet(c) == a.spec_meet(b.spec_meet(c)),
        a.spec_meet(a) == a,
        a.spec_meet(AccessRight::RW) == a,
        a.spec_meet(AccessRight::NA) == AccessRight::NA,
        a.spec_meet(b).spec_is_readable() <==> a.spec_is_readable() && b.spec_is_readable(),
        a.spec_meet(b).spec_is_writable() <==> a.spec_is_writable() && b.spec_is_writable(),
{
}

/// Why an operation on a register memory failed.
#[derive(Clone, Copy, Debug, PartialEq, Eq, Structural)]
pub enum MemoryError {
    /// The range does not lie within the memory, or is empty where it must
    /// not be.
    InvalidAddress,
    /// The access right of a byte of the range forbids the operation.
    AccessDenied,
    /// There is no entry with that index, or its type is another.
    InvalidEntry,
    /// The length of the entry, or of the data, does not fit the type.
    InvalidLength,
    /// The bytes of a string entry are not UTF-8 up to the first NUL.
    InvalidUtf8,
    /// The initial value of the entry with this index does not fit it.
    InvalidInitializer(usize),
    /// The layout is larger than the machine can address.
    TooLarge,
}

/// The type of an entry together with the value that it starts with.
#[derive(Debug)]
pub enum EntryValue {
    /// An unsigned integer of up to eight bytes.
    Unsigned(u64),
    /// A signed integer of up to eight bytes.
    Signed(i64),
    /// A string, padded with NUL up to the length of the entry.
    Str(String),
    /// Raw bytes, padded with zero up to the length of the entry.
    Bytes(Vec<u8>),
}

/// An `EntryValue` as a plain value; a string is held as its UTF-8 bytes.
pub enum EntryValueView {
    Unsigned(u64),
    Signed(i64),
    Str(Seq<u8>),
    Bytes(Seq<u8>),
}

impl View for EntryValue {
    type V = EntryValueView;

    open spec fn view(&self) -> EntryValueView {
        match self {
            EntryValue::Unsigned(v) => EntryValueView::Unsigned(*v),
            EntryValue::Signed(v) => EntryValueView::Signed(*v),
            EntryValue::Str(s) => EntryValueView::Str(vstd::utf8::encode_utf8(s@)),
            EntryValue::Bytes(b) => EntryValueView::Bytes(b@),
        }
    }
}


/// What an entry is: its name, its length in bytes, its access right, and
/// its type with the value that it starts with.
#[derive(Debug)]
pub struct EntryDescriptor {
    pub name: String,
    pub len: usize,
    pub access: AccessRight,
    pub value: EntryValue,
}

/// An `EntryDescriptor` as plain values.
pub struct EntryDescriptorView {
    pub name: Seq<char>,
    pub len: usize,
    pub access: AccessRight,
    pub value: EntryValueView,
}

impl View for EntryDescriptor {
    type V = EntryDescriptorView;

    open spec fn view(&self) -> EntryDescriptorView {
        EntryDescriptorView {
            name: self.name@,
            len: self.len,
            access: self.access,
            value: self.value@,
        }
    }
}

/// The descriptors `ds` as plain values.
pub open spec fn descriptor_views(ds: Seq<EntryDescriptor>) -> Seq<EntryDescriptorView> {
    Seq::new(ds.len(), |i: int| ds[i]@)
}

/// The type of an entry.
#[derive(Clone, Copy, Debug, PartialEq, Eq, Structural)]
pub enum EntryKind {
    Unsigned,
    Signed,
    Str,
    Bytes,
}

/// The type of an entry that starts with `value`.
pub open spec fn kind_of(value: EntryValueView) -> EntryKind {
    match value {
        EntryValueView::Unsigned(_) => EntryKind::Unsigned,
        EntryValueView::Signed(_) => EntryKind::Signed,
        EntryValueView::Str(_) => EntryKind::Str,
        EntryValueView::Bytes(_) => EntryKind::Bytes,
    }
}

/// Where an entry lies in its layout, counted from the start of the layout.
#[derive(Clone, Copy, Debug, PartialEq, Eq, Structural)]
pub struct RawEntry {
    pub offset: usize,
    pub len: usize,
}

/// An entry of a layout.
#[derive(Clone, Copy, Debug, PartialEq, Eq, Structural)]
pub struct Entry {
    pub offset: usize,
    pub len: usize,
    pub access: AccessRight,
    pub kind: EntryKind,
}

/// `n` zero bytes.
pub open spec fn zeros(n: nat) -> Seq<u8> {
    Seq::new(n, |i: int| 0u8)
}

/// The bytes that an entry of `len` bytes starts with: an integer in the
/// byte order of the layout; a string or raw bytes padded with zero. `None`
/// where the value does not fit the entry.
pub open spec fn initial_bytes(len: nat, value: EntryValueView, endianness: Endianness) -> Option<
    Seq<u8>,
> {
    match value {
        EntryValueView::Unsigned(v) => if len <= 8 && v < pow256(len) {
            Some(unsigned_bytes(v as nat, len, endianness))
        } else {
            None
        },
        EntryValueView::Signed(v) => if len <= 8 && min_value(len, Sign::Signed) <= v
            <= max_value(len, Sign::Signed) {
            Some(int_bytes(v as int, len, endianness, Sign::Signed))
        } else {
            None
        },
        EntryValueView::Str(b) => if b.len() <= len {
            Some(b + zeros((len - b.len()) as nat))
        } else {
            None
        },
        EntryValueView::Bytes(b) => if b.len() <= len {
            Some(b + zeros((len - b.len()) as nat))
        } else {
            None
        },
    }
}

/// The sum of the lengths of the entries `ds`.
pub open spec fn total_len(ds: Seq<EntryDescriptorView>) -> nat
    decreases ds.len(),
{
    if ds.len() == 0 {
        0
    } else {
        total_len(ds.drop_last()) + ds.last().len as nat
    }
}

/// Why no layout can be made of the entries `ds` at `base`, if there is a
/// reason: going through the entries in order, the first entry that ends
/// beyond what the machine can address, or whose value does not fit it.
pub open spec fn layout_error(ds: Seq<EntryDescriptorView>, base: usize, endianness: Endianness)
    -> Option<MemoryError>
    decreases ds.len(),
{
    if ds.len() == 0 {
        None
    } else {
        match layout_error(ds.drop_last(), base, endianness) {
            Some(e) => Some(e),
            None => if base + total_len(ds) > usize::MAX {
                Some(MemoryError::TooLarge)
            } else if initial_bytes(ds.last().len as nat, ds.last().value, endianness) is None {
                Some(MemoryError::InvalidInitializer((ds.len() - 1) as usize))
            } else {
                None
            },
        }
    }
}

/// The bytes that the entries `ds` start with, one entry after the other.
pub open spec fn preloaded(ds: Seq<EntryDescriptorView>, endianness: Endianness) -> Seq<u8>
    decreases ds.len(),
{
    if ds.len() == 0 {
        Seq::empty()
    } else {
        preloaded(ds.drop_last(), endianness) + initial_bytes(
            ds.last().len as nat,
            ds.last().value,
            endianness,
        ).unwrap()
    }
}

/// The entries of the layout that is made of `ds`: each starts where the
/// one before it ends, the first at 0.
pub open spec fn entries_of(ds: Seq<EntryDescriptorView>) -> Seq<Entry> {
    Seq::new(
        ds.len(),
        |i: int|
            Entry {
                offset: total_len(ds.take(i)) as usize,
                len: ds[i].len,
                access: ds[i].access,
                kind: kind_of(ds[i].value),
            },
    )
}

/// The preloaded bytes are as many as the lengths of the entries sum up to.
pub proof fn lemma_preloaded_len(ds: Seq<EntryDescriptorView>, endianness: Endianness)
    requires
        forall|i: int|
            0 <= i < ds.len() ==> initial_bytes(
                (#[trigger] ds[i]).len as nat,
                ds[i].value,
                endianness,
            ) is Some,
    ensures
        preloaded(ds, endianness).len() == total_len(ds),
    decreases ds.len(),
{
    if ds.len() > 0 {
        assert forall|i: int| 0 <= i < ds.drop_last().len() implies initial_bytes(
            (#[trigger] ds.drop_last()[i]).len as nat,
            ds.drop_last()[i].value,
            endianness,
        ) is Some by {
            assert(ds.drop_last()[i] == ds[i]);
        }
        lemma_preloaded_len(ds.drop_last(), endianness);
        let last = ds.last();
        assert(ds[ds.len() - 1] == last);
        lemma_initial_bytes_len(last.len as nat, last.value, endianness);
    }
}

/// An entry starts with as many bytes as it is long.
pub proof fn lemma_initial_bytes_len(len: nat, value: EntryValueView, endianness: Endianness)
    requires
        initial_bytes(len, value, endianness) is Some,
    ensures
        initial_bytes(len, value, endianness).unwrap().len() == len,
{
    match value {
        EntryValueView::Unsigned(v) => {
            crate::int_codec::lemma_le_bytes_len(v as nat, len);
        },
        EntryValueView::Signed(v) => {
            crate::int_codec::lemma_int_value_of_bytes(v as int, len, endianness, Sign::Signed);
        },
        EntryValueView::Str(b) => {},
        EntryValueView::Bytes(b) => {},
    }
}

/// The bytes `bytes`, padded with zero to `len` bytes.
fn padded(bytes: &[u8], len: usize) -> (r: Vec<u8>)
    requires
        bytes@.len() <= len,
    ensures
        r@ == bytes@ + zeros((len - bytes@.len()) as nat),
{
    let mut r = vstd::slice::slice_to_vec(bytes);
    while r.len() < len
        invariant
            bytes@.len() <= r@.len() <= len,
            r@ == bytes@ + zeros((r@.len() - bytes@.len()) as nat),
        decreases len - r@.len(),
    {
        let ghost before = r@;
        r.push(0u8);
        assert(r@ =~= bytes@ + zeros((r@.len() - bytes@.len()) as nat));
    }
    r
}

/// The bytes that an entry of `len` bytes starts with.
fn initial_bytes_of(len: usize, value: &EntryValue, endianness: Endianness) -> (r: Option<Vec<u8>>)
    ensures
        r is Some <==> initial_bytes(len as nat, value@, endianness) is Some,
        r matches Some(b) ==> Some(b@) == initial_bytes(len as nat, value@, endianness),
{
    match value {
        EntryValue::Unsigned(v) => encode_unsigned(*v, len, endianness),
        EntryValue::Signed(v) => encode_int(*v, len, endianness, Sign::Signed),
        EntryValue::Str(s) => {
            let bytes = s.as_str().as_bytes();
            if bytes.len() <= len {
                Some(padded(bytes, len))
            } else {
                None
            }
        },
        EntryValue::Bytes(b) => {
            if b.len() <= len {
                Some(padded(b.as_slice(), len))
            } else {
                None
            }
        },
    }
}

/// The type of an entry that starts with `value`.
fn kind_of_value(value: &EntryValue) -> (r: EntryKind)
    ensures
        r == kind_of(value@),
{
    match value {
        EntryValue::Unsigned(_) => EntryKind::Unsigned,
        EntryValue::Signed(_) => EntryKind::Signed,
        EntryValue::Str(_) => EntryKind::Str,
        EntryValue::Bytes(_) => EntryKind::Bytes,
    }
}


/// Whether each of the `n` pieces that start at `offset(i)` and are `len(i)`
/// long starts where the one before it ends, the first at 0 and the last
/// ending at `size`.
pub open spec fn contiguous(n: nat, offset: spec_fn(int) -> int, len: spec_fn(int) -> int, size: int)
    -> bool {
    &&& n == 0 ==> size == 0
    &&& n > 0 ==> offset(0) == 0 && offset(n - 1) + len(n - 1) == size
    &&& forall|i: int| 0 <= i < n - 1 ==> #[trigger] offset(i) + len(i) == offset(i + 1)
    &&& forall|i: int| 0 <= i < n ==> #[trigger] len(i) >= 0
}

/// A range of bytes with one access right.
#[derive(Clone, Copy, Debug, PartialEq, Eq, Structural)]
pub struct ProtectedRange {
    pub start: usize,
    pub end: usize,
    pub access: AccessRight,
}

impl ProtectedRange {
    /// Whether the range has a byte in common with the bytes from `start`
    /// up to, but not including, `end`.
    pub open spec fn shares_byte(self, start: int, end: int) -> bool {
        self.start < end && start < self.end && self.start < self.end && start < end
    }
}

/// The map of the access rights of a layout: ranges of bytes, each with one
/// access right, that follow each other from 0 to the size of the layout.
pub struct MemoryProtection {
    ranges: Vec<ProtectedRange>,
    size: usize,
}

impl MemoryProtection {
    #[verifier::type_invariant]
    spec fn inv(self) -> bool {
        self.partitions()
    }

    /// The ranges of the map, in the order of their bytes.
    pub closed spec fn ranges(&self) -> Seq<ProtectedRange> {
        self.ranges@
    }

    /// The number of bytes that the map covers.
    pub closed spec fn spec_size(&self) -> usize {
        self.size
    }

    /// Whether the ranges divide the bytes from 0 to the size of the map.
    pub open spec fn partitions(&self) -> bool {
        contiguous(
            self.ranges().len(),
            |i: int| self.ranges()[i].start as int,
            |i: int| self.ranges()[i].end - self.ranges()[i].start,
            self.spec_size() as int,
        )
    }

    /// The strictest of the access rights of the ranges that have a byte in
    /// common with the bytes from `start` up to, but not including, `end`:
    /// it allows reading where each of these ranges does, and writing where
    /// each of them does. `NA` where there are no such bytes, or where they
    /// do not all lie within the map.
    pub open spec fn spec_access_right_with_range(&self, start: int, end: int) -> AccessRight {
        if start >= end || start < 0 || end > self.spec_size() {
            AccessRight::NA
        } else {
            AccessRight::spec_from_flags(
                forall|k: int|
                    0 <= k < self.ranges().len() && (#[trigger] self.ranges()[k]).shares_byte(
                        start,
                        end,
                    ) ==> self.ranges()[k].access.spec_is_readable(),
                forall|k: int|
                    0 <= k < self.ranges().len() && (#[trigger] self.ranges()[k]).shares_byte(
                        start,
                        end,
                    ) ==> self.ranges()[k].access.spec_is_writable(),
            )
        }
    }

    /// The number of bytes that the map covers.
    pub fn size(&self) -> (r: usize)
        ensures
            r == self.spec_size(),
            self.partitions(),
    {
        proof {
            use_type_invariant(self);
        }
        self.size
    }

    /// The strictest access right among the ranges that `range` touches.
    pub fn access_right_with_range(&self, range: core::ops::Range<usize>) -> (r: AccessRight)
        ensures
            r == self.spec_access_right_with_range(range.start as int, range.end as int),
    {
        let start = range.start;
        let end = range.end;
        if start >= end || end > self.size {
            return AccessRight::NA;
        }
        let mut readable = true;
        let mut writable = true;
        let mut k: usize = 0;
        while k < self.ranges.len()
            invariant
                k <= self.ranges@.len(),
                start < end,
                readable == forall|j: int|
                    0 <= j < k
                        && (#[trigger] self.ranges()[j]).shares_byte(start as int, end as int)
                        ==> self.ranges()[j].access.spec_is_readable(),
                writable == forall|j: int|
                    0 <= j < k
                        && (#[trigger] self.ranges()[j]).shares_byte(start as int, end as int)
                        ==> self.ranges()[j].access.spec_is_writable(),
            decreases self.ranges@.len() - k,
        {
            let r = self.ranges[k];
            assert(r == self.ranges()[k as int]);
            let ghost readable_before = readable;
            let ghost writable_before = writable;
            if r.start < end && start < r.end && r.start < r.end {
                readable = readable && r.access.is_readable();
                writable = writable && r.access.is_writable();
            }
            k += 1;
            proof {
                let touched = r.shares_byte(start as int, end as int);
                assert(readable == (readable_before && (touched ==> r.access.spec_is_readable())));
                assert(writable == (writable_before && (touched ==> r.access.spec_is_writable())));
                if readable {
                    assert forall|j: int|
                        0 <= j < k && (#[trigger] self.ranges()[j]).shares_byte(
                            start as int,
                            end as int,
                        ) implies self.ranges()[j].access.spec_is_readable() by {
                        if j == k - 1 {
                        }
                    }
                }
                if writable {
                    assert forall|j: int|
                        0 <= j < k && (#[trigger] self.ranges()[j]).shares_byte(
                            start as int,
                            end as int,
                        ) implies self.ranges()[j].access.spec_is_writable() by {
                        if j == k - 1 {
                        }
                    }
                }
            }
        }
        AccessRight::from_flags(readable, writable)
    }
}

/// A layout of registers: entries that follow each other from a base
/// address, and the bytes that they start with.
pub struct RegisterLayout {
    base: usize,
    endianness: Endianness,
    names: Vec<String>,
    entries: Vec<Entry>,
    bytes: Vec<u8>,
}

impl RegisterLayout {
    #[verifier::type_invariant]
    spec fn inv(self) -> bool {
        &&& self.well_formed()
        &&& self.names@.len() == self.entries@.len()
    }

    /// The address at which the layout starts.
    pub closed spec fn spec_base(&self) -> usize {
        self.base
    }

    /// The byte order of the integers of the layout.
    pub closed spec fn spec_endianness(&self) -> Endianness {
        self.endianness
    }

    /// The entries of the layout, in order.
    pub closed spec fn entries(&self) -> Seq<Entry> {
        self.entries@
    }

    /// The names of the entries, in order.
    pub closed spec fn names(&self) -> Seq<Seq<char>> {
        Seq::new(self.names@.len(), |i: int| self.names@[i]@)
    }

    /// The bytes that the layout starts with.
    pub closed spec fn bytes(&self) -> Seq<u8> {
        self.bytes@
    }

    /// Whether the entries divide the bytes of the layout, and the layout
    /// ends within what the machine can address.
    pub open spec fn well_formed(&self) -> bool {
        &&& contiguous(
            self.entries().len(),
            |i: int| self.entries()[i].offset as int,
            |i: int| self.entries()[i].len as int,
            self.bytes().len() as int,
        )
        &&& self.spec_base() + self.bytes().len() <= usize::MAX
    }

    /// Lays out the entries `descriptors` one after the other from `base`.
    ///
    /// The size of the layout is the sum of the lengths of its entries.
    /// Fails where an entry ends beyond what the machine can address, or
    /// starts with a value that does not fit it.
    pub fn new(base: usize, endianness: Endianness, descriptors: Vec<EntryDescriptor>) -> (r: Result<
        RegisterLayout,
        MemoryError,
    >)
        ensures
            match r {
                Ok(l) => {
                    let ds = descriptor_views(descriptors@);
                    &&& layout_error(ds, base, endianness) is None
                    &&& l.well_formed()
                    &&& l.spec_base() == base
                    &&& l.spec_endianness() == endianness
                    &&& l.entries() == entries_of(ds)
                    &&& l.names() == Seq::new(ds.len(), |i: int| ds[i].name)
                    &&& l.bytes() == preloaded(ds, endianness)
                    &&& l.bytes().len() == total_len(ds)
                },
                Err(e) => layout_error(descriptor_views(descriptors@), base, endianness) == Some(e),
            },
    {
        let ghost ds = descriptor_views(descriptors@);
        let mut names: Vec<String> = Vec::new();
        let mut entries: Vec<Entry> = Vec::new();
        let mut bytes: Vec<u8> = Vec::new();
        let mut i: usize = 0;
        assert(ds.take(0) =~= Seq::<EntryDescriptorView>::empty());
        assert(entries@ =~= entries_of(ds.take(0)));
        while i < descriptors.len()
            invariant
                i <= descriptors@.len(),
                ds == descriptor_views(descriptors@),
                layout_error(ds.take(i as int), base, endianness) is None,
                base + total_len(ds.take(i as int)) <= usize::MAX,
                entries@ == entries_of(ds.take(i as int)),
                names@.len() == i,
                forall|k: int| 0 <= k < i ==> (#[trigger] names@[k])@ == ds[k].name,
                bytes@ == preloaded(ds.take(i as int), endianness),
                bytes@.len() == total_len(ds.take(i as int)),
                forall|k: int|
                    0 <= k <= i ==> total_len(#[trigger] ds.take(k)) <= total_len(
                        ds.take(i as int),
                    ),
            decreases descriptors@.len() - i,
        {
            let d = &descriptors[i];
            let ghost before = ds.take(i as int);
            let ghost grown = ds.take(i + 1);
            proof {
                assert(grown.drop_last() =~= before);
                assert(grown.last() == ds[i as int]);
                assert(ds[i as int] == d@);
            }
            let offset = bytes.len();
            if d.len > usize::MAX - base - offset {
                proof {
                    lemma_layout_error_prefix(ds, i + 1, base, endianness);
                }
                return Err(MemoryError::TooLarge);
            }
            let initial = match initial_bytes_of(d.len, &d.value, endianness) {
                Some(b) => b,
                None => {
                    proof {
                        lemma_layout_error_prefix(ds, i + 1, base, endianness);
                    }
                    return Err(MemoryError::InvalidInitializer(i));
                },
            };
            proof {
                lemma_initial_bytes_len(d.len as nat, d.value@, endianness);
            }
            names.push(d.name.clone());
            entries.push(
                Entry { offset, len: d.len, access: d.access, kind: kind_of_value(&d.value) },
            );
            let mut initial = initial;
            bytes.append(&mut initial);
            proof {
                assert forall|k: int| 0 <= k <= i + 1 implies total_len(#[trigger] ds.take(k))
                    <= total_len(grown) by {
                    if k <= i {
                        assert(total_len(ds.take(k)) <= total_len(before));
                    }
                }
                assert forall|k: int| 0 <= k < grown.len() implies #[trigger] entries@[k]
                    == entries_of(grown)[k] by {
                    assert(grown.take(k) =~= ds.take(k));
                    if k < i {
                        assert(before.take(k) =~= ds.take(k));
                        assert(entries@[k] == entries_of(before)[k]);
                        assert(before[k] == grown[k]);
                    } else {
                        assert(grown.take(k) =~= before);
                    }
                }
                assert(entries@ =~= entries_of(grown));
            }
            i += 1;
        }
        proof {
            assert(ds.take(i as int) =~= ds);
            lemma_entries_contiguous(ds);
            assert(Seq::new(names@.len(), |i: int| names@[i]@) =~= Seq::new(
                ds.len(),
                |i: int| ds[i].name,
            ));
        }
        Ok(RegisterLayout { base, endianness, names, entries, bytes })
    }
}

/// Entries whose values fit them, and which end within what the machine can
/// address, can be laid out.
pub proof fn lemma_layout_fits(ds: Seq<EntryDescriptorView>, base: usize, endianness: Endianness)
    requires
        forall|i: int|
            0 <= i < ds.len() ==> initial_bytes(
                (#[trigger] ds[i]).len as nat,
                ds[i].value,
                endianness,
            ) is Some,
        base + total_len(ds) <= usize::MAX,
    ensures
        layout_error(ds, base, endianness) is None,
    decreases ds.len(),
{
    if ds.len() > 0 {
        assert forall|i: int| 0 <= i < ds.drop_last().len() implies initial_bytes(
            (#[trigger] ds.drop_last()[i]).len as nat,
            ds.drop_last()[i].value,
            endianness,
        ) is Some by {
            assert(ds.drop_last()[i] == ds[i]);
        }
        lemma_layout_fits(ds.drop_last(), base, endianness);
        assert(ds[ds.len() - 1] == ds.last());
    }
}

/// The first `k + 1` entries are as long as the first `k` and the entry
/// after them.
pub proof fn lemma_total_len_step(ds: Seq<EntryDescriptorView>, k: int)
    requires
        0 <= k < ds.len(),
    ensures
        total_len(ds.take(k + 1)) == total_len(ds.take(k)) + ds[k].len,
{
    let longer = ds.take(k + 1);
    assert(longer.drop_last() =~= ds.take(k));
    assert(longer.last() == ds[k]);
}

/// The first `k` entries are no longer than all of them.
pub proof fn lemma_total_len_prefix(ds: Seq<EntryDescriptorView>, k: int)
    requires
        0 <= k <= ds.len(),
    ensures
        total_len(ds.take(k)) <= total_len(ds),
    decreases ds.len() - k,
{
    if k < ds.len() {
        lemma_total_len_step(ds, k);
        lemma_total_len_prefix(ds, k + 1);
    } else {
        assert(ds.take(k) =~= ds);
    }
}

/// In the preloaded bytes each entry holds, from where it starts to where
/// the next one starts, the bytes that it starts with.
pub proof fn lemma_preloaded_entry(ds: Seq<EntryDescriptorView>, endianness: Endianness, i: int)
    requires
        forall|k: int|
            0 <= k < ds.len() ==> initial_bytes(
                (#[trigger] ds[k]).len as nat,
                ds[k].value,
                endianness,
            ) is Some,
        0 <= i < ds.len(),
    ensures
        total_len(ds.take(i)) + ds[i].len <= preloaded(ds, endianness).len(),
        preloaded(ds, endianness).subrange(
            total_len(ds.take(i)) as int,
            total_len(ds.take(i)) + ds[i].len,
        ) == initial_bytes(ds[i].len as nat, ds[i].value, endianness).unwrap(),
    decreases ds.len(),
{
    let front = ds.drop_last();
    let head = preloaded(front, endianness);
    let tail = initial_bytes(ds.last().len as nat, ds.last().value, endianness).unwrap();
    assert forall|k: int| 0 <= k < front.len() implies initial_bytes(
        (#[trigger] front[k]).len as nat,
        front[k].value,
        endianness,
    ) is Some by {
        assert(front[k] == ds[k]);
    }
    assert(ds[ds.len() - 1] == ds.last());
    lemma_preloaded_len(front, endianness);
    lemma_preloaded_len(ds, endianness);
    lemma_initial_bytes_len(ds.last().len as nat, ds.last().value, endianness);
    lemma_total_len_step(ds, i);
    if i == ds.len() - 1 {
        assert(ds.take(i) =~= front);
        assert((head + tail).subrange(head.len() as int, (head.len() + tail.len()) as int) =~= tail);
    } else {
        lemma_preloaded_entry(front, endianness, i);
        assert(front.take(i) =~= ds.take(i));
        assert(front[i] == ds[i]);
        let from = total_len(ds.take(i)) as int;
        let to = from + ds[i].len;
        assert((head + tail).subrange(from, to) =~= head.subrange(from, to));
    }
}

/// Where the entries up to the `n`th cannot be laid out, the reason is the
/// reason for all entries.
pub proof fn lemma_layout_error_prefix(
    ds: Seq<EntryDescriptorView>,
    n: int,
    base: usize,
    endianness: Endianness,
)
    requires
        0 <= n <= ds.len(),
        layout_error(ds.take(n), base, endianness) is Some,
    ensures
        layout_error(ds, base, endianness) == layout_error(ds.take(n), base, endianness),
    decreases ds.len() - n,
{
    if n < ds.len() {
        let longer = ds.take(n + 1);
        assert(longer.drop_last() =~= ds.take(n));
        lemma_layout_error_prefix(ds, n + 1, base, endianness);
    } else {
        assert(ds.take(n) =~= ds);
    }
}

/// The entries of a layout follow each other from 0 to the sum of their
/// lengths.
pub proof fn lemma_entries_contiguous(ds: Seq<EntryDescriptorView>)
    requires
        total_len(ds) <= usize::MAX,
        forall|k: int| 0 <= k <= ds.len() ==> total_len(#[trigger] ds.take(k)) <= total_len(ds),
    ensures
        contiguous(
            ds.len(),
            |i: int| entries_of(ds)[i].offset as int,
            |i: int| entries_of(ds)[i].len as int,
            total_len(ds) as int,
        ),
{
    let entries = entries_of(ds);
    assert forall|i: int| 0 <= i < ds.len() implies (#[trigger] entries[i]).offset + entries[i].len
        == total_len(ds.take(i + 1)) by {
        let longer = ds.take(i + 1);
        assert(longer.drop_last() =~= ds.take(i));
        assert(longer.last() == ds[i]);
        assert(total_len(ds.take(i)) <= total_len(ds));
    }
    if ds.len() > 0 {
        assert(ds.take(0) =~= Seq::<EntryDescriptorView>::empty());
        assert(ds.take(ds.len() as int) =~= ds);
        assert(entries[0].offset == 0);
        assert(entries[ds.len() - 1].offset + entries[ds.len() - 1].len == total_len(ds));
    }
    assert forall|i: int| 0 <= i < ds.len() - 1 implies #[trigger] (entries[i].offset as int)
        + (entries[i].len as int) == entries[i + 1].offset as int by {
        assert(entries[i].offset + entries[i].len == total_len(ds.take(i + 1)));
        assert(total_len(ds.take(i + 1)) <= total_len(ds));
    }
}


/// In pieces that follow each other from 0 to `size`, each piece lies within
/// `size`.
pub proof fn lemma_contiguous_bounds(
    n: nat,
    offset: spec_fn(int) -> int,
    len: spec_fn(int) -> int,
    size: int,
    i: int,
)
    requires
        contiguous(n, offset, len, size),
        0 <= i < n,
    ensures
        0 <= offset(i),
        offset(i) + len(i) <= size,
    decreases n - i,
{
    if i < n - 1 {
        lemma_contiguous_bounds(n, offset, len, size, i + 1);
    }
    lemma_contiguous_start(n, offset, len, size, i);
}

/// In pieces that follow each other from 0, no piece starts below 0.
pub proof fn lemma_contiguous_start(
    n: nat,
    offset: spec_fn(int) -> int,
    len: spec_fn(int) -> int,
    size: int,
    i: int,
)
    requires
        contiguous(n, offset, len, size),
        0 <= i < n,
    ensures
        0 <= offset(i),
    decreases i,
{
    if i > 0 {
        lemma_contiguous_start(n, offset, len, size, i - 1);
        assert(offset(i - 1) + len(i - 1) == offset(i - 1 + 1));
    }
}

/// The ranges of the access rights of the entries `entries`: one for each
/// entry, with its bytes and its access right.
pub open spec fn ranges_of(entries: Seq<Entry>) -> Seq<ProtectedRange> {
    Seq::new(
        entries.len(),
        |i: int|
            ProtectedRange {
                start: entries[i].offset,
                end: (entries[i].offset + entries[i].len) as usize,
                access: entries[i].access,
            },
    )
}

impl RegisterLayout {
    /// The address at which the layout starts.
    pub fn base(&self) -> (r: usize)
        ensures
            r == self.spec_base(),
    {
        self.base
    }

    /// The byte order of the integers of the layout.
    pub fn endianness(&self) -> (r: Endianness)
        ensures
            r == self.spec_endianness(),
    {
        self.endianness
    }

    /// The size of the layout in bytes: the sum of the lengths of its
    /// entries.
    pub fn size(&self) -> (r: usize)
        ensures
            r == self.bytes().len(),
            self.well_formed(),
    {
        proof {
            use_type_invariant(self);
        }
        self.bytes.len()
    }

    /// The number of entries.
    pub fn len(&self) -> (r: usize)
        ensures
            r == self.entries().len(),
    {
        self.entries.len()
    }

    /// A copy of the bytes that the layout starts with.
    pub fn fragment(&self) -> (r: Vec<u8>)
        ensures
            r@ == self.bytes(),
    {
        vstd::slice::slice_to_vec(self.bytes.as_slice())
    }

    /// The entry with the index `index`.
    pub fn entry(&self, index: usize) -> (r: Option<Entry>)
        ensures
            self.well_formed(),
            r is Some <==> index < self.entries().len(),
            r matches Some(e) ==> e == self.entries()[index as int] && e.offset + e.len
                <= self.bytes().len(),
    {
        proof {
            use_type_invariant(self);
        }
        if index < self.entries.len() {
            proof {
                lemma_contiguous_bounds(
                    self.entries().len(),
                    |i: int| self.entries()[i].offset as int,
                    |i: int| self.entries()[i].len as int,
                    self.bytes().len() as int,
                    index as int,
                );
            }
            Some(self.entries[index])
        } else {
            None
        }
    }

    /// Where the entry `index` lies, counted from the start of the layout.
    pub fn local_raw_entry(&self, index: usize) -> (r: Option<RawEntry>)
        ensures
            r is Some <==> index < self.entries().len(),
            r matches Some(e) ==> e.offset == self.entries()[index as int].offset && e.len
                == self.entries()[index as int].len && e.offset + e.len <= self.bytes().len(),
    {
        match self.entry(index) {
            Some(e) => Some(RawEntry { offset: e.offset, len: e.len }),
            None => None,
        }
    }

    /// Where the entry `index` lies, as an address.
    pub fn raw_entry(&self, index: usize) -> (r: Option<RawEntry>)
        ensures
            r is Some <==> index < self.entries().len(),
            r matches Some(e) ==> e.offset == self.spec_base() + self.entries()[index as int].offset
                && e.len == self.entries()[index as int].len,
    {
        match self.entry(index) {
            Some(e) => Some(RawEntry { offset: self.base + e.offset, len: e.len }),
            None => None,
        }
    }

    /// The index of the first entry called `name`.
    pub fn index_of(&self, name: &str) -> (r: Option<usize>)
        ensures
            r matches Some(i) ==> i < self.names().len() && self.names()[i as int] == name@
                && forall|k: int| 0 <= k < i ==> self.names()[k] != name@,
            r is None ==> !self.names().contains(name@),
    {
        let mut i: usize = 0;
        while i < self.names.len()
            invariant
                i <= self.names@.len(),
                forall|k: int| 0 <= k < i ==> self.names()[k] != name@,
            decreases self.names@.len() - i,
        {
            if str_eq(self.names[i].as_str(), name) {
                return Some(i);
            }
            i += 1;
        }
        None
    }

    /// The map of the access rights of the layout.
    pub fn memory_protection(&self) -> (r: MemoryProtection)
        ensures
            r.spec_size() == self.bytes().len(),
            r.ranges() == ranges_of(self.entries()),
            r.partitions(),
    {
        proof {
            use_type_invariant(self);
        }
        let mut ranges: Vec<ProtectedRange> = Vec::new();
        let mut i: usize = 0;
        while i < self.entries.len()
            invariant
                i <= self.entries@.len(),
                self.well_formed(),
                ranges@.len() == i,
                forall|k: int| 0 <= k < i ==> #[trigger] ranges@[k] == ranges_of(self.entries())[k],
            decreases self.entries@.len() - i,
        {
            let e = self.entries[i];
            proof {
                lemma_contiguous_bounds(
                    self.entries().len(),
                    |i: int| self.entries()[i].offset as int,
                    |i: int| self.entries()[i].len as int,
                    self.bytes().len() as int,
                    i as int,
                );
            }
            ranges.push(ProtectedRange { start: e.offset, end: e.offset
                + e.len, access: e.access });
            i += 1;
        }
        let size = self.bytes.len();
        proof {
            assert(ranges@ =~= ranges_of(self.entries()));
            let n = self.entries().len();
            assert forall|k: int| 0 <= k < n implies (#[trigger] self.entries()[k]).offset
                + self.entries()[k].len <= size by {
                lemma_contiguous_bounds(
                    n,
                    |i: int| self.entries()[i].offset as int,
                    |i: int| self.entries()[i].len as int,
                    size as int,
                    k,
                );
            }
            assert(contiguous(
                ranges@.len(),
                |i: int| ranges@[i].start as int,
                |i: int| ranges@[i].end - ranges@[i].start,
                size as int,
            )) by {
                let off = |i: int| self.entries()[i].offset as int;
                let len = |i: int| self.entries()[i].len as int;
                assert forall|k: int| 0 <= k < n - 1 implies #[trigger] (ranges@[k].start as int)
                    + (ranges@[k].end - ranges@[k].start) == ranges@[k + 1].start as int by {
                    assert(off(k) + len(k) == off(k + 1));
                    assert(self.entries()[k].offset + self.entries()[k].len <= size);
                }
                if n > 0 {
                    assert(off(0) == 0);
                    assert(off(n - 1) + len(n - 1) == size);
                    assert(self.entries()[n - 1].offset + self.entries()[n - 1].len <= size);
                }
                assert forall|k: int| 0 <= k < n implies #[trigger] (ranges@[k].end
                    - ranges@[k].start) >= 0 by {
                    assert(self.entries()[k].offset + self.entries()[k].len <= size);
                }
            }
        }
        MemoryProtection { ranges, size }
    }
}


/// The bytes of `bytes` in front of its first zero byte.
pub open spec fn until_nul(bytes: Seq<u8>) -> Seq<u8>
    decreases bytes.len(),
{
    if bytes.len() == 0 || bytes[0] == 0 {
        Seq::empty()
    } else {
        seq![bytes[0]] + until_nul(bytes.skip(1))
    }
}

/// The bytes in front of the first zero byte are the bytes up to the first
/// position that holds a zero byte.
proof fn lemma_until_nul(bytes: Seq<u8>, p: int)
    requires
        0 <= p <= bytes.len(),
        forall|k: int| 0 <= k < p ==> bytes[k] != 0,
        p < bytes.len() ==> bytes[p] == 0,
    ensures
        until_nul(bytes) == bytes.take(p),
    decreases bytes.len(),
{
    if p == 0 {
        assert(bytes.take(0) =~= Seq::<u8>::empty());
    } else {
        let tail = bytes.skip(1);
        assert forall|k: int| 0 <= k < p - 1 implies tail[k] != 0 by {
            assert(tail[k] == bytes[k + 1]);
        }
        lemma_until_nul(tail, p - 1);
        assert(bytes.take(p) =~= seq![bytes[0]] + tail.take(p - 1));
    }
}

/// A register memory: the bytes of a layout, which change as they are
/// written, with the map of their access rights.
pub struct Memory {
    layout: RegisterLayout,
    protection: MemoryProtection,
    data: Vec<u8>,
}

impl Memory {
    #[verifier::type_invariant]
    spec fn inv(self) -> bool {
        &&& self.data@.len() == self.layout.bytes().len()
        &&& self.protection.spec_size() == self.data@.len()
        &&& self.protection.ranges() == ranges_of(self.layout.entries())
    }

    /// The bytes of the memory, the first at the base address.
    pub closed spec fn data(&self) -> Seq<u8> {
        self.data@
    }

    /// The layout of the memory.
    pub closed spec fn layout(&self) -> RegisterLayout {
        self.layout
    }

    /// The map of the access rights of the memory.
    pub closed spec fn protection(&self) -> MemoryProtection {
        self.protection
    }

    /// Whether the bytes from `start` up to, but not including, `end` are
    /// addresses of the memory.
    pub open spec fn valid_span(&self, start: int, end: int) -> bool {
        self.layout().spec_base() <= start <= end <= self.layout().spec_base()
            + self.data().len()
    }

    /// The bytes of the memory at the addresses from `start` up to, but not
    /// including, `end`.
    pub open spec fn span(&self, start: int, end: int) -> Seq<u8> {
        self.data().subrange(start - self.layout().spec_base(), end - self.layout().spec_base())
    }

    /// The strictest access right among the bytes at the addresses from
    /// `start` up to, but not including, `end`.
    pub open spec fn access(&self, start: int, end: int) -> AccessRight {
        self.protection().spec_access_right_with_range(
            start - self.layout().spec_base(),
            end - self.layout().spec_base(),
        )
    }

    /// The bytes of the entry `index`.
    pub open spec fn entry_bytes(&self, index: int) -> Seq<u8> {
        let e = self.layout().entries()[index];
        self.data().subrange(e.offset as int, e.offset + e.len)
    }

    /// The bytes of the memory with `bytes` in place of the bytes from
    /// `offset` on, counted from the start of the memory.
    pub open spec fn data_with(&self, offset: int, bytes: Seq<u8>) -> Seq<u8> {
        self.data().subrange(0, offset) + bytes + self.data().subrange(
            offset + bytes.len(),
            self.data().len() as int,
        )
    }

    /// The bytes of the memory with `bytes` in place of the bytes of the
    /// entry `index`.
    pub open spec fn data_with_entry(&self, index: int, bytes: Seq<u8>) -> Seq<u8> {
        self.data_with(self.layout().entries()[index].offset as int, bytes)
    }

    /// A memory that holds the bytes that `layout` starts with.
    pub fn new(layout: RegisterLayout) -> (r: Memory)
        ensures
            r.layout() == layout,
            r.data() == layout.bytes(),
            r.protection().ranges() == ranges_of(layout.entries()),
            r.protection().spec_size() == layout.bytes().len(),
            layout.well_formed(),
    {
        let data = layout.fragment();
        let protection = layout.memory_protection();
        let _ = layout.size();
        Memory { layout, protection, data }
    }

    /// The layout of the memory.
    pub fn layout_ref(&self) -> (r: &RegisterLayout)
        ensures
            *r == self.layout(),
            r.bytes().len() == self.data().len(),
            r.well_formed(),
    {
        proof {
            use_type_invariant(self);
        }
        let _ = self.layout.size();
        &self.layout
    }

    /// The map of the access rights of the memory.
    pub fn memory_protection(&self) -> (r: &MemoryProtection)
        ensures
            *r == self.protection(),
            r.spec_size() == self.data().len(),
            r.ranges() == ranges_of(self.layout().entries()),
    {
        proof {
            use_type_invariant(self);
        }
        &self.protection
    }

    /// Reads the bytes at the addresses of `range`.
    ///
    /// Fails with `InvalidAddress` where `range` does not lie within the
    /// memory, and with `AccessDenied` where one of its bytes may not be
    /// read.
    pub fn read(&self, range: core::ops::Range<usize>) -> (r: Result<Vec<u8>, MemoryError>)
        ensures
            match r {
                Ok(b) => self.read_check(range.start as int, range.end as int) is Ok && b@
                    == self.span(range.start as int, range.end as int),
                Err(e) => self.read_check(range.start as int, range.end as int) == Err::<
                    (),
                    MemoryError,
                >(e),
            },
    {
        proof {
            use_type_invariant(self);
        }
        let base = self.layout.base();
        let size = self.layout.size();
        let start = range.start;
        let end = range.end;
        if start < base || end < start || end - base > size {
            return Err(MemoryError::InvalidAddress);
        }
        if start < end && !self.protection.access_right_with_range(
            start - base..end - base,
        ).is_readable() {
            return Err(MemoryError::AccessDenied);
        }
        Ok(
            vstd::slice::slice_to_vec(
                vstd::slice::slice_subrange(self.data.as_slice(), start - base, end - base),
            ),
        )
    }

    /// Stores `bytes` at `offset`, counted from the start of the memory.
    fn store(&mut self, offset: usize, bytes: &[u8])
        requires
            offset + bytes@.len() <= old(self).data().len(),
        ensures
            final(self).layout() == old(self).layout(),
            final(self).protection() == old(self).protection(),
            final(self).data() == old(self).data_with(offset as int, bytes@),
    {
        proof {
            use_type_invariant(&*self);
        }
        let n = bytes.len();
        let mut i: usize = 0;
        while i < n
            invariant
                i <= n,
                n == bytes@.len(),
                offset + n <= self.data@.len(),
                self.data@.len() == old(self).data@.len(),
                self.layout == old(self).layout,
                self.protection == old(self).protection,
                self.inv(),
                forall|k: int| 0 <= k < offset ==> self.data@[k] == old(self).data@[k],
                forall|k: int| 0 <= k < i ==> self.data@[offset + k] == bytes@[k],
                forall|k: int|
                    offset + i <= k < self.data@.len() ==> self.data@[k] == old(self).data@[k],
            decreases n - i,
        {
            self.data[offset + i] = bytes[i];
            i += 1;
        }
        assert(self.data@ =~= old(self).data_with(offset as int, bytes@));
    }

    /// Writes `bytes` to the addresses of `range`.
    ///
    /// Fails with `InvalidAddress` where `range` does not lie within the
    /// memory, with `InvalidLength` where `bytes` has another length than
    /// `range`, and with `AccessDenied` where one of the bytes of `range`
    /// may not be written; the first that applies, in this order. A memory
    /// that fails to take the bytes stays as it is.
    pub fn write(&mut self, range: core::ops::Range<usize>, bytes: &[u8]) -> (r: Result<
        (),
        MemoryError,
    >)
        ensures
            final(self).layout() == old(self).layout(),
            final(self).protection() == old(self).protection(),
            r == old(self).write_check(range.start as int, range.end as int, bytes@.len()),
            r is Ok ==> final(self).data() == old(self).data_with(
                range.start - old(self).layout().spec_base(),
                bytes@,
            ),
            r is Err ==> final(self).data() == old(self).data(),
    {
        proof {
            use_type_invariant(&*self);
        }
        let base = self.layout.base();
        let size = self.layout.size();
        let start = range.start;
        let end = range.end;
        if start < base || end < start || end - base > size {
            return Err(MemoryError::InvalidAddress);
        }
        if bytes.len() != end - start {
            return Err(MemoryError::InvalidLength);
        }
        if start < end && !self.protection.access_right_with_range(
            start - base..end - base,
        ).is_writable() {
            return Err(MemoryError::AccessDenied);
        }
        self.store(start - base, bytes);
        Ok(())
    }

    /// Whether `len` bytes may be written to the addresses from `start` up
    /// to, but not including, `end`, and why not.
    pub open spec fn write_check(&self, start: int, end: int, len: nat) -> Result<(), MemoryError> {
        if !self.valid_span(start, end) {
            Err(MemoryError::InvalidAddress)
        } else if len != end - start {
            Err(MemoryError::InvalidLength)
        } else if start < end && !self.access(start, end).spec_is_writable() {
            Err(MemoryError::AccessDenied)
        } else {
            Ok(())
        }
    }

    /// Whether the addresses from `start` up to, but not including, `end`
    /// may be read, and why not.
    pub open spec fn read_check(&self, start: int, end: int) -> Result<(), MemoryError> {
        if !self.valid_span(start, end) {
            Err(MemoryError::InvalidAddress)
        } else if start < end && !self.access(start, end).spec_is_readable() {
            Err(MemoryError::AccessDenied)
        } else {
            Ok(())
        }
    }
}


/// The position of the first zero byte of `bytes`, or their number where
/// none is zero.
fn nul_position(bytes: &[u8]) -> (p: usize)
    ensures
        p <= bytes@.len(),
        until_nul(bytes@) == bytes@.take(p as int),
{
    let mut p: usize = 0;
    while p < bytes.len() && bytes[p] != 0
        invariant
            p <= bytes@.len(),
            forall|k: int| 0 <= k < p ==> bytes@[k] != 0,
        decreases bytes@.len() - p,
    {
        p += 1;
    }
    proof {
        lemma_until_nul(bytes@, p as int);
    }
    p
}

impl Memory {
    /// Whether the memory has an entry `index` of the type `kind`.
    pub open spec fn has_entry(&self, index: int, kind: EntryKind) -> bool {
        0 <= index < self.layout().entries().len() && self.layout().entries()[index].kind == kind
    }

    /// The length of the entry `index`.
    pub open spec fn entry_len(&self, index: int) -> nat {
        self.layout().entries()[index].len as nat
    }

    /// The entry `index`, where it has the type `kind`.
    fn typed_entry(&self, index: usize, kind: EntryKind) -> (r: Result<Entry, MemoryError>)
        ensures
            match r {
                Ok(e) => self.has_entry(index as int, kind)
                    && e == self.layout().entries()[index as int]
                    && e.offset + e.len <= self.data().len(),
                Err(e) => e == MemoryError::InvalidEntry && !self.has_entry(index as int, kind),
            },
    {
        proof {
            use_type_invariant(self);
        }
        match self.layout.entry(index) {
            Some(e) => {
                if e.kind == kind {
                    Ok(e)
                } else {
                    Err(MemoryError::InvalidEntry)
                }
            },
            None => Err(MemoryError::InvalidEntry),
        }
    }

    /// The bytes of the entry `e`.
    fn bytes_of(&self, e: Entry) -> (r: &[u8])
        requires
            e.offset + e.len <= self.data().len(),
        ensures
            r@ == self.data().subrange(e.offset as int, e.offset + e.len),
    {
        let _ = self.data.len();
        vstd::slice::slice_subrange(self.data.as_slice(), e.offset, e.offset + e.len)
    }

    /// Reads the entry `index` as an unsigned integer in the byte order of
    /// the layout.
    ///
    /// Fails with `InvalidEntry` where there is no such entry of that type,
    /// and with `InvalidLength` where the entry has more than eight bytes.
    pub fn read_unsigned(&self, index: usize) -> (r: Result<u64, MemoryError>)
        ensures
            match r {
                Ok(v) => self.has_entry(index as int, EntryKind::Unsigned) && self.entry_len(
                    index as int,
                ) <= 8 && v == unsigned_value(
                    self.entry_bytes(index as int),
                    self.layout().spec_endianness(),
                ),
                Err(e) => if self.has_entry(index as int, EntryKind::Unsigned) {
                    e == MemoryError::InvalidLength && self.entry_len(index as int) > 8
                } else {
                    e == MemoryError::InvalidEntry
                },
            },
    {
        let e = self.typed_entry(index, EntryKind::Unsigned)?;
        match decode_unsigned(self.bytes_of(e), self.layout.endianness()) {
            Some(v) => Ok(v),
            None => Err(MemoryError::InvalidLength),
        }
    }

    /// Reads the entry `index` as a signed integer in the byte order of the
    /// layout.
    ///
    /// Fails with `InvalidEntry` where there is no such entry of that type,
    /// and with `InvalidLength` where the entry has more than eight bytes.
    pub fn read_signed(&self, index: usize) -> (r: Result<i64, MemoryError>)
        ensures
            match r {
                Ok(v) => self.has_entry(index as int, EntryKind::Signed) && self.entry_len(
                    index as int,
                ) <= 8 && v == int_value(
                    self.entry_bytes(index as int),
                    self.layout().spec_endianness(),
                    Sign::Signed,
                ),
                Err(e) => if self.has_entry(index as int, EntryKind::Signed) {
                    e == MemoryError::InvalidLength && self.entry_len(index as int) > 8
                } else {
                    e == MemoryError::InvalidEntry
                },
            },
    {
        let e = self.typed_entry(index, EntryKind::Signed)?;
        proof {
            crate::int_codec::lemma_int_bytes_of_value(
                self.entry_bytes(index as int),
                self.layout().spec_endianness(),
                Sign::Signed,
            );
            if e.len <= 8 {
                crate::int_codec::lemma_pow256_monotonic(e.len as nat, 8);
                crate::int_codec::lemma_pow256_values();
            }
        }
        match decode_int(self.bytes_of(e), self.layout.endianness(), Sign::Signed) {
            Some(v) => Ok(v),
            None => Err(MemoryError::InvalidLength),
        }
    }

    /// Reads the entry `index` as a string: the text that its bytes in
    /// front of the first NUL encode.
    ///
    /// Fails with `InvalidEntry` where there is no such entry of that type,
    /// and with `InvalidUtf8` where these bytes are not UTF-8.
    pub fn read_string(&self, index: usize) -> (r: Result<String, MemoryError>)
        ensures
            match r {
                Ok(s) => self.has_entry(index as int, EntryKind::Str) && vstd::utf8::valid_utf8(
                    until_nul(self.entry_bytes(index as int)),
                ) && s@ == vstd::utf8::decode_utf8(until_nul(self.entry_bytes(index as int))),
                Err(e) => if self.has_entry(index as int, EntryKind::Str) {
                    e == MemoryError::InvalidUtf8 && !vstd::utf8::valid_utf8(
                        until_nul(self.entry_bytes(index as int)),
                    )
                } else {
                    e == MemoryError::InvalidEntry
                },
            },
    {
        let e = self.typed_entry(index, EntryKind::Str)?;
        let bytes = self.bytes_of(e);
        let p = nul_position(bytes);
        let text = vstd::slice::slice_subrange(bytes, 0, p);
        assert(text@ =~= bytes@.take(p as int));
        match str_from_utf8(text) {
            Some(s) => Ok(s.to_owned()),
            None => Err(MemoryError::InvalidUtf8),
        }
    }

    /// Writes `value` to the entry `index` as an unsigned integer in the
    /// byte order of the layout, whatever the access right of the entry.
    ///
    /// Fails with `InvalidEntry` where there is no such entry of that type,
    /// and with `InvalidLength` where the entry cannot hold `value`.
    pub fn write_unsigned(&mut self, index: usize, value: u64) -> (r: Result<(), MemoryError>)
        ensures
            final(self).layout() == old(self).layout(),
            final(self).protection() == old(self).protection(),
            match r {
                Ok(()) => old(self).has_entry(index as int, EntryKind::Unsigned)
                    && old(self).entry_len(index as int) <= 8
                    && value < pow256(old(self).entry_len(index as int))
                    && final(self).data() == old(self).data_with_entry(
                    index as int,
                    unsigned_bytes(
                        value as nat,
                        old(self).entry_len(index as int),
                        old(self).layout().spec_endianness(),
                    ),
                ),
                Err(e) => final(self).data() == old(self).data() && if old(self).has_entry(
                    index as int,
                    EntryKind::Unsigned,
                ) {
                    e == MemoryError::InvalidLength && !(old(self).entry_len(index as int) <= 8
                        && value < pow256(old(self).entry_len(index as int)))
                } else {
                    e == MemoryError::InvalidEntry
                },
            },
    {
        let e = self.typed_entry(index, EntryKind::Unsigned)?;
        match encode_unsigned(value, e.len, self.layout.endianness()) {
            Some(bytes) => {
                self.store(e.offset, bytes.as_slice());
                Ok(())
            },
            None => Err(MemoryError::InvalidLength),
        }
    }

    /// Writes `value` to the entry `index` as a signed integer in the byte
    /// order of the layout, whatever the access right of the entry.
    ///
    /// Fails with `InvalidEntry` where there is no such entry of that type,
    /// and with `InvalidLength` where the entry cannot hold `value`.
    pub fn write_signed(&mut self, index: usize, value: i64) -> (r: Result<(), MemoryError>)
        ensures
            final(self).layout() == old(self).layout(),
            final(self).protection() == old(self).protection(),
            match r {
                Ok(()) => old(self).has_entry(index as int, EntryKind::Signed)
                    && old(self).entry_len(index as int) <= 8 && min_value(
                    old(self).entry_len(index as int),
                    Sign::Signed,
                ) <= value <= max_value(old(self).entry_len(index as int), Sign::Signed)
                    && final(self).data() == old(self).data_with_entry(
                    index as int,
                    int_bytes(
                        value as int,
                        old(self).entry_len(index as int),
                        old(self).layout().spec_endianness(),
                        Sign::Signed,
                    ),
                ),
                Err(e) => final(self).data() == old(self).data() && if old(self).has_entry(
                    index as int,
                    EntryKind::Signed,
                ) {
                    e == MemoryError::InvalidLength && !(old(self).entry_len(index as int) <= 8
                        && min_value(old(self).entry_len(index as int), Sign::Signed) <= value
                        <= max_value(old(self).entry_len(index as int), Sign::Signed))
                } else {
                    e == MemoryError::InvalidEntry
                },
            },
    {
        let e = self.typed_entry(index, EntryKind::Signed)?;
        match encode_int(value, e.len, self.layout.endianness(), Sign::Signed) {
            Some(bytes) => {
                proof {
                    crate::int_codec::lemma_int_value_of_bytes(
                        value as int,
                        e.len as nat,
                        self.layout().spec_endianness(),
                        Sign::Signed,
                    );
                }
                self.store(e.offset, bytes.as_slice());
                Ok(())
            },
            None => Err(MemoryError::InvalidLength),
        }
    }

    /// Writes `text` to the entry `index`, padded with NUL to the length of
    /// the entry, whatever the access right of the entry.
    ///
    /// Fails with `InvalidEntry` where there is no such entry of that type,
    /// and with `InvalidLength` where the UTF-8 bytes of `text` are more
    /// than the entry has.
    pub fn write_string(&mut self, index: usize, text: &str) -> (r: Result<(), MemoryError>)
        ensures
            final(self).layout() == old(self).layout(),
            final(self).protection() == old(self).protection(),
            match r {
                Ok(()) => old(self).has_entry(index as int, EntryKind::Str)
                    && vstd::utf8::encode_utf8(
                    text@,
                ).len() <= old(self).entry_len(index as int)
                    && final(self).data() == old(self).data_with_entry(
                    index as int,
                    vstd::utf8::encode_utf8(text@) + zeros(
                        (old(self).entry_len(index as int) - vstd::utf8::encode_utf8(
                            text@,
                        ).len()) as nat,
                    ),
                ),
                Err(e) => final(self).data() == old(self).data() && if old(self).has_entry(
                    index as int,
                    EntryKind::Str,
                ) {
                    e == MemoryError::InvalidLength
                        && vstd::utf8::encode_utf8(text@).len() > old(self).entry_len(index as int)
                } else {
                    e == MemoryError::InvalidEntry
                },
            },
    {
        let e = self.typed_entry(index, EntryKind::Str)?;
        let bytes = text.as_bytes();
        if bytes.len() > e.len {
            return Err(MemoryError::InvalidLength);
        }
        let stored = padded(bytes, e.len);
        self.store(e.offset, stored.as_slice());
        Ok(())
    }
}


/// The message with which a device reports the failure `e` of an access to
/// its memory: that the access is denied where an access right forbids it,
/// and that there is no register at the address for any other failure.
pub open spec fn spec_device_message(e: MemoryError) -> Seq<char> {
    if e == MemoryError::AccessDenied {
        "access to the register is denied"@
    } else {
        "no register at the address"@
    }
}

/// The error that a device reports for a failed access to its memory.
fn device_error(e: MemoryError) -> (r: DeviceError)
    ensures
        r.message@ == spec_device_message(e),
{
    let message = match e {
        MemoryError::AccessDenied => "access to the register is denied",
        _ => "no register at the address",
    };
    DeviceError { message: message.to_owned() }
}

impl Memory {
    /// Whether a device may read `len` bytes at `address`, and why not.
    pub open spec fn read_mem_check(&self, address: u64, len: nat) -> Result<(), MemoryError> {
        if address + len > usize::MAX {
            Err(MemoryError::InvalidAddress)
        } else {
            self.read_check(address as int, address + len)
        }
    }

    /// Whether a device may write `len` bytes at `address`, and why not.
    pub open spec fn write_mem_check(&self, address: u64, len: nat) -> Result<(), MemoryError> {
        if address + len > usize::MAX {
            Err(MemoryError::InvalidAddress)
        } else {
            self.write_check(address as int, address + len, len)
        }
    }

    /// The memory as a device sees it: its bytes, by address.
    pub open spec fn as_map(&self) -> Map<int, u8> {
        Map::new(
            |a: int| self.layout().spec_base() <= a < self.layout().spec_base() + self.data().len(),
            |a: int| self.data()[a - self.layout().spec_base()],
        )
    }
}

impl Device for Memory {
    open spec fn memory(&self) -> Map<int, u8> {
        self.as_map()
    }

    /// Reads as `read` does. Fails where `read` fails, and leaves `buf`
    /// as it is then.
    fn read_mem(&mut self, address: u64, buf: &mut [u8]) -> (r: Result<(), DeviceError>)
        ensures
            *final(self) == *old(self),
            r is Err ==> final(buf)@ == old(buf)@,
            match r {
                Ok(()) => old(self).read_mem_check(address, old(buf)@.len()) is Ok,
                Err(e) => old(self).read_mem_check(address, old(buf)@.len()) matches Err(reason)
                    && e.message@ == spec_device_message(reason),
            },
    {
        let n = buf.len();
        if address > usize::MAX as u64 || n > usize::MAX - address as usize {
            return Err(device_error(MemoryError::InvalidAddress));
        }
        let start = address as usize;
        let bytes = match self.read(start..start + n) {
            Ok(bytes) => bytes,
            Err(e) => {
                return Err(device_error(e));
            },
        };
        let mut i: usize = 0;
        while i < n
            invariant
                i <= n,
                n == buf@.len(),
                n == bytes@.len(),
                forall|k: int| 0 <= k < i ==> buf@[k] == bytes@[k],
            decreases n - i,
        {
            buf[i] = bytes[i];
            i += 1;
        }
        proof {
            let base = self.layout().spec_base() as int;
            let expected = bytes_at(self.as_map(), address as int, n as nat);
            assert(bytes@ == self.span(address as int, address + n));
            assert forall|k: int| 0 <= k < n implies buf@[k] == expected[k] by {
                assert(bytes@[k] == self.data()[address - base + k]);
                assert(self.as_map().dom().contains(address + k));
                assert(self.as_map()[address + k] == self.data()[address + k - base]);
            }
            assert(buf@ =~= expected);
        }
        Ok(())
    }

    /// Writes as `write` does. Fails where `write` fails, and leaves the
    /// memory as it is then.
    fn write_mem(&mut self, address: u64, data: &[u8]) -> (r: Result<(), DeviceError>)
        ensures
            final(self).layout() == old(self).layout(),
            final(self).protection() == old(self).protection(),
            r is Err ==> final(self).data() == old(self).data(),
            match r {
                Ok(()) => old(self).write_mem_check(address, data@.len()) is Ok,
                Err(e) => old(self).write_mem_check(address, data@.len()) matches Err(reason)
                    && e.message@ == spec_device_message(reason),
            },
    {
        let n = data.len();
        if address > usize::MAX as u64 || n > usize::MAX - address as usize {
            return Err(device_error(MemoryError::InvalidAddress));
        }
        let start = address as usize;
        match self.write(start..start + n, data) {
            Ok(()) => {
                assert(self.as_map() =~= written(old(self).as_map(), address as int, data@));
                Ok(())
            },
            Err(e) => Err(device_error(e)),
        }
    }
}


impl MemoryProtection {
    /// Whether the range `k` of the map holds the byte `byte`.
    pub open spec fn holds_byte(&self, k: int, byte: int) -> bool {
        0 <= k < self.ranges().len() && self.ranges()[k].start <= byte < self.ranges()[k].end
    }

    /// The access right of the byte `byte`: that of the range that holds it.
    pub open spec fn access_at(&self, byte: int) -> AccessRight {
        self.ranges()[choose|k: int| self.holds_byte(k, byte)].access
    }
}

/// In a map whose ranges divide its bytes, the ranges lie one behind the
/// other.
proof fn lemma_ranges_in_order(p: MemoryProtection, j: int, k: int)
    requires
        p.partitions(),
        0 <= j < k < p.ranges().len(),
    ensures
        p.ranges()[j].end <= p.ranges()[k].start,
        p.ranges()[j].start <= p.ranges()[j].end,
    decreases k - j,
{
    let offset = |i: int| p.ranges()[i].start as int;
    let len = |i: int| p.ranges()[i].end - p.ranges()[i].start;
    assert(offset(j) + len(j) == offset(j + 1));
    assert(len(j) >= 0);
    if j + 1 < k {
        lemma_ranges_in_order(p, j + 1, k);
        assert(len(j + 1) >= 0);
    }
}

/// In a map whose ranges divide its bytes, every byte of the map lies in a
/// range.
proof fn lemma_byte_has_range(p: MemoryProtection, byte: int, from: int) -> (k: int)
    requires
        p.partitions(),
        0 <= from < p.ranges().len(),
        p.ranges()[from].start <= byte < p.spec_size(),
    ensures
        p.holds_byte(k, byte),
    decreases p.ranges().len() - from,
{
    let offset = |i: int| p.ranges()[i].start as int;
    let len = |i: int| p.ranges()[i].end - p.ranges()[i].start;
    let n = p.ranges().len() as int;
    if byte < p.ranges()[from].end {
        from
    } else if from == n - 1 {
        assert(offset(n - 1) + len(n - 1) == p.spec_size());
        from
    } else {
        assert(offset(from) + len(from) == offset(from + 1));
        lemma_byte_has_range(p, byte, from + 1)
    }
}

/// The access right of a byte is that of any range that holds the byte.
proof fn lemma_access_at(p: MemoryProtection, k: int, byte: int)
    requires
        p.partitions(),
        p.holds_byte(k, byte),
    ensures
        p.access_at(byte) == p.ranges()[k].access,
{
    let chosen = choose|k: int| p.holds_byte(k, byte);
    if chosen < k {
        lemma_ranges_in_order(p, chosen, k);
    } else if k < chosen {
        lemma_ranges_in_order(p, k, chosen);
    }
}

/// The access right of a range of bytes is the strictest of the access
/// rights of its bytes: the range may be read where each of its bytes may
/// be read, and written where each of its bytes may be written.
pub proof fn lemma_access_right_by_bytes(p: MemoryProtection, start: int, end: int)
    requires
        p.partitions(),
        0 <= start < end <= p.spec_size(),
    ensures
        p.spec_access_right_with_range(start, end).spec_is_readable() <==> forall|b: int|
            start <= b < end ==> (#[trigger] p.access_at(b)).spec_is_readable(),
        p.spec_access_right_with_range(start, end).spec_is_writable() <==> forall|b: int|
            start <= b < end ==> (#[trigger] p.access_at(b)).spec_is_writable(),
{
    let n = p.ranges().len() as int;
    let offset = |i: int| p.ranges()[i].start as int;
    assert(n > 0);
    assert(offset(0) == 0);
    let right = p.spec_access_right_with_range(start, end);
    if right.spec_is_readable() {
        assert forall|b: int| start <= b < end implies (#[trigger] p.access_at(
            b,
        )).spec_is_readable() by {
            let k = lemma_byte_has_range(p, b, 0);
            lemma_access_at(p, k, b);
            assert(p.ranges()[k].shares_byte(start, end));
        }
    }
    if right.spec_is_writable() {
        assert forall|b: int| start <= b < end implies (#[trigger] p.access_at(
            b,
        )).spec_is_writable() by {
            let k = lemma_byte_has_range(p, b, 0);
            lemma_access_at(p, k, b);
            assert(p.ranges()[k].shares_byte(start, end));
        }
    }
    if forall|b: int| start <= b < end ==> (#[trigger] p.access_at(b)).spec_is_readable() {
        assert forall|k: int|
            0 <= k < n && (#[trigger] p.ranges()[k]).shares_byte(
                start,
                end,
            ) implies p.ranges()[k].access.spec_is_readable() by {
            let b = if start >= p.ranges()[k].start {
                start
            } else {
                p.ranges()[k].start as int
            };
            lemma_access_at(p, k, b);
            assert(p.access_at(b).spec_is_readable());
        }
    }
    if forall|b: int| start <= b < end ==> (#[trigger] p.access_at(b)).spec_is_writable() {
        assert forall|k: int|
            0 <= k < n && (#[trigger] p.ranges()[k]).shares_byte(
                start,
                end,
            ) implies p.ranges()[k].access.spec_is_writable() by {
            let b = if start >= p.ranges()[k].start {
                start
            } else {
                p.ranges()[k].start as int
            };
            lemma_access_at(p, k, b);
            assert(p.access_at(b).spec_is_writable());
        }
    }
}

} // verus!
