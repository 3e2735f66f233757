//! Element types shared by every node of the graph.

use vstd::prelude::*;

use crate::store::NodeId;
use crate::utils::str_eq;

verus! {

/// Access mode of a node or a register.
#[derive(Clone, Copy, Debug, PartialEq, Eq, Structural)]
pub enum AccessMode {
    /// Read only.
    RO,
    /// Write only.
    WO,
    /// Read and write.
    RW,
}

impl AccessMode {
    /// Meaning of the text of an access-mode element.
    pub open spec fn spec_from_text(s: Seq<char>) -> Option<AccessMode> {
        if s == "RO"@ {
            Some(AccessMode::RO)
        } else if s == "WO"@ {
            Some(AccessMode::WO)
        } else if s == "RW"@ {
            Some(AccessMode::RW)
        } else {
            None
        }
    }

    /// Reads an access mode from the text of an element.
    pub fn from_text(s: &str) -> (r: Option<AccessMode>)
        ensures
            r == Self::spec_from_text(s@),
    {
        if str_eq(s, "RO") {
            Some(AccessMode::RO)
        } else if str_eq(s, "WO") {
            Some(AccessMode::WO)
        } else if str_eq(s, "RW") {
            Some(AccessMode::RW)
        } else {
            None
        }
    }

    /// Whether a node with this mode can be read.
    pub open spec fn spec_is_readable(self) -> bool {
        self != AccessMode::WO
    }

    /// Whether a node with this mode can be written.
    pub open spec fn spec_is_writable(self) -> bool {
        self != AccessMode::RO
    }

    /// Whether a node with this mode can be read.
    #[verifier::when_used_as_spec(spec_is_readable)]
    pub fn is_readable(self) -> (r: bool)
        ensures
            r == self.spec_is_readable(),
    {
        self != AccessMode::WO
    }

    /// Whether a node with this mode can be written.
    #[verifier::when_used_as_spec(spec_is_writable)]
    pub fn is_writable(self) -> (r: bool)
        ensures
            r == self.spec_is_writable(),
    {
        self != AccessMode::RO
    }
}

/// Name space a node belongs to.
#[derive(Clone, Copy, Debug, PartialEq, Eq, Structural)]
pub enum NameSpace {
    /// Defined by a standard.
    Standard,
    /// Defined by the vendor.
    Custom,
}

impl NameSpace {
    /// Meaning of the text `s` in a description, if it has one.
    pub open spec fn spec_from_text(s: Seq<char>) -> Option<NameSpace> {
        if s == "Standard"@ {
            Some(NameSpace::Standard)
        } else if s == "Custom"@ {
            Some(NameSpace::Custom)
        } else {
            None
        }
    }

    /// Reads a value from the text of an element or an attribute.
    pub fn from_text(s: &str) -> (r: Option<NameSpace>)
        ensures
            r == Self::spec_from_text(s@),
    {
        if str_eq(s, "Standard") {
            Some(NameSpace::Standard)
        } else if str_eq(s, "Custom") {
            Some(NameSpace::Custom)
        } else {
            None
        }
    }
}

impl Default for NameSpace {
    fn default() -> (r: NameSpace)
        ensures
            r == NameSpace::Custom,
    {
        NameSpace::Custom
    }
}

/// Skill level a user needs to see a node.
#[derive(Clone, Copy, Debug, PartialEq, Eq, Structural)]
pub enum Visibility {
    /// Visible to everyone.
    Beginner,
    /// Visible to experts and gurus.
    Expert,
    /// Visible to gurus only.
    Guru,
    /// Never shown.
    Invisible,
}

impl Visibility {
    /// Meaning of the text `s` in a description, if it has one.
    pub open spec fn spec_from_text(s: Seq<char>) -> Option<Visibility> {
        if s == "Beginner"@ {
            Some(Visibility::Beginner)
        } else if s == "Expert"@ {
            Some(Visibility::Expert)
        } else if s == "Guru"@ {
            Some(Visibility::Guru)
        } else if s == "Invisible"@ {
            Some(Visibility::Invisible)
        } else {
            None
        }
    }

    /// Reads a value from the text of an element or an attribute.
    pub fn from_text(s: &str) -> (r: Option<Visibility>)
        ensures
            r == Self::spec_from_text(s@),
    {
        if str_eq(s, "Beginner") {
            Some(Visibility::Beginner)
        } else if str_eq(s, "Expert") {
            Some(Visibility::Expert)
        } else if str_eq(s, "Guru") {
            Some(Visibility::Guru)
        } else if str_eq(s, "Invisible") {
            Some(Visibility::Invisible)
        } else {
            None
        }
    }
}

impl Default for Visibility {
    fn default() -> (r: Visibility)
        ensures
            r == Visibility::Beginner,
    {
        Visibility::Beginner
    }
}

/// Priority of a node when two descriptions are merged.
#[derive(Clone, Copy, Debug, PartialEq, Eq, Structural)]
pub enum MergePriority {
    /// Wins over the others.
    High,
    /// Neutral.
    Mid,
    /// Loses against the others.
    Low,
}

impl MergePriority {
    /// Meaning of the text `s` in a description, if it has one.
    pub open spec fn spec_from_text(s: Seq<char>) -> Option<MergePriority> {
        if s == "1"@ {
            Some(MergePriority::High)
        } else if s == "0"@ {
            Some(MergePriority::Mid)
        } else if s == "-1"@ {
            Some(MergePriority::Low)
        } else {
            None
        }
    }

    /// Reads a value from the text of an element or an attribute.
    pub fn from_text(s: &str) -> (r: Option<MergePriority>)
        ensures
            r == Self::spec_from_text(s@),
    {
        if str_eq(s, "1") {
            Some(MergePriority::High)
        } else if str_eq(s, "0") {
            Some(MergePriority::Mid)
        } else if str_eq(s, "-1") {
            Some(MergePriority::Low)
        } else {
            None
        }
    }
}

impl Default for MergePriority {
    fn default() -> (r: MergePriority)
        ensures
            r == MergePriority::Mid,
    {
        MergePriority::Mid
    }
}

/// Caching policy of a register.
#[derive(Clone, Copy, Debug, PartialEq, Eq, Structural)]
pub enum CachingMode {
    /// A write goes to the device and is recorded in the cache.
    WriteThrough,
    /// A write goes to the device only; reads fill the cache.
    WriteAround,
    /// Nothing is cached.
    NoCache,
}

impl CachingMode {
    /// Meaning of the text `s` in a description, if it has one.
    pub open spec fn spec_from_text(s: Seq<char>) -> Option<CachingMode> {
        if s == "WriteThrough"@ {
            Some(CachingMode::WriteThrough)
        } else if s == "WriteAround"@ {
            Some(CachingMode::WriteAround)
        } else if s == "NoCache"@ {
            Some(CachingMode::NoCache)
        } else {
            None
        }
    }

    /// Reads a value from the text of an element or an attribute.
    pub fn from_text(s: &str) -> (r: Option<CachingMode>)
        ensures
            r == Self::spec_from_text(s@),
    {
        if str_eq(s, "WriteThrough") {
            Some(CachingMode::WriteThrough)
        } else if str_eq(s, "WriteAround") {
            Some(CachingMode::WriteAround)
        } else if str_eq(s, "NoCache") {
            Some(CachingMode::NoCache)
        } else {
            None
        }
    }
}

impl Default for CachingMode {
    fn default() -> (r: CachingMode)
        ensures
            r == CachingMode::WriteThrough,
    {
        CachingMode::WriteThrough
    }
}

/// Byte order of a register.
#[derive(Clone, Copy, Debug, PartialEq, Eq, Structural)]
pub enum Endianness {
    /// Least significant byte first.
    LE,
    /// Most significant byte first.
    BE,
}

impl Endianness {
    /// Meaning of the text `s` in a description, if it has one.
    pub open spec fn spec_from_text(s: Seq<char>) -> Option<Endianness> {
        if s == "LittleEndian"@ {
            Some(Endianness::LE)
        } else if s == "BigEndian"@ {
            Some(Endianness::BE)
        } else {
            None
        }
    }

    /// Reads a value from the text of an element or an attribute.
    pub fn from_text(s: &str) -> (r: Option<Endianness>)
        ensures
            r == Self::spec_from_text(s@),
    {
        if str_eq(s, "LittleEndian") {
            Some(Endianness::LE)
        } else if str_eq(s, "BigEndian") {
            Some(Endianness::BE)
        } else {
            None
        }
    }
}

impl Default for Endianness {
    fn default() -> (r: Endianness)
        ensures
            r == Endianness::LE,
    {
        Endianness::LE
    }
}

/// Signedness of an integer register.
#[derive(Clone, Copy, Debug, PartialEq, Eq, Structural)]
pub enum Sign {
    /// Two's complement.
    Signed,
    /// Non-negative.
    Unsigned,
}

impl Sign {
    /// Meaning of the text `s` in a description, if it has one.
    pub open spec fn spec_from_text(s: Seq<char>) -> Option<Sign> {
        if s == "Signed"@ {
            Some(Sign::Signed)
        } else if s == "Unsigned"@ {
            Some(Sign::Unsigned)
        } else {
            None
        }
    }

    /// Reads a value from the text of an element or an attribute.
    pub fn from_text(s: &str) -> (r: Option<Sign>)
        ensures
            r == Self::spec_from_text(s@),
    {
        if str_eq(s, "Signed") {
            Some(Sign::Signed)
        } else if str_eq(s, "Unsigned") {
            Some(Sign::Unsigned)
        } else {
            None
        }
    }
}

impl Default for Sign {
    fn default() -> (r: Sign)
        ensures
            r == Sign::Unsigned,
    {
        Sign::Unsigned
    }
}

/// Recommended presentation of an integer value.
#[derive(Clone, Copy, Debug, PartialEq, Eq, Structural)]
pub enum IntegerRepresentation {
    /// Linear slider.
    Linear,
    /// Logarithmic slider.
    Logarithmic,
    /// Check box.
    Boolean,
    /// Decimal number.
    PureNumber,
    /// Hexadecimal number.
    HexNumber,
    /// IPv4 address.
    IpV4Address,
    /// MAC address.
    MacAddress,
}

impl IntegerRepresentation {
    /// Meaning of the text `s` in a description, if it has one.
    pub open spec fn spec_from_text(s: Seq<char>) -> Option<IntegerRepresentation> {
        if s == "Linear"@ {
            Some(IntegerRepresentation::Linear)
        } else if s == "Logarithmic"@ {
            Some(IntegerRepresentation::Logarithmic)
        } else if s == "Boolean"@ {
            Some(IntegerRepresentation::Boolean)
        } else if s == "PureNumber"@ {
            Some(IntegerRepresentation::PureNumber)
        } else if s == "HexNumber"@ {
            Some(IntegerRepresentation::HexNumber)
        } else if s == "IPV4Address"@ {
            Some(IntegerRepresentation::IpV4Address)
        } else if s == "MACAddress"@ {
            Some(IntegerRepresentation::MacAddress)
        } else {
            None
        }
    }

    /// Reads a value from the text of an element or an attribute.
    pub fn from_text(s: &str) -> (r: Option<IntegerRepresentation>)
        ensures
            r == Self::spec_from_text(s@),
    {
        if str_eq(s, "Linear") {
            Some(IntegerRepresentation::Linear)
        } else if str_eq(s, "Logarithmic") {
            Some(IntegerRepresentation::Logarithmic)
        } else if str_eq(s, "Boolean") {
            Some(IntegerRepresentation::Boolean)
        } else if str_eq(s, "PureNumber") {
            Some(IntegerRepresentation::PureNumber)
        } else if str_eq(s, "HexNumber") {
            Some(IntegerRepresentation::HexNumber)
        } else if str_eq(s, "IPV4Address") {
            Some(IntegerRepresentation::IpV4Address)
        } else if str_eq(s, "MACAddress") {
            Some(IntegerRepresentation::MacAddress)
        } else {
            None
        }
    }
}

impl Default for IntegerRepresentation {
    fn default() -> (r: IntegerRepresentation)
        ensures
            r == IntegerRepresentation::PureNumber,
    {
        IntegerRepresentation::PureNumber
    }
}

/// Standard that defines the names of a description.
#[derive(Clone, Copy, Debug, PartialEq, Eq, Structural)]
pub enum StandardNameSpace {
    /// No standard.
    Unspecified,
    /// IIDC.
    IIDC,
    /// GigE Vision.
    GEV,
    /// Camera Link.
    CL,
    /// USB3 Vision.
    USB,
}

impl StandardNameSpace {
    /// Meaning of the text `s` in a description, if it has one.
    pub open spec fn spec_from_text(s: Seq<char>) -> Option<StandardNameSpace> {
        if s == "None"@ {
            Some(StandardNameSpace::Unspecified)
        } else if s == "IIDC"@ {
            Some(StandardNameSpace::IIDC)
        } else if s == "GEV"@ {
            Some(StandardNameSpace::GEV)
        } else if s == "CL"@ {
            Some(StandardNameSpace::CL)
        } else if s == "USB"@ {
            Some(StandardNameSpace::USB)
        } else {
            None
        }
    }

    /// Reads a value from the text of an element or an attribute.
    pub fn from_text(s: &str) -> (r: Option<StandardNameSpace>)
        ensures
            r == Self::spec_from_text(s@),
    {
        if str_eq(s, "None") {
            Some(StandardNameSpace::Unspecified)
        } else if str_eq(s, "IIDC") {
            Some(StandardNameSpace::IIDC)
        } else if str_eq(s, "GEV") {
            Some(StandardNameSpace::GEV)
        } else if str_eq(s, "CL") {
            Some(StandardNameSpace::CL)
        } else if str_eq(s, "USB") {
            Some(StandardNameSpace::USB)
        } else {
            None
        }
    }
}

/// Meaning of the text of a yes-or-no element.
pub open spec fn spec_bool_from_text(s: Seq<char>) -> Option<bool> {
    if s == "Yes"@ || s == "true"@ {
        Some(true)
    } else if s == "No"@ || s == "false"@ {
        Some(false)
    } else {
        None
    }
}

/// Reads a yes-or-no element.
pub fn bool_from_text(s: &str) -> (r: Option<bool>)
    ensures
        r == spec_bool_from_text(s@),
{
    if str_eq(s, "Yes") || str_eq(s, "true") {
        Some(true)
    } else if str_eq(s, "No") || str_eq(s, "false") {
        Some(false)
    } else {
        None
    }
}


/// A value that is written down in the description, or read from a node.
#[derive(Debug, PartialEq, Eq, Structural)]
pub enum ImmOrPNode<T> {
    /// The value itself.
    Imm(T),
    /// The node that yields the value.
    PNode(NodeId),
}

impl<T: Copy> Clone for ImmOrPNode<T> {
    fn clone(&self) -> (r: ImmOrPNode<T>)
        ensures
            r == *self,
    {
        *self
    }
}

impl<T: Copy> Copy for ImmOrPNode<T> {

}

/// An indexed contribution to the address of a register: the value of the
/// node `p_index`, multiplied by `offset` where one is given.
#[derive(Clone, Copy, Debug, PartialEq, Eq, Structural)]
pub struct RegPIndex {
    pub offset: Option<ImmOrPNode<i64>>,
    pub p_index: NodeId,
}

/// One summand of the address of a register.
#[derive(Clone, Copy, Debug, PartialEq, Eq, Structural)]
pub enum AddressKind {
    /// A constant, or the value of a node.
    Address(ImmOrPNode<i64>),
    /// An index, scaled by an offset.
    PIndex(RegPIndex),
}


/// The bits of a register that a masked integer occupies, as the description
/// numbers them: a single bit, or the range between a least and a most
/// significant bit.
///
/// In a little-endian register bit 0 is the least significant bit; in a
/// big-endian one it is the most significant bit.
#[derive(Clone, Copy, Debug, PartialEq, Eq, Structural)]
pub enum BitMask {
    SingleBit(u64),
    Range { lsb: u64, msb: u64 },
}


impl AccessMode {
    /// The text that stands for the value in a description.
    pub open spec fn spec_to_text(self) -> Seq<char> {
        match self {
            AccessMode::RO => "RO"@,
            AccessMode::WO => "WO"@,
            AccessMode::RW => "RW"@,
        }
    }

    /// The text that stands for the value in a description.
    pub fn to_text(self) -> (r: &'static str)
        ensures
            r@ == self.spec_to_text(),
    {
        match self {
            AccessMode::RO => "RO",
            AccessMode::WO => "WO",
            AccessMode::RW => "RW",
        }
    }

    /// The text of a value reads back as the value.
    pub proof fn lemma_text_reads_back(self)
        ensures
            Self::spec_from_text(self.spec_to_text()) == Some(self),
    {
        reveal_strlit("RO");
        assert("RO"@ =~= seq!['R', 'O']);
        reveal_strlit("WO");
        assert("WO"@ =~= seq!['W', 'O']);
        reveal_strlit("RW");
        assert("RW"@ =~= seq!['R', 'W']);
    }
}

impl NameSpace {
    /// The text that stands for the value in a description.
    pub open spec fn spec_to_text(self) -> Seq<char> {
        match self {
            NameSpace::Standard => "Standard"@,
            NameSpace::Custom => "Custom"@,
        }
    }

    /// The text that stands for the value in a description.
    pub fn to_text(self) -> (r: &'static str)
        ensures
            r@ == self.spec_to_text(),
    {
        match self {
            NameSpace::Standard => "Standard",
            NameSpace::Custom => "Custom",
        }
    }

    /// The text of a value reads back as the value.
    pub proof fn lemma_text_reads_back(self)
        ensures
            Self::spec_from_text(self.spec_to_text()) == Some(self),
    {
        reveal_strlit("Standard");
        assert("Standard"@ =~= seq!['S', 't', 'a', 'n', 'd', 'a', 'r', 'd']);
        reveal_strlit("Custom");
        assert("Custom"@ =~= seq!['C', 'u', 's', 't', 'o', 'm']);
    }
}

impl Visibility {
    /// The text that stands for the value in a description.
    pub open spec fn spec_to_text(self) -> Seq<char> {
        match self {
            Visibility::Beginner => "Beginner"@,
            Visibility::Expert => "Expert"@,
            Visibility::Guru => "Guru"@,
            Visibility::Invisible => "Invisible"@,
        }
    }

    /// The text that stands for the value in a description.
    pub fn to_text(self) -> (r: &'static str)
        ensures
            r@ == self.spec_to_text(),
    {
        match self {
            Visibility::Beginner => "Beginner",
            Visibility::Expert => "Expert",
            Visibility::Guru => "Guru",
            Visibility::Invisible => "Invisible",
        }
    }

    /// The text of a value reads back as the value.
    pub proof fn lemma_text_reads_back(self)
        ensures
            Self::spec_from_text(self.spec_to_text()) == Some(self),
    {
        reveal_strlit("Beginner");
        assert("Beginner"@ =~= seq!['B', 'e', 'g', 'i', 'n', 'n', 'e', 'r']);
        reveal_strlit("Expert");
        assert("Expert"@ =~= seq!['E', 'x', 'p', 'e', 'r', 't']);
        reveal_strlit("Guru");
        assert("Guru"@ =~= seq!['G', 'u', 'r', 'u']);
        reveal_strlit("Invisible");
        assert("Invisible"@ =~= seq!['I', 'n', 'v', 'i', 's', 'i', 'b', 'l', 'e']);
    }
}

impl MergePriority {
    /// The text that stands for the value in a description.
    pub open spec fn spec_to_text(self) -> Seq<char> {
        match self {
            MergePriority::High => "1"@,
            MergePriority::Mid => "0"@,
            MergePriority::Low => "-1"@,
        }
    }

    /// The text that stands for the value in a description.
    pub fn to_text(self) -> (r: &'static str)
        ensures
            r@ == self.spec_to_text(),
    {
        match self {
            MergePriority::High => "1",
            MergePriority::Mid => "0",
            MergePriority::Low => "-1",
        }
    }

    /// The text of a value reads back as the value.
    pub proof fn lemma_text_reads_back(self)
        ensures
            Self::spec_from_text(self.spec_to_text()) == Some(self),
    {
        reveal_strlit("1");
        assert("1"@ =~= seq!['1']);
        assert("1"@[0] == '1');
        reveal_strlit("0");
        assert("0"@ =~= seq!['0']);
        assert("0"@[0] == '0');
        reveal_strlit("-1");
        assert("-1"@ =~= seq!['-', '1']);
    }
}

impl CachingMode {
    /// The text that stands for the value in a description.
    pub open spec fn spec_to_text(self) -> Seq<char> {
        match self {
            CachingMode::WriteThrough => "WriteThrough"@,
            CachingMode::WriteAround => "WriteAround"@,
            CachingMode::NoCache => "NoCache"@,
        }
    }

    /// The text that stands for the value in a description.
    pub fn to_text(self) -> (r: &'static str)
        ensures
            r@ == self.spec_to_text(),
    {
        match self {
            CachingMode::WriteThrough => "WriteThrough",
            CachingMode::WriteAround => "WriteAround",
            CachingMode::NoCache => "NoCache",
        }
    }

    /// The text of a value reads back as the value.
    pub proof fn lemma_text_reads_back(self)
        ensures
            Self::spec_from_text(self.spec_to_text()) == Some(self),
    {
        reveal_strlit("WriteThrough");
        assert("WriteThrough"@ =~= seq!['W', 'r', 'i', 't', 'e', 'T', 'h', 'r', 'o', 'u', 'g', 'h']);
        reveal_strlit("WriteAround");
        assert("WriteAround"@ =~= seq!['W', 'r', 'i', 't', 'e', 'A', 'r', 'o', 'u', 'n', 'd']);
        reveal_strlit("NoCache");
        assert("NoCache"@ =~= seq!['N', 'o', 'C', 'a', 'c', 'h', 'e']);
    }
}

impl Endianness {
    /// The text that stands for the value in a description.
    pub open spec fn spec_to_text(self) -> Seq<char> {
        match self {
            Endianness::LE => "LittleEndian"@,
            Endianness::BE => "BigEndian"@,
        }
    }

    /// The text that stands for the value in a description.
    pub fn to_text(self) -> (r: &'static str)
        ensures
            r@ == self.spec_to_text(),
    {
        match self {
            Endianness::LE => "LittleEndian",
            Endianness::BE => "BigEndian",
        }
    }

    /// The text of a value reads back as the value.
    pub proof fn lemma_text_reads_back(self)
        ensures
            Self::spec_from_text(self.spec_to_text()) == Some(self),
    {
        reveal_strlit("LittleEndian");
        assert("LittleEndian"@ =~= seq!['L', 'i', 't', 't', 'l', 'e', 'E', 'n', 'd', 'i', 'a', 'n']);
        reveal_strlit("BigEndian");
        assert("BigEndian"@ =~= seq!['B', 'i', 'g', 'E', 'n', 'd', 'i', 'a', 'n']);
    }
}

impl Sign {
    /// The text that stands for the value in a description.
    pub open spec fn spec_to_text(self) -> Seq<char> {
        match self {
            Sign::Signed => "Signed"@,
            Sign::Unsigned => "Unsigned"@,
        }
    }

    /// The text that stands for the value in a description.
    pub fn to_text(self) -> (r: &'static str)
        ensures
            r@ == self.spec_to_text(),
    {
        match self {
            Sign::Signed => "Signed",
            Sign::Unsigned => "Unsigned",
        }
    }

    /// The text of a value reads back as the value.
    pub proof fn lemma_text_reads_back(self)
        ensures
            Self::spec_from_text(self.spec_to_text()) == Some(self),
    {
        reveal_strlit("Signed");
        assert("Signed"@ =~= seq!['S', 'i', 'g', 'n', 'e', 'd']);
        reveal_strlit("Unsigned");
        assert("Unsigned"@ =~= seq!['U', 'n', 's', 'i', 'g', 'n', 'e', 'd']);
    }
}

impl IntegerRepresentation {
    /// The text that stands for the value in a description.
    pub open spec fn spec_to_text(self) -> Seq<char> {
        match self {
            IntegerRepresentation::Linear => "Linear"@,
            IntegerRepresentation::Logarithmic => "Logarithmic"@,
            IntegerRepresentation::Boolean => "Boolean"@,
            IntegerRepresentation::PureNumber => "PureNumber"@,
            IntegerRepresentation::HexNumber => "HexNumber"@,
            IntegerRepresentation::IpV4Address => "IPV4Address"@,
            IntegerRepresentation::MacAddress => "MACAddress"@,
        }
    }

    /// The text that stands for the value in a description.
    pub fn to_text(self) -> (r: &'static str)
        ensures
            r@ == self.spec_to_text(),
    {
        match self {
            IntegerRepresentation::Linear => "Linear",
            IntegerRepresentation::Logarithmic => "Logarithmic",
            IntegerRepresentation::Boolean => "Boolean",
            IntegerRepresentation::PureNumber => "PureNumber",
            IntegerRepresentation::HexNumber => "HexNumber",
            IntegerRepresentation::IpV4Address => "IPV4Address",
            IntegerRepresentation::MacAddress => "MACAddress",
        }
    }

    /// The text of a value reads back as the value.
    pub proof fn lemma_text_reads_back(self)
        ensures
            Self::spec_from_text(self.spec_to_text()) == Some(self),
    {
        reveal_strlit("Linear");
        assert("Linear"@ =~= seq!['L', 'i', 'n', 'e', 'a', 'r']);
        reveal_strlit("Logarithmic");
        assert("Logarithmic"@ =~= seq!['L', 'o', 'g', 'a', 'r', 'i', 't', 'h', 'm', 'i', 'c']);
        reveal_strlit("Boolean");
        assert("Boolean"@ =~= seq!['B', 'o', 'o', 'l', 'e', 'a', 'n']);
        reveal_strlit("PureNumber");
        assert("PureNumber"@ =~= seq!['P', 'u', 'r', 'e', 'N', 'u', 'm', 'b', 'e', 'r']);
        reveal_strlit("HexNumber");
        assert("HexNumber"@ =~= seq!['H', 'e', 'x', 'N', 'u', 'm', 'b', 'e', 'r']);
        reveal_strlit("IPV4Address");
        assert("IPV4Address"@ =~= seq!['I', 'P', 'V', '4', 'A', 'd', 'd', 'r', 'e', 's', 's']);
        reveal_strlit("MACAddress");
        assert("MACAddress"@ =~= seq!['M', 'A', 'C', 'A', 'd', 'd', 'r', 'e', 's', 's']);
    }
}

impl StandardNameSpace {
    /// The text that stands for the value in a description.
    pub open spec fn spec_to_text(self) -> Seq<char> {
        match self {
            StandardNameSpace::Unspecified => "None"@,
            StandardNameSpace::IIDC => "IIDC"@,
            StandardNameSpace::GEV => "GEV"@,
            StandardNameSpace::CL => "CL"@,
            StandardNameSpace::USB => "USB"@,
        }
    }

    /// The text that stands for the value in a description.
    pub fn to_text(self) -> (r: &'static str)
        ensures
            r@ == self.spec_to_text(),
    {
        match self {
            StandardNameSpace::Unspecified => "None",
            StandardNameSpace::IIDC => "IIDC",
            StandardNameSpace::GEV => "GEV",
            StandardNameSpace::CL => "CL",
            StandardNameSpace::USB => "USB",
        }
    }

    /// The text of a value reads back as the value.
    pub proof fn lemma_text_reads_back(self)
        ensures
            Self::spec_from_text(self.spec_to_text()) == Some(self),
    {
        reveal_strlit("None");
        assert("None"@ =~= seq!['N', 'o', 'n', 'e']);
        reveal_strlit("IIDC");
        assert("IIDC"@ =~= seq!['I', 'I', 'D', 'C']);
        reveal_strlit("GEV");
        assert("GEV"@ =~= seq!['G', 'E', 'V']);
        reveal_strlit("CL");
        assert("CL"@ =~= seq!['C', 'L']);
        reveal_strlit("USB");
        assert("USB"@ =~= seq!['U', 'S', 'B']);
    }
}

/// The text that stands for a yes or a no in a description.
pub open spec fn spec_bool_to_text(b: bool) -> Seq<char> {
    if b {
        "Yes"@
    } else {
        "No"@
    }
}

/// The text that stands for a yes or a no in a description.
pub fn bool_to_text(b: bool) -> (r: &'static str)
    ensures
        r@ == spec_bool_to_text(b),
{
    if b {
        "Yes"
    } else {
        "No"
    }
}

/// The text of a yes or a no reads back as it.
pub proof fn lemma_bool_text_reads_back(b: bool)
    ensures
        spec_bool_from_text(spec_bool_to_text(b)) == Some(b),
{
    reveal_strlit("Yes");
    assert("Yes"@ =~= seq!['Y', 'e', 's']);
    reveal_strlit("No");
    assert("No"@ =~= seq!['N', 'o']);
    reveal_strlit("true");
    assert("true"@ =~= seq!['t', 'r', 'u', 'e']);
    reveal_strlit("false");
    assert("false"@ =~= seq!['f', 'a', 'l', 's', 'e']);
}

} // verus!
