//! Names of the elements and attributes of a register description.

use vstd::prelude::*;

verus! {

pub const NAME: &'static str = "Name";

pub const NAME_SPACE: &'static str = "NameSpace";

pub const MERGE_PRIORITY: &'static str = "MergePriority";

pub const EXPOSE_STATIC: &'static str = "ExposeStatic";

pub const COMMENT: &'static str = "Comment";

pub const EXTENSION: &'static str = "Extension";

pub const TOOL_TIP: &'static str = "ToolTip";

pub const DESCRIPTION: &'static str = "Description";

pub const DISPLAY_NAME: &'static str = "DisplayName";

pub const VISIBILITY: &'static str = "Visibility";

pub const DOCU_URL: &'static str = "DocuURL";

pub const IS_DEPRECATED: &'static str = "IsDeprecated";

pub const EVENT_ID: &'static str = "EventID";

pub const P_IS_IMPLEMENTED: &'static str = "pIsImplemented";

pub const P_IS_AVAILABLE: &'static str = "pIsAvailable";

pub const P_IS_LOCKED: &'static str = "pIsLocked";

pub const P_BLOCK_POLLING: &'static str = "pBlockPolling";

pub const IMPOSED_ACCESS_MODE: &'static str = "ImposedAccessMode";

pub const P_ERROR: &'static str = "pError";

pub const P_ALIAS: &'static str = "pAlias";

pub const P_CAST_ALIAS: &'static str = "pCastAlias";

pub const STREAMABLE: &'static str = "Streamable";

pub const ADDRESS: &'static str = "Address";

pub const P_ADDRESS: &'static str = "pAddress";

pub const P_INDEX: &'static str = "pIndex";

pub const OFFSET: &'static str = "Offset";

pub const P_OFFSET: &'static str = "pOffset";

pub const LENGTH: &'static str = "Length";

pub const P_LENGTH: &'static str = "pLength";

pub const ACCESS_MODE: &'static str = "AccessMode";

pub const P_PORT: &'static str = "pPort";

pub const CACHEABLE: &'static str = "Cachable";

pub const POLLING_TIME: &'static str = "PollingTime";

pub const P_INVALIDATOR: &'static str = "pInvalidator";

pub const ENDIANNESS: &'static str = "Endianess";

pub const STRUCT_REG: &'static str = "StructReg";

pub const STRUCT_ENTRY: &'static str = "StructEntry";

pub const BIT: &'static str = "Bit";

pub const LSB: &'static str = "LSB";

pub const MSB: &'static str = "MSB";

pub const SIGN: &'static str = "Sign";

pub const UNIT: &'static str = "Unit";

pub const REPRESENTATION: &'static str = "Representation";

pub const P_SELECTED: &'static str = "pSelected";

pub const INT_REG: &'static str = "IntReg";

pub const MASKED_INT_REG: &'static str = "MaskedIntReg";

pub const INT_SWISS_KNIFE: &'static str = "IntSwissKnife";

pub const INT_CONVERTER: &'static str = "IntConverter";

pub const P_VARIABLE: &'static str = "pVariable";

pub const CONSTANT: &'static str = "Constant";

pub const FORMULA: &'static str = "Formula";

pub const FORMULA_TO: &'static str = "FormulaTo";

pub const FORMULA_FROM: &'static str = "FormulaFrom";

pub const P_VALUE: &'static str = "pValue";

pub const REGISTER_DESCRIPTION: &'static str = "RegisterDescription";

pub const MODEL_NAME: &'static str = "ModelName";

pub const VENDOR_NAME: &'static str = "VendorName";

pub const STANDARD_NAME_SPACE: &'static str = "StandardNameSpace";

pub const SCHEMA_MAJOR_VERSION: &'static str = "SchemaMajorVersion";

pub const SCHEMA_MINOR_VERSION: &'static str = "SchemaMinorVersion";

pub const SCHEMA_SUB_MINOR_VERSION: &'static str = "SchemaSubMinorVersion";

pub const MAJOR_VERSION: &'static str = "MajorVersion";

pub const MINOR_VERSION: &'static str = "MinorVersion";

pub const SUB_MINOR_VERSION: &'static str = "SubMinorVersion";

pub const PRODUCT_GUID: &'static str = "ProductGuid";

pub const VERSION_GUID: &'static str = "VersionGuid";


/// What each name is, character by character.
pub proof fn lemma_names()
    ensures
        NAME@ == seq!['N', 'a', 'm', 'e'],
        NAME_SPACE@ == seq!['N', 'a', 'm', 'e', 'S', 'p', 'a', 'c', 'e'],
        MERGE_PRIORITY@ == seq!['M', 'e', 'r', 'g', 'e', 'P', 'r', 'i', 'o', 'r', 'i', 't', 'y'],
        EXPOSE_STATIC@ == seq!['E', 'x', 'p', 'o', 's', 'e', 'S', 't', 'a', 't', 'i', 'c'],
        COMMENT@ == seq!['C', 'o', 'm', 'm', 'e', 'n', 't'],
        EXTENSION@ == seq!['E', 'x', 't', 'e', 'n', 's', 'i', 'o', 'n'],
        TOOL_TIP@ == seq!['T', 'o', 'o', 'l', 'T', 'i', 'p'],
        DESCRIPTION@ == seq!['D', 'e', 's', 'c', 'r', 'i', 'p', 't', 'i', 'o', 'n'],
        DISPLAY_NAME@ == seq!['D', 'i', 's', 'p', 'l', 'a', 'y', 'N', 'a', 'm', 'e'],
        VISIBILITY@ == seq!['V', 'i', 's', 'i', 'b', 'i', 'l', 'i', 't', 'y'],
        DOCU_URL@ == seq!['D', 'o', 'c', 'u', 'U', 'R', 'L'],
        IS_DEPRECATED@ == seq!['I', 's', 'D', 'e', 'p', 'r', 'e', 'c', 'a', 't', 'e', 'd'],
        EVENT_ID@ == seq!['E', 'v', 'e', 'n', 't', 'I', 'D'],
        P_IS_IMPLEMENTED@ == seq!['p', 'I', 's', 'I', 'm', 'p', 'l', 'e', 'm', 'e', 'n', 't', 'e', 'd'],
        P_IS_AVAILABLE@ == seq!['p', 'I', 's', 'A', 'v', 'a', 'i', 'l', 'a', 'b', 'l', 'e'],
        P_IS_LOCKED@ == seq!['p', 'I', 's', 'L', 'o', 'c', 'k', 'e', 'd'],
        P_BLOCK_POLLING@ == seq!['p', 'B', 'l', 'o', 'c', 'k', 'P', 'o', 'l', 'l', 'i', 'n', 'g'],
        IMPOSED_ACCESS_MODE@ == seq!['I', 'm', 'p', 'o', 's', 'e', 'd', 'A', 'c', 'c', 'e', 's', 's', 'M', 'o', 'd', 'e'],
        P_ERROR@ == seq!['p', 'E', 'r', 'r', 'o', 'r'],
        P_ALIAS@ == seq!['p', 'A', 'l', 'i', 'a', 's'],
        P_CAST_ALIAS@ == seq!['p', 'C', 'a', 's', 't', 'A', 'l', 'i', 'a', 's'],
        STREAMABLE@ == seq!['S', 't', 'r', 'e', 'a', 'm', 'a', 'b', 'l', 'e'],
        ADDRESS@ == seq!['A', 'd', 'd', 'r', 'e', 's', 's'],
        P_ADDRESS@ == seq!['p', 'A', 'd', 'd', 'r', 'e', 's', 's'],
        P_INDEX@ == seq!['p', 'I', 'n', 'd', 'e', 'x'],
        OFFSET@ == seq!['O', 'f', 'f', 's', 'e', 't'],
        P_OFFSET@ == seq!['p', 'O', 'f', 'f', 's', 'e', 't'],
        LENGTH@ == seq!['L', 'e', 'n', 'g', 't', 'h'],
        P_LENGTH@ == seq!['p', 'L', 'e', 'n', 'g', 't', 'h'],
        ACCESS_MODE@ == seq!['A', 'c', 'c', 'e', 's', 's', 'M', 'o', 'd', 'e'],
        P_PORT@ == seq!['p', 'P', 'o', 'r', 't'],
        CACHEABLE@ == seq!['C', 'a', 'c', 'h', 'a', 'b', 'l', 'e'],
        POLLING_TIME@ == seq!['P', 'o', 'l', 'l', 'i', 'n', 'g', 'T', 'i', 'm', 'e'],
        P_INVALIDATOR@ == seq!['p', 'I', 'n', 'v', 'a', 'l', 'i', 'd', 'a', 't', 'o', 'r'],
        ENDIANNESS@ == seq!['E', 'n', 'd', 'i', 'a', 'n', 'e', 's', 's'],
        STRUCT_REG@ == seq!['S', 't', 'r', 'u', 'c', 't', 'R', 'e', 'g'],
        STRUCT_ENTRY@ == seq!['S', 't', 'r', 'u', 'c', 't', 'E', 'n', 't', 'r', 'y'],
        BIT@ == seq!['B', 'i', 't'],
        LSB@ == seq!['L', 'S', 'B'],
        MSB@ == seq!['M', 'S', 'B'],
        SIGN@ == seq!['S', 'i', 'g', 'n'],
        UNIT@ == seq!['U', 'n', 'i', 't'],
        REPRESENTATION@ == seq!['R', 'e', 'p', 'r', 'e', 's', 'e', 'n', 't', 'a', 't', 'i', 'o', 'n'],
        P_SELECTED@ == seq!['p', 'S', 'e', 'l', 'e', 'c', 't', 'e', 'd'],
        INT_REG@ == seq!['I', 'n', 't', 'R', 'e', 'g'],
        MASKED_INT_REG@ == seq!['M', 'a', 's', 'k', 'e', 'd', 'I', 'n', 't', 'R', 'e', 'g'],
        INT_SWISS_KNIFE@ == seq!['I', 'n', 't', 'S', 'w', 'i', 's', 's', 'K', 'n', 'i', 'f', 'e'],
        INT_CONVERTER@ == seq!['I', 'n', 't', 'C', 'o', 'n', 'v', 'e', 'r', 't', 'e', 'r'],
        P_VARIABLE@ == seq!['p', 'V', 'a', 'r', 'i', 'a', 'b', 'l', 'e'],
        CONSTANT@ == seq!['C', 'o', 'n', 's', 't', 'a', 'n', 't'],
        FORMULA@ == seq!['F', 'o', 'r', 'm', 'u', 'l', 'a'],
        FORMULA_TO@ == seq!['F', 'o', 'r', 'm', 'u', 'l', 'a', 'T', 'o'],
        FORMULA_FROM@ == seq!['F', 'o', 'r', 'm', 'u', 'l', 'a', 'F', 'r', 'o', 'm'],
        P_VALUE@ == seq!['p', 'V', 'a', 'l', 'u', 'e'],
        REGISTER_DESCRIPTION@ == seq!['R', 'e', 'g', 'i', 's', 't', 'e', 'r', 'D', 'e', 's', 'c', 'r', 'i', 'p', 't', 'i', 'o', 'n'],
        MODEL_NAME@ == seq!['M', 'o', 'd', 'e', 'l', 'N', 'a', 'm', 'e'],
        VENDOR_NAME@ == seq!['V', 'e', 'n', 'd', 'o', 'r', 'N', 'a', 'm', 'e'],
        STANDARD_NAME_SPACE@ == seq!['S', 't', 'a', 'n', 'd', 'a', 'r', 'd', 'N', 'a', 'm', 'e', 'S', 'p', 'a', 'c', 'e'],
        SCHEMA_MAJOR_VERSION@ == seq!['S', 'c', 'h', 'e', 'm', 'a', 'M', 'a', 'j', 'o', 'r', 'V', 'e', 'r', 's', 'i', 'o', 'n'],
        SCHEMA_MINOR_VERSION@ == seq!['S', 'c', 'h', 'e', 'm', 'a', 'M', 'i', 'n', 'o', 'r', 'V', 'e', 'r', 's', 'i', 'o', 'n'],
        SCHEMA_SUB_MINOR_VERSION@ == seq!['S', 'c', 'h', 'e', 'm', 'a', 'S', 'u', 'b', 'M', 'i', 'n', 'o', 'r', 'V', 'e', 'r', 's', 'i', 'o', 'n'],
        MAJOR_VERSION@ == seq!['M', 'a', 'j', 'o', 'r', 'V', 'e', 'r', 's', 'i', 'o', 'n'],
        MINOR_VERSION@ == seq!['M', 'i', 'n', 'o', 'r', 'V', 'e', 'r', 's', 'i', 'o', 'n'],
        SUB_MINOR_VERSION@ == seq!['S', 'u', 'b', 'M', 'i', 'n', 'o', 'r', 'V', 'e', 'r', 's', 'i', 'o', 'n'],
        PRODUCT_GUID@ == seq!['P', 'r', 'o', 'd', 'u', 'c', 't', 'G', 'u', 'i', 'd'],
        VERSION_GUID@ == seq!['V', 'e', 'r', 's', 'i', 'o', 'n', 'G', 'u', 'i', 'd'],
{
    reveal_strlit("Name");
    assert(NAME@ =~= seq!['N', 'a', 'm', 'e']);
    reveal_strlit("NameSpace");
    assert(NAME_SPACE@ =~= seq!['N', 'a', 'm', 'e', 'S', 'p', 'a', 'c', 'e']);
    reveal_strlit("MergePriority");
    assert(MERGE_PRIORITY@ =~= seq!['M', 'e', 'r', 'g', 'e', 'P', 'r', 'i', 'o', 'r', 'i', 't', 'y']);
    reveal_strlit("ExposeStatic");
    assert(EXPOSE_STATIC@ =~= seq!['E', 'x', 'p', 'o', 's', 'e', 'S', 't', 'a', 't', 'i', 'c']);
    reveal_strlit("Comment");
    assert(COMMENT@ =~= seq!['C', 'o', 'm', 'm', 'e', 'n', 't']);
    reveal_strlit("Extension");
    assert(EXTENSION@ =~= seq!['E', 'x', 't', 'e', 'n', 's', 'i', 'o', 'n']);
    reveal_strlit("ToolTip");
    assert(TOOL_TIP@ =~= seq!['T', 'o', 'o', 'l', 'T', 'i', 'p']);
    reveal_strlit("Description");
    assert(DESCRIPTION@ =~= seq!['D', 'e', 's', 'c', 'r', 'i', 'p', 't', 'i', 'o', 'n']);
    reveal_strlit("DisplayName");
    assert(DISPLAY_NAME@ =~= seq!['D', 'i', 's', 'p', 'l', 'a', 'y', 'N', 'a', 'm', 'e']);
    reveal_strlit("Visibility");
    assert(VISIBILITY@ =~= seq!['V', 'i', 's', 'i', 'b', 'i', 'l', 'i', 't', 'y']);
    reveal_strlit("DocuURL");
    assert(DOCU_URL@ =~= seq!['D', 'o', 'c', 'u', 'U', 'R', 'L']);
    reveal_strlit("IsDeprecated");
    assert(IS_DEPRECATED@ =~= seq!['I', 's', 'D', 'e', 'p', 'r', 'e', 'c', 'a', 't', 'e', 'd']);
    reveal_strlit("EventID");
    assert(EVENT_ID@ =~= seq!['E', 'v', 'e', 'n', 't', 'I', 'D']);
    reveal_strlit("pIsImplemented");
    assert(P_IS_IMPLEMENTED@ =~= seq!['p', 'I', 's', 'I', 'm', 'p', 'l', 'e', 'm', 'e', 'n', 't', 'e', 'd']);
    reveal_strlit("pIsAvailable");
    assert(P_IS_AVAILABLE@ =~= seq!['p', 'I', 's', 'A', 'v', 'a', 'i', 'l', 'a', 'b', 'l', 'e']);
    reveal_strlit("pIsLocked");
    assert(P_IS_LOCKED@ =~= seq!['p', 'I', 's', 'L', 'o', 'c', 'k', 'e', 'd']);
    reveal_strlit("pBlockPolling");
    assert(P_BLOCK_POLLING@ =~= seq!['p', 'B', 'l', 'o', 'c', 'k', 'P', 'o', 'l', 'l', 'i', 'n', 'g']);
    reveal_strlit("ImposedAccessMode");
    assert(IMPOSED_ACCESS_MODE@ =~= seq!['I', 'm', 'p', 'o', 's', 'e', 'd', 'A', 'c', 'c', 'e', 's', 's', 'M', 'o', 'd', 'e']);
    reveal_strlit("pError");
    assert(P_ERROR@ =~= seq!['p', 'E', 'r', 'r', 'o', 'r']);
    reveal_strlit("pAlias");
    assert(P_ALIAS@ =~= seq!['p', 'A', 'l', 'i', 'a', 's']);
    reveal_strlit("pCastAlias");
    assert(P_CAST_ALIAS@ =~= seq!['p', 'C', 'a', 's', 't', 'A', 'l', 'i', 'a', 's']);
    reveal_strlit("Streamable");
    assert(STREAMABLE@ =~= seq!['S', 't', 'r', 'e', 'a', 'm', 'a', 'b', 'l', 'e']);
    reveal_strlit("Address");
    assert(ADDRESS@ =~= seq!['A', 'd', 'd', 'r', 'e', 's', 's']);
    reveal_strlit("pAddress");
    assert(P_ADDRESS@ =~= seq!['p', 'A', 'd', 'd', 'r', 'e', 's', 's']);
    reveal_strlit("pIndex");
    assert(P_INDEX@ =~= seq!['p', 'I', 'n', 'd', 'e', 'x']);
    reveal_strlit("Offset");
    assert(OFFSET@ =~= seq!['O', 'f', 'f', 's', 'e', 't']);
    reveal_strlit("pOffset");
    assert(P_OFFSET@ =~= seq!['p', 'O', 'f', 'f', 's', 'e', 't']);
    reveal_strlit("Length");
    assert(LENGTH@ =~= seq!['L', 'e', 'n', 'g', 't', 'h']);
    reveal_strlit("pLength");
    assert(P_LENGTH@ =~= seq!['p', 'L', 'e', 'n', 'g', 't', 'h']);
    reveal_strlit("AccessMode");
    assert(ACCESS_MODE@ =~= seq!['A', 'c', 'c', 'e', 's', 's', 'M', 'o', 'd', 'e']);
    reveal_strlit("pPort");
    assert(P_PORT@ =~= seq!['p', 'P', 'o', 'r', 't']);
    reveal_strlit("Cachable");
    assert(CACHEABLE@ =~= seq!['C', 'a', 'c', 'h', 'a', 'b', 'l', 'e']);
    reveal_strlit("PollingTime");
    assert(POLLING_TIME@ =~= seq!['P', 'o', 'l', 'l', 'i', 'n', 'g', 'T', 'i', 'm', 'e']);
    reveal_strlit("pInvalidator");
    assert(P_INVALIDATOR@ =~= seq!['p', 'I', 'n', 'v', 'a', 'l', 'i', 'd', 'a', 't', 'o', 'r']);
    reveal_strlit("Endianess");
    assert(ENDIANNESS@ =~= seq!['E', 'n', 'd', 'i', 'a', 'n', 'e', 's', 's']);
    reveal_strlit("StructReg");
    assert(STRUCT_REG@ =~= seq!['S', 't', 'r', 'u', 'c', 't', 'R', 'e', 'g']);
    reveal_strlit("StructEntry");
    assert(STRUCT_ENTRY@ =~= seq!['S', 't', 'r', 'u', 'c', 't', 'E', 'n', 't', 'r', 'y']);
    reveal_strlit("Bit");
    assert(BIT@ =~= seq!['B', 'i', 't']);
    reveal_strlit("LSB");
    assert(LSB@ =~= seq!['L', 'S', 'B']);
    reveal_strlit("MSB");
    assert(MSB@ =~= seq!['M', 'S', 'B']);
    reveal_strlit("Sign");
    assert(SIGN@ =~= seq!['S', 'i', 'g', 'n']);
    reveal_strlit("Unit");
    assert(UNIT@ =~= seq!['U', 'n', 'i', 't']);
    reveal_strlit("Representation");
    assert(REPRESENTATION@ =~= seq!['R', 'e', 'p', 'r', 'e', 's', 'e', 'n', 't', 'a', 't', 'i', 'o', 'n']);
    reveal_strlit("pSelected");
    assert(P_SELECTED@ =~= seq!['p', 'S', 'e', 'l', 'e', 'c', 't', 'e', 'd']);
    reveal_strlit("IntReg");
    assert(INT_REG@ =~= seq!['I', 'n', 't', 'R', 'e', 'g']);
    reveal_strlit("MaskedIntReg");
    assert(MASKED_INT_REG@ =~= seq!['M', 'a', 's', 'k', 'e', 'd', 'I', 'n', 't', 'R', 'e', 'g']);
    reveal_strlit("IntSwissKnife");
    assert(INT_SWISS_KNIFE@ =~= seq!['I', 'n', 't', 'S', 'w', 'i', 's', 's', 'K', 'n', 'i', 'f', 'e']);
    reveal_strlit("IntConverter");
    assert(INT_CONVERTER@ =~= seq!['I', 'n', 't', 'C', 'o', 'n', 'v', 'e', 'r', 't', 'e', 'r']);
    reveal_strlit("pVariable");
    assert(P_VARIABLE@ =~= seq!['p', 'V', 'a', 'r', 'i', 'a', 'b', 'l', 'e']);
    reveal_strlit("Constant");
    assert(CONSTANT@ =~= seq!['C', 'o', 'n', 's', 't', 'a', 'n', 't']);
    reveal_strlit("Formula");
    assert(FORMULA@ =~= seq!['F', 'o', 'r', 'm', 'u', 'l', 'a']);
    reveal_strlit("FormulaTo");
    assert(FORMULA_TO@ =~= seq!['F', 'o', 'r', 'm', 'u', 'l', 'a', 'T', 'o']);
    reveal_strlit("FormulaFrom");
    assert(FORMULA_FROM@ =~= seq!['F', 'o', 'r', 'm', 'u', 'l', 'a', 'F', 'r', 'o', 'm']);
    reveal_strlit("pValue");
    assert(P_VALUE@ =~= seq!['p', 'V', 'a', 'l', 'u', 'e']);
    reveal_strlit("RegisterDescription");
    assert(REGISTER_DESCRIPTION@ =~= seq!['R', 'e', 'g', 'i', 's', 't', 'e', 'r', 'D', 'e', 's', 'c', 'r', 'i', 'p', 't', 'i', 'o', 'n']);
    reveal_strlit("ModelName");
    assert(MODEL_NAME@ =~= seq!['M', 'o', 'd', 'e', 'l', 'N', 'a', 'm', 'e']);
    reveal_strlit("VendorName");
    assert(VENDOR_NAME@ =~= seq!['V', 'e', 'n', 'd', 'o', 'r', 'N', 'a', 'm', 'e']);
    reveal_strlit("StandardNameSpace");
    assert(STANDARD_NAME_SPACE@ =~= seq!['S', 't', 'a', 'n', 'd', 'a', 'r', 'd', 'N', 'a', 'm', 'e', 'S', 'p', 'a', 'c', 'e']);
    reveal_strlit("SchemaMajorVersion");
    assert(SCHEMA_MAJOR_VERSION@ =~= seq!['S', 'c', 'h', 'e', 'm', 'a', 'M', 'a', 'j', 'o', 'r', 'V', 'e', 'r', 's', 'i', 'o', 'n']);
    reveal_strlit("SchemaMinorVersion");
    assert(SCHEMA_MINOR_VERSION@ =~= seq!['S', 'c', 'h', 'e', 'm', 'a', 'M', 'i', 'n', 'o', 'r', 'V', 'e', 'r', 's', 'i', 'o', 'n']);
    reveal_strlit("SchemaSubMinorVersion");
    assert(SCHEMA_SUB_MINOR_VERSION@ =~= seq!['S', 'c', 'h', 'e', 'm', 'a', 'S', 'u', 'b', 'M', 'i', 'n', 'o', 'r', 'V', 'e', 'r', 's', 'i', 'o', 'n']);
    reveal_strlit("MajorVersion");
    assert(MAJOR_VERSION@ =~= seq!['M', 'a', 'j', 'o', 'r', 'V', 'e', 'r', 's', 'i', 'o', 'n']);
    reveal_strlit("MinorVersion");
    assert(MINOR_VERSION@ =~= seq!['M', 'i', 'n', 'o', 'r', 'V', 'e', 'r', 's', 'i', 'o', 'n']);
    reveal_strlit("SubMinorVersion");
    assert(SUB_MINOR_VERSION@ =~= seq!['S', 'u', 'b', 'M', 'i', 'n', 'o', 'r', 'V', 'e', 'r', 's', 'i', 'o', 'n']);
    reveal_strlit("ProductGuid");
    assert(PRODUCT_GUID@ =~= seq!['P', 'r', 'o', 'd', 'u', 'c', 't', 'G', 'u', 'i', 'd']);
    reveal_strlit("VersionGuid");
    assert(VERSION_GUID@ =~= seq!['V', 'e', 'r', 's', 'i', 'o', 'n', 'G', 'u', 'i', 'd']);
}


/// The character of `s` at `k`, or a blank where `s` is shorter.
pub open spec fn char_at(s: Seq<char>, k: int) -> char {
    if 0 <= k < s.len() {
        s[k]
    } else {
        ' '
    }
}

/// A mark of a name: its length and three of its characters. Names with
/// different marks are different names.
pub open spec fn name_mark(s: Seq<char>) -> (nat, char, char, char) {
    (s.len(), char_at(s, 0), char_at(s, 1), char_at(s, 7))
}

/// The marks of the names: no two names have the same mark, so no two names
/// are the same.
pub proof fn lemma_name_marks()
    ensures
        name_mark(NAME@) == (4nat, 'N', 'a', ' '),
        name_mark(NAME_SPACE@) == (9nat, 'N', 'a', 'c'),
        name_mark(MERGE_PRIORITY@) == (13nat, 'M', 'e', 'i'),
        name_mark(EXPOSE_STATIC@) == (12nat, 'E', 'x', 't'),
        name_mark(COMMENT@) == (7nat, 'C', 'o', ' '),
        name_mark(EXTENSION@) == (9nat, 'E', 'x', 'o'),
        name_mark(TOOL_TIP@) == (7nat, 'T', 'o', ' '),
        name_mark(DESCRIPTION@) == (11nat, 'D', 'e', 't'),
        name_mark(DISPLAY_NAME@) == (11nat, 'D', 'i', 'N'),
        name_mark(VISIBILITY@) == (10nat, 'V', 'i', 'i'),
        name_mark(DOCU_URL@) == (7nat, 'D', 'o', ' '),
        name_mark(IS_DEPRECATED@) == (12nat, 'I', 's', 'c'),
        name_mark(EVENT_ID@) == (7nat, 'E', 'v', ' '),
        name_mark(P_IS_IMPLEMENTED@) == (14nat, 'p', 'I', 'e'),
        name_mark(P_IS_AVAILABLE@) == (12nat, 'p', 'I', 'l'),
        name_mark(P_IS_LOCKED@) == (9nat, 'p', 'I', 'e'),
        name_mark(P_BLOCK_POLLING@) == (13nat, 'p', 'B', 'o'),
        name_mark(IMPOSED_ACCESS_MODE@) == (17nat, 'I', 'm', 'A'),
        name_mark(P_ERROR@) == (6nat, 'p', 'E', ' '),
        name_mark(P_ALIAS@) == (6nat, 'p', 'A', ' '),
        name_mark(P_CAST_ALIAS@) == (10nat, 'p', 'C', 'i'),
        name_mark(STREAMABLE@) == (10nat, 'S', 't', 'b'),
        name_mark(ADDRESS@) == (7nat, 'A', 'd', ' '),
        name_mark(P_ADDRESS@) == (8nat, 'p', 'A', 's'),
        name_mark(P_INDEX@) == (6nat, 'p', 'I', ' '),
        name_mark(OFFSET@) == (6nat, 'O', 'f', ' '),
        name_mark(P_OFFSET@) == (7nat, 'p', 'O', ' '),
        name_mark(LENGTH@) == (6nat, 'L', 'e', ' '),
        name_mark(P_LENGTH@) == (7nat, 'p', 'L', ' '),
        name_mark(ACCESS_MODE@) == (10nat, 'A', 'c', 'o'),
        name_mark(P_PORT@) == (5nat, 'p', 'P', ' '),
        name_mark(CACHEABLE@) == (8nat, 'C', 'a', 'e'),
        name_mark(POLLING_TIME@) == (11nat, 'P', 'o', 'T'),
        name_mark(P_INVALIDATOR@) == (12nat, 'p', 'I', 'd'),
        name_mark(ENDIANNESS@) == (9nat, 'E', 'n', 's'),
        name_mark(STRUCT_REG@) == (9nat, 'S', 't', 'e'),
        name_mark(STRUCT_ENTRY@) == (11nat, 'S', 't', 'n'),
        name_mark(BIT@) == (3nat, 'B', 'i', ' '),
        name_mark(LSB@) == (3nat, 'L', 'S', ' '),
        name_mark(MSB@) == (3nat, 'M', 'S', ' '),
        name_mark(SIGN@) == (4nat, 'S', 'i', ' '),
        name_mark(UNIT@) == (4nat, 'U', 'n', ' '),
        name_mark(REPRESENTATION@) == (14nat, 'R', 'e', 'n'),
        name_mark(P_SELECTED@) == (9nat, 'p', 'S', 'e'),
        name_mark(INT_REG@) == (6nat, 'I', 'n', ' '),
        name_mark(MASKED_INT_REG@) == (12nat, 'M', 'a', 'n'),
        name_mark(INT_SWISS_KNIFE@) == (13nat, 'I', 'n', 's'),
        name_mark(INT_CONVERTER@) == (12nat, 'I', 'n', 'e'),
        name_mark(P_VARIABLE@) == (9nat, 'p', 'V', 'l'),
        name_mark(CONSTANT@) == (8nat, 'C', 'o', 't'),
        name_mark(FORMULA@) == (7nat, 'F', 'o', ' '),
        name_mark(FORMULA_TO@) == (9nat, 'F', 'o', 'T'),
        name_mark(FORMULA_FROM@) == (11nat, 'F', 'o', 'F'),
        name_mark(P_VALUE@) == (6nat, 'p', 'V', ' '),
        name_mark(REGISTER_DESCRIPTION@) == (19nat, 'R', 'e', 'r'),
        name_mark(MODEL_NAME@) == (9nat, 'M', 'o', 'm'),
        name_mark(VENDOR_NAME@) == (10nat, 'V', 'e', 'a'),
        name_mark(STANDARD_NAME_SPACE@) == (17nat, 'S', 't', 'd'),
        name_mark(SCHEMA_MAJOR_VERSION@) == (18nat, 'S', 'c', 'a'),
        name_mark(SCHEMA_MINOR_VERSION@) == (18nat, 'S', 'c', 'i'),
        name_mark(SCHEMA_SUB_MINOR_VERSION@) == (21nat, 'S', 'c', 'u'),
        name_mark(MAJOR_VERSION@) == (12nat, 'M', 'a', 'r'),
        name_mark(MINOR_VERSION@) == (12nat, 'M', 'i', 'r'),
        name_mark(SUB_MINOR_VERSION@) == (15nat, 'S', 'u', 'r'),
        name_mark(PRODUCT_GUID@) == (11nat, 'P', 'r', 'G'),
        name_mark(VERSION_GUID@) == (11nat, 'V', 'e', 'G'),
{
    lemma_names();
}

} // verus!
