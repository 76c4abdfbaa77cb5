use crate::error::PartitionError;
use vstd::prelude::*;

verus! {

/// Type byte of application partitions.
pub const TYPE_APP: u8 = 0x00;

/// Type byte of data partitions.
pub const TYPE_DATA: u8 = 0x01;

/// Type byte that stands for any type.
pub const TYPE_ANY: u8 = 0xff;

/// Lowest type byte of a user-defined type.
pub const USER_TYPE_MIN: u8 = 0x40;

/// Highest type byte of a user-defined type.
pub const USER_TYPE_MAX: u8 = 0xfe;

/// First subtype byte of the OTA slots.
pub const OTA_BASE: u8 = 0x10;

/// Number of OTA slots.
pub const OTA_SLOTS: u8 = 16;

/// Subtype byte of the test application.
pub const APP_TEST: u8 = 0x20;

/// Alignment of application partitions.
pub const APP_ALIGN: u32 = 0x10000;

/// Alignment of all other partitions.
pub const DATA_ALIGN: u32 = 0x1000;

/// Subtype of an application partition.
#[derive(Clone, Copy, Debug, PartialEq, Eq, Structural)]
pub enum AppPartitionType {
    /// Factory application
    Factory,
    /// OTA application in the given slot
    Ota(u8),
    /// Test application
    Test,
}

impl AppPartitionType {
    /// The subtype that a byte stands for.
    pub open spec fn decode(raw: u8) -> Result<Self, PartitionError> {
        if raw == 0 {
            Ok(Self::Factory)
        } else if OTA_BASE <= raw < OTA_BASE + OTA_SLOTS {
            Ok(Self::Ota((raw - OTA_BASE) as u8))
        } else if raw == APP_TEST {
            Ok(Self::Test)
        } else {
            Err(PartitionError::InvalidSubType(raw))
        }
    }

    /// The byte that stands for a subtype. Only the slots below
    /// `OTA_SLOTS` have one.
    pub open spec fn encode(self) -> Result<u8, PartitionError> {
        match self {
            Self::Factory => Ok(0u8),
            Self::Ota(number) => if number < OTA_SLOTS {
                Ok((number + OTA_BASE) as u8)
            } else {
                Err(PartitionError::InvalidOtaNumber(number))
            },
            Self::Test => Ok(APP_TEST),
        }
    }
}

impl Default for AppPartitionType {
    fn default() -> (r: Self)
        ensures
            r == Self::Factory,
    {
        Self::Factory
    }
}

impl TryFrom<u8> for AppPartitionType {
    type Error = PartitionError;

    fn try_from(raw: u8) -> (r: Result<Self, PartitionError>)
        ensures
            r == Self::decode(raw),
    {
        if raw == 0 {
            Ok(Self::Factory)
        } else if OTA_BASE <= raw && raw < OTA_BASE + OTA_SLOTS {
            Ok(Self::Ota(raw - OTA_BASE))
        } else if raw == APP_TEST {
            Ok(Self::Test)
        } else {
            Err(PartitionError::InvalidSubType(raw))
        }
    }
}

impl vstd::std_specs::convert::TryFromSpecImpl<u8> for AppPartitionType {
    open spec fn obeys_try_from_spec() -> bool {
        true
    }

    open spec fn try_from_spec(raw: u8) -> Result<Self, PartitionError> {
        Self::decode(raw)
    }
}

impl TryFrom<AppPartitionType> for u8 {
    type Error = PartitionError;

    fn try_from(ty: AppPartitionType) -> (r: Result<u8, PartitionError>)
        ensures
            r == ty.encode(),
    {
        match ty {
            AppPartitionType::Factory => Ok(0),
            AppPartitionType::Ota(number) => if number < OTA_SLOTS {
                Ok(number + OTA_BASE)
            } else {
                Err(PartitionError::InvalidOtaNumber(number))
            },
            AppPartitionType::Test => Ok(APP_TEST),
        }
    }
}

impl vstd::std_specs::convert::TryFromSpecImpl<AppPartitionType> for u8 {
    open spec fn obeys_try_from_spec() -> bool {
        true
    }

    open spec fn try_from_spec(ty: AppPartitionType) -> Result<u8, PartitionError> {
        ty.encode()
    }
}

/// Subtype of a data partition.
#[derive(Clone, Copy, Debug, PartialEq, Eq, Structural)]
pub enum DataPartitionType {
    /// OTA selection data
    Ota,
    /// Phy calibration data
    Phy,
    /// Non-volatile storage
    Nvs,
    /// Core dump
    CoreDump,
    /// Keys of an encrypted non-volatile storage
    NvsKeys,
    /// Emulated eFuse bits
    EfuseEm,
    /// Data without a defined meaning
    Undefined,
    /// ESP HTTPd data
    EspHttpd,
    /// FAT file system
    Fat,
    /// SPIFFS file system
    SpiFfs,
    /// LittleFS file system
    LittleFS,
}

impl DataPartitionType {
    /// The byte that stands for a subtype.
    pub open spec fn code(self) -> u8 {
        match self {
            Self::Ota => 0x00,
            Self::Phy => 0x01,
            Self::Nvs => 0x02,
            Self::CoreDump => 0x03,
            Self::NvsKeys => 0x04,
            Self::EfuseEm => 0x05,
            Self::Undefined => 0x06,
            Self::EspHttpd => 0x80,
            Self::Fat => 0x81,
            Self::SpiFfs => 0x82,
            Self::LittleFS => 0x83,
        }
    }

    /// The subtype that a byte stands for.
    pub open spec fn decode(raw: u8) -> Result<Self, PartitionError> {
        if raw == 0x00 {
            Ok(Self::Ota)
        } else if raw == 0x01 {
            Ok(Self::Phy)
        } else if raw == 0x02 {
            Ok(Self::Nvs)
        } else if raw == 0x03 {
            Ok(Self::CoreDump)
        } else if raw == 0x04 {
            Ok(Self::NvsKeys)
        } else if raw == 0x05 {
            Ok(Self::EfuseEm)
        } else if raw == 0x06 {
            Ok(Self::Undefined)
        } else if raw == 0x80 {
            Ok(Self::EspHttpd)
        } else if raw == 0x81 {
            Ok(Self::Fat)
        } else if raw == 0x82 {
            Ok(Self::SpiFfs)
        } else if raw == 0x83 {
            Ok(Self::LittleFS)
        } else {
            Err(PartitionError::InvalidSubType(raw))
        }
    }
}

impl Default for DataPartitionType {
    fn default() -> (r: Self)
        ensures
            r == Self::Ota,
    {
        Self::Ota
    }
}

impl TryFrom<u8> for DataPartitionType {
    type Error = PartitionError;

    fn try_from(raw: u8) -> (r: Result<Self, PartitionError>)
        ensures
            r == Self::decode(raw),
    {
        match raw {
            0x00 => Ok(Self::Ota),
            0x01 => Ok(Self::Phy),
            0x02 => Ok(Self::Nvs),
            0x03 => Ok(Self::CoreDump),
            0x04 => Ok(Self::NvsKeys),
            0x05 => Ok(Self::EfuseEm),
            0x06 => Ok(Self::Undefined),
            0x80 => Ok(Self::EspHttpd),
            0x81 => Ok(Self::Fat),
            0x82 => Ok(Self::SpiFfs),
            0x83 => Ok(Self::LittleFS),
            _ => Err(PartitionError::InvalidSubType(raw)),
        }
    }
}

impl vstd::std_specs::convert::TryFromSpecImpl<u8> for DataPartitionType {
    open spec fn obeys_try_from_spec() -> bool {
        true
    }

    open spec fn try_from_spec(raw: u8) -> Result<Self, PartitionError> {
        Self::decode(raw)
    }
}

impl From<DataPartitionType> for u8 {
    fn from(ty: DataPartitionType) -> (r: u8)
        ensures
            r == ty.code(),
    {
        match ty {
            DataPartitionType::Ota => 0x00,
            DataPartitionType::Phy => 0x01,
            DataPartitionType::Nvs => 0x02,
            DataPartitionType::CoreDump => 0x03,
            DataPartitionType::NvsKeys => 0x04,
            DataPartitionType::EfuseEm => 0x05,
            DataPartitionType::Undefined => 0x06,
            DataPartitionType::EspHttpd => 0x80,
            DataPartitionType::Fat => 0x81,
            DataPartitionType::SpiFfs => 0x82,
            DataPartitionType::LittleFS => 0x83,
        }
    }
}

impl vstd::std_specs::convert::FromSpecImpl<DataPartitionType> for u8 {
    open spec fn obeys_from_spec() -> bool {
        true
    }

    open spec fn from_spec(ty: DataPartitionType) -> u8 {
        ty.code()
    }
}

/// Type and subtype of a partition.
#[derive(Clone, Copy, Debug, PartialEq, Eq, Structural)]
pub enum PartitionType {
    /// Application partition
    App(AppPartitionType),
    /// Data partition
    Data(DataPartitionType),
    /// Any type
    Any,
    /// User-defined type: its type byte and its subtype byte
    User(u8, u8),
}

impl PartitionType {
    /// The type that a type byte and a subtype byte stand for.
    pub open spec fn decode(raw_type: u8, raw_subtype: u8) -> Result<Self, PartitionError> {
        if raw_type == TYPE_APP {
            match AppPartitionType::decode(raw_subtype) {
                Ok(subtype) => Ok(Self::App(subtype)),
                Err(error) => Err(error),
            }
        } else if raw_type == TYPE_DATA {
            match DataPartitionType::decode(raw_subtype) {
                Ok(subtype) => Ok(Self::Data(subtype)),
                Err(error) => Err(error),
            }
        } else if USER_TYPE_MIN <= raw_type <= USER_TYPE_MAX {
            Ok(Self::User(raw_type, raw_subtype))
        } else if raw_type == TYPE_ANY {
            Ok(Self::Any)
        } else {
            Err(PartitionError::InvalidType(raw_type))
        }
    }

    /// The type byte and the subtype byte that stand for a type.
    pub open spec fn encode(self) -> Result<(u8, u8), PartitionError> {
        match self {
            Self::App(subtype) => match subtype.encode() {
                Ok(raw_subtype) => Ok((TYPE_APP, raw_subtype)),
                Err(error) => Err(error),
            },
            Self::Data(subtype) => Ok((TYPE_DATA, subtype.code())),
            Self::User(raw_type, raw_subtype) => if USER_TYPE_MIN <= raw_type <= USER_TYPE_MAX {
                Ok((raw_type, raw_subtype))
            } else {
                Err(PartitionError::InvalidUserType(raw_type))
            },
            Self::Any => Ok((TYPE_ANY, 0u8)),
        }
    }

    /// The alignment that the type asks of a partition's offset.
    pub open spec fn spec_align(&self) -> u32 {
        if self is App {
            APP_ALIGN
        } else {
            DATA_ALIGN
        }
    }

    /// Whether an offset is a multiple of the type's alignment.
    pub open spec fn aligned(self, offset: u32) -> bool {
        offset % self.spec_align() == 0
    }

    /// The alignment that the type asks of a partition's offset.
    #[verifier::when_used_as_spec(spec_align)]
    pub fn align(&self) -> (r: u32)
        ensures
            r == self.spec_align(),
            self is App ==> r == 0x10000,
            !(self is App) ==> r == 0x1000,
    {
        match self {
            PartitionType::App(_) => APP_ALIGN,
            _ => DATA_ALIGN,
        }
    }

    /// Accepts the offsets that are multiples of the type's alignment.
    pub fn check_offset(&self, offset: u32) -> (r: Result<(), PartitionError>)
        ensures
            self.aligned(offset) ==> r == Ok::<(), PartitionError>(()),
            !self.aligned(offset) ==> r == Err::<(), PartitionError>(
                PartitionError::InvalidAlignment,
            ),
    {
        if offset % self.align() == 0 {
            Ok(())
        } else {
            Err(PartitionError::InvalidAlignment)
        }
    }

    /// Reads the type from its two bytes. A type byte that is none of
    /// `TYPE_APP`, `TYPE_DATA`, `TYPE_ANY` and no user type is refused
    /// whatever the subtype byte is.
    pub fn from_bytes(data: &[u8; 2]) -> (r: Result<Self, PartitionError>)
        ensures
            r == Self::decode(data[0], data[1]),
            !(data[0] == 0x00 || data[0] == 0x01 || data[0] == 0xff || 0x40 <= data[0] <= 0xfe)
                ==> r == Err::<Self, PartitionError>(PartitionError::InvalidType(data[0])),
    {
        Self::try_from((data[0], data[1]))
    }

    /// Writes the type as its two bytes. Where the type has none, `data`
    /// stays as it was.
    pub fn to_bytes(&self, data: &mut [u8; 2]) -> (r: Result<(), PartitionError>)
        ensures
            match self.encode() {
                Ok(raw) => r is Ok && final(data)@ == seq![raw.0, raw.1],
                Err(error) => r == Err::<(), PartitionError>(error) && final(data)@ == old(data)@,
            },
    {
        match <(u8, u8)>::try_from(*self) {
            Ok(raw) => {
                data[0] = raw.0;
                data[1] = raw.1;
                assert(data@ =~= seq![raw.0, raw.1]);
                Ok(())
            },
            Err(error) => Err(error),
        }
    }
}

impl Default for PartitionType {
    fn default() -> (r: Self)
        ensures
            r == Self::Any,
    {
        Self::Any
    }
}

impl From<AppPartitionType> for PartitionType {
    fn from(subtype: AppPartitionType) -> (r: Self)
        ensures
            r == Self::App(subtype),
    {
        Self::App(subtype)
    }
}

impl vstd::std_specs::convert::FromSpecImpl<AppPartitionType> for PartitionType {
    open spec fn obeys_from_spec() -> bool {
        true
    }

    open spec fn from_spec(subtype: AppPartitionType) -> Self {
        Self::App(subtype)
    }
}

impl From<DataPartitionType> for PartitionType {
    fn from(subtype: DataPartitionType) -> (r: Self)
        ensures
            r == Self::Data(subtype),
    {
        Self::Data(subtype)
    }
}

impl vstd::std_specs::convert::FromSpecImpl<DataPartitionType> for PartitionType {
    open spec fn obeys_from_spec() -> bool {
        true
    }

    open spec fn from_spec(subtype: DataPartitionType) -> Self {
        Self::Data(subtype)
    }
}

impl TryFrom<(u8, u8)> for PartitionType {
    type Error = PartitionError;

    fn try_from(raw: (u8, u8)) -> (r: Result<Self, PartitionError>)
        ensures
            r == Self::decode(raw.0, raw.1),
    {
        let (raw_type, raw_subtype) = raw;
        if raw_type == TYPE_APP {
            match AppPartitionType::try_from(raw_subtype) {
                Ok(subtype) => Ok(Self::App(subtype)),
                Err(error) => Err(error),
            }
        } else if raw_type == TYPE_DATA {
            match DataPartitionType::try_from(raw_subtype) {
                Ok(subtype) => Ok(Self::Data(subtype)),
                Err(error) => Err(error),
            }
        } else if USER_TYPE_MIN <= raw_type && raw_type <= USER_TYPE_MAX {
            Ok(Self::User(raw_type, raw_subtype))
        } else if raw_type == TYPE_ANY {
            Ok(Self::Any)
        } else {
            Err(PartitionError::InvalidType(raw_type))
        }
    }
}

impl vstd::std_specs::convert::TryFromSpecImpl<(u8, u8)> for PartitionType {
    open spec fn obeys_try_from_spec() -> bool {
        true
    }

    open spec fn try_from_spec(raw: (u8, u8)) -> Result<Self, PartitionError> {
        Self::decode(raw.0, raw.1)
    }
}

impl TryFrom<[u8; 2]> for PartitionType {
    type Error = PartitionError;

    fn try_from(raw: [u8; 2]) -> (r: Result<Self, PartitionError>)
        ensures
            r == Self::decode(raw[0], raw[1]),
    {
        Self::try_from((raw[0], raw[1]))
    }
}

impl vstd::std_specs::convert::TryFromSpecImpl<[u8; 2]> for PartitionType {
    open spec fn obeys_try_from_spec() -> bool {
        true
    }

    open spec fn try_from_spec(raw: [u8; 2]) -> Result<Self, PartitionError> {
        Self::decode(raw[0], raw[1])
    }
}

impl TryFrom<&[u8]> for PartitionType {
    type Error = PartitionError;

    /// A slice of any length but two is refused as `NotEnoughData`.
    fn try_from(raw: &[u8]) -> (r: Result<Self, PartitionError>)
        ensures
            raw@.len() == 2 ==> r == Self::decode(raw[0], raw[1]),
            raw@.len() != 2 ==> r == Err::<Self, PartitionError>(PartitionError::NotEnoughData),
    {
        if raw.len() != 2 {
            Err(PartitionError::NotEnoughData)
        } else {
            Self::try_from((raw[0], raw[1]))
        }
    }
}

impl vstd::std_specs::convert::TryFromSpecImpl<&[u8]> for PartitionType {
    open spec fn obeys_try_from_spec() -> bool {
        true
    }

    open spec fn try_from_spec(raw: &[u8]) -> Result<Self, PartitionError> {
        if raw@.len() == 2 {
            Self::decode(raw[0], raw[1])
        } else {
            Err(PartitionError::NotEnoughData)
        }
    }
}

impl TryFrom<PartitionType> for (u8, u8) {
    type Error = PartitionError;

    fn try_from(ty: PartitionType) -> (r: Result<(u8, u8), PartitionError>)
        ensures
            r == ty.encode(),
    {
        match ty {
            PartitionType::App(subtype) => match u8::try_from(subtype) {
                Ok(raw_subtype) => Ok((TYPE_APP, raw_subtype)),
                Err(error) => Err(error),
            },
            PartitionType::Data(subtype) => Ok((TYPE_DATA, u8::from(subtype))),
            PartitionType::User(raw_type, raw_subtype) => if USER_TYPE_MIN <= raw_type && raw_type
                <= USER_TYPE_MAX {
                Ok((raw_type, raw_subtype))
            } else {
                Err(PartitionError::InvalidUserType(raw_type))
            },
            PartitionType::Any => Ok((TYPE_ANY, 0)),
        }
    }
}

impl vstd::std_specs::convert::TryFromSpecImpl<PartitionType> for (u8, u8) {
    open spec fn obeys_try_from_spec() -> bool {
        true
    }

    open spec fn try_from_spec(ty: PartitionType) -> Result<(u8, u8), PartitionError> {
        ty.encode()
    }
}

impl TryFrom<&[u8; 2]> for PartitionType {
    type Error = PartitionError;

    fn try_from(raw: &[u8; 2]) -> (r: Result<Self, PartitionError>)
        ensures
            r == Self::decode(raw[0], raw[1]),
    {
        Self::try_from((raw[0], raw[1]))
    }
}

impl vstd::std_specs::convert::TryFromSpecImpl<&[u8; 2]> for PartitionType {
    open spec fn obeys_try_from_spec() -> bool {
        true
    }

    open spec fn try_from_spec(raw: &[u8; 2]) -> Result<Self, PartitionError> {
        Self::decode(raw[0], raw[1])
    }
}

impl TryFrom<PartitionType> for [u8; 2] {
    type Error = PartitionError;

    fn try_from(ty: PartitionType) -> (r: Result<[u8; 2], PartitionError>)
        ensures
            match ty.encode() {
                Ok(raw) => r is Ok && r->Ok_0@ == seq![raw.0, raw.1],
                Err(error) => r == Err::<[u8; 2], PartitionError>(error),
            },
    {
        match <(u8, u8)>::try_from(ty) {
            Ok(raw) => {
                let bytes = [raw.0, raw.1];
                assert(bytes@ =~= seq![raw.0, raw.1]);
                Ok(bytes)
            },
            Err(error) => Err(error),
        }
    }
}

/// What this conversion returns is stated by its own contract.
impl vstd::std_specs::convert::TryFromSpecImpl<PartitionType> for [u8; 2] {
    open spec fn obeys_try_from_spec() -> bool {
        false
    }

    open spec fn try_from_spec(ty: PartitionType) -> Result<[u8; 2], PartitionError> {
        arbitrary()
    }
}

} // verus!
