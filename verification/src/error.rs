use vstd::prelude::*;
use vstd::string::StringExecFns;

verus! {

/// What can go wrong while a partition table is read or written.
#[derive(Clone, Copy, Debug, PartialEq, Eq, Structural)]
pub enum PartitionError {
    /// The leading bytes of a record are not a known magic.
    InvalidMagic,
    /// The type byte names no partition type.
    InvalidType(u8),
    /// The subtype byte names no subtype of its type.
    InvalidSubType(u8),
    /// The type byte of a user-defined type is outside its range.
    InvalidUserType(u8),
    /// The slot number of an OTA application is too large.
    InvalidOtaNumber(u8),
    /// A name is too long or is not UTF-8.
    InvalidString,
    /// An offset is not a multiple of the alignment of its partition type.
    InvalidAlignment,
    /// The stored checksum differs from the computed one.
    InvalidMd5,
    /// The table has ended, or a buffer is too short for a record.
    NotEnoughData,
    /// The table has no room for another record.
    TooManyData,
}

/// The character of a decimal digit.
pub open spec fn digit(d: int) -> char {
    if d == 0 {
        '0'
    } else if d == 1 {
        '1'
    } else if d == 2 {
        '2'
    } else if d == 3 {
        '3'
    } else if d == 4 {
        '4'
    } else if d == 5 {
        '5'
    } else if d == 6 {
        '6'
    } else if d == 7 {
        '7'
    } else if d == 8 {
        '8'
    } else {
        '9'
    }
}

/// A byte in decimal, without leading zeros.
pub open spec fn decimal(n: u8) -> Seq<char> {
    if n < 10 {
        seq![digit(n as int)]
    } else if n < 100 {
        seq![digit(n as int / 10), digit(n as int % 10)]
    } else {
        seq![digit(n as int / 100), digit(n as int / 10 % 10), digit(n as int % 10)]
    }
}

/// A decimal digit as a string.
fn digit_str(d: u8) -> (s: &'static str)
    requires
        d < 10,
    ensures
        s@ == seq![digit(d as int)],
{
    proof {
        reveal_strlit("0");
        reveal_strlit("1");
        reveal_strlit("2");
        reveal_strlit("3");
        reveal_strlit("4");
        reveal_strlit("5");
        reveal_strlit("6");
        reveal_strlit("7");
        reveal_strlit("8");
        reveal_strlit("9");
    }
    let s = match d {
        0 => "0",
        1 => "1",
        2 => "2",
        3 => "3",
        4 => "4",
        5 => "5",
        6 => "6",
        7 => "7",
        8 => "8",
        _ => "9",
    };
    assert(s@ =~= seq![digit(d as int)]);
    s
}

/// Adds a byte in decimal to the end of a text.
fn push_decimal(text: &mut String, n: u8)
    ensures
        final(text)@ == old(text)@ + decimal(n),
{
    if n >= 100 {
        text.append(digit_str(n / 100));
    }
    if n >= 10 {
        text.append(digit_str(n / 10 % 10));
    }
    text.append(digit_str(n % 10));
    assert(text@ =~= old(text)@ + decimal(n));
}

impl PartitionError {
    /// The words that every error of the same kind begins with.
    pub open spec fn label(self) -> Seq<char> {
        match self {
            PartitionError::InvalidMagic => "Invalid magic"@,
            PartitionError::InvalidType(_) => "Invalid type: "@,
            PartitionError::InvalidSubType(_) => "Invalid sub type: "@,
            PartitionError::InvalidUserType(_) => "Invalid user type: "@,
            PartitionError::InvalidOtaNumber(_) => "Invalid OTA: #"@,
            PartitionError::InvalidString => "Invalid string"@,
            PartitionError::InvalidAlignment => "Invalid alignment"@,
            PartitionError::InvalidMd5 => "Invalid MD5"@,
            PartitionError::NotEnoughData => "Not enough data"@,
            PartitionError::TooManyData => "Too many data"@,
        }
    }

    /// The byte that an error was raised for, if it was raised for one.
    pub open spec fn byte(self) -> Option<u8> {
        match self {
            PartitionError::InvalidType(byte) => Some(byte),
            PartitionError::InvalidSubType(byte) => Some(byte),
            PartitionError::InvalidUserType(byte) => Some(byte),
            PartitionError::InvalidOtaNumber(byte) => Some(byte),
            _ => None,
        }
    }

    /// The error in words: its label, then its byte in decimal if it has
    /// one.
    pub fn message(&self) -> (text: String)
        ensures
            text@ == self.label() + match self.byte() {
                Some(byte) => decimal(byte),
                None => Seq::empty(),
            },
    {
        let (label, byte) = match self {
            PartitionError::InvalidMagic => ("Invalid magic", None),
            PartitionError::InvalidType(byte) => ("Invalid type: ", Some(*byte)),
            PartitionError::InvalidSubType(byte) => ("Invalid sub type: ", Some(*byte)),
            PartitionError::InvalidUserType(byte) => ("Invalid user type: ", Some(*byte)),
            PartitionError::InvalidOtaNumber(byte) => ("Invalid OTA: #", Some(*byte)),
            PartitionError::InvalidString => ("Invalid string", None),
            PartitionError::InvalidAlignment => ("Invalid alignment", None),
            PartitionError::InvalidMd5 => ("Invalid MD5", None),
            PartitionError::NotEnoughData => ("Not enough data", None),
            PartitionError::TooManyData => ("Too many data", None),
        };
        let mut text = String::from_str(label);
        match byte {
            Some(byte) => push_decimal(&mut text, byte),
            None => {
                assert(text@ =~= self.label() + Seq::<char>::empty());
            },
        }
        text
    }
}

} // verus!
