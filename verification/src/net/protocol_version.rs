//! The client protocol version the server speaks, and the translation of
//! speak and message classes between the server's own numbering and the
//! wire numbering of that version.
use vstd::prelude::*;

verus! {

/// The client protocol versions the server can speak.
#[derive(Debug, Clone, Copy, PartialEq, Eq, Structural, PartialOrd, Ord)]
pub enum ClientVersion {
    V860,
    V1098,
}

impl ClientVersion {
    /// The lowest protocol number a client of this version may announce.
    pub fn min_version(self) -> (v: u16)
        ensures
            v == (match self {
                ClientVersion::V860 => 860u16,
                ClientVersion::V1098 => 1097u16,
            }),
    {
        match self {
            ClientVersion::V860 => 860,
            ClientVersion::V1098 => 1097,
        }
    }

    /// The highest protocol number a client of this version may announce.
    pub fn max_version(self) -> (v: u16)
        ensures
            v == (match self {
                ClientVersion::V860 => 860u16,
                ClientVersion::V1098 => 1098u16,
            }),
    {
        match self {
            ClientVersion::V860 => 860,
            ClientVersion::V1098 => 1098,
        }
    }

    /// Whether this is the 10.98 protocol.
    pub fn is_1098(self) -> (b: bool)
        ensures
            b == (self == ClientVersion::V1098),
    {
        match self {
            ClientVersion::V860 => false,
            ClientVersion::V1098 => true,
        }
    }

    /// The version the server speaks when configured with lowest protocol
    /// number `min`: 10.98 from 1097 on, else 8.60.
    pub fn from_min_version(min: u16) -> (v: ClientVersion)
        ensures
            v == if min >= 1097 {
                ClientVersion::V1098
            } else {
                ClientVersion::V860
            },
    {
        if min >= 1097 {
            ClientVersion::V1098
        } else {
            ClientVersion::V860
        }
    }
}

/// How many creatures a client of `version` keeps track of.
pub fn max_known_creatures(version: ClientVersion) -> (n: usize)
    ensures
        n == 1300,
{
    match version {
        ClientVersion::V860 => 1300,
        ClientVersion::V1098 => 1300,
    }
}

/// The 10.98 wire number of a speak class.
pub open spec fn speak_class_to_1098(internal: u8) -> u8 {
    if internal == 4 {
        12
    } else if internal == 5 {
        10
    } else if internal == 6 {
        5
    } else if internal == 8 {
        6
    } else if internal == 12 {
        13
    } else if internal == 13 {
        14
    } else if internal == 14 {
        16
    } else if internal == 15 {
        8
    } else if internal == 19 {
        36
    } else if internal == 20 {
        37
    } else {
        internal
    }
}

/// The server's speak class for a 10.98 wire number.
pub open spec fn speak_class_from_1098(wire: u8) -> u8 {
    if wire == 4 || wire == 5 {
        6
    } else if wire == 6 {
        8
    } else if wire == 8 {
        15
    } else if wire == 10 {
        5
    } else if wire == 12 {
        4
    } else if wire == 13 {
        12
    } else if wire == 14 {
        13
    } else if wire == 15 || wire == 16 {
        14
    } else if wire == 36 {
        19
    } else if wire == 37 {
        20
    } else {
        wire
    }
}

/// The 10.98 wire number of a message class.
pub open spec fn message_class_to_1098(internal: u8) -> u8 {
    if internal == 19 {
        36
    } else if internal == 20 || internal == 23 || internal == 24 {
        17
    } else if internal == 21 || internal == 25 {
        22
    } else if internal == 22 {
        19
    } else if internal == 26 {
        21
    } else if internal == 27 {
        18
    } else {
        internal
    }
}

/// The wire number of speak class `internal` for a client of `version`;
/// 8.60 numbers are the server's own.
pub fn translate_speak_class_to_client(version: ClientVersion, internal: u8) -> (w: u8)
    ensures
        w == if version == ClientVersion::V1098 {
            speak_class_to_1098(internal)
        } else {
            internal
        },
{
    if !version.is_1098() {
        return internal;
    }
    match internal {
        1 => 1,
        2 => 2,
        3 => 3,
        4 => 12,
        5 => 10,
        6 => 5,
        7 => 7,
        8 => 6,
        12 => 13,
        13 => 14,
        14 => 16,
        15 => 8,
        19 => 36,
        20 => 37,
        _ => internal,
    }
}

/// The server's speak class for wire number `wire` from a client of
/// `version`.
pub fn translate_speak_class_from_client(version: ClientVersion, wire: u8) -> (c: u8)
    ensures
        c == if version == ClientVersion::V1098 {
            speak_class_from_1098(wire)
        } else {
            wire
        },
{
    if !version.is_1098() {
        return wire;
    }
    match wire {
        1 => 1,
        2 => 2,
        3 => 3,
        4 => 6,
        5 => 6,
        6 => 8,
        7 => 7,
        8 => 15,
        10 => 5,
        12 => 4,
        13 => 12,
        14 => 13,
        15 => 14,
        16 => 14,
        36 => 19,
        37 => 20,
        _ => wire,
    }
}

/// The wire number of message class `internal` for a client of `version`.
pub fn translate_message_class_to_client(version: ClientVersion, internal: u8) -> (w: u8)
    ensures
        w == if version == ClientVersion::V1098 {
            message_class_to_1098(internal)
        } else {
            internal
        },
{
    if !version.is_1098() {
        return internal;
    }
    match internal {
        18 => 18,
        19 => 36,
        20 => 17,
        21 => 22,
        22 => 19,
        23 => 17,
        24 => 17,
        25 => 22,
        26 => 21,
        27 => 18,
        _ => internal,
    }
}

/// The wire number of the small status message class.
pub fn message_status_small(version: ClientVersion) -> (w: u8)
    ensures
        w == if version == ClientVersion::V1098 {
            21u8
        } else {
            4u8
        },
{
    if version.is_1098() {
        21
    } else {
        0x04
    }
}

/// The speak classes whose 10.98 wire number reads back as the same class.
pub proof fn law_speak_class_round_trip(c: u8)
    requires
        c == 1 || c == 2 || c == 3 || c == 4 || c == 5 || c == 6 || c == 7 || c == 8 || c == 12
            || c == 13 || c == 14 || c == 15 || c == 19 || c == 20,
    ensures
        speak_class_from_1098(speak_class_to_1098(c)) == c,
{
}

} // verus!
