//! The hydrometer identifier.
//!
//! Each hydrometer colour broadcasts a fixed 128-bit beacon identity; the
//! beacon's two measurements carry the temperature in degrees fahrenheit
//! and the gravity in points.  Identification needs no connection: one
//! advertisement yields a full reading.

use crate::eir::{AppleV, Beacon, EIRData, EIREntry, EntryV, eir_entries, ms_model,
    ManufacturerSpecificEntry, MsV};
use vstd::prelude::*;

verus! {

/// The beacon identity of the red hydrometer.
pub const TILT_RED: u128 = 0xA495BB10C5B14B44B5121370F02D74DE;

/// The beacon identity of the green hydrometer.
pub const TILT_GREEN: u128 = 0xA495BB20C5B14B44B5121370F02D74DE;

/// The beacon identity of the black hydrometer.
pub const TILT_BLACK: u128 = 0xA495BB30C5B14B44B5121370F02D74DE;

/// The beacon identity of the purple hydrometer.
pub const TILT_PURPLE: u128 = 0xA495BB40C5B14B44B5121370F02D74DE;

/// The beacon identity of the orange hydrometer.
pub const TILT_ORANGE: u128 = 0xA495BB50C5B14B44B5121370F02D74DE;

/// The beacon identity of the blue hydrometer.
pub const TILT_BLUE: u128 = 0xA495BB60C5B14B44B5121370F02D74DE;

/// The beacon identity of the yellow hydrometer.
pub const TILT_YELLOW: u128 = 0xA495BB70C5B14B44B5121370F02D74DE;

/// The beacon identity of the pink hydrometer.
pub const TILT_PINK: u128 = 0xA495BB80C5B14B44B5121370F02D74DE;

/// One of the eight hydrometer colours.
#[derive(Debug, Hash, Eq, PartialEq, Copy, Clone, Structural)]
pub enum TiltColor {
    Red,
    Green,
    Black,
    Purple,
    Orange,
    Blue,
    Yellow,
    Pink,
}

/// The beacon identity bound to a colour.
pub open spec fn color_uuid(c: TiltColor) -> u128 {
    match c {
        TiltColor::Red => TILT_RED,
        TiltColor::Green => TILT_GREEN,
        TiltColor::Black => TILT_BLACK,
        TiltColor::Purple => TILT_PURPLE,
        TiltColor::Orange => TILT_ORANGE,
        TiltColor::Blue => TILT_BLUE,
        TiltColor::Yellow => TILT_YELLOW,
        TiltColor::Pink => TILT_PINK,
    }
}

/// The colour bound to a beacon identity, if any.
pub open spec fn color_of_uuid(value: u128) -> Option<TiltColor> {
    if value == TILT_RED {
        Some(TiltColor::Red)
    } else if value == TILT_GREEN {
        Some(TiltColor::Green)
    } else if value == TILT_BLACK {
        Some(TiltColor::Black)
    } else if value == TILT_PURPLE {
        Some(TiltColor::Purple)
    } else if value == TILT_ORANGE {
        Some(TiltColor::Orange)
    } else if value == TILT_BLUE {
        Some(TiltColor::Blue)
    } else if value == TILT_YELLOW {
        Some(TiltColor::Yellow)
    } else if value == TILT_PINK {
        Some(TiltColor::Pink)
    } else {
        None
    }
}

/// The lowercase name of a colour, used in storage keys and path
/// parameters.
pub open spec fn color_name(c: TiltColor) -> Seq<char> {
    match c {
        TiltColor::Red => "red"@,
        TiltColor::Green => "green"@,
        TiltColor::Black => "black"@,
        TiltColor::Purple => "purple"@,
        TiltColor::Orange => "orange"@,
        TiltColor::Blue => "blue"@,
        TiltColor::Yellow => "yellow"@,
        TiltColor::Pink => "pink"@,
    }
}

impl TiltColor {
    /// The colour's lowercase name.
    pub fn to_string(&self) -> (r: String)
        ensures
            r@ == color_name(*self),
    {
        match self {
            TiltColor::Red => "red".to_owned(),
            TiltColor::Green => "green".to_owned(),
            TiltColor::Black => "black".to_owned(),
            TiltColor::Purple => "purple".to_owned(),
            TiltColor::Orange => "orange".to_owned(),
            TiltColor::Blue => "blue".to_owned(),
            TiltColor::Yellow => "yellow".to_owned(),
            TiltColor::Pink => "pink".to_owned(),
        }
    }

    /// The colour bound to a beacon identity; any other identity is not a
    /// hydrometer.
    pub fn try_from(value: u128) -> (r: Result<TiltColor, ()>)
        ensures
            match r {
                Ok(c) => color_of_uuid(value) == Some(c),
                Err(_) => color_of_uuid(value) is None,
            },
    {
        if value == TILT_RED {
            Ok(TiltColor::Red)
        } else if value == TILT_GREEN {
            Ok(TiltColor::Green)
        } else if value == TILT_BLACK {
            Ok(TiltColor::Black)
        } else if value == TILT_PURPLE {
            Ok(TiltColor::Purple)
        } else if value == TILT_ORANGE {
            Ok(TiltColor::Orange)
        } else if value == TILT_BLUE {
            Ok(TiltColor::Blue)
        } else if value == TILT_YELLOW {
            Ok(TiltColor::Yellow)
        } else if value == TILT_PINK {
            Ok(TiltColor::Pink)
        } else {
            Err(())
        }
    }

    /// The colour with the given lowercase name.
    pub fn from_name(value: &str) -> (r: Result<TiltColor, ()>)
        ensures
            match r {
                Ok(c) => color_name(c) == value@,
                Err(_) => forall|c: TiltColor| color_name(c) != value@,
            },
    {
        if str_eq(value, "red") {
            Ok(TiltColor::Red)
        } else if str_eq(value, "green") {
            Ok(TiltColor::Green)
        } else if str_eq(value, "black") {
            Ok(TiltColor::Black)
        } else if str_eq(value, "purple") {
            Ok(TiltColor::Purple)
        } else if str_eq(value, "orange") {
            Ok(TiltColor::Orange)
        } else if str_eq(value, "blue") {
            Ok(TiltColor::Blue)
        } else if str_eq(value, "yellow") {
            Ok(TiltColor::Yellow)
        } else if str_eq(value, "pink") {
            Ok(TiltColor::Pink)
        } else {
            proof {
                assert forall|c: TiltColor| color_name(c) != value@ by {
                    match c {
                        TiltColor::Red => assert(color_name(c) == "red"@),
                        TiltColor::Green => assert(color_name(c) == "green"@),
                        TiltColor::Black => assert(color_name(c) == "black"@),
                        TiltColor::Purple => assert(color_name(c) == "purple"@),
                        TiltColor::Orange => assert(color_name(c) == "orange"@),
                        TiltColor::Blue => assert(color_name(c) == "blue"@),
                        TiltColor::Yellow => assert(color_name(c) == "yellow"@),
                        TiltColor::Pink => assert(color_name(c) == "pink"@),
                    }
                }
            }
            Err(())
        }
    }
}

/// Whether two strings hold the same characters.
fn str_eq(a: &str, b: &str) -> (r: bool)
    ensures
        r == (a@ == b@),
{
    let na = a.unicode_len();
    let nb = b.unicode_len();
    if na != nb {
        return false;
    }
    let mut i: usize = 0;
    while i < na
        invariant
            i <= na == a@.len() == nb == b@.len(),
            forall|j: int| 0 <= j < i ==> a@[j] == b@[j],
        decreases na - i,
    {
        if a.get_char(i) != b.get_char(i) {
            return false;
        }
        i = i + 1;
    }
    proof {
        assert(a@ =~= b@);
    }
    true
}

/// A colour parsed out of a path parameter, as the web layer routes
/// per-hydrometer readings.
#[derive(Debug, Clone, Copy, PartialEq, Eq, Structural)]
pub struct TiltColorParam(pub TiltColor);

/// The rejection for a path parameter naming no colour.
#[derive(Debug, Clone, Copy, PartialEq, Eq, Structural)]
pub struct InvalidTiltColor;

impl TiltColorParam {
    /// Wraps a colour.
    pub fn new(color: TiltColor) -> (r: Self)
        ensures
            r.0 == color,
    {
        TiltColorParam(color)
    }

    /// The colour the parameter names.
    pub fn color(&self) -> (r: &TiltColor)
        ensures
            *r == self.0,
    {
        &self.0
    }

    /// Reads a parameter from its lowercase name.
    pub fn from_name(value: &str) -> (r: Result<Self, InvalidTiltColor>)
        ensures
            match r {
                Ok(p) => color_name(p.0) == value@,
                Err(_) => forall|c: TiltColor| color_name(c) != value@,
            },
    {
        match TiltColor::from_name(value) {
            Ok(color) => Ok(TiltColorParam(color)),
            Err(_) => Err(InvalidTiltColor),
        }
    }
}

/// Every colour's identity is distinct: the identity map is injective.
pub proof fn lemma_color_uuid_injective(a: TiltColor, b: TiltColor)
    requires
        color_uuid(a) == color_uuid(b),
    ensures
        a == b,
{
}

/// The identity map is total and exact: looking up a colour's identity
/// yields that colour, and an identity outside the eight constants yields
/// nothing.
pub proof fn lemma_color_lookup(c: TiltColor, value: u128)
    ensures
        color_of_uuid(color_uuid(c)) == Some(c),
        (forall|d: TiltColor| value != color_uuid(d)) ==> color_of_uuid(value) is None,
{
    if forall|d: TiltColor| value != color_uuid(d) {
        assert(value != color_uuid(TiltColor::Red));
        assert(value != color_uuid(TiltColor::Green));
        assert(value != color_uuid(TiltColor::Black));
        assert(value != color_uuid(TiltColor::Purple));
        assert(value != color_uuid(TiltColor::Orange));
        assert(value != color_uuid(TiltColor::Blue));
        assert(value != color_uuid(TiltColor::Yellow));
        assert(value != color_uuid(TiltColor::Pink));
    }
}

/// A hydrometer reading, built from one advertisement.
#[derive(Debug, Clone, Copy, PartialEq, Eq, Structural)]
pub struct Tilt {
    pub color: TiltColor,
    /// The beacon's first measurement: temperature in degrees fahrenheit.
    pub fahrenheit: u16,
    /// The beacon's second measurement: gravity points.
    pub gravity: u16,
    /// The beacon's signal power.
    pub power: i8,
}

/// Why an advertisement yields no reading.
#[derive(Debug, Clone, Copy, PartialEq, Eq, Structural)]
pub enum TiltConvertError {
    /// No vendor beacon in the advertisement: not a hydrometer, try the
    /// next identifier.
    NoBeaconFound,
    /// A beacon whose identity is none of the eight known constants.
    UnknownUniqueId,
    /// A beacon record with a malformed length.
    InvalidBeacon,
}

/// The reading a beacon carries, when its identity is a known colour.
pub open spec fn tilt_of_beacon(b: Beacon) -> Result<Tilt, TiltConvertError> {
    match color_of_uuid(b.uuid) {
        Some(color) => Ok(
            Tilt { color, fahrenheit: b.major, gravity: b.minor, power: b.power },
        ),
        None => Err(TiltConvertError::UnknownUniqueId),
    }
}

/// The outcome of scanning entries for the first vendor beacon.
pub ghost enum BeaconScan {
    Found(Beacon),
    Invalid,
    NothingFound,
}

/// Scans entries in order for the first manufacturer-specific entry that
/// decodes as an Apple record: a beacon ends the scan, a malformed record
/// is a hard error, anything else is skipped.
pub open spec fn scan_beacon(entries: Seq<EntryV>) -> BeaconScan
    decreases entries.len(),
{
    if entries.len() == 0 {
        BeaconScan::NothingFound
    } else {
        match entries[0] {
            EntryV::ManufacturerSpecific(vendor, payload) => match ms_model(vendor, payload) {
                Ok(MsV::Apple(AppleV::Beacon(b))) => BeaconScan::Found(b),
                Ok(_) => scan_beacon(entries.skip(1)),
                Err(_) => BeaconScan::Invalid,
            },
            _ => scan_beacon(entries.skip(1)),
        }
    }
}

/// What an advertisement means to the hydrometer identifier.
pub open spec fn tilt_of_advertisement(bytes: Seq<u8>) -> Result<Tilt, TiltConvertError> {
    match scan_beacon(eir_entries(bytes)) {
        BeaconScan::Found(b) => tilt_of_beacon(b),
        BeaconScan::Invalid => Err(TiltConvertError::InvalidBeacon),
        BeaconScan::NothingFound => Err(TiltConvertError::NoBeaconFound),
    }
}

impl Tilt {
    /// Reads a hydrometer out of a decoded beacon.
    pub fn try_from(beacon: Beacon) -> (r: Result<Tilt, TiltConvertError>)
        ensures
            r == tilt_of_beacon(beacon),
    {
        match TiltColor::try_from(beacon.uuid) {
            Ok(color) => Ok(
                Tilt {
                    color,
                    fahrenheit: beacon.major,
                    gravity: beacon.minor,
                    power: beacon.power,
                },
            ),
            Err(_) => Err(TiltConvertError::UnknownUniqueId),
        }
    }

    /// Reads a hydrometer out of a raw advertisement: the first vendor
    /// beacon decides, a malformed beacon record is a hard error, and an
    /// advertisement without a beacon is simply not a hydrometer.
    pub fn from_advertisement(report: &EIRData) -> (r: Result<Tilt, TiltConvertError>)
        ensures
            r == tilt_of_advertisement(report@),
    {
        let entries = report.entries();
        let ghost es = eir_entries(report@);
        proof {
            assert(es.skip(0) =~= es);
        }
        let n = entries.len();
        let mut i: usize = 0;
        while i < n
            invariant
                i <= n,
                n == entries@.len(),
                es == eir_entries(report@),
                entries.deep_view() == es,
                scan_beacon(es) == scan_beacon(es.skip(i as int)),
            decreases n - i,
        {
            let ghost rest = es.skip(i as int);
            proof {
                assert(entries@[i as int]@ == es[i as int]);
                assert(rest[0] == es[i as int]);
                assert(rest.skip(1) =~= es.skip(i + 1));
            }
            match &entries[i] {
                EIREntry::ManufacturerSpecific(vendor, payload) => {
                    let ghost v0 = *vendor;
                    let ghost p0 = payload@;
                    proof {
                        assert(es[i as int] == EntryV::ManufacturerSpecific(v0, p0));
                    }
                    match ManufacturerSpecificEntry::decode(*vendor, payload.as_slice()) {
                        Ok(ManufacturerSpecificEntry::Apple(crate::eir::AppleEntry::Beacon(b))) => {
                            proof {
                                assert(scan_beacon(rest) == BeaconScan::Found(b));
                            }
                            return Tilt::try_from(b);
                        },
                        Ok(other) => {
                            proof {
                                assert(ms_model(v0, p0) == Ok::<MsV, crate::eir::BeaconConvertError>(
                                    other@,
                                ));
                                assert(!(other@ matches MsV::Apple(AppleV::Beacon(_))));
                                assert(scan_beacon(rest) == scan_beacon(rest.skip(1)));
                            }
                        },
                        Err(_) => {
                            proof {
                                assert(scan_beacon(rest) == BeaconScan::Invalid);
                            }
                            return Err(TiltConvertError::InvalidBeacon);
                        },
                    }
                },
                _ => {
                    proof {
                        assert(scan_beacon(rest) == scan_beacon(rest.skip(1)));
                    }
                },
            }
            i = i + 1;
        }
        proof {
            assert(es.skip(n as int) =~= Seq::<EntryV>::empty());
        }
        Err(TiltConvertError::NoBeaconFound)
    }
}

} // verus!
