//! Advertisement decoding, hydrometer identification, and controller
//! identification.

use brew_monitor::bluetooth::{has_grainfather_service_id, Grainfather, GrainfatherConvertError};
use brew_monitor::eir::{AppleEntry, Beacon, EIRData, EIREntry, ManufacturerSpecificEntry};
use brew_monitor::tilt::{Tilt, TiltColor, TiltConvertError, TILT_PURPLE, TILT_RED};
use brew_monitor::SERVICE_ID;

const EXAMPLE_ADVERTISEMENT: &[u8] =
    b"\x02\x01\x06\x06\tGrain\x11\x07\xfb4\x9b_\x80\0\0\x80\0\x10\0\0\xd0\xcd\0\0";

#[test]
pub fn parse_eir_test() {
    let example_data = EXAMPLE_ADVERTISEMENT;
    let eir_entries = EIRData::from(&example_data[..]).entries();
    println!("Entries: {:?}", eir_entries);
}

#[test]
pub fn lib_parse_eir_test() {
    let example_data = EXAMPLE_ADVERTISEMENT;
    let eir_entries = EIRData::from(&example_data[..]).entries();
    println!("Entries: {:?}", eir_entries);
}

#[test]
fn example_advertisement_entries() {
    let entries = EIRData::from(EXAMPLE_ADVERTISEMENT).entries();
    assert_eq!(entries.len(), 3);
    assert!(matches!(entries[0], EIREntry::Flags(0x06)));
    match &entries[1] {
        EIREntry::Name(name) => assert_eq!(name, "Grain"),
        other => panic!("expected a name entry, got {:?}", other),
    }
    match &entries[2] {
        EIREntry::ServiceIds(ids) => assert_eq!(ids.as_slice(), &[SERVICE_ID]),
        other => panic!("expected a service-id entry, got {:?}", other),
    }
}

#[test]
fn grainfather_identified_by_service_id() {
    let report = EIRData::from(EXAMPLE_ADVERTISEMENT);
    assert!(has_grainfather_service_id(&report));
    assert!(Grainfather::try_from(&report).is_ok());
    // The same bytes carry no vendor beacon, so the hydrometer path
    // reports that there is nothing to identify.
    assert_eq!(
        Tilt::from_advertisement(&report).unwrap_err(),
        TiltConvertError::NoBeaconFound
    );
}

#[test]
fn unrelated_advertisement_is_not_a_grainfather() {
    let data = b"\x02\x01\x06\x06\tOther";
    let report = EIRData::from(&data[..]);
    assert!(!has_grainfather_service_id(&report));
    assert_eq!(
        Grainfather::try_from(&report).unwrap_err(),
        GrainfatherConvertError::ServiceIdNotFound
    );
}

fn beacon_advertisement(uuid: u128, major: u16, minor: u16, power: i8) -> Vec<u8> {
    let mut v = vec![0x02, 0x01, 0x06];
    let mut entry = vec![0xFF, 0x4C, 0x00, 0x02, 0x15];
    entry.extend_from_slice(&uuid.to_be_bytes());
    entry.extend_from_slice(&major.to_be_bytes());
    entry.extend_from_slice(&minor.to_be_bytes());
    entry.push(power as u8);
    v.push(entry.len() as u8);
    v.extend_from_slice(&entry);
    v
}

#[test]
fn tilt_identified_from_beacon_advertisement() {
    let data = beacon_advertisement(TILT_PURPLE, 68, 1012, -60);
    let tilt = Tilt::from_advertisement(&EIRData::from(&data[..])).unwrap();
    assert_eq!(tilt.color, TiltColor::Purple);
    assert_eq!(tilt.fahrenheit, 68);
    assert_eq!(tilt.gravity, 1012);
    assert_eq!(tilt.power, -60);
}

#[test]
fn unknown_beacon_identity_is_not_a_tilt() {
    let data = beacon_advertisement(0xDEAD_BEEF, 68, 1012, -60);
    assert_eq!(
        Tilt::from_advertisement(&EIRData::from(&data[..])).unwrap_err(),
        TiltConvertError::UnknownUniqueId
    );
}

#[test]
fn malformed_beacon_length_is_a_hard_error() {
    // A beacon record declaring length 20 instead of 21.
    let mut data = beacon_advertisement(TILT_RED, 68, 1000, -50);
    data[8] = 20;
    assert_eq!(
        Tilt::from_advertisement(&EIRData::from(&data[..])).unwrap_err(),
        TiltConvertError::InvalidBeacon
    );
}

#[test]
fn manufacturer_decode_classifies_vendors() {
    // Another vendor's payload is kept verbatim.
    match ManufacturerSpecificEntry::decode(0x0123, &[1, 2, 3]).unwrap() {
        ManufacturerSpecificEntry::Other(vendor, payload) => {
            assert_eq!(vendor, 0x0123);
            assert_eq!(payload, vec![1, 2, 3]);
        }
        other => panic!("expected another vendor, got {:?}", other),
    }
    // An Apple sub-type other than the beacon is kept verbatim.
    match ManufacturerSpecificEntry::decode(0x004C, &[0x10, 9, 9]).unwrap() {
        ManufacturerSpecificEntry::Apple(AppleEntry::Other(sub, payload)) => {
            assert_eq!(sub, 0x10);
            assert_eq!(payload, vec![9, 9]);
        }
        other => panic!("expected another Apple record, got {:?}", other),
    }
}

#[test]
fn beacon_fields_are_big_endian() {
    let mut payload = vec![0x02, 0x15];
    payload.extend_from_slice(&TILT_RED.to_be_bytes());
    payload.extend_from_slice(&[0x01, 0x02]);
    payload.extend_from_slice(&[0x03, 0x04]);
    payload.push(0xC4);
    match ManufacturerSpecificEntry::decode(0x004C, &payload).unwrap() {
        ManufacturerSpecificEntry::Apple(AppleEntry::Beacon(b)) => {
            assert_eq!(
                b,
                Beacon { uuid: TILT_RED, major: 0x0102, minor: 0x0304, power: -60 }
            );
        }
        other => panic!("expected a beacon, got {:?}", other),
    }
}

#[test]
fn every_color_maps_to_a_distinct_identity() {
    let colors = [
        TiltColor::Red,
        TiltColor::Green,
        TiltColor::Black,
        TiltColor::Purple,
        TiltColor::Orange,
        TiltColor::Blue,
        TiltColor::Yellow,
        TiltColor::Pink,
    ];
    let mut seen: Vec<u128> = Vec::new();
    for c in colors {
        let data = beacon_advertisement(
            {
                // Identify through the public path: build a beacon carrying
                // the colour's own identity.
                let beacon = Beacon {
                    uuid: match c {
                        TiltColor::Red => brew_monitor::tilt::TILT_RED,
                        TiltColor::Green => brew_monitor::tilt::TILT_GREEN,
                        TiltColor::Black => brew_monitor::tilt::TILT_BLACK,
                        TiltColor::Purple => brew_monitor::tilt::TILT_PURPLE,
                        TiltColor::Orange => brew_monitor::tilt::TILT_ORANGE,
                        TiltColor::Blue => brew_monitor::tilt::TILT_BLUE,
                        TiltColor::Yellow => brew_monitor::tilt::TILT_YELLOW,
                        TiltColor::Pink => brew_monitor::tilt::TILT_PINK,
                    },
                    major: 1,
                    minor: 2,
                    power: 0,
                };
                assert!(!seen.contains(&beacon.uuid));
                seen.push(beacon.uuid);
                beacon.uuid
            },
            1,
            2,
            0,
        );
        let tilt = Tilt::from_advertisement(&EIRData::from(&data[..])).unwrap();
        assert_eq!(tilt.color, c);
    }
}

#[test]
fn color_names_round_trip() {
    let colors = [
        TiltColor::Red,
        TiltColor::Green,
        TiltColor::Black,
        TiltColor::Purple,
        TiltColor::Orange,
        TiltColor::Blue,
        TiltColor::Yellow,
        TiltColor::Pink,
    ];
    for c in colors {
        assert_eq!(TiltColor::from_name(&c.to_string()).unwrap(), c);
    }
    assert!(TiltColor::from_name("turquoise").is_err());
}

#[test]
fn truncated_advertisement_stops_cleanly() {
    // The declared length overruns the buffer: decoding stops there.
    let data = b"\x02\x01\x06\x7f\x09AB";
    let entries = EIRData::from(&data[..]).entries();
    assert_eq!(entries.len(), 1);
    assert!(matches!(entries[0], EIREntry::Flags(0x06)));
}
