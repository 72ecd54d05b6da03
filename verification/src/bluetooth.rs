//! The brewing-controller identifier.
//!
//! The controller advertises a fixed 128-bit service identifier, so
//! discovery can decide whether to connect from the advertisement alone,
//! without the expensive connect-then-inspect path.  Once connected, the
//! controller exposes one characteristic for notifications and one for
//! commands, found here by their fixed identifiers.

use crate::eir::{eir_entries, EIRData, EIREntry, EntryV};
use crate::{CHARACTERISTIC_ID_READ, CHARACTERISTIC_ID_WRITE, SERVICE_ID};
use vstd::prelude::*;

verus! {

/// Whether one entry advertises the service `id`.
pub open spec fn entry_has_service_id(e: EntryV, id: u128) -> bool {
    e matches EntryV::ServiceIds(ids) && ids.contains(id)
}

/// Whether any entry of the advertisement advertises the service `id`.
pub open spec fn advertises_service_id(bytes: Seq<u8>, id: u128) -> bool {
    exists|i: int|
        0 <= i < eir_entries(bytes).len() && entry_has_service_id(
            #[trigger] eir_entries(bytes)[i],
            id,
        )
}

/// Whether the advertisement names the controller's service identifier.
pub fn has_grainfather_service_id(report: &EIRData) -> (r: bool)
    ensures
        r == advertises_service_id(report@, SERVICE_ID),
{
    let entries = report.entries();
    let ghost es = eir_entries(report@);
    let n = entries.len();
    let mut i: usize = 0;
    while i < n
        invariant
            i <= n,
            n == entries@.len(),
            es == eir_entries(report@),
            entries.deep_view() == es,
            forall|k: int| 0 <= k < i ==> !entry_has_service_id(#[trigger] es[k], SERVICE_ID),
        decreases n - i,
    {
        proof {
            assert(entries@[i as int]@ == es[i as int]);
        }
        match &entries[i] {
            EIREntry::ServiceIds(ids) => {
                let m = ids.len();
                let mut j: usize = 0;
                while j < m
                    invariant
                        j <= m == ids@.len(),
                        i < n == entries@.len(),
                        es == eir_entries(report@),
                        es.len() == n,
                        es[i as int] == EntryV::ServiceIds(ids@),
                        forall|k: int| 0 <= k < j ==> ids@[k] != SERVICE_ID,
                    decreases m - j,
                {
                    if ids[j] == SERVICE_ID {
                        proof {
                            assert(ids@.contains(SERVICE_ID));
                            assert(entry_has_service_id(es[i as int], SERVICE_ID));
                        }
                        return true;
                    }
                    j = j + 1;
                }
                proof {
                    assert(!ids@.contains(SERVICE_ID));
                }
            },
            _ => {},
        }
        i = i + 1;
    }
    false
}

/// A discovered brewing controller, identified from its advertisement
/// alone.
#[derive(Debug, Clone, Copy, PartialEq, Eq, Structural)]
pub struct Grainfather {}

/// Why an advertisement is not a brewing controller.
#[derive(Debug, Clone, Copy, PartialEq, Eq, Structural)]
pub enum GrainfatherConvertError {
    /// No entry advertises the controller's service identifier.
    ServiceIdNotFound,
}

impl Grainfather {
    /// Identifies a controller by its advertisement: it succeeds exactly
    /// when an entry advertises the controller's service identifier.
    pub fn try_from(report: &EIRData) -> (r: Result<Grainfather, GrainfatherConvertError>)
        ensures
            r is Ok <==> advertises_service_id(report@, SERVICE_ID),
            r is Err <==> !advertises_service_id(report@, SERVICE_ID),
    {
        if has_grainfather_service_id(report) {
            Ok(Grainfather {})
        } else {
            Err(GrainfatherConvertError::ServiceIdNotFound)
        }
    }
}

/// Why a connected controller could not be wrapped in a client.
#[derive(Debug, Clone, Copy, PartialEq, Eq, Structural)]
pub enum ClientError {
    /// The peripheral is not connected and could not be connected.
    Connect,
    /// The peripheral's characteristics could not be discovered.
    DiscoverCharacteristics,
    /// The command characteristic is missing.
    WriteCharacteristic,
    /// The notification characteristic is missing.
    ReadCharacteristic,
}

/// The bookkeeping of one controller client: which of the discovered
/// characteristics carry notifications and commands, and whether the
/// session still holds a live connection.  The radio transport itself
/// lives outside the library; it reports connection outcomes and receives
/// the chosen characteristic indexes.
#[derive(Debug, Clone, Copy, PartialEq, Eq, Structural)]
pub struct Client {
    /// The index of the notification characteristic among those
    /// discovered.
    pub read_characteristic: usize,
    /// The index of the command characteristic among those discovered.
    pub write_characteristic: usize,
    /// Whether the session still holds a live connection.
    pub connected: bool,
}

impl Client {
    /// Builds the client bookkeeping from the transport's outcomes: the
    /// peripheral must have ended up connected, and the discovered
    /// characteristic identifiers must include both fixed identifiers.
    pub fn try_from(connected: bool, characteristic_ids: &Vec<u128>) -> (r: Result<
        Client,
        ClientError,
    >)
        ensures
            !connected ==> r == Err::<Client, ClientError>(ClientError::Connect),
            connected ==> match r {
                Ok(c) => {
                    &&& c.connected
                    &&& c.read_characteristic < characteristic_ids@.len()
                    &&& characteristic_ids@[c.read_characteristic as int]
                        == CHARACTERISTIC_ID_READ
                    &&& c.write_characteristic < characteristic_ids@.len()
                    &&& characteristic_ids@[c.write_characteristic as int]
                        == CHARACTERISTIC_ID_WRITE
                },
                Err(ClientError::ReadCharacteristic) => !characteristic_ids@.contains(
                    CHARACTERISTIC_ID_READ,
                ),
                Err(ClientError::WriteCharacteristic) => !characteristic_ids@.contains(
                    CHARACTERISTIC_ID_WRITE,
                ),
                Err(_) => false,
            },
    {
        if !connected {
            return Err(ClientError::Connect);
        }
        match select_characteristics(characteristic_ids) {
            Ok((read_characteristic, write_characteristic)) => Ok(
                Client { read_characteristic, write_characteristic, connected: true },
            ),
            Err(e) => Err(e),
        }
    }

    /// Whether the session still holds a live connection.
    pub fn is_connected(&self) -> (r: bool)
        ensures
            r == self.connected,
    {
        self.connected
    }

    /// Records that the transport reported the connection gone; the
    /// fan-out's guard will then accept a replacement client.
    pub fn mark_disconnected(&mut self)
        ensures
            !final(self).connected,
            final(self).read_characteristic == old(self).read_characteristic,
            final(self).write_characteristic == old(self).write_characteristic,
    {
        self.connected = false;
    }
}

/// Picks the notification and command characteristics out of a discovered
/// characteristic list: the first occurrence of each fixed identifier, the
/// notification one missing reported first.
pub fn select_characteristics(ids: &Vec<u128>) -> (r: Result<(usize, usize), ClientError>)
    ensures
        match r {
            Ok((rc, wc)) => {
                &&& rc < ids@.len() && ids@[rc as int] == CHARACTERISTIC_ID_READ
                &&& forall|k: int| 0 <= k < rc ==> ids@[k] != CHARACTERISTIC_ID_READ
                &&& wc < ids@.len() && ids@[wc as int] == CHARACTERISTIC_ID_WRITE
                &&& forall|k: int| 0 <= k < wc ==> ids@[k] != CHARACTERISTIC_ID_WRITE
            },
            Err(ClientError::ReadCharacteristic) => !ids@.contains(CHARACTERISTIC_ID_READ),
            Err(ClientError::WriteCharacteristic) => ids@.contains(CHARACTERISTIC_ID_READ)
                && !ids@.contains(CHARACTERISTIC_ID_WRITE),
            Err(_) => false,
        },
{
    let rc = match find_id(ids, CHARACTERISTIC_ID_READ) {
        Some(i) => i,
        None => {
            return Err(ClientError::ReadCharacteristic);
        },
    };
    proof {
        assert(ids@[rc as int] == CHARACTERISTIC_ID_READ);
        assert(ids@.contains(CHARACTERISTIC_ID_READ));
    }
    let wc = match find_id(ids, CHARACTERISTIC_ID_WRITE) {
        Some(i) => i,
        None => {
            return Err(ClientError::WriteCharacteristic);
        },
    };
    Ok((rc, wc))
}

/// The index of the first occurrence of `id`.
fn find_id(ids: &Vec<u128>, id: u128) -> (r: Option<usize>)
    ensures
        match r {
            Some(i) => i < ids@.len() && ids@[i as int] == id && forall|k: int|
                0 <= k < i ==> ids@[k] != id,
            None => !ids@.contains(id),
        },
{
    let n = ids.len();
    let mut i: usize = 0;
    while i < n
        invariant
            i <= n == ids@.len(),
            forall|k: int| 0 <= k < i ==> ids@[k] != id,
        decreases n - i,
    {
        if ids[i] == id {
            return Some(i);
        }
        i = i + 1;
    }
    proof {
        assert(forall|k: int| 0 <= k < ids@.len() ==> ids@[k] != id);
    }
    None
}

} // verus!
