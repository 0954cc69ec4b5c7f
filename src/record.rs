use vstd::prelude::*;
use crate::timestamp::Timestamp;

verus! {

/// What is known of one device: its addresses and when it was last seen.
#[derive(Clone, Debug)]
pub struct AddrRecord {
    pub ip: String,
    pub mac: String,
    pub last_seen: Timestamp,
}

/// The (IP, MAC) pair of a record.
pub open spec fn record_pair(r: AddrRecord) -> (Seq<char>, Seq<char>) {
    (r.ip@, r.mac@)
}

/// The (IP, MAC) pairs of a sequence of records, in order.
pub open spec fn pairs_of(rs: Seq<AddrRecord>) -> Seq<(Seq<char>, Seq<char>)> {
    rs.map_values(|r: AddrRecord| record_pair(r))
}

impl AddrRecord {
    /// A copy of this record.
    pub fn duplicate(&self) -> (r: AddrRecord)
        ensures
            r == *self,
    {
        AddrRecord { ip: self.ip.clone(), mac: self.mac.clone(), last_seen: self.last_seen }
    }
}

/// A change in what is known of a device.
#[derive(Clone, Copy, Debug, PartialEq, Eq, Structural)]
pub enum Event {
    NewInternetProtocolAddress,
    HardwareChange,
}

/// The name under which an event is handed to a script.
pub open spec fn event_name(e: Event) -> Seq<char> {
    match e {
        Event::NewInternetProtocolAddress => "NewInternetProtocolAddress"@,
        Event::HardwareChange => "HardwareChange"@,
    }
}

impl Event {
    /// The name under which this event is handed to a script.
    pub fn to_lua(&self) -> (r: String)
        ensures
            r@ == event_name(*self),
    {
        match self {
            Event::NewInternetProtocolAddress => String::from_str("NewInternetProtocolAddress"),
            Event::HardwareChange => String::from_str("HardwareChange"),
        }
    }
}

} // verus!
