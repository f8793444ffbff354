//! The modem client: decodes property responses into telemetry values and
//! tracks readiness, binding the device path that discovery yields.
//!
//! The transport is a collaborator: the caller performs each property query,
//! method call and device enumeration over the system bus and hands the
//! decoded-out responses here as [`crate::variant::Variant`] values.

use vstd::prelude::*;

use crate::text::str_eq;
use crate::variant::{
    as_float_bits_spec, as_str_spec, as_float_bits, as_str, as_u32, as_u32_spec, first_of,
    lookup_mapping_str, lookup_mapping_u32, lookup_str_spec, lookup_u32_spec, peel, peel_ref,
    Variant,
};

verus! {

/// One object of the device enumeration: its path and the names of the
/// interfaces it advertises.
pub struct ManagedObject {
    pub path: String,
    pub interfaces: Vec<String>,
}

/// The interface that marks an object as a modem device.
pub open spec fn modem_interface_name() -> Seq<char> {
    "org.freedesktop.ModemManager1.Modem"@
}

/// Whether an enumerated object advertises the modem device interface.
pub open spec fn advertises_modem(o: ManagedObject) -> bool {
    exists|i: int| 0 <= i < o.interfaces@.len() && (#[trigger] o.interfaces@[i])@
        == modem_interface_name()
}

/// The path of the first enumerated object that advertises the modem device
/// interface; empty when none does.
pub open spec fn first_modem_path(objs: Seq<ManagedObject>) -> Seq<char>
    decreases objs.len(),
{
    if objs.len() == 0 {
        Seq::empty()
    } else if advertises_modem(objs[0]) {
        objs[0].path@
    } else {
        first_modem_path(objs.drop_first())
    }
}

/// Whether one object advertises the modem device interface.
fn object_advertises_modem(o: &ManagedObject) -> (r: bool)
    ensures
        r == advertises_modem(*o),
{
    let n = o.interfaces.len();
    let mut j: usize = 0;
    while j < n
        invariant
            n == o.interfaces@.len(),
            j <= n,
            forall|m: int| 0 <= m < j ==> (#[trigger] o.interfaces@[m])@ != modem_interface_name(),
        decreases n - j,
    {
        if str_eq(o.interfaces[j].as_str(), "org.freedesktop.ModemManager1.Modem") {
            assert(advertises_modem(*o));
            return true;
        }
        j += 1;
    }
    false
}

/// The first object of an enumeration that advertises the given interface
/// decides the result.
proof fn lemma_first_modem_path_at(objs: Seq<ManagedObject>, i: int)
    requires
        0 <= i < objs.len(),
        advertises_modem(objs[i]),
        forall|m: int| 0 <= m < i ==> !advertises_modem(#[trigger] objs[m]),
    ensures
        first_modem_path(objs) == objs[i].path@,
    decreases i,
{
    if i > 0 {
        assert(objs.drop_first()[i - 1] == objs[i]);
        assert(forall|m: int| 0 <= m < i - 1 ==> objs.drop_first()[m] == objs[m + 1]);
        lemma_first_modem_path_at(objs.drop_first(), i - 1);
    }
}

/// An enumeration with no modem object yields the empty path.
proof fn lemma_first_modem_path_none(objs: Seq<ManagedObject>)
    requires
        forall|m: int| 0 <= m < objs.len() ==> !advertises_modem(#[trigger] objs[m]),
    ensures
        first_modem_path(objs) == Seq::<char>::empty(),
    decreases objs.len(),
{
    if objs.len() > 0 {
        assert(forall|m: int| 0 <= m < objs.len() - 1 ==> objs.drop_first()[m] == objs[m + 1]);
        lemma_first_modem_path_none(objs.drop_first());
    }
}

/// The device path of the first enumerated object that advertises the modem
/// device interface, or the empty string when none does.
pub fn find_modem_path(objects: &Vec<ManagedObject>) -> (r: String)
    ensures
        r@ == first_modem_path(objects@),
{
    let n = objects.len();
    let mut i: usize = 0;
    while i < n
        invariant
            n == objects@.len(),
            i <= n,
            forall|m: int| 0 <= m < i ==> !advertises_modem(#[trigger] objects@[m]),
        decreases n - i,
    {
        if object_advertises_modem(&objects[i]) {
            proof {
                lemma_first_modem_path_at(objects@, i as int);
            }
            return objects[i].path.clone();
        }
        i += 1;
    }
    proof {
        lemma_first_modem_path_none(objects@);
    }
    String::new()
}

/// The modem client's abstract state.
pub ghost struct ModemCliView {
    /// The service identity queried over the bus.
    pub destination: Seq<char>,
    /// The object root under which devices are enumerated.
    pub object: Seq<char>,
    /// The bound device path; empty until discovery succeeds.
    pub modem: Seq<char>,
    /// Whether a device path has been bound.
    pub ready: bool,
}

/// A modem client: the bus identity of the modem service together with the
/// readiness state that gates telemetry reads.
#[derive(Clone, Debug, PartialEq, Eq, PartialOrd, Ord)]
pub struct IonModemCli {
    pub destination: String,
    pub object: String,
    pub modem: String,
    pub ready: bool,
}

impl View for IonModemCli {
    type V = ModemCliView;

    open spec fn view(&self) -> ModemCliView {
        ModemCliView {
            destination: self.destination@,
            object: self.object@,
            modem: self.modem@,
            ready: self.ready,
        }
    }
}

/// One readiness poll: once ready nothing changes; otherwise a non-empty
/// discovered path is bound and the client becomes ready, and an empty one
/// leaves it waiting.
pub open spec fn ready_step(s: ModemCliView, discovered: Seq<char>) -> ModemCliView {
    if s.ready {
        s
    } else if discovered.len() > 0 {
        ModemCliView { modem: discovered, ready: true, ..s }
    } else {
        s
    }
}

/// Readiness is stable: once a client is ready, polls leave it exactly as it
/// is, whatever discovery would have returned.
pub proof fn lemma_ready_is_stable(s: ModemCliView, d1: Seq<char>, d2: Seq<char>)
    requires
        s.ready,
    ensures
        ready_step(s, d1) == s,
        ready_step(ready_step(s, d1), d2) == s,
{
}

/// What a property query decodes to: the unsigned 32-bit value of the first
/// response item, a signed value reinterpreted as unsigned, and `0` for an
/// empty response or any other shape.
pub open spec fn property_u32(results: Seq<Variant>) -> u32 {
    if results.len() > 0 {
        match as_u32_spec(results[0]) {
            Some(x) => x,
            None => 0,
        }
    } else {
        0
    }
}

/// The signal-strength reading of a response: the bit pattern of the
/// float-shaped `rsrp` entry of the mapping-shaped first item, after
/// unwrapping labelled layers; nothing on any shape miss.
pub open spec fn signal_strength_bits_spec(results: Seq<Variant>) -> Option<u64> {
    if results.len() > 0 {
        match lookup_str_spec(peel(results[0]), "rsrp"@) {
            Some(val) => as_float_bits_spec(val),
            None => None,
        }
    } else {
        None
    }
}

/// The NMEA sentence of a location response: the text of the entry keyed by
/// the well-known NMEA index `4` of the mapping-shaped first item; empty on
/// any shape miss.
pub open spec fn location_nmea(responds: Seq<Variant>) -> Seq<char> {
    if responds.len() > 0 {
        match lookup_u32_spec(responds[0], 4) {
            Some(val) => match as_str_spec(val) {
                Some(s) => s,
                None => Seq::empty(),
            },
            None => Seq::empty(),
        }
    } else {
        Seq::empty()
    }
}

impl IonModemCli {
    /// A client with every field given.
    pub fn new(destination: String, object: String, modem: String, ready: bool) -> (r: Self)
        ensures
            r@ == (ModemCliView {
                destination: destination@,
                object: object@,
                modem: modem@,
                ready,
            }),
    {
        IonModemCli { destination, object, modem, ready }
    }

    /// A client for the well-known modem service, not yet ready.
    pub fn new_default() -> (r: Self)
        ensures
            r@.destination == "org.freedesktop.ModemManager1"@,
            r@.object == "/org/freedesktop/ModemManager1"@,
            r@.modem == Seq::<char>::empty(),
            !r@.ready,
    {
        IonModemCli {
            destination: "org.freedesktop.ModemManager1".to_owned(),
            object: "/org/freedesktop/ModemManager1".to_owned(),
            modem: String::new(),
            ready: false,
        }
    }

    /// Whether a device path has been bound.
    pub fn is_ready(&self) -> (r: bool)
        ensures
            r == self@.ready,
    {
        self.ready
    }

    /// Bind a discovered device path: a non-empty path is taken, an empty
    /// one (no device found) changes nothing.
    fn modem_preparing(&mut self, discovered: String) -> (r: bool)
        ensures
            discovered@.len() > 0 ==> r && final(self)@ == (ModemCliView {
                modem: discovered@,
                ..old(self)@
            }),
            discovered@.len() == 0 ==> !r && final(self)@ == old(self)@,
    {
        if !discovered.as_str().is_empty() {
            self.modem = discovered;
            true
        } else {
            false
        }
    }

    /// One readiness poll, with the path that device discovery returned
    /// (empty when no device advertised the modem interface): binds the
    /// path and becomes ready on first success, and once ready stays so
    /// without consulting discovery again.
    pub fn waiting_for_ready(&mut self, discovered: String) -> (r: bool)
        ensures
            final(self)@ == ready_step(old(self)@, discovered@),
            r == final(self)@.ready,
    {
        if !self.ready {
            if self.modem_preparing(discovered) {
                self.ready = true;
            }
        }
        self.ready
    }

    /// Property writing is not supported: always reports failure.
    pub fn set_modem_properties(&self) -> (r: bool)
        ensures
            !r,
    {
        false
    }

    /// Decode a property-query response as an unsigned 32-bit value, `0` on
    /// any shape miss.
    pub fn get_modem_properties(&self, results: &Vec<Variant>) -> (r: u32)
        ensures
            r == property_u32(results@),
    {
        match first_of(results) {
            Some(first) => match as_u32(first) {
                Some(x) => x,
                None => 0,
            },
            None => 0,
        }
    }

    /// Whether the decoded location-enablement mask has the NMEA-source bit
    /// (bit 2) set.
    pub fn is_location_enabled(&self, results: &Vec<Variant>) -> (r: bool)
        ensures
            r == ((property_u32(results@) & 4) != 0),
    {
        (self.get_modem_properties(results) & 4) != 0
    }

    /// Whether the decoded modem state has the connected-class bit (bit 3)
    /// set; the state code is reinterpreted as unsigned before the test.
    pub fn is_modem_enabled(&self, results: &Vec<Variant>) -> (r: bool)
        ensures
            r == ((property_u32(results@) & 8) != 0),
    {
        (self.get_modem_properties(results) & 8) != 0
    }

    /// The decoded signal quality, `0` on any shape miss.
    pub fn get_signal_quality(&self, results: &Vec<Variant>) -> (r: u32)
        ensures
            r == property_u32(results@),
    {
        self.get_modem_properties(results)
    }

    /// The bit pattern of the 64-bit float `rsrp` reading of a signal
    /// response, or nothing on any shape miss.
    pub fn get_signal_strength_bits(&self, results: &Vec<Variant>) -> (r: Option<u64>)
        ensures
            r == signal_strength_bits_spec(results@),
    {
        match first_of(results) {
            Some(first) => match lookup_mapping_str(peel_ref(first), "rsrp") {
                Some(val) => as_float_bits(val),
                None => None,
            },
            None => None,
        }
    }

    /// The NMEA sentence of a location response, when location reading is
    /// enabled; the empty string when it is disabled or on any shape miss.
    pub fn get_location(&self, enabled: bool, responds: &Vec<Variant>) -> (r: String)
        ensures
            enabled ==> r@ == location_nmea(responds@),
            !enabled ==> r@ == Seq::<char>::empty(),
    {
        if !enabled {
            return String::new();
        }
        match first_of(responds) {
            Some(first) => match lookup_mapping_u32(first, 4) {
                Some(val) => match as_str(val) {
                    Some(s) => s.clone(),
                    None => String::new(),
                },
                None => String::new(),
            },
            None => String::new(),
        }
    }
}

impl Default for IonModemCli {
    /// The same client as `new_default`.
    fn default() -> (r: Self)
        ensures
            r@.destination == "org.freedesktop.ModemManager1"@,
            r@.object == "/org/freedesktop/ModemManager1"@,
            r@.modem == Seq::<char>::empty(),
            !r@.ready,
    {
        IonModemCli::new_default()
    }
}

/// The location-enablement test reads exactly bit 2 of the decoded mask.
pub proof fn lemma_location_bit(mask: u32)
    ensures
        ((mask & 4) != 0) == ((mask >> 2) & 1 == 1),
{
    assert(((mask & 4) != 0) == ((mask >> 2) & 1 == 1)) by (bit_vector);
}

} // verus!
