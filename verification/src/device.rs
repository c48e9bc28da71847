//! Discovery: which devices on the bus are ours, what each is called, and
//! that none is listed twice.

use crate::hw::{classify, DeviceType};
use crate::razer::{encode, PacketView, RazerError, RazerPacket};
use vstd::prelude::*;
use vstd::utf8::{decode_utf8, valid_utf8};

verus! {

/// The vendor id that every device of ours carries.
pub const RAZER_VENDOR_ID: u16 = 0x1532;

/// Class and command of the request for the serial number.
pub const SERIAL_QUERY_CLASS: u8 = 0x00;

pub const SERIAL_QUERY_COMMAND: u8 = 0x82;

/// Number of payload bytes that the request for the serial number carries.
pub const SERIAL_QUERY_LEN: usize = 16;

/// Why discovery failed.
#[derive(Debug, Clone, Copy, PartialEq, Eq, Structural)]
pub enum DiscoveryError {
    /// No device of ours is on the bus.
    NoDevice,
    /// The device shows no endpoint that takes commands.
    NoEndpoint,
}

/// One device that discovery found.
#[derive(Debug)]
pub struct RazerDevice {
    pub device_type: DeviceType,
    /// The serial number, `"UNKNOWN SN"` until it is resolved.
    pub serial: String,
    /// The caller's handle of the open transport.
    pub device: usize,
}

/// Where the serial number of a device comes from.
#[derive(Debug)]
pub enum SerialSource {
    /// From the firmware tables of the machine: the device is the laptop
    /// itself.
    Firmware,
    /// From the device: the answer to this request holds it.
    Query(RazerPacket),
}

/// What the caller found out about a serial number.
#[derive(Debug)]
pub enum SerialAnswer {
    /// What the firmware tables say, if they say anything.
    Firmware(Option<String>),
    /// How the exchange for the serial number ended.
    Response(Result<RazerPacket, RazerError>),
}

/// The serial number of a device while nothing better is known.
pub open spec fn unknown_serial() -> Seq<char> {
    "UNKNOWN SN"@
}

/// The bytes of an answer's payload that count: the first `data_size`, where
/// that is at most 80.
pub open spec fn payload(answer: PacketView) -> Option<Seq<u8>> {
    if answer.data_size <= 80 {
        Some(answer.args.subrange(0, answer.data_size as int))
    } else {
        None
    }
}

/// The serial number that an answer to the request for it holds: its
/// payload, where that is text in UTF-8.
pub open spec fn serial_in(answer: PacketView) -> Option<Seq<char>> {
    match payload(answer) {
        Some(bytes) => if valid_utf8(bytes) {
            Some(decode_utf8(bytes))
        } else {
            None
        },
        None => None,
    }
}

/// The serial number of a device of kind `device_type` that had serial
/// `before`, once `answer` is known. A laptop takes what the firmware says;
/// every other device takes the text of a successful exchange. An answer of
/// the wrong kind, or one that holds nothing, changes nothing.
pub open spec fn resolved_serial(
    device_type: DeviceType,
    before: Seq<char>,
    answer: SerialAnswer,
) -> Seq<char> {
    match answer {
        SerialAnswer::Firmware(Some(text)) => if device_type is Laptop {
            text@
        } else {
            before
        },
        SerialAnswer::Response(Ok(packet)) => if device_type is Laptop {
            before
        } else {
            match serial_in(packet@) {
                Some(text) => text,
                None => before,
            }
        },
        _ => before,
    }
}

/// Calls `String::from_utf8` and drops the error's details. Trusted: the
/// call succeeds exactly on valid UTF-8, and the string then holds the
/// characters that the bytes encode.
#[verifier::external_body]
fn text_from_utf8(bytes: Vec<u8>) -> (text: Option<String>)
    ensures
        text is Some <==> valid_utf8(bytes@),
        text matches Some(s) ==> s@ == decode_utf8(bytes@),
{
    String::from_utf8(bytes).ok()
}

/// Whether no two of `devices` have the same serial number.
pub open spec fn distinct_serials(devices: Seq<RazerDevice>) -> bool {
    forall|i: int, j: int|
        0 <= i < j < devices.len() ==> (#[trigger] devices[i]).serial@ != (
        #[trigger] devices[j]).serial@
}

/// Whether one of `devices` has serial number `serial`.
pub open spec fn has_serial(devices: Seq<RazerDevice>, serial: Seq<char>) -> bool {
    exists|i: int| 0 <= i < devices.len() && (#[trigger] devices[i]).serial@ == serial
}

/// `located` after `candidate` was offered to it: added at the end, unless
/// its serial number is there already.
pub open spec fn registered(located: Seq<RazerDevice>, candidate: RazerDevice) -> Seq<
    RazerDevice,
> {
    if has_serial(located, candidate.serial@) {
        located
    } else {
        located.push(candidate)
    }
}

/// The devices that a scan lists out of those `found`, in the order in which
/// they were found: of several with one serial number, the first.
pub open spec fn scanned(found: Seq<RazerDevice>) -> Seq<RazerDevice>
    decreases found.len(),
{
    if found.len() == 0 {
        Seq::empty()
    } else {
        registered(scanned(found.drop_last()), found.last())
    }
}

/// Offering a device to a list without doubles leaves it without doubles,
/// and the device's serial number is in the list afterwards.
pub proof fn lemma_registered_distinct(located: Seq<RazerDevice>, candidate: RazerDevice)
    requires
        distinct_serials(located),
    ensures
        distinct_serials(registered(located, candidate)),
        has_serial(registered(located, candidate), candidate.serial@),
        forall|s: Seq<char>| has_serial(located, s) ==> has_serial(registered(located, candidate), s),
{
    let after = registered(located, candidate);
    if !has_serial(located, candidate.serial@) {
        assert(after[located.len() as int].serial@ == candidate.serial@);
        assert forall|i: int, j: int| 0 <= i < j < after.len() implies (#[trigger] after[i]).serial@
            != (#[trigger] after[j]).serial@ by {
            if j == located.len() {
                assert(located[i].serial@ != candidate.serial@);
            }
        }
    }
    assert forall|s: Seq<char>| has_serial(located, s) implies has_serial(after, s) by {
        let i = choose|i: int| 0 <= i < located.len() && (#[trigger] located[i]).serial@ == s;
        assert(after[i].serial@ == s);
    }
}

/// A scan never lists two devices with the same serial number, lists every
/// serial number that was found, and lists nothing that was not found.
pub proof fn lemma_scanned_distinct(found: Seq<RazerDevice>)
    ensures
        distinct_serials(scanned(found)),
        scanned(found).len() <= found.len(),
        forall|i: int| 0 <= i < found.len() ==> has_serial(scanned(found), #[trigger] found[i].serial@),
        forall|k: int|
            0 <= k < scanned(found).len() ==> found.contains(#[trigger] scanned(found)[k]),
    decreases found.len(),
{
    if found.len() > 0 {
        let before = found.drop_last();
        let last = found.last();
        lemma_scanned_distinct(before);
        lemma_registered_distinct(scanned(before), last);
        assert forall|i: int| 0 <= i < found.len() implies has_serial(
            scanned(found),
            #[trigger] found[i].serial@,
        ) by {
            if i < before.len() {
                assert(found[i] == before[i]);
                assert(has_serial(scanned(before), before[i].serial@));
            }
        }
        assert forall|k: int| 0 <= k < scanned(found).len() implies found.contains(
            #[trigger] scanned(found)[k],
        ) by {
            if k < scanned(before).len() {
                let d = scanned(before)[k];
                assert(before.contains(d));
                let i = choose|i: int| 0 <= i < before.len() && before[i] == d;
                assert(found[i] == d);
            } else {
                assert(found[found.len() - 1] == last);
            }
        }
    }
}

impl RazerDevice {
    /// Whether a device with this vendor id is one of ours.
    pub fn is_candidate(vendor_id: u16) -> (b: bool)
        ensures
            b == (vendor_id == RAZER_VENDOR_ID),
    {
        vendor_id == RAZER_VENDOR_ID
    }

    /// The device with product id `product_id` whose transport the caller
    /// opened as `device`. Its serial number is not known yet.
    pub fn new(product_id: u16, device: usize) -> (found: Self)
        ensures
            found.device_type == classify(product_id),
            found.serial@ == unknown_serial(),
            found.device == device,
    {
        RazerDevice {
            device_type: DeviceType::from_id(product_id),
            serial: "UNKNOWN SN".to_owned(),
            device,
        }
    }

    /// Where to ask for the serial number of this device.
    pub fn serial_source(&self) -> (source: SerialSource)
        ensures
            self.device_type is Laptop ==> source is Firmware,
            !(self.device_type is Laptop) ==> (source matches SerialSource::Query(p) && p@
                == encode(
                SERIAL_QUERY_CLASS,
                SERIAL_QUERY_COMMAND,
                Seq::new(SERIAL_QUERY_LEN as nat, |i: int| 0u8),
            )),
    {
        if self.device_type.is_laptop() {
            SerialSource::Firmware
        } else {
            let zeros = [0u8; 16];
            assert(zeros@ =~= Seq::new(SERIAL_QUERY_LEN as nat, |i: int| 0u8));
            SerialSource::Query(
                RazerPacket::new(SERIAL_QUERY_CLASS, SERIAL_QUERY_COMMAND, zeros.as_slice()),
            )
        }
    }

    /// Takes in what was found out about the serial number.
    pub fn get_serial_number(&mut self, answer: SerialAnswer)
        ensures
            final(self).serial@ == resolved_serial(old(self).device_type, old(self).serial@, answer),
            final(self).device_type == old(self).device_type,
            final(self).device == old(self).device,
    {
        let laptop = self.device_type.is_laptop();
        match answer {
            SerialAnswer::Firmware(Some(text)) => {
                if laptop {
                    self.serial = text;
                }
            },
            SerialAnswer::Response(Ok(packet)) => {
                if !laptop {
                    if let Some(text) = serial_text(&packet) {
                        self.serial = text;
                    }
                }
            },
            _ => {},
        }
    }

    /// Offers `maybe` to the devices located so far: it is added unless one
    /// of them has its serial number. Says whether it was added.
    pub fn register(located: &mut Vec<RazerDevice>, maybe: RazerDevice) -> (added: bool)
        ensures
            final(located)@ == registered(old(located)@, maybe),
            added == !has_serial(old(located)@, maybe.serial@),
            distinct_serials(old(located)@) ==> distinct_serials(final(located)@),
    {
        proof {
            if distinct_serials(located@) {
                lemma_registered_distinct(located@, maybe);
            }
        }
        let mut i: usize = 0;
        while i < located.len()
            invariant
                i <= located.len(),
                located@ == old(located)@,
                forall|k: int| 0 <= k < i ==> (#[trigger] located@[k]).serial@ != maybe.serial@,
            decreases located.len() - i,
        {
            if located[i].serial == maybe.serial {
                return false;
            }
            i += 1;
        }
        located.push(maybe);
        true
    }

    /// Lists the devices found, each serial number once: of several devices
    /// with one serial number, as one physical device shows that has
    /// several interfaces, the one found first stays.
    pub fn scan_devices(found: Vec<RazerDevice>) -> (located: Vec<RazerDevice>)
        ensures
            located@ == scanned(found@),
            distinct_serials(located@),
    {
        let ghost all = found@;
        let mut located: Vec<RazerDevice> = Vec::new();
        let mut queue = found;
        let total = queue.len();
        let mut rest: Vec<RazerDevice> = Vec::new();
        while queue.len() > 0
            invariant
                queue.len() + rest.len() == total,
                total == all.len(),
                queue@ == all.subrange(0, queue.len() as int),
                forall|k: int| 0 <= k < rest.len() ==> rest@[k] == all[total - 1 - k],
            decreases queue.len(),
        {
            let last = queue.pop().unwrap();
            rest.push(last);
        }
        let mut taken: usize = 0;
        while rest.len() > 0
            invariant
                taken + rest.len() == total,
                total == all.len(),
                located@ == scanned(all.subrange(0, taken as int)),
                forall|k: int| 0 <= k < rest.len() ==> rest@[k] == all[total - 1 - k],
            decreases rest.len(),
        {
            let next = rest.pop().unwrap();
            proof {
                assert(all.subrange(0, taken + 1).drop_last() =~= all.subrange(0, taken as int));
                assert(all.subrange(0, taken + 1).last() == next);
            }
            let _ = Self::register(&mut located, next);
            taken += 1;
        }
        proof {
            assert(all.subrange(0, taken as int) =~= all);
            lemma_scanned_distinct(all);
        }
        located
    }

    /// The device that commands go to: the first one located. Without any
    /// device discovery has failed.
    pub fn first_device(located: &Vec<RazerDevice>) -> (device: Result<&RazerDevice, DiscoveryError>)
        ensures
            match device {
                Ok(d) => located@.len() > 0 && *d == located@[0],
                Err(e) => located@.len() == 0 && e == DiscoveryError::NoDevice,
            },
    {
        if located.len() == 0 {
            Err(DiscoveryError::NoDevice)
        } else {
            Ok(&located[0])
        }
    }
}

/// The text that the payload of `answer` holds, if it holds text.
pub fn serial_text(answer: &RazerPacket) -> (text: Option<String>)
    ensures
        match text {
            Some(s) => serial_in(answer@) == Some(s@),
            None => serial_in(answer@) is None,
        },
{
    if answer.data_size > 80 {
        return None;
    }
    let len: usize = answer.data_size as usize;
    let mut bytes: Vec<u8> = Vec::new();
    let mut i: usize = 0;
    while i < len
        invariant
            i <= len <= 80,
            bytes@ == answer.args@.subrange(0, i as int),
        decreases len - i,
    {
        bytes.push(answer.args[i]);
        assert(answer.args@.subrange(0, i as int).push(answer.args@[i as int])
            =~= answer.args@.subrange(0, i + 1));
        i += 1;
    }
    text_from_utf8(bytes)
}

} // verus!
