//! The control-transfer side of a device: which of its endpoints takes
//! commands, when the kernel's driver has to let go of it, and what a
//! transfer is set up with.

use crate::device::DiscoveryError;
use vstd::prelude::*;

verus! {

/// Request type, request and value of an outbound command transfer.
pub const SEND_REQUEST_TYPE: u8 = 0x21;

pub const SEND_REQUEST: u8 = 0x09;

pub const SEND_VALUE: u16 = 0x0300;

/// Request type, request and value of an inbound command transfer.
pub const RECEIVE_REQUEST_TYPE: u8 = 0xA1;

pub const RECEIVE_REQUEST: u8 = 0x01;

pub const RECEIVE_VALUE: u16 = 0x0300;

/// Time that one transfer may take, in milliseconds.
pub const TRANSFER_TIMEOUT_MILLIS: u64 = 1000;

/// How an endpoint moves data.
#[derive(Debug, Copy, Clone, PartialEq, Eq, Structural)]
pub enum TransferType {
    Control,
    Isochronous,
    Bulk,
    Interrupt,
}

/// Which way an endpoint moves data, seen from the host.
#[derive(Debug, Copy, Clone, PartialEq, Eq, Structural)]
pub enum Direction {
    In,
    Out,
}

/// What the bus tells of one endpoint.
#[derive(Debug, Copy, Clone, PartialEq, Eq, Structural)]
pub struct EndpointInfo {
    pub config: u8,
    pub iface: u8,
    pub setting: u8,
    pub address: u8,
    pub direction: Direction,
    pub transfer_type: TransferType,
    /// Protocol code of the interface that the endpoint belongs to.
    pub protocol_code: u8,
    /// Whether a driver of the kernel holds the interface.
    pub has_kernel_driver: bool,
}

/// The endpoint that commands go through, as plain values.
pub struct EndpointView {
    pub config: u8,
    pub iface: u8,
    pub setting: u8,
    pub address: u8,
    pub transfer_type: TransferType,
    /// Whether a driver of the kernel holds the interface. Once false, it
    /// stays false.
    pub has_kernel_driver: bool,
}

/// The endpoint that commands go through.
#[derive(Debug, Copy, Clone, PartialEq, Eq)]
pub struct Endpoint {
    config: u8,
    iface: u8,
    setting: u8,
    address: u8,
    transfer_type: TransferType,
    has_kernel_driver: bool,
}

/// What a control transfer is set up with.
#[derive(Debug, Copy, Clone, PartialEq, Eq, Structural)]
pub struct ControlRequest {
    pub request_type: u8,
    pub request: u8,
    pub value: u16,
    /// The interface number.
    pub index: u16,
    pub timeout_millis: u64,
}

/// What to do about the kernel's driver around one transfer.
#[derive(Debug, Copy, Clone, PartialEq, Eq, Structural)]
pub struct DriverPlan {
    /// Detach the driver before the transfer.
    pub detach_before: bool,
    /// Attach it again after the transfer.
    pub reattach_after: bool,
}

/// What endpoint resolution decided.
#[derive(Debug, Copy, Clone, PartialEq, Eq)]
pub struct Resolution {
    /// The endpoint that commands go through.
    pub endpoint: Endpoint,
    /// Whether the caller has to detach the kernel's driver now, once and
    /// for good.
    pub detach_now: bool,
}

impl EndpointInfo {
    /// Whether the endpoint could take commands: it is inbound and its
    /// interface speaks the protocol with code `protocol_code`.
    pub open spec fn spec_qualifies(self, protocol_code: u8) -> bool {
        self.direction == Direction::In && self.protocol_code == protocol_code
    }

    pub fn qualifies(&self, protocol_code: u8) -> (b: bool)
        ensures
            b == self.spec_qualifies(protocol_code),
    {
        self.direction == Direction::In && self.protocol_code == protocol_code
    }
}

/// Number of endpoints among `found` that could take commands.
pub open spec fn count_qualifying(found: Seq<EndpointInfo>, protocol_code: u8) -> nat
    decreases found.len(),
{
    if found.len() == 0 {
        0
    } else {
        count_qualifying(found.drop_last(), protocol_code) + if found.last().spec_qualifies(
            protocol_code,
        ) {
            1nat
        } else {
            0nat
        }
    }
}

/// Place of the last endpoint among `found` that could take commands.
pub open spec fn last_qualifying(found: Seq<EndpointInfo>, protocol_code: u8) -> Option<int>
    decreases found.len(),
{
    if found.len() == 0 {
        None
    } else if found.last().spec_qualifies(protocol_code) {
        Some(found.len() - 1)
    } else {
        last_qualifying(found.drop_last(), protocol_code)
    }
}

/// What resolution decides for the endpoints `found`, in the order in which
/// the bus listed them. The last endpoint that could take commands is the
/// one that takes them. Where more than one could and the kernel's driver
/// holds the chosen one, the driver is detached now and counts as gone from
/// then on.
pub open spec fn resolved(found: Seq<EndpointInfo>, protocol_code: u8) -> Option<
    (EndpointView, bool),
> {
    match last_qualifying(found, protocol_code) {
        None => None,
        Some(at) => {
            let chosen = found[at];
            let detach_now = count_qualifying(found, protocol_code) > 1
                && chosen.has_kernel_driver;
            Some(
                (
                    EndpointView {
                        config: chosen.config,
                        iface: chosen.iface,
                        setting: chosen.setting,
                        address: chosen.address,
                        transfer_type: chosen.transfer_type,
                        has_kernel_driver: chosen.has_kernel_driver && !detach_now,
                    },
                    detach_now,
                ),
            )
        },
    }
}

/// The last endpoint that could take commands is one that could, nothing
/// after it could, and there is one exactly when the count is not zero.
pub proof fn lemma_last_qualifying(found: Seq<EndpointInfo>, protocol_code: u8)
    ensures
        last_qualifying(found, protocol_code) is Some <==> count_qualifying(found, protocol_code)
            > 0,
        last_qualifying(found, protocol_code) matches Some(at) ==> {
            &&& 0 <= at < found.len()
            &&& found[at].spec_qualifies(protocol_code)
            &&& forall|k: int| at < k < found.len() ==> !(#[trigger] found[k]).spec_qualifies(protocol_code)
        },
        last_qualifying(found, protocol_code) is None ==> forall|k: int|
            0 <= k < found.len() ==> !(#[trigger] found[k]).spec_qualifies(protocol_code),
        count_qualifying(found, protocol_code) <= found.len(),
    decreases found.len(),
{
    if found.len() > 0 {
        lemma_last_qualifying(found.drop_last(), protocol_code);
        assert forall|k: int| 0 <= k < found.len() - 1 implies found[k] == found.drop_last()[k] by {}
    }
}

impl View for Endpoint {
    type V = EndpointView;

    closed spec fn view(&self) -> EndpointView {
        EndpointView {
            config: self.config,
            iface: self.iface,
            setting: self.setting,
            address: self.address,
            transfer_type: self.transfer_type,
            has_kernel_driver: self.has_kernel_driver,
        }
    }
}

impl Endpoint {
    /// Chooses the endpoint that commands go through among those that the
    /// bus listed; fails where none could take commands.
    pub fn resolve(found: &Vec<EndpointInfo>, protocol_code: u8) -> (r: Result<
        Resolution,
        DiscoveryError,
    >)
        ensures
            match r {
                Ok(res) => resolved(found@, protocol_code) == Some((res.endpoint@, res.detach_now)),
                Err(e) => resolved(found@, protocol_code) is None && e == DiscoveryError::NoEndpoint,
            },
            r is Err <==> forall|k: int|
                0 <= k < found@.len() ==> !(#[trigger] found@[k]).spec_qualifies(protocol_code),
    {
        proof {
            lemma_last_qualifying(found@, protocol_code);
        }
        let mut chosen: Option<EndpointInfo> = None;
        let mut count: usize = 0;
        let mut i: usize = 0;
        while i < found.len()
            invariant
                i <= found.len(),
                count == count_qualifying(found@.subrange(0, i as int), protocol_code),
                count <= i,
                match last_qualifying(found@.subrange(0, i as int), protocol_code) {
                    Some(at) => chosen == Some(found@[at]),
                    None => chosen is None,
                },
            decreases found.len() - i,
        {
            proof {
                let next = found@.subrange(0, i + 1);
                assert(next.drop_last() =~= found@.subrange(0, i as int));
                assert(next.last() == found@[i as int]);
            }
            if found[i].qualifies(protocol_code) {
                chosen = Some(found[i]);
                count += 1;
            }
            i += 1;
        }
        assert(found@.subrange(0, i as int) =~= found@);
        match chosen {
            None => Err(DiscoveryError::NoEndpoint),
            Some(info) => {
                let detach_now = count > 1 && info.has_kernel_driver;
                Ok(
                    Resolution {
                        endpoint: Endpoint {
                            config: info.config,
                            iface: info.iface,
                            setting: info.setting,
                            address: info.address,
                            transfer_type: info.transfer_type,
                            has_kernel_driver: info.has_kernel_driver && !detach_now,
                        },
                        detach_now,
                    },
                )
            },
        }
    }

    pub fn config(&self) -> (n: u8)
        ensures
            n == self@.config,
    {
        self.config
    }

    pub fn iface(&self) -> (n: u8)
        ensures
            n == self@.iface,
    {
        self.iface
    }

    pub fn setting(&self) -> (n: u8)
        ensures
            n == self@.setting,
    {
        self.setting
    }

    pub fn address(&self) -> (n: u8)
        ensures
            n == self@.address,
    {
        self.address
    }

    pub fn transfer_type(&self) -> (t: TransferType)
        ensures
            t == self@.transfer_type,
    {
        self.transfer_type
    }

    /// Whether a driver of the kernel holds the interface.
    pub fn has_kernel_driver(&self) -> (b: bool)
        ensures
            b == self@.has_kernel_driver,
    {
        self.has_kernel_driver
    }

    /// Records that the kernel's driver was detached for good. Nothing
    /// records the opposite.
    pub fn mark_detached(&mut self)
        ensures
            final(self)@ == (EndpointView { has_kernel_driver: false, ..old(self)@ }),
    {
        self.has_kernel_driver = false;
    }

    /// What to do about the kernel's driver around one transfer: where it
    /// holds the interface it is detached before and attached again after,
    /// where it was detached for good nothing is done.
    pub fn driver_plan(&self) -> (plan: DriverPlan)
        ensures
            plan.detach_before == self@.has_kernel_driver,
            plan.reattach_after == self@.has_kernel_driver,
    {
        DriverPlan {
            detach_before: self.has_kernel_driver,
            reattach_after: self.has_kernel_driver,
        }
    }

    /// What the transfer that sends a frame is set up with.
    pub fn send_request(&self) -> (request: ControlRequest)
        ensures
            request == (ControlRequest {
                request_type: SEND_REQUEST_TYPE,
                request: SEND_REQUEST,
                value: SEND_VALUE,
                index: self@.iface as u16,
                timeout_millis: TRANSFER_TIMEOUT_MILLIS,
            }),
    {
        ControlRequest {
            request_type: SEND_REQUEST_TYPE,
            request: SEND_REQUEST,
            value: SEND_VALUE,
            index: self.iface as u16,
            timeout_millis: TRANSFER_TIMEOUT_MILLIS,
        }
    }

    /// What the transfer that reads a frame is set up with.
    pub fn receive_request(&self) -> (request: ControlRequest)
        ensures
            request == (ControlRequest {
                request_type: RECEIVE_REQUEST_TYPE,
                request: RECEIVE_REQUEST,
                value: RECEIVE_VALUE,
                index: self@.iface as u16,
                timeout_millis: TRANSFER_TIMEOUT_MILLIS,
            }),
    {
        ControlRequest {
            request_type: RECEIVE_REQUEST_TYPE,
            request: RECEIVE_REQUEST,
            value: RECEIVE_VALUE,
            index: self.iface as u16,
            timeout_millis: TRANSFER_TIMEOUT_MILLIS,
        }
    }
}

} // verus!
