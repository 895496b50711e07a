//! The device gate: a flag that tells clients whether the station is busy
//! with a device. It is set and cleared by the handlers and read for display;
//! it holds nobody back.

use vstd::prelude::*;
use crate::stream::StreamChannel;

verus! {

/// What the flag shows.
#[derive(Clone, Copy, Debug, PartialEq, Eq, Structural)]
pub enum GateStatus {
    Idle,
    Busy,
}

/// What a listed device is.
#[derive(Clone, Copy, Debug, PartialEq, Eq, Structural)]
pub enum DeviceKind {
    /// A device on the bus.
    Usb,
    /// A destination that is no device: a network or a command.
    Other,
}

/// A long operation on a device. It runs in the background and reports
/// through a stream.
#[derive(Clone, Copy, Debug, PartialEq, Eq, Structural)]
pub enum Operation {
    /// Files are copied to the destination.
    Copy,
    /// A device is wiped.
    Wipe,
    /// The image of a device is taken.
    ImageDisk,
}

/// Some listed device is on the bus.
pub open spec fn usb_present(devices: Seq<DeviceKind>) -> bool {
    exists|i: int| 0 <= i < devices.len() && devices[i] == DeviceKind::Usb
}

/// The flag that clients read.
pub struct DeviceGate {
    status: GateStatus,
}

impl GateStatus {
    /// The word that clients are shown.
    pub open spec fn word(self) -> Seq<char> {
        match self {
            GateStatus::Idle => "idle"@,
            GateStatus::Busy => "busy"@,
        }
    }

    /// The word that clients are shown.
    pub fn label(&self) -> (s: &'static str)
        ensures
            s@ == self.word(),
    {
        match self {
            GateStatus::Idle => "idle",
            GateStatus::Busy => "busy",
        }
    }
}

impl DeviceGate {
    /// What the flag shows.
    pub closed spec fn view(&self) -> GateStatus {
        self.status
    }

    /// A flag that shows idle.
    pub fn new() -> (g: DeviceGate)
        ensures
            g@ == GateStatus::Idle,
    {
        DeviceGate { status: GateStatus::Idle }
    }

    /// What the flag shows.
    pub fn status(&self) -> (s: GateStatus)
        ensures
            s == self@,
    {
        self.status
    }

    /// A listing of the devices is done: the flag shows busy where a device is
    /// on the bus, and idle where none is.
    pub fn listed(&mut self, devices: &Vec<DeviceKind>)
        ensures
            final(self)@ == if usb_present(devices@) {
                GateStatus::Busy
            } else {
                GateStatus::Idle
            },
    {
        let mut i: usize = 0;
        while i < devices.len()
            invariant
                i <= devices.len(),
                forall|j: int| 0 <= j < i ==> devices@[j] != DeviceKind::Usb,
            decreases devices.len() - i,
        {
            if devices[i] == DeviceKind::Usb {
                self.status = GateStatus::Busy;
                return ;
            }
            i = i + 1;
        }
        self.status = GateStatus::Idle;
    }

    /// Work on a device begins: the flag shows busy from now on. The flag does
    /// not ask what it showed before, so work also begins while other work is
    /// under way.
    pub fn begin(&mut self)
        ensures
            final(self)@ == GateStatus::Busy,
    {
        self.status = GateStatus::Busy;
    }

    /// The station is reset: the flag shows idle, whatever runs.
    pub fn reset(&mut self)
        ensures
            final(self)@ == GateStatus::Idle,
    {
        self.status = GateStatus::Idle;
    }
}

/// A long operation that was started, with the stream it reports through.
pub struct StreamHandle {
    pub operation: Operation,
    pub stream: StreamChannel,
}

/// Starts a long operation: the flag shows busy, and the stream handed back
/// is open and empty. The caller gives one end to the worker and answers the
/// request with the other. Nothing is asked of the flag first, so a second
/// operation starts as the first did.
pub fn start(gate: &mut DeviceGate, operation: Operation) -> (handle: StreamHandle)
    ensures
        final(gate)@ == GateStatus::Busy,
        handle.operation == operation,
        handle.stream.pending() == Seq::<Seq<u8>>::empty(),
        !handle.stream.closed(),
{
    gate.begin();
    StreamHandle { operation, stream: StreamChannel::new() }
}

/// What the station tells of itself.
#[derive(Debug, PartialEq, Eq)]
pub struct StatusReport {
    pub name: String,
    pub message: String,
    pub version: String,
    pub status: GateStatus,
}

/// The name shown for a station whose node name cannot be had.
pub open spec fn unknown_name() -> Seq<char> {
    "Unknown"@
}

/// Puts together what the station tells of itself: its node name, or
/// `Unknown` where there is none; the operator's message, or nothing where
/// there is none; the version; and what the flag shows.
pub fn status_report(
    node_name: Option<String>,
    message: Option<String>,
    version: &str,
    gate: &DeviceGate,
) -> (r: StatusReport)
    ensures
        r.name@ == match node_name {
            Some(n) => n@,
            None => unknown_name(),
        },
        r.message@ == match message {
            Some(m) => m@,
            None => Seq::<char>::empty(),
        },
        r.version@ == version@,
        r.status == gate@,
{
    let name = match node_name {
        Some(n) => n,
        None => "Unknown".to_owned(),
    };
    let message = match message {
        Some(m) => m,
        None => String::new(),
    };
    StatusReport { name, message, version: version.to_owned(), status: gate.status() }
}

/// Asks the system for its node name with `uname::Info::new` and hands back
/// the `nodename` it gives, or nothing where the call fails. Nothing is
/// claimed of the name: it is the machine's.
#[verifier::external_body]
fn node_name() -> (name: Option<String>) {
    uname::Info::new().ok().map(|infos| infos.nodename)
}

/// What this station tells of itself: as `status_report` puts it together,
/// with the node name that the system gives at the time of the call.
pub fn station_report(message: Option<String>, version: &str, gate: &DeviceGate) -> (r:
    StatusReport)
    ensures
        r.message@ == match message {
            Some(m) => m@,
            None => Seq::<char>::empty(),
        },
        r.version@ == version@,
        r.status == gate@,
{
    status_report(node_name(), message, version, gate)
}

} // verus!
