//! The packet capture manager's lifecycle: which adapter to record, when the
//! workers are started, and what stopping a session must do.
//!
//! The workers themselves (a frame reader and a wall-clock ceiling) run on
//! threads outside the library; a `PcapInstance` says when to spawn them,
//! when to raise the shared cancellation flag and when to join them.
use vstd::prelude::*;

use crate::text::{chars_of, string_from_chars};

verus! {

/// The host address that the capture adapter must carry, 192.168.32.100.
pub const HOST_IP: u32 = 0xC0A8_2064;

/// Directory that receives the capture files.
pub const PCAP_DIR: &'static str = "pcaps";

/// Wall-clock ceiling of one capture, in seconds.
pub const MAX_PCAP_CAPTURE_TIME_S: u64 = 600;

/// What the capture manager reads of a network adapter.
#[derive(Debug)]
pub struct AdapterInfo {
    pub name: String,
    /// The adapter's IPv4 addresses.
    pub addresses: Vec<u32>,
    /// Whether the link is up.
    pub connected: bool,
}

/// An adapter fit for capture: it carries the host address and is connected.
pub open spec fn adapter_fits(a: AdapterInfo) -> bool {
    a.connected && a.addresses@.contains(HOST_IP)
}

/// The first adapter fit for capture.
pub open spec fn chosen_adapter(adapters: Seq<AdapterInfo>, r: Option<usize>) -> bool {
    match r {
        Some(i) => i < adapters.len() && adapter_fits(adapters[i as int]) && forall|j: int|
            0 <= j < i ==> !adapter_fits(#[trigger] adapters[j]),
        None => forall|j: int| 0 <= j < adapters.len() ==> !adapter_fits(#[trigger] adapters[j]),
    }
}

fn carries_host_ip(a: &AdapterInfo) -> (r: bool)
    ensures
        r == a.addresses@.contains(HOST_IP),
{
    let mut k: usize = 0;
    while k < a.addresses.len()
        invariant
            k <= a.addresses.len(),
            forall|j: int| 0 <= j < k ==> a.addresses@[j] != HOST_IP,
        decreases a.addresses.len() - k,
    {
        if a.addresses[k] == HOST_IP {
            assert(a.addresses@[k as int] == HOST_IP);
            return true;
        }
        k = k + 1;
    }
    false
}

/// Picks the adapter to record: the first that carries the host address and
/// whose link is connected. `None` means the capture is skipped.
pub fn connected_ethernet_device(adapters: &Vec<AdapterInfo>) -> (r: Option<usize>)
    ensures
        chosen_adapter(adapters@, r),
{
    let mut i: usize = 0;
    while i < adapters.len()
        invariant
            i <= adapters.len(),
            forall|j: int| 0 <= j < i ==> !adapter_fits(#[trigger] adapters@[j]),
        decreases adapters.len() - i,
    {
        if adapters[i].connected && carries_host_ip(&adapters[i]) {
            return Some(i);
        }
        i = i + 1;
    }
    None
}

/// Where a capture session stands.
#[derive(Clone, Copy, Debug, PartialEq, Eq, Structural)]
pub enum CapturePhase {
    /// Storage is ready; no capture has started.
    Created,
    /// The workers are recording.
    Running,
    /// No capture takes place in this session.
    Skipped,
    /// The workers were stopped and joined.
    Stopped,
}

/// The life of one worker thread.
#[derive(Clone, Copy, Debug, PartialEq, Eq, Structural)]
pub enum WorkerState {
    NotSpawned,
    Active,
    Joined,
}

/// The state of a capture session, as the contracts see it.
#[derive(Clone, Copy, Debug, PartialEq, Eq, Structural)]
pub struct CaptureModel {
    pub phase: CapturePhase,
    /// The shared cancellation flag.
    pub cancelled: bool,
    /// The ceiling worker.
    pub timer: WorkerState,
    /// The frame-recording worker, the only writer of the capture file.
    pub recorder: WorkerState,
}

/// Workers exist only while running, and both are joined once stopped; a
/// session that never ran spawned none.
pub open spec fn capture_wf(m: CaptureModel) -> bool {
    &&& (m.phase is Running ==> m.timer is Active && m.recorder is Active)
    &&& (m.phase is Stopped ==> m.timer is Joined && m.recorder is Joined && m.cancelled)
    &&& (m.phase is Created || m.phase is Skipped ==> m.timer is NotSpawned
        && m.recorder is NotSpawned)
}

/// What `start` asks the caller to do.
#[derive(Clone, Copy, Debug, PartialEq, Eq, Structural)]
pub enum StartAction {
    /// Open the adapter with this index in promiscuous mode and spawn the
    /// recorder and the ceiling worker, sharing the cancellation flag.
    Spawn(usize),
    /// Warn that the capture is skipped; the test goes on.
    Skip,
    /// A capture is already running or over; nothing to do.
    Ignore,
}

/// What `stop` asks the caller to do.
#[derive(Clone, Copy, Debug, PartialEq, Eq, Structural)]
pub enum StopAction {
    /// Raise the cancellation flag, join both workers, report the file.
    SignalAndJoin,
    /// Nothing ran: do not wait, do not report a file.
    NothingToStop,
}

pub open spec fn start_spec(m: CaptureModel, device: Option<usize>) -> (CaptureModel, StartAction) {
    if !(m.phase is Created) {
        (m, StartAction::Ignore)
    } else {
        match device {
            None => (CaptureModel { phase: CapturePhase::Skipped, ..m }, StartAction::Skip),
            Some(i) => (
                CaptureModel {
                    phase: CapturePhase::Running,
                    timer: WorkerState::Active,
                    recorder: WorkerState::Active,
                    ..m
                },
                StartAction::Spawn(i),
            ),
        }
    }
}

pub open spec fn stop_spec(m: CaptureModel) -> (CaptureModel, StopAction) {
    if m.phase is Running {
        (
            CaptureModel {
                phase: CapturePhase::Stopped,
                cancelled: true,
                timer: WorkerState::Joined,
                recorder: WorkerState::Joined,
            },
            StopAction::SignalAndJoin,
        )
    } else {
        (m, StopAction::NothingToStop)
    }
}

/// The capture session of one test.
pub struct PcapInstance {
    test_name: String,
    phase: CapturePhase,
    cancelled: bool,
    timer: WorkerState,
    recorder: WorkerState,
}

impl View for PcapInstance {
    type V = CaptureModel;

    closed spec fn view(&self) -> CaptureModel {
        CaptureModel {
            phase: self.phase,
            cancelled: self.cancelled,
            timer: self.timer,
            recorder: self.recorder,
        }
    }
}

/// The capture file of a test: `pcaps/<test>.pcap`.
pub open spec fn capture_path(test_name: Seq<char>) -> Seq<char> {
    PCAP_DIR@ + "/"@ + test_name + ".pcap"@
}

impl PcapInstance {
    /// A session for `test_name`. `storage_ready` tells whether the capture
    /// directory exists and any stale capture file of the test was removed;
    /// if not, the session is skipped from the start.
    pub fn new(test_name: &str, storage_ready: bool) -> (r: PcapInstance)
        ensures
            r@ == (CaptureModel {
                phase: if storage_ready {
                    CapturePhase::Created
                } else {
                    CapturePhase::Skipped
                },
                cancelled: false,
                timer: WorkerState::NotSpawned,
                recorder: WorkerState::NotSpawned,
            }),
            r.test_name()@ == test_name@,
            capture_wf(r@),
    {
        PcapInstance {
            test_name: test_name.to_owned(),
            phase: if storage_ready {
                CapturePhase::Created
            } else {
                CapturePhase::Skipped
            },
            cancelled: false,
            timer: WorkerState::NotSpawned,
            recorder: WorkerState::NotSpawned,
        }
    }

    pub closed spec fn test_name(&self) -> String {
        self.test_name
    }

    /// The test this session records.
    pub fn name(&self) -> (r: &String)
        ensures
            r@ == self.test_name()@,
    {
        &self.test_name
    }

    /// The file this session records into.
    pub fn output_path(&self) -> (r: String)
        ensures
            r@ == capture_path(self.test_name()@),
    {
        let mut path = chars_of(PCAP_DIR);
        path.push('/');
        let name = chars_of(self.test_name.as_str());
        let mut k: usize = 0;
        let ghost base = path@;
        while k < name.len()
            invariant
                k <= name.len(),
                path@ == base + name@.subrange(0, k as int),
            decreases name.len() - k,
        {
            path.push(name[k]);
            k = k + 1;
            assert(path@ =~= base + name@.subrange(0, k as int));
        }
        let ext = chars_of(".pcap");
        let mut e: usize = 0;
        let ghost mid = path@;
        while e < ext.len()
            invariant
                e <= ext.len(),
                path@ == mid + ext@.subrange(0, e as int),
            decreases ext.len() - e,
        {
            path.push(ext[e]);
            e = e + 1;
            assert(path@ =~= mid + ext@.subrange(0, e as int));
        }
        proof {
            reveal_strlit("/");
        }
        assert(name@.subrange(0, name.len() as int) =~= name@);
        assert(ext@.subrange(0, ext.len() as int) =~= ext@);
        assert(path@ =~= capture_path(self.test_name()@));
        string_from_chars(&path)
    }

    /// Starts the capture on the adapter chosen by `connected_ethernet_device`
    /// (`None`: no fit adapter, or the adapters could not be listed). Without
    /// an adapter the session is skipped; a session starts at most once.
    pub fn start(&mut self, device: Option<usize>) -> (r: StartAction)
        requires
            capture_wf(old(self)@),
        ensures
            (final(self)@, r) == start_spec(old(self)@, device),
            final(self).test_name() == old(self).test_name(),
            capture_wf(final(self)@),
    {
        if self.phase != CapturePhase::Created {
            return StartAction::Ignore;
        }
        match device {
            None => {
                self.phase = CapturePhase::Skipped;
                StartAction::Skip
            },
            Some(i) => {
                self.phase = CapturePhase::Running;
                self.timer = WorkerState::Active;
                self.recorder = WorkerState::Active;
                StartAction::Spawn(i)
            },
        }
    }

    /// Stops a running capture: the cancellation flag is raised and both
    /// workers are joined. Any other session is left as it is, at once.
    pub fn stop(&mut self) -> (r: StopAction)
        requires
            capture_wf(old(self)@),
        ensures
            (final(self)@, r) == stop_spec(old(self)@),
            final(self).test_name() == old(self).test_name(),
            capture_wf(final(self)@),
    {
        if self.phase == CapturePhase::Running {
            self.cancelled = true;
            self.timer = WorkerState::Joined;
            self.recorder = WorkerState::Joined;
            self.phase = CapturePhase::Stopped;
            StopAction::SignalAndJoin
        } else {
            StopAction::NothingToStop
        }
    }

    /// Whether the cancellation flag is raised.
    pub fn is_cancelled(&self) -> (r: bool)
        ensures
            r == self@.cancelled,
    {
        self.cancelled
    }

    /// The session's phase.
    pub fn phase(&self) -> (r: CapturePhase)
        ensures
            r == self@.phase,
    {
        self.phase
    }

    /// Whether both workers have been joined (or none was ever spawned).
    pub fn workers_settled(&self) -> (r: bool)
        ensures
            r == (self@.timer != WorkerState::Active && self@.recorder != WorkerState::Active),
    {
        self.timer != WorkerState::Active && self.recorder != WorkerState::Active
    }
}

/// Stopping a session that never started a capture asks for no wait and
/// spawns nothing, so no worker runs and no capture file is written.
pub proof fn lemma_stop_without_start(m: CaptureModel)
    requires
        capture_wf(m),
        m.phase is Created || m.phase is Skipped,
    ensures
        stop_spec(m).1 == StopAction::NothingToStop,
        stop_spec(m).0 == m,
        stop_spec(m).0.recorder is NotSpawned,
        stop_spec(m).0.timer is NotSpawned,
{
}

/// A capture that started and was stopped leaves the cancellation flag
/// raised and every spawned worker joined; the flag never falls back.
pub proof fn lemma_start_then_stop_joins_workers(m: CaptureModel, device: usize)
    requires
        capture_wf(m),
        m.phase is Created,
    ensures
        ({
            let (started, action) = start_spec(m, Some(device));
            let (stopped, stop_action) = stop_spec(started);
            &&& action == StartAction::Spawn(device)
            &&& stop_action == StopAction::SignalAndJoin
            &&& stopped.cancelled
            &&& stopped.timer is Joined
            &&& stopped.recorder is Joined
        }),
        forall|d: Option<usize>| #[trigger] start_spec(m, d).0.cancelled == m.cancelled,
        m.cancelled ==> stop_spec(m).0.cancelled,
{
}

} // verus!
