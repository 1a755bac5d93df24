//! Choosing which running host to attach to.
//!
//! The filesystem and socket probes stay with the caller; this module decides
//! what to probe next and what the probes amount to.

use vstd::prelude::*;

use crate::protocol::{HostDescriptor, PROTOCOL_VERSION};
use crate::text::{append_decimal, append_str, decimal, owned};

verus! {

/// The kind of a discovery or transport failure (the subset of
/// `std::io::ErrorKind` that this library produces).
#[derive(Debug, Clone, Copy, PartialEq, Eq, Structural)]
pub enum ErrorKind {
    NotFound,
    InvalidInput,
    InvalidData,
    ConnectionRefused,
    UnexpectedEof,
    TimedOut,
    Other,
}

/// A failure with its kind and human-readable message.
#[derive(Debug, Clone, PartialEq, Eq)]
pub struct HostError {
    pub kind: ErrorKind,
    pub message: String,
}

impl HostError {
    pub fn new(kind: ErrorKind, message: String) -> (e: HostError)
        ensures
            e.kind == kind,
            e.message == message,
    {
        HostError { kind, message }
    }

    /// The kind of this failure.
    pub fn kind(&self) -> (k: ErrorKind)
        ensures
            k == self.kind,
    {
        self.kind
    }

    /// The message of this failure.
    pub fn to_string(&self) -> (s: String)
        ensures
            s@ == self.message@,
    {
        self.message.clone()
    }
}

/// Selection criteria for targeting an active Blitz host.
#[derive(Debug, Clone, PartialEq, Eq)]
pub enum TargetSelector {
    /// Auto-discover the single reachable host.
    Auto,
    /// Connect to a host running with a specific OS process ID.
    Pid(u32),
    /// Connect to a host at an explicit descriptor or socket path.
    ExplicitPath(String),
}

impl Default for TargetSelector {
    fn default() -> (s: TargetSelector)
        ensures
            s == TargetSelector::Auto,
    {
        TargetSelector::Auto
    }
}

impl TargetSelector {
    pub fn duplicate(&self) -> (s: TargetSelector)
        ensures
            s == *self,
    {
        match self {
            TargetSelector::Auto => TargetSelector::Auto,
            TargetSelector::Pid(p) => TargetSelector::Pid(*p),
            TargetSelector::ExplicitPath(p) => TargetSelector::ExplicitPath(p.clone()),
        }
    }
}

impl HostDescriptor {
    /// A copy of this descriptor.
    pub fn duplicate(&self) -> (d: HostDescriptor)
        ensures
            d == *self,
    {
        HostDescriptor {
            protocol_version: self.protocol_version,
            pid: self.pid,
            instance_id: self.instance_id.clone(),
            socket_path: self.socket_path.clone(),
            renderer: self.renderer.clone(),
            renderer_version: self.renderer_version.clone(),
            primary_window_id: self.primary_window_id,
            primary_document_id: self.primary_document_id,
        }
    }
}

/// `[p0, p1, ...]`, the debug rendering of a list of process IDs.
pub open spec fn pid_list_text(pids: Seq<u32>) -> Seq<char> {
    seq!['['] + pid_items_text(pids) + seq![']']
}

pub open spec fn pid_items_text(pids: Seq<u32>) -> Seq<char>
    decreases pids.len(),
{
    if pids.len() == 0 {
        Seq::empty()
    } else if pids.len() == 1 {
        decimal(pids[0] as nat)
    } else {
        pid_items_text(pids.drop_last()) + seq![',', ' '] + decimal(pids.last() as nat)
    }
}

/// The process IDs of `hosts`, in order.
pub open spec fn pids_of(hosts: Seq<HostDescriptor>) -> Seq<u32> {
    hosts.map_values(|h: HostDescriptor| h.pid)
}

/// Index of the first host with process ID `pid`, if any.
pub open spec fn first_with_pid(hosts: Seq<HostDescriptor>, pid: u32) -> Option<int> {
    if exists|i: int| 0 <= i < hosts.len() && hosts[i].pid == pid {
        Some(
            choose|i: int|
                0 <= i < hosts.len() && hosts[i].pid == pid && forall|k: int|
                    0 <= k < i ==> hosts[k].pid != pid,
        )
    } else {
        None
    }
}

proof fn lemma_first_with_pid(hosts: Seq<HostDescriptor>, pid: u32, i: int)
    requires
        0 <= i < hosts.len(),
        hosts[i].pid == pid,
        forall|k: int| 0 <= k < i ==> hosts[k].pid != pid,
    ensures
        first_with_pid(hosts, pid) == Some(i),
{
    assert(exists|j: int|
        0 <= j < hosts.len() && hosts[j].pid == pid && forall|k: int|
            0 <= k < j ==> hosts[k].pid != pid);
    let j = choose|j: int|
        0 <= j < hosts.len() && hosts[j].pid == pid && forall|k: int|
            0 <= k < j ==> hosts[k].pid != pid;
    if j < i {
        assert(hosts[j].pid != pid);
    } else if j > i {
        assert(hosts[i].pid != pid);
    }
}

fn pid_list_string(hosts: &Vec<HostDescriptor>) -> (s: String)
    ensures
        s@ == pid_list_text(pids_of(hosts@)),
{
    let mut s = String::new();
    s.push('[');
    let mut i: usize = 0;
    while i < hosts.len()
        invariant
            i <= hosts@.len(),
            s@ == seq!['['] + pid_items_text(pids_of(hosts@).take(i as int)),
        decreases hosts@.len() - i,
    {
        let ghost before = s@;
        if i > 0 {
            s.push(',');
            s.push(' ');
        }
        append_decimal(&mut s, hosts[i].pid as u64);
        i = i + 1;
        proof {
            let pids = pids_of(hosts@);
            assert(pids.take(i as int).drop_last() =~= pids.take(i - 1));
            assert(pids.take(i as int).last() == hosts@[i - 1].pid);
            if i == 1 {
                assert(pids.take(0) =~= Seq::<u32>::empty());
                assert(s@ =~= seq!['['] + pid_items_text(pids.take(i as int)));
            } else {
                assert(s@ =~= seq!['['] + pid_items_text(pids.take(i as int)));
            }
        }
    }
    s.push(']');
    assert(pids_of(hosts@).take(hosts@.len() as int) =~= pids_of(hosts@));
    s
}

/// The outcome that host-list resolution owes for `selector` and `hosts`.
pub open spec fn resolves_from_hosts(
    selector: TargetSelector,
    hosts: Seq<HostDescriptor>,
    r: Result<HostDescriptor, HostError>,
) -> bool {
    match selector {
        TargetSelector::ExplicitPath(path) => r matches Err(e) && e.kind == ErrorKind::InvalidInput
            && e.message@ == "Cannot resolve explicit path '"@ + path@ + "' from host list"@,
        TargetSelector::Pid(pid) => match first_with_pid(hosts, pid) {
            Some(i) => r == Ok::<HostDescriptor, HostError>(hosts[i]),
            None => r matches Err(e) && e.kind == ErrorKind::NotFound && e.message@
                == "No live, reachable Blitz host found with PID "@ + decimal(pid as nat),
        },
        TargetSelector::Auto => if hosts.len() == 0 {
            r matches Err(e) && e.kind == ErrorKind::NotFound && e.message@
                == "No active blitz-host instances found in $TMPDIR/blitz-host"@
        } else if hosts.len() == 1 {
            r == Ok::<HostDescriptor, HostError>(hosts[0])
        } else {
            r matches Err(e) && e.kind == ErrorKind::InvalidInput && e.message@
                == "Multiple active Blitz hosts detected (PIDs: "@ + pid_list_text(pids_of(hosts))
                + "). Target is ambiguous: please specify --pid <PID> (or connect_pid) to target a specific host."@
        },
    }
}

/// Disambiguates an active host from a list of discovered reachable hosts according to the selector.
///
/// - `Auto`: no host is `NotFound`, one host is that host, more hosts is
///   `InvalidInput` naming the competing process IDs and asking for `--pid`.
/// - `Pid(p)`: the first host whose process ID is `p`, or `NotFound`.
/// - `ExplicitPath`: not resolvable from a host list (`InvalidInput`).
pub fn resolve_target_from_hosts(selector: &TargetSelector, hosts: Vec<HostDescriptor>) -> (r:
    Result<HostDescriptor, HostError>)
    ensures
        resolves_from_hosts(*selector, hosts@, r),
{
    let ghost old_hosts = hosts@;
    let mut pool = hosts;
    match selector {
        TargetSelector::ExplicitPath(path) => {
            assert(*selector is ExplicitPath);
            let mut msg = owned("Cannot resolve explicit path '");
            append_str(&mut msg, path.as_str());
            append_str(&mut msg, "' from host list");
            assert(msg@ == "Cannot resolve explicit path '"@ + path@ + "' from host list"@);
            let e = HostError::new(ErrorKind::InvalidInput, msg);
            assert(e.message@ == "Cannot resolve explicit path '"@ + path@ + "' from host list"@);
            Err(e)
        },
        TargetSelector::Pid(pid) => {
            let mut i: usize = 0;
            while i < pool.len()
                invariant
                    i <= pool@.len(),
                    *selector == TargetSelector::Pid(*pid),
                    pool@ == old_hosts,
                    old_hosts == hosts@,
                    forall|k: int| 0 <= k < i ==> pool@[k].pid != *pid,
                decreases pool@.len() - i,
            {
                if pool[i].pid == *pid {
                    let ghost listed = pool@;
                    proof {
                        lemma_first_with_pid(listed, *pid, i as int);
                    }
                    let found = pool.swap_remove(i);
                    return Ok(found);
                }
                i = i + 1;
            }
            let mut msg = owned("No live, reachable Blitz host found with PID ");
            append_decimal(&mut msg, *pid as u64);
            Err(HostError::new(ErrorKind::NotFound, msg))
        },
        TargetSelector::Auto => {
            if pool.len() == 0 {
                Err(
                    HostError::new(
                        ErrorKind::NotFound,
                        owned("No active blitz-host instances found in $TMPDIR/blitz-host"),
                    ),
                )
            } else if pool.len() == 1 {
                let only = pool.swap_remove(0);
                Ok(only)
            } else {
                let mut msg = owned("Multiple active Blitz hosts detected (PIDs: ");
                let list = pid_list_string(&pool);
                append_str(&mut msg, list.as_str());
                append_str(
                    &mut msg,
                    "). Target is ambiguous: please specify --pid <PID> (or connect_pid) to target a specific host.",
                );
                Err(HostError::new(ErrorKind::InvalidInput, msg))
            }
        },
    }
}

} // verus!

verus! {

/// What `std::path::Path::extension` gives, under the path rules of the
/// platform the library is built for, for a path written as `path`: the text
/// after the last `.` of its final component, when there is one.
pub uninterp spec fn path_extension(path: Seq<char>) -> Option<Seq<char>>;

/// Calls `std::path::Path::extension` on the path text and returns the
/// extension as text; the contract claims only that the result is the named
/// function of the path text (no statement of how the extension is found).
#[verifier::external_body]
pub(crate) fn extension_of(path: &str) -> (r: Option<String>)
    ensures
        match path_extension(path@) {
            Some(e) => r matches Some(s) && s@ == e,
            None => r is None,
        },
{
    match std::path::Path::new(path).extension() {
        Some(e) => Some(e.to_string_lossy().into_owned()),
        None => None,
    }
}

/// Whether a directory entry is an advertised host descriptor: its extension
/// is `json`.
pub fn is_descriptor_file(path: &str) -> (b: bool)
    ensures
        b == (path_extension(path@) == Some("json"@)),
{
    match extension_of(path) {
        Some(ext) => crate::text::str_is(ext.as_str(), "json"),
        None => false,
    }
}

/// What listing does with an advertised host.
#[derive(Debug, Clone, Copy, PartialEq, Eq, Structural)]
pub enum HostFate {
    /// Its socket accepts connections: it is listed.
    Listed,
    /// It is unreachable and its process is gone: its descriptor and socket
    /// are removed.
    Reaped,
    /// It is unreachable but its process still runs: it is left alone.
    Skipped,
}

/// The fate of an advertised host, from whether its socket is reachable and
/// (asked only when it is not) whether its process is alive.
pub fn host_fate(reachable: bool, pid_alive: bool) -> (f: HostFate)
    ensures
        f == (if reachable {
            HostFate::Listed
        } else if !pid_alive {
            HostFate::Reaped
        } else {
            HostFate::Skipped
        }),
{
    if reachable {
        HostFate::Listed
    } else if !pid_alive {
        HostFate::Reaped
    } else {
        HostFate::Skipped
    }
}

/// Which kind of explicit endpoint a probe is checking; it decides the wording
/// of the refusal.
#[derive(Debug, Clone, Copy, PartialEq, Eq, Structural)]
pub enum Endpoint {
    NamedPipe,
    Socket,
    Descriptor,
}

/// Where a discovery run stands.
#[derive(Debug, Clone, PartialEq, Eq)]
pub enum DiscoveryStage {
    /// Waiting to learn whether the explicit path exists.
    AwaitExists,
    /// Waiting for the explicit descriptor file to be read.
    AwaitDescriptor,
    /// Waiting to learn whether the candidate's socket accepts connections.
    AwaitReachable { endpoint: Endpoint, candidate: HostDescriptor },
    /// Waiting for the list of advertised reachable hosts.
    AwaitHosts,
    /// The run has produced its result.
    Done,
}

/// What the caller observed when it carried out the requested probe.
#[derive(Debug, PartialEq, Eq)]
pub enum DiscoveryEvent {
    Exists(bool),
    DescriptorRead(Result<HostDescriptor, HostError>),
    Reachable(bool),
    HostsListed(Result<Vec<HostDescriptor>, HostError>),
}

/// What a discovery run asks the caller to do next.
#[derive(Debug, PartialEq, Eq)]
pub enum DiscoveryAction {
    /// Report whether the path exists on disk.
    CheckExists(String),
    /// Read and parse the host descriptor stored at the path.
    ReadDescriptor(String),
    /// Report whether the descriptor's socket accepts a connection.
    CheckReachable(HostDescriptor),
    /// Enumerate the advertised reachable hosts, newest first.
    ListHosts,
    /// Discovery is over.
    Finished(Result<HostDescriptor, HostError>),
}

/// Whether `event` is the outcome of the probe that `action` asks for.
pub open spec fn asks_for(action: DiscoveryAction, event: DiscoveryEvent) -> bool {
    match action {
        DiscoveryAction::CheckExists(_) => event is Exists,
        DiscoveryAction::ReadDescriptor(_) => event is DescriptorRead,
        DiscoveryAction::CheckReachable(_) => event is Reachable,
        DiscoveryAction::ListHosts => event is HostsListed,
        DiscoveryAction::Finished(_) => false,
    }
}

/// A discovery of a live, reachable host for one selector, driven by the caller's probes.
#[derive(Debug, Clone, PartialEq, Eq)]
pub struct TargetDiscovery {
    pub selector: TargetSelector,
    pub stage: DiscoveryStage,
}

/// Whether `path` names a Windows named pipe (`\\.\pipe\...`).
pub open spec fn is_pipe_path(path: Seq<char>) -> bool {
    crate::text::has_prefix(path, seq!['\\', '\\', '.', '\\', 'p', 'i', 'p', 'e', '\\'])
}

/// The descriptor that stands for an endpoint given directly by its path.
pub open spec fn explicit_descriptor(d: HostDescriptor, path: Seq<char>, label: Seq<char>) -> bool {
    &&& d.protocol_version == PROTOCOL_VERSION
    &&& d.pid == 0
    &&& d.instance_id@ == label
    &&& d.socket_path@ == path
    &&& d.renderer@ == "blitz"@
    &&& d.renderer_version@ == "unknown"@
    &&& d.primary_window_id is None
    &&& d.primary_document_id is None
}

/// The refusal for an endpoint whose socket does not accept connections.
pub open spec fn unreachable_error(e: HostError, endpoint: Endpoint, socket_path: Seq<char>) -> bool {
    &&& e.kind == ErrorKind::ConnectionRefused
    &&& e.message@ == match endpoint {
        Endpoint::NamedPipe => "Explicit Named Pipe at '"@ + socket_path + "' is unreachable"@,
        _ => "Control socket at '"@ + socket_path + "' is unreachable"@,
    }
}

fn make_explicit_descriptor(path: &String, label: &str) -> (d: HostDescriptor)
    ensures
        explicit_descriptor(d, path@, label@),
{
    HostDescriptor {
        protocol_version: PROTOCOL_VERSION,
        pid: 0,
        instance_id: owned(label),
        socket_path: path.clone(),
        renderer: owned("blitz"),
        renderer_version: owned("unknown"),
        primary_window_id: None,
        primary_document_id: None,
    }
}

fn pipe_path(path: &String) -> (b: bool)
    ensures
        b == is_pipe_path(path@),
{
    let chars = crate::text::chars_of(path.as_str());
    let prefix = crate::text::chars_of("\\\\.\\pipe\\");
    proof {
        reveal_strlit("\\\\.\\pipe\\");
        assert("\\\\.\\pipe\\"@ =~= seq!['\\', '\\', '.', '\\', 'p', 'i', 'p', 'e', '\\']);
    }
    crate::text::chars_start_with(chars.as_slice(), prefix.as_slice())
}

fn has_sock_extension(path: &String) -> (b: bool)
    ensures
        b == (path_extension(path@) == Some("sock"@)),
{
    match extension_of(path.as_str()) {
        Some(ext) => crate::text::str_is(ext.as_str(), "sock"),
        None => false,
    }
}

fn refusal(endpoint: Endpoint, socket_path: &String) -> (e: HostError)
    ensures
        unreachable_error(e, endpoint, socket_path@),
{
    let mut msg = match endpoint {
        Endpoint::NamedPipe => owned("Explicit Named Pipe at '"),
        _ => owned("Control socket at '"),
    };
    append_str(&mut msg, socket_path.as_str());
    append_str(&mut msg, "' is unreachable");
    HostError::new(ErrorKind::ConnectionRefused, msg)
}

impl TargetDiscovery {
    /// The stage agrees with the selector: the existence and descriptor probes
    /// belong to explicit paths, the host list to the other selectors.
    pub open spec fn wf(self) -> bool {
        match self.stage {
            DiscoveryStage::AwaitExists | DiscoveryStage::AwaitDescriptor => self.selector is ExplicitPath,
            DiscoveryStage::AwaitHosts => !(self.selector is ExplicitPath),
            _ => true,
        }
    }

    /// Whether `event` answers the probe that this run is waiting for.
    pub open spec fn awaits(self, event: DiscoveryEvent) -> bool {
        match self.stage {
            DiscoveryStage::AwaitExists => event is Exists,
            DiscoveryStage::AwaitDescriptor => event is DescriptorRead,
            DiscoveryStage::AwaitReachable { .. } => event is Reachable,
            DiscoveryStage::AwaitHosts => event is HostsListed,
            DiscoveryStage::Done => false,
        }
    }

    /// The stage and action that probing the candidate's socket leads to.
    pub open spec fn probing(
        self,
        a: DiscoveryAction,
        endpoint: Endpoint,
        candidate: HostDescriptor,
    ) -> bool {
        &&& self.stage == DiscoveryStage::AwaitReachable { endpoint, candidate }
        &&& a == DiscoveryAction::CheckReachable(candidate)
    }
}

/// How a discovery run for `selector` starts: `r` is the run and its first
/// action. An explicit named pipe is probed for reachability at once; another
/// explicit path is first checked for existence; a process ID or automatic
/// selection starts from the list of advertised hosts.
pub open spec fn starts_discovery(selector: TargetSelector, r: (TargetDiscovery, DiscoveryAction)) -> bool {
    &&& r.0.selector == selector
    &&& r.0.wf()
    &&& forall|e: DiscoveryEvent| #[trigger] r.0.awaits(e) == asks_for(r.1, e)
    &&& match selector {
        TargetSelector::ExplicitPath(path) => if is_pipe_path(path@) {
            r.0.probing(r.1, Endpoint::NamedPipe, r.1->CheckReachable_0) && explicit_descriptor(
                r.1->CheckReachable_0,
                path@,
                "explicit-pipe"@,
            )
        } else {
            r.0.stage == DiscoveryStage::AwaitExists && r.1 == DiscoveryAction::CheckExists(path)
        },
        _ => r.0.stage == DiscoveryStage::AwaitHosts && r.1 == DiscoveryAction::ListHosts,
    }
}

/// Starts discovering a live, reachable Blitz host according to the selector.
///
/// An explicit named pipe is probed for reachability at once; another explicit
/// path is first checked for existence; a process ID or automatic selection
/// starts from the list of advertised hosts.
pub fn discover_target(selector: &TargetSelector) -> (r: (TargetDiscovery, DiscoveryAction))
    ensures
        starts_discovery(*selector, r),
{
    let sel = selector.duplicate();
    match selector {
        TargetSelector::ExplicitPath(path) => {
            if pipe_path(path) {
                let d = make_explicit_descriptor(path, "explicit-pipe");
                let stage = DiscoveryStage::AwaitReachable {
                    endpoint: Endpoint::NamedPipe,
                    candidate: d.duplicate(),
                };
                (TargetDiscovery { selector: sel, stage }, DiscoveryAction::CheckReachable(d))
            } else {
                (
                    TargetDiscovery { selector: sel, stage: DiscoveryStage::AwaitExists },
                    DiscoveryAction::CheckExists(path.clone()),
                )
            }
        },
        _ => (
            TargetDiscovery { selector: sel, stage: DiscoveryStage::AwaitHosts },
            DiscoveryAction::ListHosts,
        ),
    }
}

/// Starts discovery from an optional explicit descriptor, socket or pipe
/// path: as [`discover_target`] does for that path when given, and for
/// automatic selection otherwise.
pub fn discover(explicit: Option<&str>) -> (r: (TargetDiscovery, DiscoveryAction))
    ensures
        match explicit {
            Some(p) => r.0.selector matches TargetSelector::ExplicitPath(q) && q@ == p@,
            None => r.0.selector == TargetSelector::Auto,
        },
        starts_discovery(r.0.selector, r),
{
    let selector = match explicit {
        Some(p) => TargetSelector::ExplicitPath(owned(p)),
        None => TargetSelector::Auto,
    };
    discover_target(&selector)
}

impl TargetDiscovery {
    /// Advances the run with the outcome of the probe it asked for.
    pub fn step(&mut self, event: DiscoveryEvent) -> (a: DiscoveryAction)
        requires
            old(self).wf(),
            old(self).awaits(event),
        ensures
            final(self).wf(),
            final(self).selector == old(self).selector,
            forall|e: DiscoveryEvent| #[trigger] final(self).awaits(e) == asks_for(a, e),
            match (old(self).stage, event) {
                (DiscoveryStage::AwaitExists, DiscoveryEvent::Exists(false)) => {
                    &&& final(self).stage == DiscoveryStage::Done
                    &&& a matches DiscoveryAction::Finished(Err(e))
                    &&& e.kind == ErrorKind::NotFound
                    &&& e.message@ == "Explicit descriptor or socket '"@
                        + old(self).selector->ExplicitPath_0@ + "' does not exist"@
                },
                (DiscoveryStage::AwaitExists, DiscoveryEvent::Exists(true)) => {
                    let path = old(self).selector->ExplicitPath_0;
                    if path_extension(path@) == Some("sock"@) {
                        final(self).probing(a, Endpoint::Socket, a->CheckReachable_0)
                            && explicit_descriptor(a->CheckReachable_0, path@, "explicit-socket"@)
                    } else {
                        final(self).stage == DiscoveryStage::AwaitDescriptor && a
                            == DiscoveryAction::ReadDescriptor(path)
                    }
                },
                (DiscoveryStage::AwaitDescriptor, DiscoveryEvent::DescriptorRead(Err(e))) => {
                    final(self).stage == DiscoveryStage::Done && a == DiscoveryAction::Finished(
                        Err(e),
                    )
                },
                (DiscoveryStage::AwaitDescriptor, DiscoveryEvent::DescriptorRead(Ok(d))) => {
                    final(self).probing(a, Endpoint::Descriptor, d)
                },
                (
                    DiscoveryStage::AwaitReachable { endpoint, candidate },
                    DiscoveryEvent::Reachable(true),
                ) => {
                    final(self).stage == DiscoveryStage::Done && a == DiscoveryAction::Finished(
                        Ok(candidate),
                    )
                },
                (
                    DiscoveryStage::AwaitReachable { endpoint, candidate },
                    DiscoveryEvent::Reachable(false),
                ) => {
                    &&& final(self).stage == DiscoveryStage::Done
                    &&& a matches DiscoveryAction::Finished(Err(e))
                    &&& unreachable_error(e, endpoint, candidate.socket_path@)
                },
                (DiscoveryStage::AwaitHosts, DiscoveryEvent::HostsListed(Err(e))) => {
                    final(self).stage == DiscoveryStage::Done && a == DiscoveryAction::Finished(
                        Err(e),
                    )
                },
                (DiscoveryStage::AwaitHosts, DiscoveryEvent::HostsListed(Ok(hosts))) => {
                    &&& final(self).stage == DiscoveryStage::Done
                    &&& a matches DiscoveryAction::Finished(r)
                    &&& resolves_from_hosts(old(self).selector, hosts@, r)
                },
                _ => false,
            },
    {
        let mut stage = DiscoveryStage::Done;
        std::mem::swap(&mut stage, &mut self.stage);
        match (stage, event) {
            (DiscoveryStage::AwaitExists, DiscoveryEvent::Exists(exists)) => {
                let path = match &self.selector {
                    TargetSelector::ExplicitPath(p) => p.clone(),
                    _ => String::new(),
                };
                if !exists {
                    let mut msg = owned("Explicit descriptor or socket '");
                    append_str(&mut msg, path.as_str());
                    append_str(&mut msg, "' does not exist");
                    DiscoveryAction::Finished(Err(HostError::new(ErrorKind::NotFound, msg)))
                } else if has_sock_extension(&path) {
                    let d = make_explicit_descriptor(&path, "explicit-socket");
                    self.stage = DiscoveryStage::AwaitReachable {
                        endpoint: Endpoint::Socket,
                        candidate: d.duplicate(),
                    };
                    DiscoveryAction::CheckReachable(d)
                } else {
                    self.stage = DiscoveryStage::AwaitDescriptor;
                    DiscoveryAction::ReadDescriptor(path)
                }
            },
            (DiscoveryStage::AwaitDescriptor, DiscoveryEvent::DescriptorRead(read)) => {
                match read {
                    Err(e) => DiscoveryAction::Finished(Err(e)),
                    Ok(d) => {
                        self.stage = DiscoveryStage::AwaitReachable {
                            endpoint: Endpoint::Descriptor,
                            candidate: d.duplicate(),
                        };
                        DiscoveryAction::CheckReachable(d)
                    },
                }
            },
            (
                DiscoveryStage::AwaitReachable { endpoint, candidate },
                DiscoveryEvent::Reachable(reachable),
            ) => {
                if reachable {
                    DiscoveryAction::Finished(Ok(candidate))
                } else {
                    DiscoveryAction::Finished(Err(refusal(endpoint, &candidate.socket_path)))
                }
            },
            (DiscoveryStage::AwaitHosts, DiscoveryEvent::HostsListed(listed)) => {
                match listed {
                    Err(e) => DiscoveryAction::Finished(Err(e)),
                    Ok(hosts) => DiscoveryAction::Finished(
                        resolve_target_from_hosts(&self.selector, hosts),
                    ),
                }
            },
            (_, _) => DiscoveryAction::ListHosts,
        }
    }
}


} // verus!

verus! {

/// `r` holds the entries of `s` reordered by `perm` (entry `i` of `r` is entry
/// `perm[i]` of `s`), newest first by their time stamp, entries with equal
/// stamps kept in arrival order.
pub open spec fn stable_newest_first<T>(s: Seq<(u64, T)>, r: Seq<(u64, T)>, perm: Seq<int>) -> bool {
    &&& perm.len() == s.len()
    &&& r.len() == s.len()
    &&& forall|i: int| 0 <= i < perm.len() ==> 0 <= #[trigger] perm[i] < s.len()
    &&& forall|i: int, j: int| 0 <= i < j < perm.len() ==> perm[i] != perm[j]
    &&& forall|i: int| 0 <= i < r.len() ==> #[trigger] r[i] == s[perm[i]]
    &&& forall|i: int, j: int| 0 <= i < j < r.len() ==> r[i].0 >= r[j].0
    &&& forall|i: int, j: int| 0 <= i < j < r.len() && r[i].0 == r[j].0 ==> perm[i] < perm[j]
}

/// Orders time-stamped entries newest first (larger stamp first); entries with
/// equal stamps keep their order. This is how advertised hosts are listed: by
/// the modification time of their descriptors, newest first.
pub fn newest_first<T>(entries: Vec<(u64, T)>) -> (r: Vec<(u64, T)>)
    ensures
        exists|perm: Seq<int>| stable_newest_first(entries@, r@, perm),
{
    let ghost all = entries@;
    let ghost n = entries@.len() as int;
    let mut rest = entries;
    let mut r: Vec<(u64, T)> = Vec::new();
    let ghost mut perm: Seq<int> = Seq::empty();
    while rest.len() > 0
        invariant
            n == all.len(),
            rest@ == all.take(rest@.len() as int),
            r@.len() == n - rest@.len(),
            perm.len() == r@.len(),
            forall|i: int| 0 <= i < perm.len() ==> rest@.len() <= #[trigger] perm[i] < n,
            forall|i: int, j: int| 0 <= i < j < perm.len() ==> perm[i] != perm[j],
            forall|i: int| 0 <= i < r@.len() ==> #[trigger] r@[i] == all[perm[i]],
            forall|i: int, j: int| 0 <= i < j < r@.len() ==> r@[i].0 >= r@[j].0,
            forall|i: int, j: int|
                0 <= i < j < r@.len() && r@[i].0 == r@[j].0 ==> perm[i] < perm[j],
        decreases rest@.len(),
    {
        let ghost k = rest@.len() - 1;
        let e = rest.pop().unwrap();
        assert(e == all[k]);
        assert(rest@ =~= all.take(k));
        let stamp = e.0;
        let mut p: usize = 0;
        while p < r.len() && r[p].0 > stamp
            invariant
                p <= r@.len(),
                forall|i: int| 0 <= i < p ==> r@[i].0 > stamp,
            decreases r@.len() - p,
        {
            p = p + 1;
        }
        proof {
            assert forall|i: int| p <= i < r@.len() implies r@[i].0 <= stamp by {
                if i > p {
                    assert(r@[p as int].0 >= r@[i].0);
                }
            }
        }
        let ghost old_r = r@;
        let ghost old_perm = perm;
        r.insert(p, e);
        proof {
            old_r.insert_ensures(p as int, e);
            old_perm.insert_ensures(p as int, k);
            perm = old_perm.insert(p as int, k);
            let pi = p as int;
            assert forall|i: int| 0 <= i < r@.len() implies #[trigger] r@[i] == all[perm[i]] by {
                if i > pi {
                    assert(r@[i] == old_r[i - 1]);
                    assert(perm[i] == old_perm[i - 1]);
                }
            }
            assert forall|i: int| 0 <= i < perm.len() implies rest@.len() <= #[trigger] perm[i] < n by {
                if i > pi {
                    assert(perm[i] == old_perm[i - 1]);
                }
            }
            assert forall|i: int, j: int| 0 <= i < j < perm.len() implies perm[i] != perm[j] by {
                if i > pi {
                    assert(perm[i] == old_perm[i - 1]);
                    assert(perm[j] == old_perm[j - 1]);
                } else if i == pi {
                    assert(perm[j] == old_perm[j - 1]);
                } else if j > pi {
                    assert(perm[j] == old_perm[j - 1]);
                } else if j == pi {
                } else {
                }
            }
            assert forall|i: int, j: int| 0 <= i < j < r@.len() implies r@[i].0 >= r@[j].0 by {
                if i > pi {
                    assert(r@[i] == old_r[i - 1]);
                    assert(r@[j] == old_r[j - 1]);
                } else if i == pi {
                    assert(r@[j] == old_r[j - 1]);
                } else if j > pi {
                    assert(r@[j] == old_r[j - 1]);
                    assert(old_r[i].0 > stamp);
                } else if j == pi {
                    assert(old_r[i].0 > stamp);
                }
            }
            assert forall|i: int, j: int|
                0 <= i < j < r@.len() && r@[i].0 == r@[j].0 implies perm[i] < perm[j] by {
                if i > pi {
                    assert(r@[i] == old_r[i - 1]);
                    assert(r@[j] == old_r[j - 1]);
                    assert(perm[i] == old_perm[i - 1]);
                    assert(perm[j] == old_perm[j - 1]);
                } else if i == pi {
                    assert(perm[j] == old_perm[j - 1]);
                } else if j > pi {
                    assert(r@[j] == old_r[j - 1]);
                    assert(perm[j] == old_perm[j - 1]);
                } else if j == pi {
                    assert(old_r[i].0 > stamp);
                }
            }
        }
    }
    assert(stable_newest_first(all, r@, perm));
    r
}

} // verus!
