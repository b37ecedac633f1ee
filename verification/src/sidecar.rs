//! The supervisor of the download-RPC helper process: finding a port,
//! starting the process once, and stopping it.

use vstd::prelude::*;
use crate::text::decimal;
use crate::text::join;
use crate::text::join_decimal;
use crate::text::strings_view;

verus! {

/// The port at which the search for a free port begins, and the port
/// reported before the service has started.
pub const DEFAULT_PORT: u16 = 6800;

/// How many ports are tried, at most, in one search.
pub const PORT_ATTEMPTS: u16 = 100;

/// `port` is one of the candidates of a search that begins at `start`.
pub open spec fn is_candidate(start: int, port: int) -> bool {
    start <= port < start + PORT_ATTEMPTS && port <= u16::MAX
}

/// Finds a free port: tries `start_port`, `start_port + 1`, ... in turn, at
/// most 100 ports and none above 65535, and returns the first for which
/// `probe` says yes, or `None` if it says no for all of them. The probe is
/// not asked about any port after the one returned.
///
/// Another process may take the port between the probe and its use: the
/// caller still has to handle a failure to bind it.
pub fn find_available_port<F: Fn(u16) -> bool>(start_port: u16, probe: F) -> (found: Option<u16>)
    requires
        forall|port: u16| #[trigger] call_requires(probe, (port,)),
    ensures
        found matches Some(port) ==> is_candidate(start_port as int, port as int) && call_ensures(
            probe,
            (port,),
            true,
        ),
        forall|earlier: u16|
            is_candidate(start_port as int, earlier as int) && (found matches Some(port)
                ==> earlier < port) ==> #[trigger] call_ensures(probe, (earlier,), false),
{
    let mut port: u16 = start_port;
    let mut tried: u16 = 0;
    loop
        invariant
            forall|port: u16| #[trigger] call_requires(probe, (port,)),
            tried <= PORT_ATTEMPTS,
            port == start_port + tried,
            forall|earlier: u16|
                start_port <= earlier < port ==> #[trigger] call_ensures(probe, (earlier,), false),
        decreases PORT_ATTEMPTS - tried,
    {
        if tried >= PORT_ATTEMPTS {
            return None;
        }
        if probe(port) {
            return Some(port);
        }
        if port == u16::MAX {
            return None;
        }
        port = port + 1;
        tried = tried + 1;
    }
}

/// The arguments with which the helper process is launched: it continues
/// unfinished downloads, serves RPC on `port` on all interfaces and to
/// callers of any origin, stays in the foreground so that it ends with its
/// supervisor, and loads and saves its session in `session_file`, once a
/// minute.
pub open spec fn launch_args_of(port: int, session_file: Seq<char>) -> Seq<Seq<char>> {
    seq![
        "--continue"@,
        "--enable-rpc"@,
        "--rpc-listen-port="@ + decimal(port as nat),
        "--rpc-allow-origin-all"@,
        "--rpc-listen-all"@,
        "--daemon=false"@,
        "--input-file="@ + session_file,
        "--save-session="@ + session_file,
        "--save-session-interval=60"@,
    ]
}

/// Builds the arguments with which the helper process is launched.
pub fn launch_args(port: u16, session_file: &str) -> (args: Vec<String>)
    ensures
        strings_view(args@) == launch_args_of(port as int, session_file@),
{
    let mut args: Vec<String> = Vec::new();
    args.push("--continue".to_owned());
    args.push("--enable-rpc".to_owned());
    args.push(join_decimal("--rpc-listen-port=", port as u64));
    args.push("--rpc-allow-origin-all".to_owned());
    args.push("--rpc-listen-all".to_owned());
    args.push("--daemon=false".to_owned());
    args.push(join("--input-file=", session_file));
    args.push(join("--save-session=", session_file));
    args.push("--save-session-interval=60".to_owned());
    proof {
        assert(strings_view(args@) =~= launch_args_of(port as int, session_file@));
    }
    args
}

/// Whether the helper process is to be stopped after a window was
/// destroyed: only when no window is left.
pub fn last_window_closed(remaining_windows: usize) -> (stop: bool)
    ensures
        stop == (remaining_windows == 0),
{
    remaining_windows < 1
}

/// Where the helper process stands.
#[derive(Clone, Copy, Debug, PartialEq, Eq, Structural)]
pub enum SidecarState {
    NotStarted,
    Running,
    Stopped,
}

/// What a request to start calls for.
#[derive(Clone, Copy, Debug, PartialEq, Eq, Structural)]
pub enum StartDecision {
    /// The process runs already: nothing to do.
    AlreadyRunning,
    /// Launch the process on this port, then report its handle.
    Launch { port: u16 },
}

/// Why the helper process cannot be started.
#[derive(Clone, Copy, Debug, PartialEq, Eq, Structural)]
pub enum SidecarError {
    /// None of the candidate ports is free.
    NoPortAvailable,
}

impl SidecarError {
    /// The text under which the error is logged.
    pub fn message(&self) -> (text: &'static str)
        ensures
            text@ == "没有找到可用的端口"@,
    {
        "没有找到可用的端口"
    }
}

/// The supervisor of the one helper process. `H` is the handle by which the
/// running process is stopped.
pub struct SidecarSupervisor<H> {
    state: SidecarState,
    port: u16,
    handle: Option<H>,
}

impl<H> SidecarSupervisor<H> {
    /// Where the process stands.
    pub closed spec fn state(&self) -> SidecarState {
        self.state
    }

    /// The port last bound, or the default before any was.
    pub closed spec fn bound_port(&self) -> u16 {
        self.port
    }

    /// The handle of the running process.
    pub closed spec fn handle(&self) -> Option<H> {
        self.handle
    }

    /// A handle is held exactly while the process runs.
    pub open spec fn wf(&self) -> bool {
        self.handle().is_some() <==> self.state() is Running
    }

    /// A supervisor whose process has not been started.
    pub fn new() -> (supervisor: SidecarSupervisor<H>)
        ensures
            supervisor.wf(),
            supervisor.state() is NotStarted,
            supervisor.bound_port() == DEFAULT_PORT,
            supervisor.handle().is_none(),
    {
        SidecarSupervisor { state: SidecarState::NotStarted, port: DEFAULT_PORT, handle: None }
    }

    /// The port on which the service listens; the default while none was
    /// bound.
    pub fn get_port(&self) -> (port: u16)
        ensures
            port == self.bound_port(),
    {
        self.port
    }

    /// Whether the process runs.
    pub fn is_running(&self) -> (running: bool)
        requires
            self.wf(),
        ensures
            running == (self.state() is Running),
    {
        self.handle.is_some()
    }

    /// Decides what a request to start calls for. While the process runs,
    /// nothing: a second start is no error. Otherwise a free port is looked
    /// for from the default port on; the port found is kept for `get_port`
    /// and the process is to be launched on it. Where no port is free the
    /// request fails and the supervisor stays as it was.
    pub fn begin_start<F: Fn(u16) -> bool>(&mut self, probe: F) -> (decision: Result<
        StartDecision,
        SidecarError,
    >)
        requires
            old(self).wf(),
            forall|port: u16| #[trigger] call_requires(probe, (port,)),
        ensures
            final(self).wf(),
            final(self).state() == old(self).state(),
            final(self).handle() == old(self).handle(),
            old(self).state() is Running ==> decision == Ok::<StartDecision, SidecarError>(
                StartDecision::AlreadyRunning,
            ) && final(self).bound_port() == old(self).bound_port(),
            !(old(self).state() is Running) ==> !(decision matches Ok(
                StartDecision::AlreadyRunning,
            )),
            decision matches Ok(StartDecision::Launch { port }) ==> final(self).bound_port()
                == port && is_candidate(DEFAULT_PORT as int, port as int) && call_ensures(
                probe,
                (port,),
                true,
            ),
            decision is Err ==> final(self).bound_port() == old(self).bound_port(),
            forall|earlier: u16|
                !(old(self).state() is Running) && is_candidate(
                    DEFAULT_PORT as int,
                    earlier as int,
                ) && (decision matches Ok(StartDecision::Launch { port }) ==> earlier < port)
                    ==> #[trigger] call_ensures(probe, (earlier,), false),
    {
        if self.handle.is_some() {
            return Ok(StartDecision::AlreadyRunning);
        }
        match find_available_port(DEFAULT_PORT, probe) {
            Some(port) => {
                self.port = port;
                Ok(StartDecision::Launch { port })
            },
            None => Err(SidecarError::NoPortAvailable),
        }
    }

    /// Takes the handle of the process just launched: the process runs from
    /// now on. While a process runs already the supervisor keeps that one
    /// and hands the new handle back, so that there is never more than one.
    pub fn finish_start(&mut self, handle: H) -> (surplus: Option<H>)
        requires
            old(self).wf(),
        ensures
            final(self).wf(),
            final(self).state() is Running,
            final(self).bound_port() == old(self).bound_port(),
            old(self).state() is Running ==> surplus == Some(handle) && final(self).handle()
                == old(self).handle(),
            !(old(self).state() is Running) ==> surplus.is_none() && final(self).handle() == Some(
                handle,
            ),
    {
        if self.handle.is_some() {
            Some(handle)
        } else {
            self.handle = Some(handle);
            self.state = SidecarState::Running;
            None
        }
    }

    /// Stops supervising: hands out the handle of the running process, which
    /// the caller is to terminate, and keeps none. Without a running process
    /// nothing changes and nothing is handed out.
    pub fn stop(&mut self) -> (handle: Option<H>)
        requires
            old(self).wf(),
        ensures
            final(self).wf(),
            handle == old(self).handle(),
            final(self).handle().is_none(),
            final(self).bound_port() == old(self).bound_port(),
            old(self).state() is Running ==> final(self).state() is Stopped,
            !(old(self).state() is Running) ==> final(self).state() == old(self).state(),
    {
        let handle = self.handle.take();
        if handle.is_some() {
            self.state = SidecarState::Stopped;
        }
        handle
    }
}

} // verus!
