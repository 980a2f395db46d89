//! The decisions of the serial transport: the command line it writes,
//! how long it waits for a reply, what it strips from the reply, which
//! USB ports are Flipper Zeros, and when a liveness check succeeds.

use vstd::prelude::*;
use crate::error::TransportError;
use crate::text::{chars_of, owned, push_char, concat};

verus! {

/// The result of a single command.
#[derive(Debug, Clone, PartialEq, Eq)]
pub struct CommandResult {
    /// Raw payload bytes returned by the device.
    pub response: Vec<u8>,
    /// Optional textual status the device may attach to a response.
    pub status: Option<String>,
}

impl CommandResult {
    /// A reply with `response` and no status.
    pub fn ok(response: Vec<u8>) -> (r: CommandResult)
        ensures
            r.response == response,
            r.status is None,
    {
        CommandResult { response, status: None }
    }

    /// The same reply with `status` attached.
    pub fn with_status(self, status: String) -> (r: CommandResult)
        ensures
            r.response == self.response,
            r.status == Some(status),
    {
        CommandResult { response: self.response, status: Some(status) }
    }
}

/// The outcome of a liveness check from the reply to an empty line: the
/// device is alive when it answered with any bytes.
pub fn ping_result(reply: &CommandResult) -> (r: Result<(), TransportError>)
    ensures
        reply.response@.len() > 0 ==> r is Ok,
        reply.response@.len() == 0 ==> (r matches Err(TransportError::Io(m)) && m@
            == "ping: empty reply"@),
{
    if reply.response.len() == 0 {
        Err(TransportError::Io(owned("ping: empty reply")))
    } else {
        Ok(())
    }
}

/// The arguments, each after a space.
pub open spec fn spaced(args: Seq<Seq<char>>) -> Seq<char>
    decreases args.len(),
{
    if args.len() == 0 {
        seq![]
    } else {
        spaced(args.drop_last()) + " "@ + args.last()
    }
}

/// The line the transport writes for a command: the command, each
/// argument after a space, and a newline.
pub open spec fn line_of(command: Seq<char>, args: Seq<Seq<char>>) -> Seq<char> {
    command + spaced(args) + "\n"@
}

/// The line to write for `command` with `args`.
pub fn command_line(command: &str, args: &[&str]) -> (r: String)
    ensures
        r@ == line_of(command@, args@.map_values(|a: &str| a@)),
{
    let mut line = owned(command);
    let mut i: usize = 0;
    proof {
        reveal_strlit(" ");
        reveal_strlit("\n");
    }
    while i < args.len()
        invariant
            i <= args.len(),
            line@ == command@ + spaced(args@.take(i as int).map_values(|a: &str| a@)),
        decreases args.len() - i,
    {
        let ghost before = line@;
        let next = concat(line.as_str(), " ");
        line = concat(next.as_str(), args[i]);
        assert(args@.take(i + 1).map_values(|a: &str| a@).drop_last() =~= args@.take(
            i as int,
        ).map_values(|a: &str| a@));
        assert(line@ =~= command@ + spaced(args@.take(i + 1).map_values(|a: &str| a@)));
        i = i + 1;
    }
    assert(args@.take(args.len() as int) =~= args@);
    push_char(&mut line, '\n');
    assert(line@ =~= line_of(command@, args@.map_values(|a: &str| a@)));
    line
}

/// `s` ends with the CLI prompt `> `.
pub open spec fn ends_with_prompt(s: Seq<u8>) -> bool {
    s.len() >= 2 && s[s.len() - 2] == 62 && s[s.len() - 1] == 32
}

/// A reply without its trailing prompts.
pub open spec fn without_prompts(s: Seq<u8>) -> Seq<u8>
    decreases s.len(),
{
    if ends_with_prompt(s) {
        without_prompts(s.take(s.len() - 2))
    } else {
        s
    }
}

/// Drops every trailing `> ` prompt from a reply, so parsers see only the
/// command's reply text.
pub fn strip_prompts(sink: &mut Vec<u8>)
    ensures
        final(sink)@ == without_prompts(old(sink)@),
{
    while sink.len() >= 2 && sink[sink.len() - 2] == 62 && sink[sink.len() - 1] == 32
        invariant
            without_prompts(sink@) == without_prompts(old(sink)@),
        decreases sink.len(),
    {
        let ghost before = sink@;
        sink.pop();
        sink.pop();
        assert(sink@ =~= before.take(before.len() - 2));
    }
}

/// What `strip_prompts` leaves is a prefix of the reply that no longer
/// ends in a prompt, so stripping again changes nothing.
pub proof fn lemma_prompts_stripped(s: Seq<u8>)
    ensures
        !ends_with_prompt(without_prompts(s)),
        without_prompts(s).len() <= s.len(),
        without_prompts(s) == s.take(without_prompts(s).len() as int),
        without_prompts(without_prompts(s)) == without_prompts(s),
    decreases s.len(),
{
    if ends_with_prompt(s) {
        let t = s.take(s.len() - 2);
        lemma_prompts_stripped(t);
        assert(without_prompts(s) == without_prompts(t));
        assert(t.take(without_prompts(t).len() as int) =~= s.take(without_prompts(t).len() as int));
    } else {
        assert(s.take(s.len() as int) =~= s);
    }
}

/// Idle gap that ends a reply: no new byte for this long.
pub const IDLE_GAP_MS: u64 = 1500;

/// Idle gap for the first command after connecting, while the boot banner
/// is still on its way.
pub const FIRST_IDLE_GAP_MS: u64 = 8000;

/// Hard cap on one command's read window: as long as the first
/// command's idle gap, so the boot banner still has time to arrive.
pub const READ_TIMEOUT_MS: u64 = 8000;

/// The idle gap of a command: the longer one right after connecting.
pub fn idle_gap_ms(first_after_connect: bool) -> (r: u64)
    ensures
        r == (if first_after_connect {
            FIRST_IDLE_GAP_MS
        } else {
            IDLE_GAP_MS
        }),
{
    if first_after_connect {
        FIRST_IDLE_GAP_MS
    } else {
        IDLE_GAP_MS
    }
}

/// Whether a read window is over before the next read: the hard cap has
/// passed, or nothing arrived within the idle gap, or the idle gap has
/// passed since the last byte.
pub open spec fn window_over(elapsed_ms: u64, since_last_byte_ms: u64, received: bool, gap_ms: u64) -> bool {
    ||| elapsed_ms >= READ_TIMEOUT_MS
    ||| (!received && elapsed_ms >= gap_ms)
    ||| (received && since_last_byte_ms >= gap_ms)
}

/// Whether the read window is over before the next read.
pub fn read_window_over(elapsed_ms: u64, since_last_byte_ms: u64, received: bool, gap_ms: u64) -> (r: bool)
    ensures
        r == window_over(elapsed_ms, since_last_byte_ms, received, gap_ms),
{
    elapsed_ms >= READ_TIMEOUT_MS || (!received && elapsed_ms >= gap_ms) || (received
        && since_last_byte_ms >= gap_ms)
}

/// Whether a read that timed out ends the window: only once bytes have
/// arrived and the idle gap has passed since the last one.
pub fn quiet_after_timeout(since_last_byte_ms: u64, received: bool, gap_ms: u64) -> (r: bool)
    ensures
        r == (received && since_last_byte_ms >= gap_ms),
{
    received && since_last_byte_ms >= gap_ms
}

/// A read window always ends by the hard cap.
pub proof fn lemma_window_capped(since_last_byte_ms: u64, received: bool, gap_ms: u64, elapsed_ms: u64)
    requires
        elapsed_ms >= READ_TIMEOUT_MS,
    ensures
        window_over(elapsed_ms, since_last_byte_ms, received, gap_ms),
{
}

/// One command's read window: the bytes received so far, and the idle
/// gap that ends the window.
#[derive(Debug)]
pub struct ReadWindow {
    pub sink: Vec<u8>,
    pub gap_ms: u64,
}

/// What the reader does next.
#[derive(Debug, Clone, Copy, PartialEq, Eq, Structural)]
pub enum ReadStep {
    /// Read another chunk.
    Read,
    /// The reply is complete.
    Finish,
}

impl ReadWindow {
    /// An empty window for a command; the first command after connecting
    /// waits longer.
    pub fn open(first_after_connect: bool) -> (r: ReadWindow)
        ensures
            r.sink@ == Seq::<u8>::empty(),
            r.gap_ms == (if first_after_connect {
                FIRST_IDLE_GAP_MS
            } else {
                IDLE_GAP_MS
            }),
    {
        ReadWindow { sink: Vec::new(), gap_ms: idle_gap_ms(first_after_connect) }
    }

    /// Whether to read again, `elapsed_ms` into the window and
    /// `since_last_byte_ms` after the last byte.
    pub fn next_step(&self, elapsed_ms: u64, since_last_byte_ms: u64) -> (r: ReadStep)
        ensures
            r == (if window_over(elapsed_ms, since_last_byte_ms, self.sink@.len() > 0, self.gap_ms) {
                ReadStep::Finish
            } else {
                ReadStep::Read
            }),
    {
        if read_window_over(elapsed_ms, since_last_byte_ms, self.sink.len() > 0, self.gap_ms) {
            ReadStep::Finish
        } else {
            ReadStep::Read
        }
    }

    /// Takes the bytes of one read: none means the port closed and the
    /// reply is complete; otherwise they are kept and reading goes on.
    pub fn on_read(&mut self, chunk: &[u8]) -> (r: ReadStep)
        ensures
            final(self).gap_ms == old(self).gap_ms,
            chunk@.len() == 0 ==> r == ReadStep::Finish && final(self).sink@ == old(self).sink@,
            chunk@.len() > 0 ==> r == ReadStep::Read && final(self).sink@ == old(self).sink@
                + chunk@,
    {
        if chunk.len() == 0 {
            return ReadStep::Finish;
        }
        let ghost before = self.sink@;
        let mut i: usize = 0;
        while i < chunk.len()
            invariant
                i <= chunk.len(),
                self.sink@ == before + chunk@.take(i as int),
                self.gap_ms == old(self).gap_ms,
            decreases chunk.len() - i,
        {
            self.sink.push(chunk[i]);
            assert(self.sink@ =~= before + chunk@.take(i + 1));
            i = i + 1;
        }
        assert(chunk@.take(chunk.len() as int) =~= chunk@);
        ReadStep::Read
    }

    /// Whether a read that timed out, `since_last_byte_ms` after the last
    /// byte, ends the window.
    pub fn on_timeout(&self, since_last_byte_ms: u64) -> (r: ReadStep)
        ensures
            r == (if self.sink@.len() > 0 && since_last_byte_ms >= self.gap_ms {
                ReadStep::Finish
            } else {
                ReadStep::Read
            }),
    {
        if quiet_after_timeout(since_last_byte_ms, self.sink.len() > 0, self.gap_ms) {
            ReadStep::Finish
        } else {
            ReadStep::Read
        }
    }

    /// The reply: the bytes received, without trailing prompts.
    pub fn reply(self) -> (r: Vec<u8>)
        ensures
            r@ == without_prompts(self.sink@),
    {
        let mut sink = self.sink;
        strip_prompts(&mut sink);
        sink
    }
}

/// The wait between two scans for a device.
pub const POLL_INTERVAL_MS: u64 = 250;

/// What waiting for a device does after one scan.
#[derive(Debug, Clone)]
pub enum PollStep {
    /// A Flipper was found: the first endpoint detected.
    Found(DeviceEndpoint),
    /// None was found: wait this long and scan again.
    Wait(u64),
}

/// The step after a scan that detected `detected`: the first endpoint,
/// or a wait of [`POLL_INTERVAL_MS`] when there is none.
pub fn poll_step(detected: &Vec<DeviceEndpoint>) -> (r: PollStep)
    ensures
        detected@.len() > 0 ==> (r matches PollStep::Found(e) && endpoint_view(e) == endpoint_view(
            detected@[0],
        )),
        detected@.len() == 0 ==> (r matches PollStep::Wait(ms) && ms == POLL_INTERVAL_MS),
{
    if detected.len() > 0 {
        PollStep::Found(copy_endpoint(&detected[0]))
    } else {
        PollStep::Wait(POLL_INTERVAL_MS)
    }
}

/// The USB vendor id of the Flipper Zero (STMicroelectronics).
pub const FLIPPER_VID: u16 = 0x0483;

/// What the host knows of a USB serial port.
#[derive(Debug, Clone, PartialEq, Eq)]
pub struct UsbPortInfo {
    pub vid: u16,
    pub pid: u16,
    pub serial_number: Option<String>,
}

/// A serial port of the host: its name, and its USB identity when it is a
/// USB port.
#[derive(Debug, Clone, PartialEq, Eq)]
pub struct PortInfo {
    pub port_name: String,
    pub usb: Option<UsbPortInfo>,
}

/// A detected Flipper endpoint.
#[derive(Debug, Clone, PartialEq, Eq)]
pub struct DeviceEndpoint {
    /// OS serial-port path.
    pub path: String,
    /// USB vendor id.
    pub vid: u16,
    /// USB product id; varies by boot mode.
    pub pid: u16,
    /// Serial number from the OS, when it gives a nonempty one.
    pub label: Option<String>,
}

/// The endpoint a port is, if it is a Flipper: a USB port with the
/// Flipper's vendor id, labelled by its serial number unless that is
/// empty.
pub open spec fn endpoint_of(p: PortInfo) -> Option<(Seq<char>, u16, u16, Option<Seq<char>>)> {
    match p.usb {
        Some(u) => if u.vid == FLIPPER_VID {
            Some(
                (
                    p.port_name@,
                    u.vid,
                    u.pid,
                    match u.serial_number {
                        Some(s) => if s@.len() > 0 {
                            Some(s@)
                        } else {
                            None
                        },
                        None => None,
                    },
                ),
            )
        } else {
            None
        },
        None => None,
    }
}

/// The endpoints among `ports`, in order.
pub open spec fn endpoints_of(ports: Seq<PortInfo>) -> Seq<(Seq<char>, u16, u16, Option<Seq<char>>)>
    decreases ports.len(),
{
    if ports.len() == 0 {
        seq![]
    } else {
        let rest = endpoints_of(ports.drop_last());
        match endpoint_of(ports.last()) {
            Some(e) => rest.push(e),
            None => rest,
        }
    }
}

/// The view of an endpoint.
pub open spec fn endpoint_view(e: DeviceEndpoint) -> (Seq<char>, u16, u16, Option<Seq<char>>) {
    (
        e.path@,
        e.vid,
        e.pid,
        match e.label {
            Some(s) => Some(s@),
            None => None,
        },
    )
}

/// The Flipper endpoints among the host's serial ports, in order.
pub fn flipper_endpoints(ports: &Vec<PortInfo>) -> (r: Vec<DeviceEndpoint>)
    ensures
        r@.map_values(|e: DeviceEndpoint| endpoint_view(e)) == endpoints_of(ports@),
{
    let mut r: Vec<DeviceEndpoint> = Vec::new();
    let mut i: usize = 0;
    while i < ports.len()
        invariant
            i <= ports.len(),
            r@.map_values(|e: DeviceEndpoint| endpoint_view(e)) == endpoints_of(ports@.take(i as int)),
        decreases ports.len() - i,
    {
        let p = &ports[i];
        let ghost before = r@;
        assert(ports@.take(i + 1).drop_last() =~= ports@.take(i as int));
        assert(ports@.take(i + 1).last() == ports@[i as int]);
        if let Some(u) = &p.usb {
            if u.vid == FLIPPER_VID {
                let label = match &u.serial_number {
                    Some(s) => if !s.as_str().is_empty() {
                        Some(s.clone())
                    } else {
                        None
                    },
                    None => None,
                };
                let e = DeviceEndpoint { path: p.port_name.clone(), vid: u.vid, pid: u.pid, label };
                r.push(e);
                assert(r@.map_values(|e: DeviceEndpoint| endpoint_view(e)) =~= before.map_values(
                    |e: DeviceEndpoint| endpoint_view(e),
                ).push(endpoint_view(e)));
            }
        }
        i = i + 1;
    }
    assert(ports@.take(ports.len() as int) =~= ports@);
    r
}

/// The product id of a Flipper in normal CDC mode.
pub const NORMAL_MODE_PID: u16 = 0x5740;

/// The first endpoint at `path`, if any.
pub open spec fn endpoint_at(eps: Seq<DeviceEndpoint>, path: Seq<char>) -> Option<DeviceEndpoint>
    decreases eps.len(),
{
    if eps.len() == 0 {
        None
    } else if eps[0].path@ == path {
        Some(eps[0])
    } else {
        endpoint_at(eps.drop_first(), path)
    }
}

/// The endpoint to open: with a path asked for, the detected endpoint at
/// that path, or else a Flipper in normal mode assumed to be there;
/// without one, the first endpoint detected.
pub open spec fn chosen_endpoint(eps: Seq<DeviceEndpoint>, device: Option<Seq<char>>) -> Option<
    (Seq<char>, u16, u16, Option<Seq<char>>),
> {
    match device {
        Some(p) => match endpoint_at(eps, p) {
            Some(e) => Some(endpoint_view(e)),
            None => Some((p, FLIPPER_VID, NORMAL_MODE_PID, None)),
        },
        None => if eps.len() > 0 {
            Some(endpoint_view(eps[0]))
        } else {
            None
        },
    }
}

/// A copy of an endpoint.
fn copy_endpoint(e: &DeviceEndpoint) -> (r: DeviceEndpoint)
    ensures
        endpoint_view(r) == endpoint_view(*e),
{
    DeviceEndpoint {
        path: e.path.clone(),
        vid: e.vid,
        pid: e.pid,
        label: match &e.label {
            Some(s) => Some(s.clone()),
            None => None,
        },
    }
}

/// The text of an optional path.
pub open spec fn path_view(device: Option<&str>) -> Option<Seq<char>> {
    match device {
        Some(d) => Some(d@),
        None => None,
    }
}

/// Picks the endpoint to open among those detected, given the path the
/// user asked for, if any.
pub fn choose_endpoint(eps: &Vec<DeviceEndpoint>, device: Option<&str>) -> (r: Option<DeviceEndpoint>)
    ensures
        match r {
            Some(e) => chosen_endpoint(eps@, path_view(device)) == Some(endpoint_view(e)),
            None => chosen_endpoint(eps@, path_view(device)) is None,
        },
{
    match device {
        Some(p) => {
            let target = owned(p);
            let mut i: usize = 0;
            assert(eps@.skip(0) =~= eps@);
            while i < eps.len()
                invariant
                    i <= eps.len(),
                    endpoint_at(eps@, p@) == endpoint_at(eps@.skip(i as int), p@),
                    target@ == p@,
                    path_view(device) == Some(p@),
                decreases eps.len() - i,
            {
                assert(eps@.skip(i as int)[0] == eps@[i as int]);
                assert(eps@.skip(i as int).drop_first() =~= eps@.skip(i + 1));
                if eps[i].path == target {
                    assert(eps@[i as int].path@ == p@);
                    return Some(copy_endpoint(&eps[i]));
                }
                i = i + 1;
            }
            Some(DeviceEndpoint { path: owned(p), vid: FLIPPER_VID, pid: NORMAL_MODE_PID, label: None })
        },
        None => {
            if eps.len() > 0 {
                Some(copy_endpoint(&eps[0]))
            } else {
                None
            }
        },
    }
}

} // verus!
