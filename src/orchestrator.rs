use vstd::prelude::*;
use vstd::string::StringSliceAdditionalSpecFns;
use crate::dfu::{console_view, send_command_to_recovery, MAX_COMMAND_LENGTH};
use crate::identity::{
    button_family, family_of, identity_of, parse_identity, ButtonFamily, IdentityRecord,
};
use crate::mode::DeviceMode;
use crate::transfer::{ControlRequest, RequestView, TransferOutcome};

verus! {

/// Pause, in milliseconds, before each scan of a polling wait.
pub const POLL_INTERVAL_MS: u64 = 1000;

/// Scans made while waiting for the diagnostic console before giving up.
pub const CONSOLE_POLL_BUDGET: u32 = 30;

/// Pause, in milliseconds, after each console command.
pub const SETTLE_DELAY_MS: u64 = 100;

/// Console commands sent to reboot into the loader.
pub const REBOOT_COMMAND_COUNT: usize = 3;

/// Why the device could not be brought into the loader.
#[derive(Clone, Copy, Debug, PartialEq, Eq, Structural)]
pub enum OrchestrationError {
    /// The diagnostic console did not appear within the polling budget.
    ConsoleNotReached,
    /// The serial string could not be read.
    IdentityUnreadable,
    /// The serial string lacks a marker or a hex field.
    MalformedIdentity,
    /// A console command did not complete.
    CommandNotDelivered,
}

impl OrchestrationError {
    /// Whether the whole pipeline starts over from a scan after this error.
    /// Every fault ends only the attempt in which it came, except a serial
    /// string without its markers or fields: that device needs the operator.
    pub fn restarts_from_scan(&self) -> (r: bool)
        ensures
            r == (*self != OrchestrationError::MalformedIdentity),
    {
        match self {
            OrchestrationError::MalformedIdentity => false,
            _ => true,
        }
    }
}

/// Where the orchestration of mode changes stands.
#[derive(Clone, Copy, Debug, PartialEq, Eq, Structural)]
pub enum Phase {
    /// The first scan.
    Scan,
    /// Ask the live system to enter the diagnostic console.
    EnterDiagnostic,
    /// Polling for the console; the scans made so far.
    AwaitConsole(u32),
    /// Read the console's serial string.
    ReadIdentity,
    /// The operator gets ready to hold the buttons.
    Prompt(ButtonFamily),
    /// Console command `k` of the reboot sequence.
    Command(ButtonFamily, usize),
    /// The operator keeps holding the buttons through the reboot.
    Hold(ButtonFamily),
    /// Polling, without bound, for the loader.
    AwaitLoader,
    /// The device is in the loader: the exploit runs next.
    Exploit,
    /// The device already runs the post-exploit bootloader.
    Complete,
    /// Given up.
    Failed(OrchestrationError),
}

/// What the owner of the bus reports back.
#[derive(Debug)]
pub enum Event {
    /// The mode of the first Apple device found, if any.
    Scanned(Option<DeviceMode>),
    /// The serial string read, or `None` when it could not be read.
    Serial(Option<String>),
    /// The outcome of a console command.
    Transferred(TransferOutcome),
    /// An action without a result was carried out.
    Performed,
}

/// The mathematical value of an `Event`.
pub enum EventView {
    Scanned(Option<DeviceMode>),
    Serial(Option<Seq<char>>),
    Transferred(TransferOutcome),
    Performed,
}

impl View for Event {
    type V = EventView;

    open spec fn view(&self) -> EventView {
        match self {
            Event::Scanned(m) => EventView::Scanned(*m),
            Event::Serial(s) => EventView::Serial(
                match s {
                    Some(t) => Some(t@),
                    None => None,
                },
            ),
            Event::Transferred(o) => EventView::Transferred(*o),
            Event::Performed => EventView::Performed,
        }
    }
}

/// What the owner of the bus is asked to do next.
#[derive(Debug)]
pub enum Action {
    Scan,
    /// Sleep this many milliseconds, then scan.
    ScanAfter(u64),
    /// Ask the device-management service of the live system to enter the
    /// diagnostic console; the answer is not waited for.
    EnterDiagnosticMode,
    ReadSerial,
    /// Wait for the operator, then count down while the buttons of this
    /// family are pressed.
    PromptOperator(ButtonFamily),
    /// Issue the request, then sleep this many milliseconds.
    SendCommand(ControlRequest, u64),
    /// Count down while the operator holds the button of this family.
    HoldButtons(ButtonFamily),
    StartExploit,
    Finish,
    Fail(OrchestrationError),
}

/// The mathematical value of an `Action`.
pub enum ActionView {
    Scan,
    ScanAfter(u64),
    EnterDiagnosticMode,
    ReadSerial,
    PromptOperator(ButtonFamily),
    SendCommand(RequestView, u64),
    HoldButtons(ButtonFamily),
    StartExploit,
    Finish,
    Fail(OrchestrationError),
}

impl View for Action {
    type V = ActionView;

    open spec fn view(&self) -> ActionView {
        match self {
            Action::Scan => ActionView::Scan,
            Action::ScanAfter(ms) => ActionView::ScanAfter(*ms),
            Action::EnterDiagnosticMode => ActionView::EnterDiagnosticMode,
            Action::ReadSerial => ActionView::ReadSerial,
            Action::PromptOperator(f) => ActionView::PromptOperator(*f),
            Action::SendCommand(r, ms) => ActionView::SendCommand(r@, *ms),
            Action::HoldButtons(f) => ActionView::HoldButtons(*f),
            Action::StartExploit => ActionView::StartExploit,
            Action::Finish => ActionView::Finish,
            Action::Fail(e) => ActionView::Fail(*e),
        }
    }
}

/// The bytes of reboot command `k`.
pub open spec fn reboot_command(k: int) -> Seq<u8> {
    if k == 0 {
        "setenv auto-boot true".spec_bytes()
    } else if k == 1 {
        "saveenv".spec_bytes()
    } else {
        "reboot".spec_bytes()
    }
}

/// The text of reboot command `k`.
fn reboot_command_text(k: usize) -> (r: &'static str)
    requires
        k < REBOOT_COMMAND_COUNT,
    ensures
        r.spec_bytes() == reboot_command(k as int),
        1 <= r.spec_bytes().len() <= MAX_COMMAND_LENGTH,
{
    broadcast use vstd::string::is_ascii_spec_bytes;

    if k == 0 {
        let r = "setenv auto-boot true";
        proof {
            reveal_strlit("setenv auto-boot true");
            assert(vstd::string::is_ascii(r));
        }
        r
    } else if k == 1 {
        let r = "saveenv";
        proof {
            reveal_strlit("saveenv");
            assert(vstd::string::is_ascii(r));
        }
        r
    } else {
        let r = "reboot";
        proof {
            reveal_strlit("reboot");
            assert(vstd::string::is_ascii(r));
        }
        r
    }
}

/// The action that each phase asks for.
pub open spec fn action_of(p: Phase) -> ActionView {
    match p {
        Phase::Scan => ActionView::Scan,
        Phase::EnterDiagnostic => ActionView::EnterDiagnosticMode,
        Phase::AwaitConsole(_) => ActionView::ScanAfter(POLL_INTERVAL_MS),
        Phase::ReadIdentity => ActionView::ReadSerial,
        Phase::Prompt(f) => ActionView::PromptOperator(f),
        Phase::Command(_, k) => ActionView::SendCommand(
            console_view(reboot_command(k as int)),
            SETTLE_DELAY_MS,
        ),
        Phase::Hold(f) => ActionView::HoldButtons(f),
        Phase::AwaitLoader => ActionView::ScanAfter(POLL_INTERVAL_MS),
        Phase::Exploit => ActionView::StartExploit,
        Phase::Complete => ActionView::Finish,
        Phase::Failed(e) => ActionView::Fail(e),
    }
}

/// The phase after `p` on event `e`. An event that the phase does not wait
/// for leaves it as it is.
pub open spec fn next_phase(p: Phase, e: EventView) -> Phase {
    match (p, e) {
        (Phase::Scan, EventView::Scanned(m)) => match m {
            Some(DeviceMode::DiagnosticConsole) => Phase::ReadIdentity,
            Some(DeviceMode::LowLevelLoader) => Phase::Exploit,
            Some(DeviceMode::ExploitTarget) => Phase::Complete,
            _ => Phase::EnterDiagnostic,
        },
        (Phase::EnterDiagnostic, EventView::Performed) => Phase::AwaitConsole(0),
        (Phase::AwaitConsole(n), EventView::Scanned(m)) => if m == Some(
            DeviceMode::DiagnosticConsole,
        ) {
            Phase::ReadIdentity
        } else if n + 1 >= CONSOLE_POLL_BUDGET {
            Phase::Failed(OrchestrationError::ConsoleNotReached)
        } else {
            Phase::AwaitConsole((n + 1) as u32)
        },
        (Phase::ReadIdentity, EventView::Serial(s)) => match s {
            Some(t) => match identity_of(t) {
                Some(id) => Phase::Prompt(family_of(id.cpid, id.bdid)),
                None => Phase::Failed(OrchestrationError::MalformedIdentity),
            },
            None => Phase::Failed(OrchestrationError::IdentityUnreadable),
        },
        (Phase::Prompt(f), EventView::Performed) => Phase::Command(f, 0),
        (Phase::Command(f, k), EventView::Transferred(o)) => if !(o is Completed) {
            Phase::Failed(OrchestrationError::CommandNotDelivered)
        } else if k + 1 < REBOOT_COMMAND_COUNT {
            Phase::Command(f, (k + 1) as usize)
        } else {
            Phase::Hold(f)
        },
        (Phase::Hold(f), EventView::Performed) => Phase::AwaitLoader,
        (Phase::AwaitLoader, EventView::Scanned(m)) => if m == Some(DeviceMode::LowLevelLoader) {
            Phase::Exploit
        } else {
            Phase::AwaitLoader
        },
        _ => p,
    }
}

impl Phase {
    pub open spec fn wf(self) -> bool {
        match self {
            Phase::AwaitConsole(n) => n < CONSOLE_POLL_BUDGET,
            Phase::Command(_, k) => k < REBOOT_COMMAND_COUNT,
            _ => true,
        }
    }
}

/// Brings a device from whatever mode it is in to the loader.
pub struct Orchestrator {
    phase: Phase,
}

impl View for Orchestrator {
    type V = Phase;

    closed spec fn view(&self) -> Phase {
        self.phase
    }
}

impl Orchestrator {
    pub fn new() -> (r: Orchestrator)
        ensures
            r@ == Phase::Scan,
            r@.wf(),
    {
        Orchestrator { phase: Phase::Scan }
    }

    pub fn phase(&self) -> (r: Phase)
        ensures
            r == self@,
    {
        self.phase
    }

    /// True once the orchestration has ended, in the loader, in the
    /// post-exploit bootloader, or given up.
    pub fn is_finished(&self) -> (r: bool)
        ensures
            r == (self@ is Exploit || self@ is Complete || self@ is Failed),
    {
        match self.phase {
            Phase::Exploit | Phase::Complete | Phase::Failed(_) => true,
            _ => false,
        }
    }

    /// What to do now.
    pub fn action(&self) -> (r: Action)
        requires
            self@.wf(),
        ensures
            r@ == action_of(self@),
    {
        match self.phase {
            Phase::Scan => Action::Scan,
            Phase::EnterDiagnostic => Action::EnterDiagnosticMode,
            Phase::AwaitConsole(_) => Action::ScanAfter(POLL_INTERVAL_MS),
            Phase::ReadIdentity => Action::ReadSerial,
            Phase::Prompt(f) => Action::PromptOperator(f),
            Phase::Command(_, k) => {
                let text = reboot_command_text(k);
                match send_command_to_recovery(text) {
                    Ok(req) => {
                        assert(req@ == console_view(reboot_command(k as int)));
                        Action::SendCommand(req, SETTLE_DELAY_MS)
                    },
                    Err(e) => {
                        // each command is between 1 and 0x100 bytes long
                        assert(false);
                        Action::Fail(OrchestrationError::CommandNotDelivered)
                    },
                }
            },
            Phase::Hold(f) => Action::HoldButtons(f),
            Phase::AwaitLoader => Action::ScanAfter(POLL_INTERVAL_MS),
            Phase::Exploit => Action::StartExploit,
            Phase::Complete => Action::Finish,
            Phase::Failed(e) => Action::Fail(e),
        }
    }

    /// Takes in what the last action brought and moves on.
    pub fn advance(&mut self, event: Event)
        requires
            old(self)@.wf(),
        ensures
            final(self)@ == next_phase(old(self)@, event@),
            final(self)@.wf(),
    {
        let next = match (self.phase, event) {
            (Phase::Scan, Event::Scanned(m)) => match m {
                Some(DeviceMode::DiagnosticConsole) => Phase::ReadIdentity,
                Some(DeviceMode::LowLevelLoader) => Phase::Exploit,
                Some(DeviceMode::ExploitTarget) => Phase::Complete,
                _ => Phase::EnterDiagnostic,
            },
            (Phase::EnterDiagnostic, Event::Performed) => Phase::AwaitConsole(0),
            (Phase::AwaitConsole(n), Event::Scanned(m)) => {
                if m == Some(DeviceMode::DiagnosticConsole) {
                    Phase::ReadIdentity
                } else if n + 1 >= CONSOLE_POLL_BUDGET {
                    Phase::Failed(OrchestrationError::ConsoleNotReached)
                } else {
                    Phase::AwaitConsole(n + 1)
                }
            },
            (Phase::ReadIdentity, Event::Serial(s)) => match s {
                Some(t) => match parse_identity(t.as_str()) {
                    Some(id) => Phase::Prompt(button_family(id.cpid, id.bdid)),
                    None => Phase::Failed(OrchestrationError::MalformedIdentity),
                },
                None => Phase::Failed(OrchestrationError::IdentityUnreadable),
            },
            (Phase::Prompt(f), Event::Performed) => Phase::Command(f, 0),
            (Phase::Command(f, k), Event::Transferred(o)) => {
                match o {
                    TransferOutcome::Completed(_) => {
                        if k + 1 < REBOOT_COMMAND_COUNT {
                            Phase::Command(f, k + 1)
                        } else {
                            Phase::Hold(f)
                        }
                    },
                    _ => Phase::Failed(OrchestrationError::CommandNotDelivered),
                }
            },
            (Phase::Hold(_), Event::Performed) => Phase::AwaitLoader,
            (Phase::AwaitLoader, Event::Scanned(m)) => {
                if m == Some(DeviceMode::LowLevelLoader) {
                    Phase::Exploit
                } else {
                    Phase::AwaitLoader
                }
            },
            (p, _) => p,
        };
        self.phase = next;
    }
}

/// The phase after the events `es`, in order.
pub open spec fn run_phases(p: Phase, es: Seq<EventView>) -> Phase
    decreases es.len(),
{
    if es.len() == 0 {
        p
    } else {
        run_phases(next_phase(p, es[0]), es.drop_first())
    }
}

/// Waiting for the diagnostic console is bounded: from the wait's start,
/// `CONSOLE_POLL_BUDGET` scans that do not show the console end in failure.
pub proof fn lemma_console_wait_bounded(es: Seq<EventView>)
    requires
        es.len() == CONSOLE_POLL_BUDGET,
        forall|i: int|
            0 <= i < es.len() ==> (#[trigger] es[i]) is Scanned && es[i]->Scanned_0 != Some(
                DeviceMode::DiagnosticConsole,
            ),
    ensures
        run_phases(Phase::AwaitConsole(0), es) == Phase::Failed(
            OrchestrationError::ConsoleNotReached,
        ),
{
    lemma_console_wait_from(0, es);
}

proof fn lemma_console_wait_from(n: u32, es: Seq<EventView>)
    requires
        n < CONSOLE_POLL_BUDGET,
        es.len() == CONSOLE_POLL_BUDGET - n,
        forall|i: int|
            0 <= i < es.len() ==> (#[trigger] es[i]) is Scanned && es[i]->Scanned_0 != Some(
                DeviceMode::DiagnosticConsole,
            ),
    ensures
        run_phases(Phase::AwaitConsole(n), es) == Phase::Failed(
            OrchestrationError::ConsoleNotReached,
        ),
    decreases es.len(),
{
    assert(es[0] is Scanned);
    let rest = es.drop_first();
    assert(run_phases(Phase::AwaitConsole(n), es) == run_phases(
        next_phase(Phase::AwaitConsole(n), es[0]),
        rest,
    ));
    if n + 1 < CONSOLE_POLL_BUDGET {
        assert forall|i: int| 0 <= i < rest.len() implies (#[trigger] rest[i]) is Scanned
            && rest[i]->Scanned_0 != Some(DeviceMode::DiagnosticConsole) by {
            assert(rest[i] == es[i + 1]);
        }
        lemma_console_wait_from((n + 1) as u32, rest);
    } else {
        assert(rest.len() == 0);
    }
}

/// A device found in the loader at the first scan goes straight to the
/// exploit, and the orchestration stays there whatever comes after: the
/// device-management service is never asked for anything and no console
/// command is sent.
pub proof fn lemma_loader_skips_orchestration(es: Seq<EventView>)
    ensures
        next_phase(Phase::Scan, EventView::Scanned(Some(DeviceMode::LowLevelLoader)))
            == Phase::Exploit,
        run_phases(Phase::Exploit, es) == Phase::Exploit,
        action_of(Phase::Exploit) == ActionView::StartExploit,
    decreases es.len(),
{
    if es.len() > 0 {
        lemma_loader_skips_orchestration(es.drop_first());
    }
}

} // verus!
