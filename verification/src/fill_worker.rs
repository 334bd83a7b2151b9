//! Filling in the kept code after a double click: the start of the listener, and the worker
//! that does it.

use crate::clock::{MILLISECOND, SECOND};
use crate::text;
use vstd::prelude::*;
use vstd::string::*;

verus! {

broadcast use vstd::string::group_string_axioms;

/// The time between a double click and the look at the focused field, in nanoseconds.
pub const FOCUS_SETTLE_DELAY: u128 = 80 * MILLISECOND;

/// The time between a paste and the look at what the field shows, in nanoseconds.
pub const FILL_VERIFICATION_DELAY: u128 = 200 * MILLISECOND;

/// The time before a listener that stopped is started again, in nanoseconds.
pub const LISTENER_RETRY_DELAY: u128 = 10 * SECOND;

/// What is done next to start listening for double clicks.
#[derive(Clone, Copy, Debug, PartialEq, Eq, Structural)]
pub enum StartStep {
    /// The worker is started.
    SpawnWorker,
    /// The listener is started.
    SpawnListener,
    /// Nothing.
    Idle,
}

/// How a start goes: the step that it sets off, and whether it was started then.
pub open spec fn start(supported: bool, started: bool) -> (StartStep, bool) {
    if supported && !started {
        (StartStep::SpawnWorker, true)
    } else {
        (StartStep::Idle, started)
    }
}

/// What follows a step of the start.
pub open spec fn after_start_step(step: StartStep, ok: bool) -> StartStep {
    if step == StartStep::SpawnWorker && ok {
        StartStep::SpawnListener
    } else {
        StartStep::Idle
    }
}

/// Starts listening for double clicks, where the system supports that and it was not started
/// before. Whether it was is remembered in `started`.
pub fn start_listener(supported: bool, started: &mut bool) -> (step: StartStep)
    ensures
        step == if supported && !*old(started) {
            StartStep::SpawnWorker
        } else {
            StartStep::Idle
        },
        *final(started) == (*old(started) || supported),
        (step, *final(started)) == start(supported, *old(started)),
{
    if !supported || *started {
        return StartStep::Idle;
    }
    *started = true;
    StartStep::SpawnWorker
}

/// What follows a step of the start that was done (`ok`) or failed: the listener is started
/// only behind a worker.
pub fn next_start_step(step: StartStep, ok: bool) -> (next: StartStep)
    ensures
        next == if step == StartStep::SpawnWorker && ok {
            StartStep::SpawnListener
        } else {
            StartStep::Idle
        },
        next == after_start_step(step, ok),
{
    match step {
        StartStep::SpawnWorker if ok => StartStep::SpawnListener,
        _ => StartStep::Idle,
    }
}

/// What the worker waits for.
#[derive(Clone, Copy, Debug, PartialEq, Eq, Structural)]
pub enum FillPhase {
    /// A double click.
    Waiting,
    /// The focus to settle behind it.
    Settling,
    /// The settings.
    LoadingConfig,
    /// The search for a focused field that is empty.
    FindingInput,
    /// The code to fill in.
    ReadingCode,
    /// The paste of the code.
    Pasting,
    /// The field to show it.
    Verifying,
    /// The value that the field shows.
    Observing,
    /// The code to be given up if that value confirms the fill.
    Confirming,
    /// Nothing: no double click can come any more.
    Stopped,
}

/// Outside work that the worker asks for.
#[derive(Debug)]
pub enum FillAction {
    AwaitTrigger,
    Sleep(u128),
    LoadConfig,
    FindInput,
    ReadCode,
    Paste(String),
    Observe,
    Confirm { code: String, observed: Option<String> },
    Stop,
}

/// How outside work that the worker asked for went.
#[derive(Debug)]
pub enum FillEvent {
    /// There was a double click.
    Triggered,
    /// No double click can come any more.
    Disconnected,
    /// The time has passed.
    Slept,
    /// Whether filling in by double click is switched on.
    FillEnabled(bool),
    /// Whether a focused field that is empty was found.
    InputFound(bool),
    /// The code that can be filled in.
    Code(Option<String>),
    /// Whether the paste went well.
    Pasted(bool),
    /// The value that the field shows, if it could be read.
    Observed(Option<String>),
    /// The code was given up or kept.
    Confirmed,
}

/// What there is to know of the worker.
pub ghost struct FillView {
    pub phase: FillPhase,
    pub code: Seq<char>,
    pub observed: Option<Seq<char>>,
}

/// What there is to know of an event.
pub ghost enum FillEventView {
    Triggered,
    Disconnected,
    Slept,
    FillEnabled(bool),
    InputFound(bool),
    Code(Option<Seq<char>>),
    Pasted(bool),
    Observed(Option<Seq<char>>),
    Confirmed,
}

/// What there is to know of an action.
pub ghost enum FillActionView {
    AwaitTrigger,
    Sleep(u128),
    LoadConfig,
    FindInput,
    ReadCode,
    Paste(Seq<char>),
    Observe,
    Confirm { code: Seq<char>, observed: Option<Seq<char>> },
    Stop,
}

impl View for FillEvent {
    type V = FillEventView;

    open spec fn view(&self) -> FillEventView {
        match self {
            FillEvent::Triggered => FillEventView::Triggered,
            FillEvent::Disconnected => FillEventView::Disconnected,
            FillEvent::Slept => FillEventView::Slept,
            FillEvent::FillEnabled(on) => FillEventView::FillEnabled(*on),
            FillEvent::InputFound(found) => FillEventView::InputFound(*found),
            FillEvent::Code(code) => FillEventView::Code(text::opt_view(*code)),
            FillEvent::Pasted(ok) => FillEventView::Pasted(*ok),
            FillEvent::Observed(value) => FillEventView::Observed(text::opt_view(*value)),
            FillEvent::Confirmed => FillEventView::Confirmed,
        }
    }
}

impl View for FillAction {
    type V = FillActionView;

    open spec fn view(&self) -> FillActionView {
        match self {
            FillAction::AwaitTrigger => FillActionView::AwaitTrigger,
            FillAction::Sleep(nanos) => FillActionView::Sleep(*nanos),
            FillAction::LoadConfig => FillActionView::LoadConfig,
            FillAction::FindInput => FillActionView::FindInput,
            FillAction::ReadCode => FillActionView::ReadCode,
            FillAction::Paste(code) => FillActionView::Paste(code@),
            FillAction::Observe => FillActionView::Observe,
            FillAction::Confirm { code, observed } => FillActionView::Confirm {
                code: code@,
                observed: text::opt_view(*observed),
            },
            FillAction::Stop => FillActionView::Stop,
        }
    }
}

impl FillView {
    /// The worker at a phase.
    pub open spec fn at(self, phase: FillPhase) -> FillView {
        FillView { phase, ..self }
    }

    /// The worker after an event. An event that does not answer what the worker waits for
    /// changes nothing.
    pub open spec fn after(self, event: FillEventView) -> FillView {
        match (self.phase, event) {
            (FillPhase::Waiting, FillEventView::Triggered) => self.at(FillPhase::Settling),
            (FillPhase::Waiting, FillEventView::Disconnected) => self.at(FillPhase::Stopped),
            (FillPhase::Settling, FillEventView::Slept) => self.at(FillPhase::LoadingConfig),
            (FillPhase::LoadingConfig, FillEventView::FillEnabled(on)) => self.at(
                if on {
                    FillPhase::FindingInput
                } else {
                    FillPhase::Waiting
                },
            ),
            (FillPhase::FindingInput, FillEventView::InputFound(found)) => self.at(
                if found {
                    FillPhase::ReadingCode
                } else {
                    FillPhase::Waiting
                },
            ),
            (FillPhase::ReadingCode, FillEventView::Code(None)) => self.at(FillPhase::Waiting),
            (FillPhase::ReadingCode, FillEventView::Code(Some(code))) => FillView {
                code,
                phase: FillPhase::Pasting,
                ..self
            },
            (FillPhase::Pasting, FillEventView::Pasted(ok)) => self.at(
                if ok {
                    FillPhase::Verifying
                } else {
                    FillPhase::Waiting
                },
            ),
            (FillPhase::Verifying, FillEventView::Slept) => self.at(FillPhase::Observing),
            (FillPhase::Observing, FillEventView::Observed(observed)) => FillView {
                observed,
                phase: FillPhase::Confirming,
                ..self
            },
            (FillPhase::Confirming, FillEventView::Confirmed) => self.at(FillPhase::Waiting),
            _ => self,
        }
    }

    /// The outside work that the worker waits for.
    pub open spec fn due(self) -> FillActionView {
        match self.phase {
            FillPhase::Waiting => FillActionView::AwaitTrigger,
            FillPhase::Settling => FillActionView::Sleep(FOCUS_SETTLE_DELAY),
            FillPhase::LoadingConfig => FillActionView::LoadConfig,
            FillPhase::FindingInput => FillActionView::FindInput,
            FillPhase::ReadingCode => FillActionView::ReadCode,
            FillPhase::Pasting => FillActionView::Paste(self.code),
            FillPhase::Verifying => FillActionView::Sleep(FILL_VERIFICATION_DELAY),
            FillPhase::Observing => FillActionView::Observe,
            FillPhase::Confirming => FillActionView::Confirm {
                code: self.code,
                observed: self.observed,
            },
            FillPhase::Stopped => FillActionView::Stop,
        }
    }

    /// The worker after a series of events.
    pub open spec fn after_all(self, events: Seq<FillEventView>) -> FillView
        decreases events.len(),
    {
        if events.len() == 0 {
            self
        } else {
            self.after_all(events.drop_last()).after(events.last())
        }
    }
}

/// The worker that fills in the kept code.
#[derive(Debug)]
pub struct FillWorker {
    phase: FillPhase,
    code: String,
    observed: Option<String>,
}

impl View for FillWorker {
    type V = FillView;

    closed spec fn view(&self) -> FillView {
        FillView {
            phase: self.phase,
            code: self.code@,
            observed: text::opt_view(self.observed),
        }
    }
}

impl FillWorker {
    /// A worker that waits for its first double click.
    pub fn new() -> (worker: FillWorker)
        ensures
            worker@ == (FillView {
                phase: FillPhase::Waiting,
                code: Seq::empty(),
                observed: None,
            }),
    {
        FillWorker { phase: FillPhase::Waiting, code: String::new(), observed: None }
    }

    /// Takes note of an event. One that does not answer what the worker waits for changes
    /// nothing.
    pub fn step(&mut self, event: FillEvent)
        ensures
            final(self)@ == old(self)@.after(event@),
    {
        match (self.phase, event) {
            (FillPhase::Waiting, FillEvent::Triggered) => {
                self.phase = FillPhase::Settling;
            },
            (FillPhase::Waiting, FillEvent::Disconnected) => {
                self.phase = FillPhase::Stopped;
            },
            (FillPhase::Settling, FillEvent::Slept) => {
                self.phase = FillPhase::LoadingConfig;
            },
            (FillPhase::LoadingConfig, FillEvent::FillEnabled(on)) => {
                self.phase = if on {
                    FillPhase::FindingInput
                } else {
                    FillPhase::Waiting
                };
            },
            (FillPhase::FindingInput, FillEvent::InputFound(found)) => {
                self.phase = if found {
                    FillPhase::ReadingCode
                } else {
                    FillPhase::Waiting
                };
            },
            (FillPhase::ReadingCode, FillEvent::Code(None)) => {
                self.phase = FillPhase::Waiting;
            },
            (FillPhase::ReadingCode, FillEvent::Code(Some(code))) => {
                self.code = code;
                self.phase = FillPhase::Pasting;
            },
            (FillPhase::Pasting, FillEvent::Pasted(ok)) => {
                self.phase = if ok {
                    FillPhase::Verifying
                } else {
                    FillPhase::Waiting
                };
            },
            (FillPhase::Verifying, FillEvent::Slept) => {
                self.phase = FillPhase::Observing;
            },
            (FillPhase::Observing, FillEvent::Observed(observed)) => {
                self.observed = observed;
                self.phase = FillPhase::Confirming;
            },
            (FillPhase::Confirming, FillEvent::Confirmed) => {
                self.phase = FillPhase::Waiting;
            },
            _ => {},
        }
    }

    /// The outside work that the worker waits for.
    pub fn action(&self) -> (action: FillAction)
        ensures
            action@ == self@.due(),
    {
        match self.phase {
            FillPhase::Waiting => FillAction::AwaitTrigger,
            FillPhase::Settling => FillAction::Sleep(FOCUS_SETTLE_DELAY),
            FillPhase::LoadingConfig => FillAction::LoadConfig,
            FillPhase::FindingInput => FillAction::FindInput,
            FillPhase::ReadingCode => FillAction::ReadCode,
            FillPhase::Pasting => FillAction::Paste(self.code.clone()),
            FillPhase::Verifying => FillAction::Sleep(FILL_VERIFICATION_DELAY),
            FillPhase::Observing => FillAction::Observe,
            FillPhase::Confirming => FillAction::Confirm {
                code: self.code.clone(),
                observed: match &self.observed {
                    Some(value) => Some(value.clone()),
                    None => None,
                },
            },
            FillPhase::Stopped => FillAction::Stop,
        }
    }
}

/// Whether an event answers what the worker waits for.
pub open spec fn answers(phase: FillPhase, event: FillEventView) -> bool {
    match phase {
        FillPhase::Waiting => event is Triggered || event is Disconnected,
        FillPhase::Settling | FillPhase::Verifying => event is Slept,
        FillPhase::LoadingConfig => event is FillEnabled,
        FillPhase::FindingInput => event is InputFound,
        FillPhase::ReadingCode => event is Code,
        FillPhase::Pasting => event is Pasted,
        FillPhase::Observing => event is Observed,
        FillPhase::Confirming => event is Confirmed,
        FillPhase::Stopped => false,
    }
}

/// The events from number `start` on that answered what the worker waited for as they came.
pub open spec fn answers_since(
    worker: FillView,
    events: Seq<FillEventView>,
    start: int,
) -> Seq<FillEventView>
    decreases events.len(),
{
    if events.len() <= start || events.len() == 0 {
        Seq::empty()
    } else {
        let before = answers_since(worker, events.drop_last(), start);
        if answers(worker.after_all(events.drop_last()).phase, events.last()) {
            before.push(events.last())
        } else {
            before
        }
    }
}

/// Whether event number `start` is the last double click that the worker took up while it
/// waited for one, and the worker has been at work since.
pub open spec fn round_began(worker: FillView, events: Seq<FillEventView>, start: int) -> bool {
    &&& 0 <= start < events.len()
    &&& events[start] == FillEventView::Triggered
    &&& worker.after_all(events.take(start)).phase == FillPhase::Waiting
    &&& forall|k: int|
        start < k <= events.len() ==> (#[trigger] worker.after_all(events.take(k))).phase
            != FillPhase::Waiting
}

/// What a worker that is not waiting for a double click was told since the last one.
pub open spec fn told(worker: FillView) -> Seq<FillEventView> {
    let clicked = seq![FillEventView::Triggered];
    let settled = clicked.push(FillEventView::Slept);
    let enabled = settled.push(FillEventView::FillEnabled(true));
    let found = enabled.push(FillEventView::InputFound(true));
    let handed = found.push(FillEventView::Code(Some(worker.code)));
    let pasted = handed.push(FillEventView::Pasted(true));
    let shown = pasted.push(FillEventView::Slept);
    match worker.phase {
        FillPhase::Waiting | FillPhase::Stopped => Seq::empty(),
        FillPhase::Settling => clicked,
        FillPhase::LoadingConfig => settled,
        FillPhase::FindingInput => enabled,
        FillPhase::ReadingCode => found,
        FillPhase::Pasting => handed,
        FillPhase::Verifying => pasted,
        FillPhase::Observing => shown,
        FillPhase::Confirming => shown.push(FillEventView::Observed(worker.observed)),
    }
}

/// An event that does not answer what the worker waits for changes nothing.
pub proof fn other_events_change_nothing(worker: FillView, event: FillEventView)
    requires
        !answers(worker.phase, event),
    ensures
        worker.after(event) == worker,
{
}

/// Nothing is filled in unasked: whatever a worker that starts afresh has been told, where it
/// is at work there is a last double click that it took up, and what answered it since then is
/// that click and, in this order and as far as it has got, that the focus had settled, that
/// filling in is switched on, that an empty field was found, the code, that the paste of that
/// code went well, that the field had time to show it, and the value that the field shows. So a
/// code is pasted only behind the first five of them, and confirmed only behind them all.
pub proof fn nothing_is_filled_in_unasked(worker: FillView, events: Seq<FillEventView>)
    requires
        worker.phase == FillPhase::Waiting,
    ensures
        ({
            let end = worker.after_all(events);
            end.phase != FillPhase::Waiting && end.phase != FillPhase::Stopped ==> exists|
                start: int,
            | #[trigger]
                round_began(worker, events, start) && answers_since(worker, events, start) == told(
                    end,
                )
        }),
    decreases events.len(),
{
    let end = worker.after_all(events);
    if events.len() > 0 && end.phase != FillPhase::Waiting && end.phase != FillPhase::Stopped {
        let front = events.drop_last();
        let before = worker.after_all(front);
        let n = front.len() as int;
        nothing_is_filled_in_unasked(worker, front);
        assert(events.take(n) =~= front);
        assert(events.take(n + 1) =~= events);
        assert forall|k: int| 0 <= k <= n implies events.take(k) == #[trigger] front.take(k) by {
            assert(events.take(k) =~= front.take(k));
        }
        if before.phase == FillPhase::Waiting {
            assert(answers_since(worker, front, n) == Seq::<FillEventView>::empty());
            assert(answers_since(worker, events, n) =~= told(end));
            assert(round_began(worker, events, n));
        } else {
            let start = choose|start: int| #[trigger]
                round_began(worker, front, start) && answers_since(worker, front, start) == told(
                    before,
                );
            assert forall|k: int| start < k <= events.len() implies (
            #[trigger] worker.after_all(events.take(k))).phase != FillPhase::Waiting by {
                if k <= n {
                    assert(events.take(k) == front.take(k));
                    assert(worker.after_all(front.take(k)).phase != FillPhase::Waiting);
                }
            }
            assert(events.take(start) == front.take(start));
            assert(events[start] == front[start]);
            assert(round_began(worker, events, start));
            assert(answers_since(worker, events, start) =~= told(end));
        }
    }
}

/// A round in which all goes well: for every code and every value that the field then shows, a
/// worker that waits for a double click asks for the pause before the look at the field (80
/// milliseconds), the settings, the field, the code, the paste of that code, the pause before
/// the look at what came of it (200 milliseconds), that look, and the confirmation of that code
/// by that value. Then it waits for the next double click.
pub proof fn rounds_come_full_circle(
    worker: FillView,
    code: Seq<char>,
    observed: Option<Seq<char>>,
)
    requires
        worker.phase == FillPhase::Waiting,
    ensures
        ({
            let clicked = worker.after(FillEventView::Triggered);
            let settled = clicked.after(FillEventView::Slept);
            let enabled = settled.after(FillEventView::FillEnabled(true));
            let found = enabled.after(FillEventView::InputFound(true));
            let handed = found.after(FillEventView::Code(Some(code)));
            let pasted = handed.after(FillEventView::Pasted(true));
            let shown = pasted.after(FillEventView::Slept);
            let seen = shown.after(FillEventView::Observed(observed));
            let over = seen.after(FillEventView::Confirmed);
            &&& worker.due() == FillActionView::AwaitTrigger
            &&& clicked.due() == FillActionView::Sleep(80_000_000)
            &&& settled.due() == FillActionView::LoadConfig
            &&& enabled.due() == FillActionView::FindInput
            &&& found.due() == FillActionView::ReadCode
            &&& handed.due() == FillActionView::Paste(code)
            &&& pasted.due() == FillActionView::Sleep(200_000_000)
            &&& shown.due() == FillActionView::Observe
            &&& seen.due() == (FillActionView::Confirm { code, observed })
            &&& over.due() == FillActionView::AwaitTrigger
            &&& over.phase == FillPhase::Waiting
        }),
{
}

/// Whatever is missing in a round, the worker gives that round up and waits for the next double
/// click: filling in is switched off, there is no empty field, there is no code, or the paste
/// went wrong.
pub proof fn refusals_end_the_round(worker: FillView)
    ensures
        worker.phase == FillPhase::LoadingConfig ==> worker.after(
            FillEventView::FillEnabled(false),
        ).due() == FillActionView::AwaitTrigger,
        worker.phase == FillPhase::FindingInput ==> worker.after(
            FillEventView::InputFound(false),
        ).due() == FillActionView::AwaitTrigger,
        worker.phase == FillPhase::ReadingCode ==> worker.after(FillEventView::Code(None)).due()
            == FillActionView::AwaitTrigger,
        worker.phase == FillPhase::Pasting ==> worker.after(FillEventView::Pasted(false)).due()
            == FillActionView::AwaitTrigger,
{
}

/// The worker stops only when no double click can come any more, which it learns only while it
/// waits for one. Then it stops for good.
pub proof fn only_a_lost_listener_stops_the_worker(worker: FillView, event: FillEventView)
    ensures
        worker.phase != FillPhase::Stopped ==> (worker.after(event).phase == FillPhase::Stopped
            <==> worker.phase == FillPhase::Waiting && event == FillEventView::Disconnected),
        worker.phase == FillPhase::Stopped ==> worker.after(event) == worker,
        worker.due() == FillActionView::Stop <==> worker.phase == FillPhase::Stopped,
{
}

/// The worker waits for one thing at a time: what does not answer it changes nothing.
pub proof fn only_answers_count(worker: FillView, event: FillEventView)
    requires
        match worker.due() {
            FillActionView::AwaitTrigger => !(event is Triggered) && !(event is Disconnected),
            FillActionView::Sleep(_) => !(event is Slept),
            FillActionView::LoadConfig => !(event is FillEnabled),
            FillActionView::FindInput => !(event is InputFound),
            FillActionView::ReadCode => !(event is Code),
            FillActionView::Paste(_) => !(event is Pasted),
            FillActionView::Observe => !(event is Observed),
            FillActionView::Confirm { .. } => !(event is Confirmed),
            FillActionView::Stop => true,
        },
    ensures
        worker.after(event) == worker,
{
}

/// Events and actions are seen as they are.
pub proof fn fill_views_are_faithful(
    on: bool,
    nanos: u128,
    code: Option<String>,
    text: String,
)
    ensures
        FillEvent::Triggered@ == FillEventView::Triggered,
        FillEvent::Disconnected@ == FillEventView::Disconnected,
        FillEvent::Slept@ == FillEventView::Slept,
        FillEvent::Confirmed@ == FillEventView::Confirmed,
        FillEvent::FillEnabled(on)@ == FillEventView::FillEnabled(on),
        FillEvent::InputFound(on)@ == FillEventView::InputFound(on),
        FillEvent::Pasted(on)@ == FillEventView::Pasted(on),
        FillEvent::Code(Some(text))@ == FillEventView::Code(Some(text@)),
        FillEvent::Code(None)@ == FillEventView::Code(None),
        FillEvent::Observed(Some(text))@ == FillEventView::Observed(Some(text@)),
        FillEvent::Observed(None)@ == FillEventView::Observed(None),
        FillAction::AwaitTrigger@ == FillActionView::AwaitTrigger,
        FillAction::Sleep(nanos)@ == FillActionView::Sleep(nanos),
        FillAction::LoadConfig@ == FillActionView::LoadConfig,
        FillAction::FindInput@ == FillActionView::FindInput,
        FillAction::ReadCode@ == FillActionView::ReadCode,
        FillAction::Paste(text)@ == FillActionView::Paste(text@),
        FillAction::Observe@ == FillActionView::Observe,
        (FillAction::Confirm { code: text, observed: code })@ == (FillActionView::Confirm {
            code: text@,
            observed: match code {
                Some(value) => Some(value@),
                None => None,
            },
        }),
        FillAction::Stop@ == FillActionView::Stop,
        LISTENER_RETRY_DELAY == 10_000_000_000,
{
}

/// How often starts one after the other set off the worker, where the first finds `started` and
/// each of them whether the system supports it.
pub open spec fn workers_started(started: bool, attempts: Seq<bool>) -> nat
    decreases attempts.len(),
{
    if attempts.len() == 0 {
        0
    } else {
        let (step, now) = start(attempts[0], started);
        let later = workers_started(now, attempts.drop_first());
        if step == StartStep::SpawnWorker {
            later + 1
        } else {
            later
        }
    }
}

/// However often it is started, there is one worker: where the system supports it at any of the
/// attempts and none was started before, the first such attempt starts it, and none else.
pub proof fn one_worker_is_started(started: bool, attempts: Seq<bool>)
    ensures
        workers_started(started, attempts) == if !started && attempts.contains(true) {
            1nat
        } else {
            0nat
        },
        forall|supported: bool|
            (#[trigger] start(supported, started)).0 == StartStep::SpawnWorker <==> supported
                && !started,
        forall|supported: bool|
            (#[trigger] start(supported, started)).0 == StartStep::SpawnWorker || start(
                supported,
                started,
            ).0 == StartStep::Idle,
    decreases attempts.len(),
{
    if attempts.len() > 0 {
        let rest = attempts.drop_first();
        one_worker_is_started(start(attempts[0], started).1, rest);
        if rest.contains(true) {
            let i = choose|i: int| 0 <= i < rest.len() && rest[i];
            assert(attempts[i + 1]);
        }
        if attempts.contains(true) && !attempts[0] {
            let i = choose|i: int| 0 <= i < attempts.len() && attempts[i];
            assert(rest[i - 1]);
        }
    }
}

/// The listener is started exactly behind a worker that was, and nothing follows it.
pub proof fn the_listener_follows_the_worker(step: StartStep, ok: bool)
    ensures
        after_start_step(step, ok) == StartStep::SpawnListener <==> step == StartStep::SpawnWorker
            && ok,
        after_start_step(step, ok) != StartStep::SpawnWorker,
        after_start_step(after_start_step(step, ok), ok) == StartStep::Idle,
{
}

} // verus!
