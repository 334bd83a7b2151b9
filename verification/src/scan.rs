//! One scan of the message database: which outside work is due next, and what follows from
//! how it went.

use crate::delivery;
use crate::delivery::{DeliveryConfig, DeliveryStep};
use crate::rows;
use crate::text;
use vstd::prelude::*;
use vstd::string::*;

verus! {

broadcast use vstd::string::group_string_axioms;

/// What set a scan off.
#[derive(Clone, Copy, Debug, PartialEq, Eq, Structural)]
pub enum ScanTrigger {
    /// A file of the message store changed.
    FileEvent,
    /// The polling after an earlier scan came round.
    CatchUpPolling,
}

/// Which outside work a scan waits for.
#[derive(Clone, Copy, Debug, PartialEq, Eq, Structural)]
pub enum ScanPhase {
    /// The query for new rows.
    Query,
    /// The search for a code in a message.
    Extract,
    /// The reading of the settings, for a code that was found.
    LoadConfig,
    /// A step of the delivery of a code.
    Deliver,
    /// The start or prolongation of catch-up polling.
    ScheduleCatchUp,
    /// The recording of the newest row that was scanned.
    SetWatermark,
    /// A look at the newest row number, when there was no new row.
    ReadLatest,
    /// A look at whether the database may be read at all.
    CheckAccess,
    /// The dialog that asks the user for permission to read it.
    ShowDialog,
    /// Nothing: the scan is over.
    Finished,
    /// Nothing: the query could not be run, so there was no scan.
    Failed,
}

/// Outside work that a scan asks for.
#[derive(Debug)]
pub enum ScanAction {
    RunQuery(String),
    ExtractCode(String),
    LoadConfig,
    Deliver(DeliveryStep, String),
    ScheduleCatchUp,
    SetWatermark(i64),
    ReadLatest,
    CheckAccess,
    ShowDialog,
    Finish,
    Fail,
}

/// How outside work that a scan asked for went.
#[derive(Debug)]
pub enum ScanEvent {
    /// The query could not be run.
    QueryFailed,
    /// The query ran.
    QueryDone { success: bool, stdout: String, stderr: String },
    /// The code in the message, if there is one.
    Code(Option<String>),
    /// The settings.
    Config(DeliveryConfig),
    /// The work was done, or it failed.
    Performed(bool),
    /// The newest row number, if it could be read.
    LatestRowid(Option<i64>),
    /// Whether the database may be read.
    Access(bool),
}

/// A scan under way.
#[derive(Debug)]
pub struct Scan {
    trigger: ScanTrigger,
    last_rowid: i64,
    phase: ScanPhase,
    messages: Vec<String>,
    examined: usize,
    newest_rowid: Option<i64>,
    otp_found: bool,
    code: String,
    steps: Vec<DeliveryStep>,
    steps_done: usize,
}

/// What there is to know of a scan.
pub ghost struct ScanView {
    pub trigger: ScanTrigger,
    /// The newest row of the scans before.
    pub last_rowid: i64,
    pub phase: ScanPhase,
    /// The texts of the new rows, oldest first.
    pub messages: Seq<Seq<char>>,
    /// How many of them were searched for a code.
    pub examined: int,
    /// The newest new row.
    pub newest_rowid: Option<i64>,
    /// Whether a code was found in any of them.
    pub otp_found: bool,
    /// The code found last.
    pub code: Seq<char>,
    /// The steps of its delivery that are left.
    pub steps: Seq<DeliveryStep>,
}

/// What there is to know of an event.
pub ghost enum EventView {
    QueryFailed,
    QueryDone { success: bool, stdout: Seq<char>, stderr: Seq<char> },
    Code(Option<Seq<char>>),
    Config(DeliveryConfig),
    Performed(bool),
    LatestRowid(Option<i64>),
    Access(bool),
}

/// What there is to know of an action.
pub ghost enum ActionView {
    RunQuery(Seq<char>),
    ExtractCode(Seq<char>),
    LoadConfig,
    Deliver(DeliveryStep, Seq<char>),
    ScheduleCatchUp,
    SetWatermark(i64),
    ReadLatest,
    CheckAccess,
    ShowDialog,
    Finish,
    Fail,
}

impl View for ScanEvent {
    type V = EventView;

    open spec fn view(&self) -> EventView {
        match self {
            ScanEvent::QueryFailed => EventView::QueryFailed,
            ScanEvent::QueryDone { success, stdout, stderr } => EventView::QueryDone {
                success: *success,
                stdout: stdout@,
                stderr: stderr@,
            },
            ScanEvent::Code(Some(code)) => EventView::Code(Some(code@)),
            ScanEvent::Code(None) => EventView::Code(None),
            ScanEvent::Config(config) => EventView::Config(*config),
            ScanEvent::Performed(ok) => EventView::Performed(*ok),
            ScanEvent::LatestRowid(rowid) => EventView::LatestRowid(*rowid),
            ScanEvent::Access(ok) => EventView::Access(*ok),
        }
    }
}

impl View for ScanAction {
    type V = ActionView;

    open spec fn view(&self) -> ActionView {
        match self {
            ScanAction::RunQuery(sql) => ActionView::RunQuery(sql@),
            ScanAction::ExtractCode(message) => ActionView::ExtractCode(message@),
            ScanAction::LoadConfig => ActionView::LoadConfig,
            ScanAction::Deliver(step, code) => ActionView::Deliver(*step, code@),
            ScanAction::ScheduleCatchUp => ActionView::ScheduleCatchUp,
            ScanAction::SetWatermark(rowid) => ActionView::SetWatermark(*rowid),
            ScanAction::ReadLatest => ActionView::ReadLatest,
            ScanAction::CheckAccess => ActionView::CheckAccess,
            ScanAction::ShowDialog => ActionView::ShowDialog,
            ScanAction::Finish => ActionView::Finish,
            ScanAction::Fail => ActionView::Fail,
        }
    }
}

impl View for Scan {
    type V = ScanView;

    closed spec fn view(&self) -> ScanView {
        ScanView {
            trigger: self.trigger,
            last_rowid: self.last_rowid,
            phase: self.phase,
            messages: text::owned_views(self.messages@),
            examined: self.examined as int,
            newest_rowid: self.newest_rowid,
            otp_found: self.otp_found,
            code: self.code@,
            steps: self.steps@.skip(self.steps_done as int),
        }
    }
}

impl ScanView {
    /// What holds of every scan between two events.
    pub open spec fn valid(self) -> bool {
        &&& 0 <= self.examined <= self.messages.len()
        &&& self.phase == ScanPhase::Query ==> self.messages.len() == 0 && !self.otp_found
        &&& self.phase == ScanPhase::Extract ==> self.examined < self.messages.len()
        &&& self.phase == ScanPhase::LoadConfig || self.phase == ScanPhase::Deliver
            ==> self.otp_found && self.examined > 0
        &&& self.phase == ScanPhase::Deliver ==> 1 <= self.steps.len() <= 4
        &&& self.otp_found ==> self.messages.len() > 0
        &&& self.phase == ScanPhase::ScheduleCatchUp || self.phase == ScanPhase::SetWatermark
            || self.phase == ScanPhase::ReadLatest || self.phase == ScanPhase::Finished
            ==> self.examined == self.messages.len()
        &&& self.phase == ScanPhase::ScheduleCatchUp ==> self.wants_catch_up()
        &&& self.phase == ScanPhase::SetWatermark ==> self.messages.len() > 0
            && self.newest_rowid is Some
        &&& self.phase == ScanPhase::ReadLatest || self.phase == ScanPhase::CheckAccess
            || self.phase == ScanPhase::ShowDialog || self.phase == ScanPhase::Failed
            ==> self.messages.len() == 0
    }

    /// Whether polling follows this scan: a code was found, or there were new messages that
    /// no polling had announced.
    pub open spec fn wants_catch_up(self) -> bool {
        self.otp_found || self.trigger == ScanTrigger::FileEvent && self.messages.len() > 0
    }

    /// The scan at a phase.
    pub open spec fn at(self, phase: ScanPhase) -> ScanView {
        ScanView { phase, ..self }
    }

    /// The scan where polling was taken care of: the newest new row is recorded if its number
    /// could be read; without a new row the newest row number is looked up.
    pub open spec fn concluding(self) -> ScanView {
        if self.messages.len() == 0 {
            self.at(ScanPhase::ReadLatest)
        } else if self.newest_rowid is Some {
            self.at(ScanPhase::SetWatermark)
        } else {
            self.at(ScanPhase::Finished)
        }
    }

    /// The scan where the delivery of the code found last is over: the next message is
    /// searched, and behind the last one polling is taken care of.
    pub open spec fn moving_on(self) -> ScanView {
        if self.examined < self.messages.len() {
            self.at(ScanPhase::Extract)
        } else if self.wants_catch_up() {
            self.at(ScanPhase::ScheduleCatchUp)
        } else {
            self.concluding()
        }
    }

    /// The scan where the query printed `stdout`.
    pub open spec fn reading(self, stdout: Seq<char>) -> ScanView {
        ScanView {
            messages: rows::messages_in(text::lines_of(stdout)),
            examined: 0,
            newest_rowid: match rows::last_rowid_in(stdout) {
                Ok(rowid) => Some(rowid),
                Err(_) => None,
            },
            ..self
        }
    }

    /// The scan after an event. An event that does not answer what the scan waits for
    /// changes nothing.
    pub open spec fn after(self, event: EventView) -> ScanView {
        match (self.phase, event) {
            (ScanPhase::Query, EventView::QueryFailed) => self.at(ScanPhase::Failed),
            (ScanPhase::Query, EventView::QueryDone { success, stdout, stderr }) => {
                if success {
                    self.reading(stdout).moving_on()
                } else if rows::denies_access(stderr) {
                    self.at(ScanPhase::CheckAccess)
                } else {
                    self.at(ScanPhase::Finished)
                }
            },
            (ScanPhase::Extract, EventView::Code(None)) => ScanView {
                examined: self.examined + 1,
                ..self
            }.moving_on(),
            (ScanPhase::Extract, EventView::Code(Some(code))) => ScanView {
                examined: self.examined + 1,
                otp_found: true,
                code,
                phase: ScanPhase::LoadConfig,
                ..self
            },
            (ScanPhase::LoadConfig, EventView::Config(config)) => ScanView {
                steps: delivery::plan(config),
                phase: ScanPhase::Deliver,
                ..self
            },
            (ScanPhase::Deliver, EventView::Performed(ok)) => {
                let left = ScanView { steps: delivery::steps_after(self.steps, ok), ..self };
                if left.steps.len() > 0 {
                    left
                } else {
                    left.moving_on()
                }
            },
            (ScanPhase::ScheduleCatchUp, EventView::Performed(_)) => self.concluding(),
            (ScanPhase::SetWatermark, EventView::Performed(_)) => self.at(ScanPhase::Finished),
            (ScanPhase::ReadLatest, EventView::LatestRowid(_)) => self.at(ScanPhase::Finished),
            (ScanPhase::CheckAccess, EventView::Access(ok)) => self.at(
                if ok {
                    ScanPhase::Finished
                } else {
                    ScanPhase::ShowDialog
                },
            ),
            (ScanPhase::ShowDialog, EventView::Performed(_)) => self.at(ScanPhase::Finished),
            _ => self,
        }
    }

    /// The outside work that the scan waits for.
    pub open spec fn due(self) -> ActionView {
        match self.phase {
            ScanPhase::Query => ActionView::RunQuery(rows::new_rows_query(self.last_rowid)),
            ScanPhase::Extract => ActionView::ExtractCode(self.messages[self.examined]),
            ScanPhase::LoadConfig => ActionView::LoadConfig,
            ScanPhase::Deliver => ActionView::Deliver(self.steps[0], self.code),
            ScanPhase::ScheduleCatchUp => ActionView::ScheduleCatchUp,
            ScanPhase::SetWatermark => ActionView::SetWatermark(self.newest_rowid->0),
            ScanPhase::ReadLatest => ActionView::ReadLatest,
            ScanPhase::CheckAccess => ActionView::CheckAccess,
            ScanPhase::ShowDialog => ActionView::ShowDialog,
            ScanPhase::Finished => ActionView::Finish,
            ScanPhase::Failed => ActionView::Fail,
        }
    }

    /// The scan after a series of events.
    pub open spec fn after_all(self, events: Seq<EventView>) -> ScanView
        decreases events.len(),
    {
        if events.len() == 0 {
            self
        } else {
            self.after(events[0]).after_all(events.drop_first())
        }
    }
}

/// A scan at its start.
pub open spec fn fresh_scan(trigger: ScanTrigger, last_rowid: i64) -> ScanView {
    ScanView {
        trigger,
        last_rowid,
        phase: ScanPhase::Query,
        messages: Seq::empty(),
        examined: 0,
        newest_rowid: None,
        otp_found: false,
        code: Seq::empty(),
        steps: Seq::empty(),
    }
}

/// The event of a query that ran, from its exit and the bytes that it wrote.
pub fn query_done(success: bool, stdout: &[u8], stderr: &[u8]) -> (event: ScanEvent)
    ensures
        event@ == (EventView::QueryDone {
            success,
            stdout: rows::utf8_lossy(stdout@),
            stderr: rows::utf8_lossy(stderr@),
        }),
        vstd::utf8::valid_utf8(stdout@) ==> (event@ matches EventView::QueryDone {
            stdout: printed,
            ..
        } && printed == vstd::utf8::decode_utf8(stdout@)),
        vstd::utf8::valid_utf8(stderr@) ==> (event@ matches EventView::QueryDone {
            stderr: complaint,
            ..
        } && complaint == vstd::utf8::decode_utf8(stderr@)),
{
    ScanEvent::QueryDone {
        success,
        stdout: rows::text_of_bytes(stdout),
        stderr: rows::text_of_bytes(stderr),
    }
}

impl Scan {
    /// Whether the counters of the scan stay within what they count.
    #[verifier::type_invariant]
    closed spec fn counters_fit(self) -> bool {
        &&& self.examined <= self.messages.len()
        &&& self.steps_done <= self.steps.len()
        &&& self@.valid()
    }

    /// A scan for the rows behind `last_rowid`.
    pub fn new(trigger: ScanTrigger, last_rowid: i64) -> (scan: Scan)
        ensures
            scan@ == fresh_scan(trigger, last_rowid),
    {
        let messages: Vec<String> = Vec::new();
        let steps: Vec<DeliveryStep> = Vec::new();
        proof {
            assert(text::owned_views(messages@) =~= Seq::<Seq<char>>::empty());
            assert(steps@.skip(0) =~= Seq::<DeliveryStep>::empty());
        }
        Scan {
            trigger,
            last_rowid,
            phase: ScanPhase::Query,
            messages,
            examined: 0,
            newest_rowid: None,
            otp_found: false,
            code: String::new(),
            steps,
            steps_done: 0,
        }
    }

    /// What the scan waits for.
    pub fn phase(&self) -> (phase: ScanPhase)
        ensures
            phase == self@.phase,
    {
        self.phase
    }

    /// The phase that follows once polling was taken care of.
    fn concluding_phase(messages: usize, newest_rowid: Option<i64>) -> (phase: ScanPhase)
        ensures
            forall|scan: ScanView|
                scan.messages.len() == messages && scan.newest_rowid == newest_rowid
                    ==> #[trigger] scan.concluding() == scan.at(phase),
    {
        if messages == 0 {
            ScanPhase::ReadLatest
        } else if newest_rowid.is_some() {
            ScanPhase::SetWatermark
        } else {
            ScanPhase::Finished
        }
    }

    /// The phase that follows once a message is done with.
    fn moving_on_phase(
        trigger: ScanTrigger,
        messages: usize,
        examined: usize,
        otp_found: bool,
        newest_rowid: Option<i64>,
    ) -> (phase: ScanPhase)
        ensures
            forall|scan: ScanView|
                scan.trigger == trigger && scan.messages.len() == messages && scan.examined
                    == examined && scan.otp_found == otp_found && scan.newest_rowid == newest_rowid
                    ==> #[trigger] scan.moving_on() == scan.at(phase),
    {
        if examined < messages {
            ScanPhase::Extract
        } else if otp_found || (trigger == ScanTrigger::FileEvent && messages > 0) {
            ScanPhase::ScheduleCatchUp
        } else {
            Self::concluding_phase(messages, newest_rowid)
        }
    }

    /// The scan at another phase.
    fn at(self, phase: ScanPhase) -> (scan: Scan)
        requires
            self@.at(phase).valid(),
        ensures
            scan@ == self@.at(phase),
    {
        proof {
            use_type_invariant(&self);
        }
        Scan {
            trigger: self.trigger,
            last_rowid: self.last_rowid,
            phase,
            messages: self.messages,
            examined: self.examined,
            newest_rowid: self.newest_rowid,
            otp_found: self.otp_found,
            code: self.code,
            steps: self.steps,
            steps_done: self.steps_done,
        }
    }

    /// The scan after the query ran.
    fn after_query(self, success: bool, stdout: &str, stderr: &str) -> (scan: Scan)
        requires
            self@.phase == ScanPhase::Query,
        ensures
            scan@ == self@.after(
                EventView::QueryDone { success, stdout: stdout@, stderr: stderr@ },
            ),
    {
        proof {
            use_type_invariant(&self);
        }
        if !success {
            return if rows::is_permission_error(stderr) {
                self.at(ScanPhase::CheckAccess)
            } else {
                self.at(ScanPhase::Finished)
            };
        }
        let messages: Vec<String> = rows::parse_sqlite_output(stdout);
        let newest_rowid: Option<i64> = match rows::get_last_rowid(stdout) {
            Ok(rowid) => Some(rowid),
            Err(_) => None,
        };
        let phase: ScanPhase = Self::moving_on_phase(
            self.trigger,
            messages.len(),
            0,
            self.otp_found,
            newest_rowid,
        );
        let ghost read = self@.reading(stdout@);
        proof {
            assert(read.messages == text::owned_views(messages@));
            assert(read.moving_on() == read.at(phase));
        }
        Scan {
            trigger: self.trigger,
            last_rowid: self.last_rowid,
            phase,
            messages,
            examined: 0,
            newest_rowid,
            otp_found: self.otp_found,
            code: self.code,
            steps: self.steps,
            steps_done: self.steps_done,
        }
    }

    /// The scan after a message was searched.
    fn after_search(self, found: Option<String>) -> (scan: Scan)
        requires
            self@.phase == ScanPhase::Extract,
        ensures
            scan@ == self@.after(ScanEvent::Code(found)@),
    {
        proof {
            use_type_invariant(&self);
        }
        let examined: usize = self.examined + 1;
        match found {
            Some(code) => Scan {
                trigger: self.trigger,
                last_rowid: self.last_rowid,
                phase: ScanPhase::LoadConfig,
                messages: self.messages,
                examined,
                newest_rowid: self.newest_rowid,
                otp_found: true,
                code,
                steps: self.steps,
                steps_done: self.steps_done,
            },
            None => {
                let phase: ScanPhase = Self::moving_on_phase(
                    self.trigger,
                    self.messages.len(),
                    examined,
                    self.otp_found,
                    self.newest_rowid,
                );
                let ghost searched = ScanView { examined: self@.examined + 1, ..self@ };
                assert(searched.moving_on() == searched.at(phase));
                Scan {
                    trigger: self.trigger,
                    last_rowid: self.last_rowid,
                    phase,
                    messages: self.messages,
                    examined,
                    newest_rowid: self.newest_rowid,
                    otp_found: self.otp_found,
                    code: self.code,
                    steps: self.steps,
                    steps_done: self.steps_done,
                }
            },
        }
    }

    /// The scan after the settings were read.
    fn after_config(self, config: DeliveryConfig) -> (scan: Scan)
        requires
            self@.phase == ScanPhase::LoadConfig,
        ensures
            scan@ == self@.after(EventView::Config(config)),
    {
        proof {
            use_type_invariant(&self);
            delivery::plan_is_short(config);
        }
        let steps: Vec<DeliveryStep> = delivery::delivery_plan(config);
        assert(steps@.skip(0) =~= steps@);
        Scan {
            trigger: self.trigger,
            last_rowid: self.last_rowid,
            phase: ScanPhase::Deliver,
            messages: self.messages,
            examined: self.examined,
            newest_rowid: self.newest_rowid,
            otp_found: self.otp_found,
            code: self.code,
            steps,
            steps_done: 0,
        }
    }

    /// The scan after a step of a delivery.
    fn after_step(self, ok: bool) -> (scan: Scan)
        requires
            self@.phase == ScanPhase::Deliver,
        ensures
            scan@ == self@.after(EventView::Performed(ok)),
    {
        proof {
            use_type_invariant(&self);
        }
        let goes_on: bool = ok || self.steps[self.steps_done] == DeliveryStep::CacheCode;
        let steps_done: usize = if goes_on {
            self.steps_done + 1
        } else {
            self.steps.len()
        };
        let phase: ScanPhase = if steps_done < self.steps.len() {
            ScanPhase::Deliver
        } else {
            Self::moving_on_phase(
                self.trigger,
                self.messages.len(),
                self.examined,
                self.otp_found,
                self.newest_rowid,
            )
        };
        let ghost left = ScanView { steps: delivery::steps_after(self@.steps, ok), ..self@ };
        proof {
            assert(self@.steps[0] == self.steps@[self.steps_done as int]);
            assert(left.steps =~= self.steps@.skip(steps_done as int));
            if left.steps.len() == 0 {
                assert(left.moving_on() == left.at(phase));
            }
        }
        Scan {
            trigger: self.trigger,
            last_rowid: self.last_rowid,
            phase,
            messages: self.messages,
            examined: self.examined,
            newest_rowid: self.newest_rowid,
            otp_found: self.otp_found,
            code: self.code,
            steps: self.steps,
            steps_done,
        }
    }

    /// The scan after an event. An event that does not answer what the scan waits for
    /// changes nothing.
    pub fn step(self, event: ScanEvent) -> (scan: Scan)
        ensures
            scan@ == self@.after(event@),
    {
        proof {
            use_type_invariant(&self);
        }
        match (self.phase, event) {
            (ScanPhase::Query, ScanEvent::QueryFailed) => self.at(ScanPhase::Failed),
            (ScanPhase::Query, ScanEvent::QueryDone { success, stdout, stderr }) => {
                self.after_query(success, stdout.as_str(), stderr.as_str())
            },
            (ScanPhase::Extract, ScanEvent::Code(found)) => self.after_search(found),
            (ScanPhase::LoadConfig, ScanEvent::Config(config)) => self.after_config(config),
            (ScanPhase::Deliver, ScanEvent::Performed(ok)) => self.after_step(ok),
            (ScanPhase::ScheduleCatchUp, ScanEvent::Performed(_)) => {
                let phase: ScanPhase = Self::concluding_phase(
                    self.messages.len(),
                    self.newest_rowid,
                );
                assert(self@.concluding() == self@.at(phase));
                self.at(phase)
            },
            (ScanPhase::SetWatermark, ScanEvent::Performed(_)) => self.at(ScanPhase::Finished),
            (ScanPhase::ReadLatest, ScanEvent::LatestRowid(_)) => self.at(ScanPhase::Finished),
            (ScanPhase::CheckAccess, ScanEvent::Access(ok)) => {
                if ok {
                    self.at(ScanPhase::Finished)
                } else {
                    self.at(ScanPhase::ShowDialog)
                }
            },
            (ScanPhase::ShowDialog, ScanEvent::Performed(_)) => self.at(ScanPhase::Finished),
            _ => self,
        }
    }

    /// The outside work that the scan waits for.
    pub fn action(&self) -> (action: ScanAction)
        ensures
            action@ == self@.due(),
    {
        proof {
            use_type_invariant(self);
        }
        match self.phase {
            ScanPhase::Query => ScanAction::RunQuery(rows::scan_query(self.last_rowid)),
            ScanPhase::Extract => {
                assert(self@.messages[self@.examined] == self.messages@[self.examined as int]@);
                ScanAction::ExtractCode(self.messages[self.examined].clone())
            },
            ScanPhase::LoadConfig => ScanAction::LoadConfig,
            ScanPhase::Deliver => {
                assert(self@.steps[0] == self.steps@[self.steps_done as int]);
                ScanAction::Deliver(self.steps[self.steps_done], self.code.clone())
            },
            ScanPhase::ScheduleCatchUp => ScanAction::ScheduleCatchUp,
            ScanPhase::SetWatermark => {
                match self.newest_rowid {
                    Some(rowid) => ScanAction::SetWatermark(rowid),
                    None => ScanAction::Finish,
                }
            },
            ScanPhase::ReadLatest => ScanAction::ReadLatest,
            ScanPhase::CheckAccess => ScanAction::CheckAccess,
            ScanPhase::ShowDialog => ScanAction::ShowDialog,
            ScanPhase::Finished => ScanAction::Finish,
            ScanPhase::Failed => ScanAction::Fail,
        }
    }
}

/// Whether an event answers what a scan waits for.
pub open spec fn answers(phase: ScanPhase, event: EventView) -> bool {
    match phase {
        ScanPhase::Query => event is QueryFailed || event is QueryDone,
        ScanPhase::Extract => event is Code,
        ScanPhase::LoadConfig => event is Config,
        ScanPhase::Deliver | ScanPhase::ScheduleCatchUp | ScanPhase::SetWatermark
        | ScanPhase::ShowDialog => event is Performed,
        ScanPhase::ReadLatest => event is LatestRowid,
        ScanPhase::CheckAccess => event is Access,
        ScanPhase::Finished | ScanPhase::Failed => false,
    }
}

/// How much of a scan is left at most once the query was answered.
pub open spec fn work_left(scan: ScanView) -> int {
    6 * (scan.messages.len() - scan.examined) + match scan.phase {
        ScanPhase::Finished | ScanPhase::Failed => 0int,
        ScanPhase::SetWatermark | ScanPhase::ReadLatest | ScanPhase::ShowDialog => 1,
        ScanPhase::ScheduleCatchUp | ScanPhase::CheckAccess => 2,
        ScanPhase::Query | ScanPhase::Extract => 3,
        ScanPhase::Deliver => 3int + scan.steps.len(),
        ScanPhase::LoadConfig => 8,
    }
}

/// No event takes a scan out of the states that a scan can be in.
pub proof fn scans_stay_valid(scan: ScanView, event: EventView)
    requires
        scan.valid(),
    ensures
        scan.after(event).valid(),
{
    if let EventView::Config(config) = event {
        delivery::plan_is_short(config);
    }
}

/// Whatever happens to a scan, it stays in the states that a scan can be in.
pub proof fn scans_are_valid(scan: ScanView, events: Seq<EventView>)
    requires
        scan.valid(),
    ensures
        scan.after_all(events).valid(),
    decreases events.len(),
{
    if events.len() > 0 {
        scans_stay_valid(scan, events[0]);
        scans_are_valid(scan.after(events[0]), events.drop_first());
    }
}

/// A scan ends: each answer behind that to the query leaves less to do, and nothing is left
/// only of a scan that is over. Any other event changes nothing.
pub proof fn scans_end(scan: ScanView, event: EventView)
    requires
        scan.valid(),
        scan.phase != ScanPhase::Query,
    ensures
        scan.after(event).phase != ScanPhase::Query,
        answers(scan.phase, event) ==> 0 <= work_left(scan.after(event)) < work_left(scan),
        !answers(scan.phase, event) ==> scan.after(event) == scan,
        scan.phase != ScanPhase::Finished && scan.phase != ScanPhase::Failed ==> work_left(scan)
            > 0,
{
    if let EventView::Config(config) = event {
        delivery::plan_is_short(config);
    }
}

/// The rows that the query gave stay what they are until the scan is over.
pub proof fn rows_stay(scan: ScanView, events: Seq<EventView>)
    requires
        scan.phase != ScanPhase::Query,
    ensures
        scan.after_all(events).phase != ScanPhase::Query,
        scan.after_all(events).messages == scan.messages,
        scan.after_all(events).newest_rowid == scan.newest_rowid,
        scan.after_all(events).trigger == scan.trigger,
        scan.after_all(events).last_rowid == scan.last_rowid,
    decreases events.len(),
{
    if events.len() > 0 {
        rows_stay(scan.after(events[0]), events.drop_first());
    }
}

/// The newest row is recorded only once every new message was searched for a code, and what
/// is recorded is the row number in the last line that the query printed.
pub proof fn watermark_follows_the_rows(
    trigger: ScanTrigger,
    last_rowid: i64,
    stdout: Seq<char>,
    stderr: Seq<char>,
    events: Seq<EventView>,
)
    ensures
        ({
            let query = EventView::QueryDone { success: true, stdout, stderr };
            let scan = fresh_scan(trigger, last_rowid).after(query).after_all(events);
            scan.phase == ScanPhase::SetWatermark ==> {
                &&& scan.examined == rows::messages_in(text::lines_of(stdout)).len()
                &&& rows::last_rowid_in(stdout) matches Ok(rowid)
                &&& scan.due() == ActionView::SetWatermark(rowid)
            }
        }),
{
    let query = EventView::QueryDone { success: true, stdout, stderr };
    let start = fresh_scan(trigger, last_rowid);
    scans_stay_valid(start, query);
    scans_are_valid(start.after(query), events);
    rows_stay(start.after(query), events);
}

/// When the database printed `printed`, the scan searches their texts, trimmed, and what it
/// records is the number of the last of them.
pub proof fn scan_of_printed_rows(
    trigger: ScanTrigger,
    last_rowid: i64,
    printed: Seq<(i64, Seq<char>)>,
    stderr: Seq<char>,
    events: Seq<EventView>,
)
    requires
        printed.len() > 0,
        rows::one_line_each(printed),
    ensures
        ({
            let query = EventView::QueryDone {
                success: true,
                stdout: rows::printed_rows(printed),
                stderr,
            };
            let scan = fresh_scan(trigger, last_rowid).after(query).after_all(events);
            &&& scan.messages == printed.map_values(
                |row: (i64, Seq<char>)| text::trimmed(row.1),
            )
            &&& scan.phase == ScanPhase::SetWatermark ==> scan.due() == ActionView::SetWatermark(
                printed.last().0,
            )
        }),
{
    let query = EventView::QueryDone {
        success: true,
        stdout: rows::printed_rows(printed),
        stderr,
    };
    rows::printed_messages_read_back(printed);
    rows::printed_rowid_reads_back(printed);
    rows_stay(fresh_scan(trigger, last_rowid).after(query), events);
}

/// No row is scanned twice: where the database printed rows behind the last one, in order, what
/// a scan records lies behind the last one and not before any of them.
pub proof fn watermark_moves_forward(
    trigger: ScanTrigger,
    last_rowid: i64,
    printed: Seq<(i64, Seq<char>)>,
    stderr: Seq<char>,
    events: Seq<EventView>,
)
    requires
        printed.len() > 0,
        rows::one_line_each(printed),
        forall|i: int| 0 <= i < printed.len() ==> last_rowid < (#[trigger] printed[i]).0,
        forall|i: int, j: int|
            0 <= i < j < printed.len() ==> (#[trigger] printed[i]).0 < (#[trigger] printed[j]).0,
    ensures
        ({
            let query = EventView::QueryDone {
                success: true,
                stdout: rows::printed_rows(printed),
                stderr,
            };
            let scan = fresh_scan(trigger, last_rowid).after(query).after_all(events);
            scan.phase == ScanPhase::SetWatermark ==> {
                &&& scan.due() matches ActionView::SetWatermark(rowid)
                &&& last_rowid < rowid
                &&& forall|i: int|
                    0 <= i < printed.len() ==> (#[trigger] printed[i]).0 <= rowid
            }
        }),
{
    scan_of_printed_rows(trigger, last_rowid, printed, stderr, events);
    assert(printed[printed.len() - 1] == printed.last());
}

/// New rows do not go unrecorded: where the number of the newest one could be read, a scan that
/// found new rows ends only after it was recorded.
pub proof fn new_rows_are_recorded(scan: ScanView, event: EventView)
    requires
        scan.valid(),
        scan.phase != ScanPhase::Query,
        scan.phase != ScanPhase::Finished,
        scan.messages.len() > 0,
        scan.newest_rowid is Some,
        scan.after(event).phase == ScanPhase::Finished,
    ensures
        scan.phase == ScanPhase::SetWatermark,
        scan.due() == ActionView::SetWatermark(scan.newest_rowid->0),
{
}

/// A query that fails delivers nothing, records nothing and starts no polling: at most the
/// user is asked for permission.
pub proof fn failed_query_does_nothing(
    trigger: ScanTrigger,
    last_rowid: i64,
    stdout: Seq<char>,
    stderr: Seq<char>,
    events: Seq<EventView>,
)
    ensures
        ({
            let query = EventView::QueryDone { success: false, stdout, stderr };
            let scan = fresh_scan(trigger, last_rowid).after(query).after_all(events);
            &&& scan.phase == ScanPhase::CheckAccess || scan.phase == ScanPhase::ShowDialog
                || scan.phase == ScanPhase::Finished
            &&& !rows::denies_access(stderr) ==> scan.phase == ScanPhase::Finished
        }),
{
    let query = EventView::QueryDone { success: false, stdout, stderr };
    lemma_refused_stays(fresh_scan(trigger, last_rowid).after(query), events);
}

proof fn lemma_refused_stays(scan: ScanView, events: Seq<EventView>)
    requires
        scan.phase == ScanPhase::CheckAccess || scan.phase == ScanPhase::ShowDialog || scan.phase
            == ScanPhase::Finished,
    ensures
        ({
            let end = scan.after_all(events);
            &&& end.phase == ScanPhase::CheckAccess || end.phase == ScanPhase::ShowDialog
                || end.phase == ScanPhase::Finished
            &&& scan.phase == ScanPhase::Finished ==> end.phase == ScanPhase::Finished
        }),
    decreases events.len(),
{
    if events.len() > 0 {
        lemma_refused_stays(scan.after(events[0]), events.drop_first());
    }
}

/// A query that could not be run makes the scan fail, whatever happens after.
pub proof fn unrun_query_fails_the_scan(
    trigger: ScanTrigger,
    last_rowid: i64,
    events: Seq<EventView>,
)
    ensures
        fresh_scan(trigger, last_rowid).after(EventView::QueryFailed).after_all(events).due()
            == ActionView::Fail,
{
    lemma_failed_stays(fresh_scan(trigger, last_rowid).after(EventView::QueryFailed), events);
}

proof fn lemma_failed_stays(scan: ScanView, events: Seq<EventView>)
    requires
        scan.phase == ScanPhase::Failed,
    ensures
        scan.after_all(events).phase == ScanPhase::Failed,
    decreases events.len(),
{
    if events.len() > 0 {
        lemma_failed_stays(scan.after(events[0]), events.drop_first());
    }
}

/// The messages are searched one after the other, each once: only the answer to a search
/// moves the scan to the next message.
pub proof fn each_message_is_searched_once(scan: ScanView, event: EventView)
    requires
        scan.valid(),
        scan.phase != ScanPhase::Query,
    ensures
        scan.after(event).examined == if scan.phase == ScanPhase::Extract && event is Code {
            scan.examined + 1
        } else {
            scan.examined
        },
        scan.after(event).otp_found == (scan.otp_found || (scan.phase == ScanPhase::Extract
            && event matches EventView::Code(Some(_)))),
{
}

/// A scan that searched its messages asks for polling before anything else if a code was
/// found or a change of a file announced new messages, and otherwise does not ask for it.
pub proof fn polling_follows(scan: ScanView, event: EventView)
    requires
        scan.valid(),
        scan.phase == ScanPhase::Extract || scan.phase == ScanPhase::Deliver,
        scan.after(event).phase != ScanPhase::Extract,
        scan.after(event).phase != ScanPhase::LoadConfig,
        scan.after(event).phase != ScanPhase::Deliver,
    ensures
        scan.after(event).examined == scan.messages.len(),
        scan.after(event).phase == ScanPhase::ScheduleCatchUp <==> scan.after(
            event,
        ).wants_catch_up(),
{
}

/// A scan waits for one thing at a time: what does not answer it changes nothing.
pub proof fn only_answers_count(scan: ScanView, event: EventView)
    requires
        match scan.due() {
            ActionView::RunQuery(_) => !(event is QueryFailed) && !(event is QueryDone),
            ActionView::ExtractCode(_) => !(event is Code),
            ActionView::LoadConfig => !(event is Config),
            ActionView::Deliver(_, _) | ActionView::ScheduleCatchUp
            | ActionView::SetWatermark(_) | ActionView::ShowDialog => !(event is Performed),
            ActionView::ReadLatest => !(event is LatestRowid),
            ActionView::CheckAccess => !(event is Access),
            ActionView::Finish | ActionView::Fail => true,
        },
    ensures
        scan.after(event) == scan,
{
}

/// A scan starts with the query for the rows behind the last one, and goes on with the first
/// message that the query printed, or with the newest row number where it printed none.
pub proof fn scans_start_with_the_first_message(
    trigger: ScanTrigger,
    last_rowid: i64,
    stdout: Seq<char>,
    stderr: Seq<char>,
)
    ensures
        ({
            let query = EventView::QueryDone { success: true, stdout, stderr };
            let messages = rows::messages_in(text::lines_of(stdout));
            &&& fresh_scan(trigger, last_rowid).due() == ActionView::RunQuery(
                rows::new_rows_query(last_rowid),
            )
            &&& fresh_scan(trigger, last_rowid).after(query).due() == if messages.len() > 0 {
                ActionView::ExtractCode(messages[0])
            } else {
                ActionView::ReadLatest
            }
        }),
{
}

/// A message without a code is followed by the next message.
pub proof fn messages_without_a_code_are_passed_over(scan: ScanView)
    requires
        scan.valid(),
        scan.phase == ScanPhase::Extract,
    ensures
        scan.due() == ActionView::ExtractCode(scan.messages[scan.examined]),
        scan.examined + 1 < scan.messages.len() ==> scan.after(EventView::Code(None)).due()
            == ActionView::ExtractCode(scan.messages[scan.examined + 1]),
        scan.after(EventView::Code(None)).otp_found == scan.otp_found,
{
}

proof fn lemma_after_all_push(scan: ScanView, events: Seq<EventView>, event: EventView)
    ensures
        scan.after_all(events.push(event)) == scan.after_all(events).after(event),
    decreases events.len(),
{
    let longer = events.push(event);
    if events.len() > 0 {
        lemma_after_all_push(scan.after(events[0]), events.drop_first(), event);
        assert(longer.drop_first() =~= events.drop_first().push(event));
    } else {
        assert(longer.drop_first() =~= Seq::<EventView>::empty());
        assert(scan.after(event).after_all(Seq::<EventView>::empty()) == scan.after(event));
    }
}

/// The scan that found `code` in the message it was at, read the settings `config` and got the
/// first `taken` steps of the delivery done.
pub open spec fn delivering(
    scan: ScanView,
    code: Seq<char>,
    config: DeliveryConfig,
    taken: nat,
) -> ScanView {
    scan.after(EventView::Code(Some(code))).after(EventView::Config(config)).after_all(
        Seq::new(taken, |i: int| EventView::Performed(true)),
    )
}

proof fn lemma_delivering(scan: ScanView, code: Seq<char>, config: DeliveryConfig, taken: nat)
    requires
        scan.valid(),
        scan.phase == ScanPhase::Extract,
        taken < delivery::plan(config).len(),
    ensures
        delivering(scan, code, config, taken) == (ScanView {
            phase: ScanPhase::Deliver,
            examined: scan.examined + 1,
            otp_found: true,
            code,
            steps: delivery::plan(config).skip(taken as int),
            ..scan
        }),
    decreases taken,
{
    let start = scan.after(EventView::Code(Some(code))).after(EventView::Config(config));
    let done = Seq::new(taken, |i: int| EventView::Performed(true));
    if taken == 0 {
        assert(done =~= Seq::<EventView>::empty());
        assert(delivery::plan(config).skip(0) =~= delivery::plan(config));
    } else {
        let before = Seq::new((taken - 1) as nat, |i: int| EventView::Performed(true));
        lemma_delivering(scan, code, config, (taken - 1) as nat);
        lemma_after_all_push(start, before, EventView::Performed(true));
        assert(done =~= before.push(EventView::Performed(true)));
        assert(delivery::plan(config).skip(taken - 1).drop_first() =~= delivery::plan(config).skip(
            taken as int,
        ));
    }
}

/// A code is delivered as it was found and as the settings say: where a message was searched and
/// `code` found in it, the settings are read, and then each step of the plan is asked for in its
/// turn, with that code. Behind the last step the next message is searched, and behind the last
/// message polling is asked for. A step that fails is the last one, but where it was to keep the
/// code.
pub proof fn codes_are_delivered_as_found(
    scan: ScanView,
    code: Seq<char>,
    config: DeliveryConfig,
    taken: nat,
)
    requires
        scan.valid(),
        scan.phase == ScanPhase::Extract,
        taken < delivery::plan(config).len(),
    ensures
        ({
            let plan = delivery::plan(config);
            let now = delivering(scan, code, config, taken);
            let over = if scan.examined + 1 < scan.messages.len() {
                ActionView::ExtractCode(scan.messages[scan.examined + 1])
            } else {
                ActionView::ScheduleCatchUp
            };
            &&& scan.after(EventView::Code(Some(code))).due() == ActionView::LoadConfig
            &&& now.due() == ActionView::Deliver(plan[taken as int], code)
            &&& now.after(EventView::Performed(true)).due() == if taken + 1 < plan.len() {
                ActionView::Deliver(plan[(taken + 1) as int], code)
            } else {
                over
            }
            &&& plan[taken as int] == DeliveryStep::CacheCode ==> now.after(
                EventView::Performed(false),
            ) == now.after(EventView::Performed(true))
            &&& plan[taken as int] != DeliveryStep::CacheCode ==> now.after(
                EventView::Performed(false),
            ).due() == over
        }),
{
    lemma_delivering(scan, code, config, taken);
}

/// Whatever happens to a scan whose query was answered, the code that a step of the delivery
/// carries is one that a search was answered with: that of the last search.
pub proof fn deliveries_carry_the_last_code(scan: ScanView, event: EventView)
    requires
        scan.valid(),
        scan.phase != ScanPhase::Query,
    ensures
        scan.after(event).due() matches ActionView::Deliver(_, code) ==> {
            ||| scan.due() == ActionView::LoadConfig && code == scan.code
            ||| scan.due() matches ActionView::Deliver(_, before) && code == before
        },
        scan.phase == ScanPhase::Extract ==> (event matches EventView::Code(Some(code))
            ==> scan.after(event).code == code),
        scan.phase != ScanPhase::Extract ==> scan.after(event).code == scan.code,
{
}

/// Whether a search was answered with a code while the events came.
pub open spec fn found_a_code(scan: ScanView, events: Seq<EventView>) -> bool
    decreases events.len(),
{
    events.len() > 0 && {
        ||| scan.due() is ExtractCode && (events[0] matches EventView::Code(Some(_)))
        ||| found_a_code(scan.after(events[0]), events.drop_first())
    }
}

/// How often polling was asked for while the events came.
pub open spec fn polling_requests(scan: ScanView, events: Seq<EventView>) -> nat
    decreases events.len(),
{
    if events.len() == 0 {
        0
    } else {
        let later = polling_requests(scan.after(events[0]), events.drop_first());
        if scan.due() is ScheduleCatchUp && events[0] is Performed {
            later + 1
        } else {
            later
        }
    }
}

proof fn lemma_polling_requests(scan: ScanView, events: Seq<EventView>)
    requires
        scan.valid(),
        scan.phase != ScanPhase::Query,
        scan.after_all(events).phase == ScanPhase::Finished,
    ensures
        ({
            let asked = polling_requests(scan, events);
            match scan.phase {
                ScanPhase::Extract | ScanPhase::LoadConfig | ScanPhase::Deliver => asked == if scan
                    .otp_found || found_a_code(scan, events) || scan.trigger
                    == ScanTrigger::FileEvent {
                    1nat
                } else {
                    0nat
                },
                ScanPhase::ScheduleCatchUp => asked == 1 && !found_a_code(scan, events),
                _ => asked == 0 && !found_a_code(scan, events),
            }
        }),
    decreases events.len(),
{
    if events.len() > 0 {
        scans_stay_valid(scan, events[0]);
        scans_end(scan, events[0]);
        lemma_polling_requests(scan.after(events[0]), events.drop_first());
    }
}

/// Polling is asked for once by a scan that found a code, or that a change of a file set off and
/// that found new messages, and by no other.
pub proof fn polling_is_asked_for_once(
    trigger: ScanTrigger,
    last_rowid: i64,
    stdout: Seq<char>,
    stderr: Seq<char>,
    events: Seq<EventView>,
)
    requires
        fresh_scan(trigger, last_rowid).after(
            EventView::QueryDone { success: true, stdout, stderr },
        ).after_all(events).phase == ScanPhase::Finished,
    ensures
        ({
            let query = EventView::QueryDone { success: true, stdout, stderr };
            let scan = fresh_scan(trigger, last_rowid).after(query);
            let announced = trigger == ScanTrigger::FileEvent && rows::messages_in(
                text::lines_of(stdout),
            ).len() > 0;
            polling_requests(scan, events) == if found_a_code(scan, events) || announced {
                1nat
            } else {
                0nat
            }
        }),
{
    let query = EventView::QueryDone { success: true, stdout, stderr };
    scans_stay_valid(fresh_scan(trigger, last_rowid), query);
    lemma_polling_requests(fresh_scan(trigger, last_rowid).after(query), events);
}

/// Polling is asked for behind the last message and before the newest row is recorded.
pub proof fn polling_comes_before_the_record(scan: ScanView, ok: bool)
    requires
        scan.valid(),
        scan.phase == ScanPhase::ScheduleCatchUp,
    ensures
        scan.examined == scan.messages.len(),
        scan.after(EventView::Performed(ok)).due() == match scan.newest_rowid {
            Some(rowid) => ActionView::SetWatermark(rowid),
            None => ActionView::Finish,
        },
        scan.newest_rowid is Some ==> scan.after(EventView::Performed(ok)).after(
            EventView::Performed(ok),
        ).due() == ActionView::Finish,
{
}

/// The user is asked for permission exactly if the query failed with a complaint that the
/// database may not be read, and a look shows that permission is missing. Then the scan is over.
pub proof fn permission_is_asked_for_where_it_is_missing(
    trigger: ScanTrigger,
    last_rowid: i64,
    stdout: Seq<char>,
    stderr: Seq<char>,
    granted: bool,
    ok: bool,
)
    ensures
        ({
            let query = EventView::QueryDone { success: false, stdout, stderr };
            let scan = fresh_scan(trigger, last_rowid).after(query);
            let denied = text::occurs_in("attempt to write a readonly database"@, stderr)
                || text::occurs_in("permission denied"@, stderr) || text::occurs_in(
                "unable to open database"@,
                stderr,
            );
            let looked = scan.after(EventView::Access(granted));
            &&& scan.due() == if denied {
                ActionView::CheckAccess
            } else {
                ActionView::Finish
            }
            &&& looked.due() == if denied && !granted {
                ActionView::ShowDialog
            } else {
                ActionView::Finish
            }
            &&& looked.after(EventView::Performed(ok)).due() == ActionView::Finish
        }),
{
}

/// A scan without new messages looks up the newest row number and is over, whatever that is.
pub proof fn nothing_new_ends_the_scan(scan: ScanView, rowid: Option<i64>)
    requires
        scan.phase == ScanPhase::ReadLatest,
    ensures
        scan.after(EventView::LatestRowid(rowid)).due() == ActionView::Finish,
{
}

/// Events and actions are seen as they are.
pub proof fn scan_views_are_faithful(
    success: bool,
    rowid: Option<i64>,
    number: i64,
    config: DeliveryConfig,
    step: DeliveryStep,
    a: String,
    b: String,
)
    ensures
        ScanEvent::QueryFailed@ == EventView::QueryFailed,
        (ScanEvent::QueryDone { success, stdout: a, stderr: b })@ == (EventView::QueryDone {
            success,
            stdout: a@,
            stderr: b@,
        }),
        ScanEvent::Code(Some(a))@ == EventView::Code(Some(a@)),
        ScanEvent::Code(None)@ == EventView::Code(None),
        ScanEvent::Config(config)@ == EventView::Config(config),
        ScanEvent::Performed(success)@ == EventView::Performed(success),
        ScanEvent::LatestRowid(rowid)@ == EventView::LatestRowid(rowid),
        ScanEvent::Access(success)@ == EventView::Access(success),
        ScanAction::RunQuery(a)@ == ActionView::RunQuery(a@),
        ScanAction::ExtractCode(a)@ == ActionView::ExtractCode(a@),
        ScanAction::LoadConfig@ == ActionView::LoadConfig,
        ScanAction::Deliver(step, a)@ == ActionView::Deliver(step, a@),
        ScanAction::ScheduleCatchUp@ == ActionView::ScheduleCatchUp,
        ScanAction::SetWatermark(number)@ == ActionView::SetWatermark(number),
        ScanAction::ReadLatest@ == ActionView::ReadLatest,
        ScanAction::CheckAccess@ == ActionView::CheckAccess,
        ScanAction::ShowDialog@ == ActionView::ShowDialog,
        ScanAction::Finish@ == ActionView::Finish,
        ScanAction::Fail@ == ActionView::Fail,
{
}

} // verus!
