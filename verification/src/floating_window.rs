//! The window that shows a code: how the code is written in it, when it closes, and what a click
//! on it does.

use crate::clock;
use crate::clock::{Timestamp, SECOND};
use crate::number;
use crate::text;
use vstd::prelude::*;
use vstd::string::*;

verus! {

broadcast use vstd::string::group_string_axioms;

/// How long the window stays open, in nanoseconds.
pub const LIFETIME: u128 = 600 * SECOND;

/// The window that shows a code.
#[derive(Debug)]
pub struct VerificationCodeApp {
    code: String,
    source: String,
    created_at: Timestamp,
    lifetime: u128,
    should_close: bool,
}

/// What there is to know of the window.
pub ghost struct WindowView {
    pub code: Seq<char>,
    /// Where the code came from.
    pub source: Seq<char>,
    pub created_at: Timestamp,
    /// How long it stays open at most, in nanoseconds.
    pub lifetime: u128,
    /// Whether it closes before that.
    pub should_close: bool,
}

/// What is done when the window is to be drawn.
#[derive(Clone, Copy, Debug, PartialEq, Eq, Structural)]
pub enum Frame {
    Close,
    Draw,
}

/// One step of what a click on the code sets off.
#[derive(Debug)]
pub enum ClickStep {
    /// Put the code into the focused field by typing it. Whether that works makes no difference
    /// to the other steps.
    Paste(String),
    /// Press the enter key.
    PressEnter,
}

/// What there is to know of a step.
pub ghost enum ClickStepView {
    Paste(Seq<char>),
    PressEnter,
}

impl View for ClickStep {
    type V = ClickStepView;

    open spec fn view(&self) -> ClickStepView {
        match self {
            ClickStep::Paste(code) => ClickStepView::Paste(code@),
            ClickStep::PressEnter => ClickStepView::PressEnter,
        }
    }
}

/// The steps that a click on `code` sets off, in order: the code is put into the focused field,
/// and then the enter key is pressed if the settings could be read and say so.
pub open spec fn click_plan(code: Seq<char>, auto_enter: Option<bool>) -> Seq<ClickStepView> {
    seq![ClickStepView::Paste(code)] + if auto_enter == Some(true) {
        seq![ClickStepView::PressEnter]
    } else {
        Seq::empty()
    }
}

/// `code` with a blank between each two characters.
pub open spec fn spaced(code: Seq<char>) -> Seq<char>
    decreases code.len(),
{
    if code.len() <= 1 {
        code
    } else {
        spaced(code.drop_last()) + seq![' ', code.last()]
    }
}

/// How `code` is shown: four to eight digits with blanks between them, anything else as it is.
pub open spec fn shown(code: Seq<char>) -> Seq<char> {
    if 4 <= code.len() <= 8 && number::all_digits(code) {
        spaced(code)
    } else {
        code
    }
}

impl WindowView {
    /// Whether the window is to be closed at `now`: it was told to, or its time is up.
    pub open spec fn closes_at(self, now: Timestamp) -> bool {
        self.should_close || clock::elapsed(self.created_at, now) > self.lifetime
    }
}

impl View for VerificationCodeApp {
    type V = WindowView;

    closed spec fn view(&self) -> WindowView {
        WindowView {
            code: self.code@,
            source: self.source@,
            created_at: self.created_at,
            lifetime: self.lifetime,
            should_close: self.should_close,
        }
    }
}

impl VerificationCodeApp {
    /// A window for `code` from `source`, opened at `now`.
    pub fn new(code: String, source: String, now: Timestamp) -> (app: Self)
        ensures
            app@ == (WindowView {
                code: code@,
                source: source@,
                created_at: now,
                lifetime: LIFETIME,
                should_close: false,
            }),
    {
        VerificationCodeApp {
            code,
            source,
            created_at: now,
            lifetime: LIFETIME,
            should_close: false,
        }
    }

    /// The code.
    pub fn code(&self) -> (code: &str)
        ensures
            code@ == self@.code,
    {
        self.code.as_str()
    }

    /// Where the code came from.
    pub fn source(&self) -> (source: &str)
        ensures
            source@ == self@.source,
    {
        self.source.as_str()
    }

    /// The code as it is shown.
    pub fn formatted_code(&self) -> (shown_code: String)
        ensures
            shown_code@ == shown(self@.code),
    {
        let chars: Vec<char> = text::chars_of(self.code.as_str());
        if chars.len() < 4 || chars.len() > 8 {
            return self.code.clone();
        }
        let mut i: usize = 0;
        while i < chars.len()
            invariant
                i <= chars.len(),
                chars@ == self.code@,
                forall|k: int| 0 <= k < i ==> number::is_digit(#[trigger] chars@[k]),
            decreases chars.len() - i,
        {
            if chars[i] < '0' || chars[i] > '9' {
                assert(!number::is_digit(chars@[i as int]));
                return self.code.clone();
            }
            i += 1;
        }
        assert(number::all_digits(self.code@));
        let mut out: String = self.code.as_str().substring_char(0, 1).to_owned();
        let mut k: usize = 1;
        assert(out@ =~= chars@.take(1));
        while k < chars.len()
            invariant
                1 <= k <= chars.len(),
                chars@ == self.code@,
                out@ == spaced(chars@.take(k as int)),
            decreases chars.len() - k,
        {
            let ghost before = out@;
            proof {
                reveal_strlit(" ");
            }
            out.append(" ");
            let digit: &str = self.code.as_str().substring_char(k, k + 1);
            out.append(digit);
            proof {
                assert(digit@ =~= seq![chars@[k as int]]);
                assert(chars@.take(k + 1).drop_last() =~= chars@.take(k as int));
                assert(chars@.take(k + 1).last() == chars@[k as int]);
                assert(out@ =~= before + seq![' ', chars@[k as int]]);
            }
            k += 1;
        }
        assert(chars@.take(k as int) =~= chars@);
        out
    }

    /// What is done when the window is to be drawn at `now`: it closes once it was told to or
    /// its time is up.
    pub fn update(&self, now: Timestamp) -> (frame: Frame)
        ensures
            frame == if self@.closes_at(now) {
                Frame::Close
            } else {
                Frame::Draw
            },
    {
        if self.should_close || now.duration_since(self.created_at) > self.lifetime {
            Frame::Close
        } else {
            Frame::Draw
        }
    }

    /// The steps that a click on the code sets off, in order. `auto_enter` is that setting, if
    /// the settings could be read.
    pub fn click_steps(&self, auto_enter: Option<bool>) -> (steps: Vec<ClickStep>)
        ensures
            steps@.map_values(|step: ClickStep| step@) == click_plan(self@.code, auto_enter),
    {
        let mut steps: Vec<ClickStep> = Vec::new();
        steps.push(ClickStep::Paste(self.code.clone()));
        if let Some(true) = auto_enter {
            steps.push(ClickStep::PressEnter);
        }
        assert(steps@.map_values(|step: ClickStep| step@) =~= click_plan(self@.code, auto_enter));
        steps
    }

    /// Takes note that the code was clicked and filled in, so that the window closes.
    /// `auto_enter` is that setting, if the settings could be read. The result tells whether
    /// the enter key is pressed.
    pub fn clicked(&mut self, auto_enter: Option<bool>) -> (press_enter: bool)
        ensures
            press_enter == (auto_enter == Some(true)),
            press_enter == click_plan(old(self)@.code, auto_enter).contains(
                ClickStepView::PressEnter,
            ),
            final(self)@ == (WindowView { should_close: true, ..old(self)@ }),
    {
        proof {
            let plan = click_plan(self@.code, auto_enter);
            assert(auto_enter == Some(true) ==> plan[1] == ClickStepView::PressEnter);
        }
        self.should_close = true;
        match auto_enter {
            Some(on) => on,
            None => false,
        }
    }
}

proof fn lemma_filter_keeps_all(s: Seq<char>)
    requires
        !s.contains(' '),
    ensures
        s.filter(|c: char| c != ' ') == s,
    decreases s.len(),
{
    reveal(Seq::filter);
    if s.len() > 0 {
        let front = s.drop_last();
        assert(!front.contains(' ')) by {
            if front.contains(' ') {
                let i = choose|i: int| 0 <= i < front.len() && front[i] == ' ';
                assert(s[i] == ' ');
            }
        }
        lemma_filter_keeps_all(front);
        assert(s.contains(s.last()));
        assert(front.push(s.last()) =~= s);
    } else {
        assert(s =~= Seq::<char>::empty());
    }
}

proof fn lemma_spaced_filtered(s: Seq<char>)
    ensures
        spaced(s).filter(|c: char| c != ' ') == s.filter(|c: char| c != ' '),
    decreases s.len(),
{
    if s.len() > 1 {
        let keep = |c: char| c != ' ';
        let front = s.drop_last();
        lemma_spaced_filtered(front);
        let middle = spaced(front).push(' ');
        assert(spaced(s) =~= middle.push(s.last()));
        assert(front.push(s.last()) =~= s);
        spaced(front).lemma_filter_push(' ', keep);
        middle.lemma_filter_push(s.last(), keep);
        front.lemma_filter_push(s.last(), keep);
    }
}

/// Showing a code loses nothing: but for blanks it is the code. So a code that has none itself
/// is what is shown without the blanks.
pub proof fn showing_loses_nothing(code: Seq<char>)
    ensures
        shown(code).filter(|c: char| c != ' ') == code.filter(|c: char| c != ' '),
        !code.contains(' ') ==> shown(code).filter(|c: char| c != ' ') == code,
{
    lemma_spaced_filtered(code);
    if !code.contains(' ') {
        lemma_filter_keeps_all(code);
    }
}

/// What is shown would be shown as it is: blanks are put in once.
pub proof fn showing_is_idempotent(code: Seq<char>)
    ensures
        shown(shown(code)) == shown(code),
{
    let once = shown(code);
    if 4 <= code.len() <= 8 && number::all_digits(code) {
        assert(once == spaced(code.drop_last()) + seq![' ', code.last()]);
        assert(once[once.len() - 2] == ' ');
        assert(!number::is_digit(once[once.len() - 2]));
    }
}

/// A click puts the code into the focused field first, whatever the settings say. So it can be
/// put there before they are read.
pub proof fn clicks_fill_in_first(code: Seq<char>, auto_enter: Option<bool>)
    ensures
        click_plan(code, auto_enter).len() > 0,
        click_plan(code, auto_enter)[0] == ClickStepView::Paste(code),
        click_plan(code, auto_enter)[0] == click_plan(code, None)[0],
        forall|i: int|
            0 < i < click_plan(code, auto_enter).len() ==> #[trigger] click_plan(
                code,
                auto_enter,
            )[i] == ClickStepView::PressEnter,
{
}

/// A window that was clicked is to be closed, whenever that is looked at.
pub proof fn clicked_windows_close(window: WindowView, now: Timestamp)
    ensures
        (WindowView { should_close: true, ..window }).closes_at(now),
{
}

/// A window that is to be closed stays so as time goes on.
pub proof fn windows_stay_closed(window: WindowView, now: Timestamp, later: Timestamp)
    requires
        window.closes_at(now),
        now.nanos <= later.nanos,
    ensures
        window.closes_at(later),
{
}

proof fn lemma_spaced_positions(s: Seq<char>)
    requires
        s.len() > 0,
    ensures
        spaced(s).len() == 2 * s.len() - 1,
        forall|i: int| 0 <= i < s.len() ==> spaced(s)[2 * i] == #[trigger] s[i],
        forall|i: int| 0 <= i < s.len() - 1 ==> #[trigger] spaced(s)[2 * i + 1] == ' ',
    decreases s.len(),
{
    if s.len() > 1 {
        let front = s.drop_last();
        lemma_spaced_positions(front);
        assert forall|i: int| 0 <= i < s.len() implies spaced(s)[2 * i] == #[trigger] s[i] by {
            if i < front.len() {
                assert(s[i] == front[i]);
                assert(spaced(front)[2 * i] == front[i]);
            }
        }
        assert forall|i: int| 0 <= i < s.len() - 1 implies #[trigger] spaced(s)[2 * i + 1]
            == ' ' by {
            if i < front.len() - 1 {
                assert(spaced(front)[2 * i + 1] == ' ');
            }
        }
    }
}

/// Four to eight digits are shown in their order with one blank between each two of them, and
/// nothing before or behind. Any other code is shown as it is.
pub proof fn digits_are_spaced_out(code: Seq<char>)
    ensures
        ({
            let digits = 4 <= code.len() <= 8 && (forall|i: int|
                0 <= i < code.len() ==> '0' <= #[trigger] code[i] <= '9');
            &&& digits ==> shown(code).len() == 2 * code.len() - 1
            &&& digits ==> (forall|i: int|
                0 <= i < code.len() ==> shown(code)[2 * i] == #[trigger] code[i])
            &&& digits ==> (forall|i: int|
                0 <= i < code.len() - 1 ==> #[trigger] shown(code)[2 * i + 1] == ' ')
            &&& !digits ==> shown(code) == code
        }),
{
    if 4 <= code.len() <= 8 {
        if forall|i: int| 0 <= i < code.len() ==> '0' <= #[trigger] code[i] <= '9' {
            assert(number::all_digits(code));
            lemma_spaced_positions(code);
        } else {
            let i = choose|i: int|
                0 <= i < code.len() && !('0' <= #[trigger] code[i] <= '9');
            assert(!number::is_digit(code[i]));
        }
    }
}

/// A window that was not told to close stays open for ten minutes, the end included, and no
/// longer. One that was told to is to be closed at once.
pub proof fn windows_stay_open_for_ten_minutes(window: WindowView, now: Timestamp)
    requires
        window.lifetime == LIFETIME,
    ensures
        LIFETIME == 600_000_000_000,
        !window.should_close ==> (window.closes_at(now) <==> now.nanos > window.created_at.nanos
            + 600_000_000_000),
        window.should_close ==> window.closes_at(now),
{
}

/// A click sets off one step or two: the code is put into the field once, and the enter key is
/// pressed once behind that exactly if the settings could be read and say so.
pub proof fn clicks_press_enter_where_set(code: Seq<char>, auto_enter: Option<bool>)
    ensures
        auto_enter == Some(true) ==> click_plan(code, auto_enter).len() == 2 && click_plan(
            code,
            auto_enter,
        )[1] == ClickStepView::PressEnter,
        auto_enter != Some(true) ==> click_plan(code, auto_enter).len() == 1,
{
}

/// Steps are seen as they are.
pub proof fn click_views_are_faithful(code: String)
    ensures
        ClickStep::Paste(code)@ == ClickStepView::Paste(code@),
        ClickStep::PressEnter@ == ClickStepView::PressEnter,
{
}

} // verus!
