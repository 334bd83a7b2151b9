//! The code that waits to be filled in by a double click, and the double click itself.

use crate::clock;
use crate::clock::{Timestamp, MILLISECOND, SECOND};
use crate::text;
use vstd::prelude::*;
use vstd::string::*;

verus! {

broadcast use vstd::string::group_string_axioms;

/// How long a code stays good, in nanoseconds.
pub const OTP_TTL: u128 = 5 * 60 * SECOND;

/// The longest time between the two clicks of a double click, in nanoseconds.
pub const DOUBLE_CLICK_MAX_INTERVAL: u128 = 500 * MILLISECOND;

/// The farthest that the two clicks of a double click may lie apart, in points.
pub const DOUBLE_CLICK_MAX_DISTANCE: u32 = 8;

/// Tells double clicks in a series of clicks at positions of type `Pos`.
#[derive(Debug)]
pub struct DoubleClickDetector<Pos> {
    previous_click: Option<(Timestamp, Pos)>,
}

impl<Pos> View for DoubleClickDetector<Pos> {
    type V = Option<(Timestamp, Pos)>;

    /// The click that the next one may make a double click with.
    closed spec fn view(&self) -> Option<(Timestamp, Pos)> {
        self.previous_click
    }
}

/// Whether a click is the second of a double click: the system says so, or there is a click
/// before it that is close in time and `near` in place.
pub open spec fn is_double<Pos>(
    previous: Option<(Timestamp, Pos)>,
    click_state: i64,
    near: bool,
    now: Timestamp,
) -> bool {
    ||| click_state >= 2
    ||| previous matches Some((at, _)) && clock::elapsed(at, now) <= DOUBLE_CLICK_MAX_INTERVAL
        && near
}

/// The click that the next one may make a double click with, after a click at `position`.
pub open spec fn click_kept<Pos>(
    previous: Option<(Timestamp, Pos)>,
    click_state: i64,
    position: Pos,
    near: bool,
    now: Timestamp,
) -> Option<(Timestamp, Pos)> {
    if is_double(previous, click_state, near, now) {
        None
    } else {
        Some((now, position))
    }
}

impl<Pos> Default for DoubleClickDetector<Pos> {
    fn default() -> (detector: Self)
        ensures
            detector@ is None,
    {
        DoubleClickDetector { previous_click: None }
    }
}

impl<Pos> DoubleClickDetector<Pos> {
    /// Where the click was that the next one may make a double click with.
    pub fn previous_position(&self) -> (position: Option<&Pos>)
        ensures
            position == match self@ {
                Some((_, position)) => Some(&position),
                None => None,
            },
    {
        match &self.previous_click {
            Some((_, position)) => Some(position),
            None => None,
        }
    }

    /// Takes note of a click at `now`. Whether it is `near` the one before, if there is one (no
    /// farther than `DOUBLE_CLICK_MAX_DISTANCE`), is for the caller to say. The result tells
    /// whether it is the second of a double click; then the next click starts afresh.
    pub fn register_click(
        &mut self,
        click_state: i64,
        position: Pos,
        near: bool,
        now: Timestamp,
    ) -> (double: bool)
        ensures
            double == is_double(old(self)@, click_state, near, now),
            final(self)@ == if double {
                None
            } else {
                Some((now, position))
            },
            final(self)@ == click_kept(old(self)@, click_state, position, near, now),
    {
        if click_state >= 2 {
            self.previous_click = None;
            return true;
        }
        let double: bool = match &self.previous_click {
            Some((at, _)) => now.duration_since(*at) <= DOUBLE_CLICK_MAX_INTERVAL && near,
            None => false,
        };
        self.previous_click = if double {
            None
        } else {
            Some((now, position))
        };
        double
    }
}

/// The click after a double click makes none with it, unless the system says that it does.
pub proof fn clicks_pair_up<Pos>(click_state: i64, near: bool, now: Timestamp)
    requires
        click_state < 2,
    ensures
        !is_double(None::<(Timestamp, Pos)>, click_state, near, now),
{
}

/// A code that is kept, with the window that shows it.
#[derive(Debug)]
struct CachedOtp<P> {
    code: String,
    received_at: Timestamp,
    popup: Option<P>,
}

/// Keeps the newest code, with the window of type `P` that shows it.
#[derive(Debug)]
pub struct OtpCache<P> {
    value: Option<CachedOtp<P>>,
}

/// What there is to know of a code that is kept.
pub ghost struct Otp<P> {
    pub code: Seq<char>,
    pub received_at: Timestamp,
    pub popup: Option<P>,
}

/// What is left of a code that was filled in: the window that showed it.
#[derive(Debug)]
pub struct ConsumedOtp<P> {
    pub popup: Option<P>,
}

impl<P> View for OtpCache<P> {
    type V = Option<Otp<P>>;

    closed spec fn view(&self) -> Option<Otp<P>> {
        match self.value {
            Some(cached) => Some(
                Otp { code: cached.code@, received_at: cached.received_at, popup: cached.popup },
            ),
            None => None,
        }
    }
}

/// Whether a code that was received at `received_at` is still good at `now`.
pub open spec fn is_fresh(received_at: Timestamp, now: Timestamp) -> bool {
    clock::elapsed(received_at, now) <= OTP_TTL
}

/// What is kept after a look at `now`: a code that is no longer good is dropped.
pub open spec fn kept_at<P>(cache: Option<Otp<P>>, now: Timestamp) -> Option<Otp<P>> {
    match cache {
        Some(otp) if is_fresh(otp.received_at, now) => Some(otp),
        _ => None,
    }
}

/// The code that can be filled in at `now`.
pub open spec fn code_at<P>(cache: Option<Otp<P>>, now: Timestamp) -> Option<Seq<char>> {
    match kept_at(cache, now) {
        Some(otp) => Some(otp.code),
        None => None,
    }
}

/// Whether `code` is the code that is kept.
pub open spec fn holds<P>(cache: Option<Otp<P>>, code: Seq<char>) -> bool {
    cache matches Some(otp) && otp.code == code
}

/// What is kept after `code` was received at `now`.
pub open spec fn stored<P>(code: Seq<char>, now: Timestamp) -> Option<Otp<P>> {
    Some(Otp { code, received_at: now, popup: None })
}

/// What is kept after `popup` was to be kept along with `code` at `now`.
pub open spec fn attached<P>(
    cache: Option<Otp<P>>,
    code: Seq<char>,
    popup: P,
    now: Timestamp,
) -> Option<Otp<P>> {
    if code_at(cache, now) == Some(code) {
        Some(Otp { popup: Some(popup), ..cache->0 })
    } else {
        cache
    }
}

/// What is kept after `code` was given up.
pub open spec fn given_up<P>(cache: Option<Otp<P>>, code: Seq<char>) -> Option<Otp<P>> {
    if holds(cache, code) {
        None
    } else {
        cache
    }
}

/// What is kept after `code` was to be given up where `value` proves that it was filled in.
pub open spec fn given_up_if_confirmed<P>(
    cache: Option<Otp<P>>,
    code: Seq<char>,
    value: Option<&str>,
) -> Option<Otp<P>> {
    if confirms(value, code) {
        given_up(cache, code)
    } else {
        cache
    }
}

/// What is kept after `code`, which may be empty, came in at `now`.
pub open spec fn cached<P>(cache: Option<Otp<P>>, code: Seq<char>, now: Timestamp) -> Option<
    Otp<P>,
> {
    if code.len() > 0 {
        stored(code, now)
    } else {
        cache
    }
}

/// Whether a mouse event at `now` asks for a code to be filled in.
pub open spec fn asks_for_fill<P>(
    cache: Option<Otp<P>>,
    left_button_down: bool,
    double_click: bool,
    now: Timestamp,
) -> bool {
    left_button_down && double_click && code_at(cache, now) is Some
}

/// What is kept after a mouse event at `now`.
pub open spec fn kept_after_event<P>(
    cache: Option<Otp<P>>,
    left_button_down: bool,
    double_click: bool,
    now: Timestamp,
) -> Option<Otp<P>> {
    if left_button_down && double_click {
        kept_at(cache, now)
    } else {
        cache
    }
}

/// The window that comes back when `code` is given up, and whether anything does.
pub open spec fn window_given_back<P>(cache: Option<Otp<P>>, code: Seq<char>) -> Option<
    Option<P>,
> {
    match cache {
        Some(otp) if otp.code == code => Some(otp.popup),
        _ => None,
    }
}

/// The window of what was given up, if anything was.
pub open spec fn window_of<P>(consumed: Option<ConsumedOtp<P>>) -> Option<Option<P>> {
    match consumed {
        Some(otp) => Some(otp.popup),
        None => None,
    }
}

/// Whether the value that a field shows proves that `code` was filled in: it is the code,
/// nothing more and nothing less.
pub open spec fn confirms(value: Option<&str>, code: Seq<char>) -> bool {
    value matches Some(shown) && shown@ == code
}

/// Whether the value that a field shows proves that `code` was filled in.
pub fn value_confirms_fill(value: Option<&str>, code: &str) -> (confirmed: bool)
    ensures
        confirmed == confirms(value, code@),
{
    match value {
        Some(shown) => text::same_text(shown, code),
        None => false,
    }
}

impl<P> Default for OtpCache<P> {
    fn default() -> (cache: Self)
        ensures
            cache@ is None,
    {
        OtpCache { value: None }
    }
}

impl<P> OtpCache<P> {
    /// Keeps `code`, received at `now`, in place of any other.
    pub fn store(&mut self, code: &str, now: Timestamp)
        ensures
            final(self)@ == stored::<P>(code@, now),
    {
        self.value = Some(CachedOtp { code: code.to_owned(), received_at: now, popup: None });
    }

    /// The code that can be filled in at `now`. One that is no longer good is dropped.
    pub fn active_code(&mut self, now: Timestamp) -> (code: Option<String>)
        ensures
            text::opt_view(code) == code_at(old(self)@, now),
            final(self)@ == kept_at(old(self)@, now),
    {
        let code: Option<String> = match &self.value {
            None => None,
            Some(cached) => {
                if now.duration_since(cached.received_at) > OTP_TTL {
                    None
                } else {
                    Some(cached.code.clone())
                }
            },
        };
        if code.is_none() {
            self.value = None;
        }
        code
    }

    /// Keeps `popup` along with `code`, if that is the code that can be filled in at `now`;
    /// else hands it back.
    pub fn attach_popup(&mut self, code: &str, popup: P, now: Timestamp) -> (result: Result<
        (),
        P,
    >)
        ensures
            result == if code_at(old(self)@, now) == Some(code@) {
                Ok(())
            } else {
                Err(popup)
            },
            final(self)@ == attached(old(self)@, code@, popup, now),
    {
        match self.value.take() {
            None => Err(popup),
            Some(cached) => {
                let matching: bool = text::same_text(cached.code.as_str(), code)
                    && now.duration_since(cached.received_at) <= OTP_TTL;
                if matching {
                    self.value = Some(
                        CachedOtp {
                            code: cached.code,
                            received_at: cached.received_at,
                            popup: Some(popup),
                        },
                    );
                    Ok(())
                } else {
                    self.value = Some(cached);
                    Err(popup)
                }
            },
        }
    }

    /// Gives up `code`, if it is the code that is kept.
    pub fn consume_if_matches(&mut self, code: &str) -> (consumed: Option<ConsumedOtp<P>>)
        ensures
            consumed is Some <==> holds(old(self)@, code@),
            window_of(consumed) == window_given_back(old(self)@, code@),
            consumed matches Some(otp) ==> otp.popup == (old(self)@->0).popup,
            final(self)@ == given_up(old(self)@, code@),
    {
        match self.value.take() {
            None => None,
            Some(cached) => {
                if text::same_text(cached.code.as_str(), code) {
                    Some(ConsumedOtp { popup: cached.popup })
                } else {
                    self.value = Some(cached);
                    None
                }
            },
        }
    }

    /// Gives up `code`, if it is the code that is kept and `observed_value` proves that it was
    /// filled in.
    pub fn consume_if_confirmed(
        &mut self,
        code: &str,
        observed_value: Option<&str>,
    ) -> (consumed: Option<ConsumedOtp<P>>)
        ensures
            consumed is Some <==> confirms(observed_value, code@) && holds(old(self)@, code@),
            confirms(observed_value, code@) ==> window_of(consumed) == window_given_back(
                old(self)@,
                code@,
            ),
            consumed matches Some(otp) ==> otp.popup == (old(self)@->0).popup,
            final(self)@ == given_up_if_confirmed(old(self)@, code@, observed_value),
    {
        if !value_confirms_fill(observed_value, code) {
            return None;
        }
        self.consume_if_matches(code)
    }
}

/// Keeps `code`, received at `now`, unless it is empty.
pub fn cache_code<P>(cache: &mut OtpCache<P>, code: &str, now: Timestamp)
    ensures
        final(cache)@ == if code@.len() == 0 {
            old(cache)@
        } else {
            stored::<P>(code@, now)
        },
        final(cache)@ == cached(old(cache)@, code@, now),
{
    if code.is_empty() {
        return;
    }
    cache.store(code, now);
}

/// Keeps `popup` along with `code`, if that is the code that can be filled in at `now`; else
/// lets go of it.
pub fn register_popup<P>(cache: &mut OtpCache<P>, code: &str, popup: P, now: Timestamp)
    ensures
        final(cache)@ == attached(old(cache)@, code@, popup, now),
{
    let _ = cache.attach_popup(code, popup, now);
}

/// Whether a mouse event at `now` asks for a code to be filled in: the left button was pressed
/// for a double click, and there is a code. Only then is the cache looked at.
pub fn triggers_fill<P>(
    cache: &mut OtpCache<P>,
    left_button_down: bool,
    double_click: bool,
    now: Timestamp,
) -> (trigger: bool)
    ensures
        trigger == (left_button_down && double_click && code_at(old(cache)@, now) is Some),
        trigger == asks_for_fill(old(cache)@, left_button_down, double_click, now),
        final(cache)@ == kept_after_event(old(cache)@, left_button_down, double_click, now),
        final(cache)@ == if left_button_down && double_click {
            kept_at(old(cache)@, now)
        } else {
            old(cache)@
        },
{
    left_button_down && double_click && cache.active_code(now).is_some()
}

/// A code can be filled in until its time is up, and not after.
pub proof fn codes_expire<P>(code: Seq<char>, received_at: Timestamp, now: Timestamp)
    ensures
        code_at(stored::<P>(code, received_at), now) == if clock::elapsed(received_at, now)
            <= OTP_TTL {
            Some(code)
        } else {
            None
        },
{
}

/// A look at the cache takes nothing away but a code whose time is up, and what it takes away
/// is gone for good.
pub proof fn looking_is_harmless<P>(cache: Option<Otp<P>>, now: Timestamp, later: Timestamp)
    ensures
        code_at(kept_at(cache, now), now) == code_at(cache, now),
        code_at(cache, now) is Some ==> kept_at(cache, now) == cache,
        code_at(cache, now) is None ==> code_at(kept_at(cache, now), later) is None,
{
}

/// A code is given up once: after that it can neither be filled in nor given up again.
pub proof fn codes_are_given_up_once<P>(cache: Option<Otp<P>>, code: Seq<char>, now: Timestamp)
    requires
        holds(cache, code),
    ensures
        code_at(given_up(cache, code), now) is None,
        !holds(given_up(cache, code), code),
{
}

/// Giving up an older code leaves a newer one as it is.
pub proof fn newer_codes_survive<P>(newer: Seq<char>, older: Seq<char>, received_at: Timestamp)
    requires
        newer != older,
    ensures
        given_up(stored::<P>(newer, received_at), older) == stored::<P>(newer, received_at),
{
}

/// A window that was kept along with a code comes back with that code; for another code, or
/// one whose time is up, no window is kept.
pub proof fn popups_belong_to_their_code<P>(
    cache: Option<Otp<P>>,
    code: Seq<char>,
    popup: P,
    now: Timestamp,
)
    ensures
        code_at(cache, now) == Some(code) ==> holds(attached(cache, code, popup, now), code) && (
        attached(cache, code, popup, now)->0).popup == Some(popup),
        code_at(cache, now) != Some(code) ==> attached(cache, code, popup, now) == cache,
{
}

/// A fill that is not confirmed changes nothing: code and window stay.
pub proof fn unconfirmed_fills_change_nothing<P>(
    cache: Option<Otp<P>>,
    code: Seq<char>,
    value: Option<&str>,
)
    requires
        !confirms(value, code),
    ensures
        given_up_if_confirmed(cache, code, value) == cache,
{
}

/// How the process stands that shows a window.
#[derive(Clone, Copy, Debug, PartialEq, Eq, Structural)]
pub enum PopupStatus {
    Exited,
    Running,
    /// It could not be found out.
    Unknown,
}

/// What is done next to close a window.
#[derive(Clone, Copy, Debug, PartialEq, Eq, Structural)]
pub enum Dismissal {
    /// The end of its process.
    Kill,
    /// The wait for that end.
    Wait,
    /// Nothing.
    Done,
}

/// What follows the look at the process of a window that is to be closed.
pub open spec fn after_look(status: PopupStatus) -> Dismissal {
    match status {
        PopupStatus::Running => Dismissal::Kill,
        PopupStatus::Exited | PopupStatus::Unknown => Dismissal::Done,
    }
}

/// What follows the attempt to end the process of a window.
pub open spec fn after_attempt(killed: bool) -> Dismissal {
    if killed {
        Dismissal::Wait
    } else {
        Dismissal::Done
    }
}

/// What follows the look at the process of a window that is to be closed: only one that runs
/// is ended.
pub fn dismiss_popup(status: PopupStatus) -> (next: Dismissal)
    ensures
        next == if status == PopupStatus::Running {
            Dismissal::Kill
        } else {
            Dismissal::Done
        },
        next == after_look(status),
{
    match status {
        PopupStatus::Running => Dismissal::Kill,
        PopupStatus::Exited | PopupStatus::Unknown => Dismissal::Done,
    }
}

/// What follows the attempt to end the process of a window: its end is awaited unless the
/// attempt failed.
pub fn after_kill(killed: bool) -> (next: Dismissal)
    ensures
        next == if killed {
            Dismissal::Wait
        } else {
            Dismissal::Done
        },
        next == after_attempt(killed),
{
    if killed {
        Dismissal::Wait
    } else {
        Dismissal::Done
    }
}

/// A click makes a double click with the one before exactly if the system says that it is one, or
/// the two lie near each other and no more than half a second apart.
pub proof fn double_clicks_are_close<Pos>(
    previous: Option<(Timestamp, Pos)>,
    click_state: i64,
    near: bool,
    now: Timestamp,
)
    ensures
        click_state >= 2 ==> is_double(previous, click_state, near, now),
        click_state < 2 && previous is None ==> !is_double(previous, click_state, near, now),
        click_state < 2 ==> (previous matches Some((at, _)) ==> (is_double(
            previous,
            click_state,
            near,
            now,
        ) <==> near && now.nanos <= at.nanos + 500_000_000)),
        DOUBLE_CLICK_MAX_DISTANCE == 8,
{
}

/// A code that is kept can be filled in for five minutes from when it was received, the end
/// included, and stays what it is for that long. After that it is gone, along with its window.
pub proof fn codes_are_good_for_five_minutes<P>(otp: Otp<P>, now: Timestamp)
    ensures
        now.nanos <= otp.received_at.nanos + 300_000_000_000 ==> code_at(Some(otp), now) == Some(
            otp.code,
        ) && kept_at(Some(otp), now) == Some(otp),
        now.nanos > otp.received_at.nanos + 300_000_000_000 ==> code_at(Some(otp), now) is None
            && kept_at(Some(otp), now) is None,
        code_at(None::<Otp<P>>, now) is None,
        kept_at(None::<Otp<P>>, now) is None,
{
}

/// A code that is received takes the place of all that was kept: it is the one that is kept, it
/// is good from then on, and no window belongs to it yet.
pub proof fn new_codes_are_kept<P>(code: Seq<char>, other: Seq<char>, now: Timestamp)
    ensures
        stored::<P>(code, now) matches Some(otp) && otp.code == code && otp.received_at == now
            && otp.popup is None,
        code_at(stored::<P>(code, now), now) == Some(code),
        holds(stored::<P>(code, now), other) <==> other == code,
{
}

/// A window is kept along with a code exactly if that is the one that can be filled in. It takes
/// the place of any window before it, and changes neither the code nor how long it is good.
pub proof fn windows_do_not_prolong_codes<P>(
    otp: Otp<P>,
    code: Seq<char>,
    popup: P,
    now: Timestamp,
    later: Timestamp,
)
    ensures
        ({
            let after = attached(Some(otp), code, popup, now);
            let good = otp.code == code && now.nanos <= otp.received_at.nanos + 300_000_000_000;
            &&& after is Some
            &&& (after->0).code == otp.code
            &&& (after->0).received_at == otp.received_at
            &&& (after->0).popup == if good {
                Some(popup)
            } else {
                otp.popup
            }
            &&& code_at(after, later) == code_at(Some(otp), later)
        }),
        attached(None::<Otp<P>>, code, popup, now) is None,
{
}

/// A code is given up by its own name only, and then wholly; by any other it stays as it is,
/// window and all. Whether its time is up makes no difference.
pub proof fn codes_are_given_up_by_name<P>(otp: Otp<P>, code: Seq<char>)
    ensures
        holds(Some(otp), code) <==> otp.code == code,
        otp.code == code ==> given_up(Some(otp), code) is None,
        otp.code != code ==> given_up(Some(otp), code) == Some(otp),
        !holds(None::<Otp<P>>, code),
        given_up(None::<Otp<P>>, code) is None,
{
}

/// A code is given up after a fill exactly if the field shows that very code, character for
/// character, and it is still the one that is kept.
pub proof fn exact_fills_give_up_the_code<P>(
    otp: Otp<P>,
    code: Seq<char>,
    shown: &str,
)
    ensures
        confirms(Some(shown), code) <==> shown@ == code,
        !confirms(None, code),
        given_up_if_confirmed(Some(otp), code, Some(shown)) is None <==> shown@ == code
            && otp.code == code,
        given_up_if_confirmed(Some(otp), code, Some(shown)) is Some ==> given_up_if_confirmed(
            Some(otp),
            code,
            Some(shown),
        ) == Some(otp),
        given_up_if_confirmed(Some(otp), code, None) == Some(otp),
        given_up_if_confirmed(None::<Otp<P>>, code, Some(shown)) is None,
{
}

/// The way of a code from its arrival to the field: received at `t0` and shown in a window at
/// `t1`, it can be filled in at `t2`, if all of that happens within five minutes. Once the field
/// shows it, nothing is kept, and until then the code is kept with its window.
pub proof fn codes_live_until_filled_in<P>(
    code: Seq<char>,
    popup: P,
    t0: Timestamp,
    t1: Timestamp,
    t2: Timestamp,
    shown: &str,
)
    requires
        t1.nanos <= t0.nanos + 300_000_000_000,
        t2.nanos <= t0.nanos + 300_000_000_000,
    ensures
        ({
            let kept = attached(stored::<P>(code, t0), code, popup, t1);
            &&& code_at(kept, t2) == Some(code)
            &&& kept_at(kept, t2) == kept
            &&& kept matches Some(otp) && otp.popup == Some(popup)
            &&& given_up_if_confirmed(kept, code, Some(shown)) == if shown@ == code {
                None
            } else {
                kept
            }
        }),
{
}

/// Whether each of a series of clicks is the second of a double click: of each the count of the
/// system, its place, whether that is near the one before, and its time.
pub open spec fn doubles<Pos>(
    previous: Option<(Timestamp, Pos)>,
    clicks: Seq<(i64, Pos, bool, Timestamp)>,
) -> Seq<bool>
    decreases clicks.len(),
{
    if clicks.len() == 0 {
        Seq::empty()
    } else {
        let (count, position, near, now) = clicks[0];
        seq![is_double(previous, count, near, now)] + doubles(
            click_kept(previous, count, position, near, now),
            clicks.drop_first(),
        )
    }
}

/// However long quick clicks at one place go on, every second one makes a double click and no
/// other: no click belongs to two of them.
pub proof fn quick_clicks_pair_up<Pos>(clicks: Seq<(i64, Pos, bool, Timestamp)>)
    requires
        forall|i: int| 0 <= i < clicks.len() ==> (#[trigger] clicks[i]).0 < 2 && clicks[i].2,
        forall|i: int|
            0 < i < clicks.len() ==> (#[trigger] clicks[i]).3.nanos <= clicks[i - 1].3.nanos
                + 500_000_000,
    ensures
        doubles(None, clicks).len() == clicks.len(),
        forall|i: int|
            0 <= i < clicks.len() ==> (#[trigger] doubles(None, clicks)[i] <==> i % 2 == 1),
    decreases clicks.len(),
{
    if clicks.len() == 1 {
        assert(doubles(
            click_kept(None, clicks[0].0, clicks[0].1, clicks[0].2, clicks[0].3),
            clicks.drop_first(),
        ) =~= Seq::<bool>::empty());
    } else if clicks.len() > 1 {
        let rest = clicks.drop_first();
        let tail = rest.drop_first();
        assert(rest[0] == clicks[1]);
        assert forall|i: int| 0 <= i < tail.len() implies (#[trigger] tail[i]).0 < 2
            && tail[i].2 by {
            assert(tail[i] == clicks[i + 2]);
        }
        assert forall|i: int| 0 < i < tail.len() implies (#[trigger] tail[i]).3.nanos <= tail[i
            - 1].3.nanos + 500_000_000 by {
            assert(tail[i] == clicks[i + 2]);
            assert(tail[i - 1] == clicks[i + 1]);
        }
        quick_clicks_pair_up(tail);
        let first = Some((clicks[0].3, clicks[0].1));
        assert(is_double(first, rest[0].0, rest[0].2, rest[0].3));
        assert(doubles(first, rest) == seq![true] + doubles(None, tail));
        assert(doubles(None, clicks) == seq![false] + doubles(first, rest));
        assert forall|i: int| 0 <= i < clicks.len() implies (#[trigger] doubles(None, clicks)[i]
            <==> i % 2 == 1) by {
            if i >= 2 {
                assert(doubles(None, clicks)[i] == doubles(None, tail)[i - 2]);
            }
        }
    }
}

/// A click that makes no double click is the one that the next may make one with: that depends on
/// its time, not on what came before it. One that makes a double click is used up.
pub proof fn each_click_is_used_once<Pos>(
    previous: Option<(Timestamp, Pos)>,
    click_state: i64,
    position: Pos,
    near: bool,
    now: Timestamp,
    next_near: bool,
    next: Timestamp,
)
    ensures
        ({
            let kept = click_kept(previous, click_state, position, near, now);
            &&& is_double(previous, click_state, near, now) ==> kept is None
            &&& !is_double(previous, click_state, near, now) ==> kept == Some((now, position))
            &&& is_double(kept, 1, next_near, next) <==> !is_double(
                previous,
                click_state,
                near,
                now,
            ) && next_near && next.nanos <= now.nanos + 500_000_000
        }),
{
}

/// A code that comes in is kept, and one without a character is passed over.
pub proof fn empty_codes_are_passed_over<P>(
    cache: Option<Otp<P>>,
    code: Seq<char>,
    now: Timestamp,
)
    ensures
        code.len() > 0 ==> code_at(cached(cache, code, now), now) == Some(code) && holds(
            cached(cache, code, now),
            code,
        ) && (cached(cache, code, now)->0).popup is None && (cached(cache, code, now)->0).received_at
            == now,
        code.len() == 0 ==> cached(cache, code, now) == cache,
{
}

/// A mouse event asks for a fill exactly if it is a double click with the left button and there is
/// a code that is good. It leaves such a code, and what else it finds unless it is such a click.
pub proof fn double_clicks_ask_for_fills<P>(otp: Otp<P>, left: bool, double: bool, now: Timestamp)
    ensures
        asks_for_fill(Some(otp), left, double, now) <==> left && double && now.nanos
            <= otp.received_at.nanos + 300_000_000_000,
        !asks_for_fill(None::<Otp<P>>, left, double, now),
        asks_for_fill(Some(otp), left, double, now) ==> kept_after_event(
            Some(otp),
            left,
            double,
            now,
        ) == Some(otp),
        !(left && double) ==> kept_after_event(Some(otp), left, double, now) == Some(otp),
        left && double && !asks_for_fill(Some(otp), left, double, now) ==> kept_after_event(
            Some(otp),
            left,
            double,
            now,
        ) is None,
        kept_after_event(None::<Otp<P>>, left, double, now) is None,
{
}

/// The window that was kept along with a code comes back when that code is given up, once, and
/// for no other code.
pub proof fn windows_come_back_with_their_code<P>(
    otp: Otp<P>,
    code: Seq<char>,
    popup: P,
    now: Timestamp,
)
    ensures
        window_given_back(Some(otp), code) == if otp.code == code {
            Some(otp.popup)
        } else {
            None
        },
        window_given_back(given_up(Some(otp), code), code) is None,
        window_given_back(None::<Otp<P>>, code) is None,
        window_given_back(attached(stored::<P>(code, now), code, popup, now), code) == Some(
            Some(popup),
        ),
        window_of(Some(ConsumedOtp { popup: Some(popup) })) == Some(Some(popup)),
        window_of(Some(ConsumedOtp::<P> { popup: None })) == Some(None::<P>),
        window_of(None::<ConsumedOtp<P>>) is None,
{
}

/// A process is ended only where it is known to run, and waited for only where it was ended.
pub proof fn only_open_windows_are_closed(status: PopupStatus, killed: bool)
    ensures
        after_look(status) == Dismissal::Kill <==> status == PopupStatus::Running,
        after_look(status) != Dismissal::Wait,
        after_attempt(killed) == Dismissal::Wait <==> killed,
        after_attempt(killed) != Dismissal::Kill,
{
}

} // verus!
