//! What is done with a code that was found, step by step.

use vstd::prelude::*;

verus! {

/// The settings that decide how a code reaches the user.
#[derive(Clone, Copy, Debug, PartialEq, Eq, Structural)]
pub struct DeliveryConfig {
    /// Keep the code, so that a double click on an empty field fills it in.
    pub double_click_fill: bool,
    /// Show the code in a window of its own.
    pub floating_window: bool,
    /// Type the code straight into the focused field.
    pub direct_input: bool,
    /// Paste the code once it is on the clipboard.
    pub auto_paste: bool,
    /// Press the enter key once the code is where it should be.
    pub auto_enter: bool,
}

/// One step on the way of a code to the user.
#[derive(Clone, Copy, Debug, PartialEq, Eq, Structural)]
pub enum DeliveryStep {
    /// Keep the code for a double click.
    CacheCode,
    /// Open the window that shows the code.
    SpawnWindow,
    /// Remember the window that was opened along with the kept code.
    RegisterPopup,
    /// Type the code into the focused field.
    DirectInput,
    /// Put the code on the clipboard.
    Copy,
    /// Paste from the clipboard.
    Paste,
    /// Press the enter key.
    PressEnter,
}

/// Where the codes come from, as the window says it.
pub fn message_source() -> (source: &'static str)
    ensures
        source@ == "iMessage"@,
{
    "iMessage"
}

/// `step` alone if `wanted`, else nothing.
pub open spec fn step_if(wanted: bool, step: DeliveryStep) -> Seq<DeliveryStep> {
    if wanted {
        seq![step]
    } else {
        Seq::empty()
    }
}

/// The steps that deliver a code while each of them succeeds.
///
/// The code is kept first, if at all. Then one of three ways is taken: a window comes before
/// typing, and typing before the clipboard.
pub open spec fn plan(config: DeliveryConfig) -> Seq<DeliveryStep> {
    step_if(config.double_click_fill, DeliveryStep::CacheCode) + if config.floating_window {
        seq![DeliveryStep::SpawnWindow] + step_if(
            config.double_click_fill,
            DeliveryStep::RegisterPopup,
        )
    } else if config.direct_input {
        seq![DeliveryStep::DirectInput] + step_if(config.auto_enter, DeliveryStep::PressEnter)
    } else {
        seq![DeliveryStep::Copy] + step_if(config.auto_paste, DeliveryStep::Paste) + step_if(
            config.auto_enter,
            DeliveryStep::PressEnter,
        )
    }
}

/// The steps that deliver a code while each of them succeeds.
pub fn delivery_plan(config: DeliveryConfig) -> (steps: Vec<DeliveryStep>)
    ensures
        steps@ == plan(config),
{
    let mut steps: Vec<DeliveryStep> = Vec::new();
    if config.double_click_fill {
        steps.push(DeliveryStep::CacheCode);
    }
    if config.floating_window {
        steps.push(DeliveryStep::SpawnWindow);
        if config.double_click_fill {
            steps.push(DeliveryStep::RegisterPopup);
        }
    } else if config.direct_input {
        steps.push(DeliveryStep::DirectInput);
        if config.auto_enter {
            steps.push(DeliveryStep::PressEnter);
        }
    } else {
        steps.push(DeliveryStep::Copy);
        if config.auto_paste {
            steps.push(DeliveryStep::Paste);
        }
        if config.auto_enter {
            steps.push(DeliveryStep::PressEnter);
        }
    }
    assert(steps@ =~= plan(config));
    steps
}

/// The steps left after the first of `steps` was done (`ok`) or failed: a failure ends the
/// delivery, but for one to keep the code, which changes nothing for the other steps.
pub open spec fn steps_after(steps: Seq<DeliveryStep>, ok: bool) -> Seq<DeliveryStep> {
    if steps.len() > 0 && (ok || steps[0] == DeliveryStep::CacheCode) {
        steps.drop_first()
    } else {
        Seq::empty()
    }
}

/// A code is delivered in one step at least and four at most.
pub proof fn plan_is_short(config: DeliveryConfig)
    ensures
        1 <= plan(config).len() <= 4,
{
}

/// Exactly one of the three ways is taken: a window, typing, or the clipboard.
pub proof fn plan_takes_one_way(config: DeliveryConfig)
    ensures
        plan(config).contains(DeliveryStep::SpawnWindow) <==> config.floating_window,
        plan(config).contains(DeliveryStep::DirectInput) <==> !config.floating_window
            && config.direct_input,
        plan(config).contains(DeliveryStep::Copy) <==> !config.floating_window
            && !config.direct_input,
{
    let steps = plan(config);
    let first = if config.double_click_fill {
        1int
    } else {
        0
    };
    assert(steps[first] == if config.floating_window {
        DeliveryStep::SpawnWindow
    } else if config.direct_input {
        DeliveryStep::DirectInput
    } else {
        DeliveryStep::Copy
    });
}

/// The enter key is pressed last, only where that is set and no window is shown, and only
/// after the code was typed or copied.
pub proof fn enter_comes_last(config: DeliveryConfig, i: int)
    requires
        0 <= i < plan(config).len(),
        plan(config)[i] == DeliveryStep::PressEnter,
    ensures
        config.auto_enter && !config.floating_window,
        i == plan(config).len() - 1,
        exists|k: int|
            0 <= k < i && (#[trigger] plan(config)[k] == DeliveryStep::DirectInput || plan(
                config,
            )[k] == DeliveryStep::Copy),
{
    let first = if config.double_click_fill {
        1int
    } else {
        0
    };
    assert(plan(config)[first] == DeliveryStep::DirectInput || plan(config)[first]
        == DeliveryStep::Copy);
}

/// A window is remembered only right after it was opened, and only along with a kept code.
pub proof fn popup_needs_kept_code(config: DeliveryConfig, i: int)
    requires
        0 <= i < plan(config).len(),
        plan(config)[i] == DeliveryStep::RegisterPopup,
    ensures
        i == 2,
        plan(config)[0] == DeliveryStep::CacheCode,
        plan(config)[1] == DeliveryStep::SpawnWindow,
{
}

/// Each step is taken exactly where the settings ask for it: a code is kept for a double click,
/// shown in a window, remembered along with that window, typed, copied, pasted from the
/// clipboard, and followed by the enter key.
pub proof fn steps_are_taken_as_set(config: DeliveryConfig)
    ensures
        plan(config).contains(DeliveryStep::CacheCode) <==> config.double_click_fill,
        plan(config).contains(DeliveryStep::SpawnWindow) <==> config.floating_window,
        plan(config).contains(DeliveryStep::RegisterPopup) <==> config.floating_window
            && config.double_click_fill,
        plan(config).contains(DeliveryStep::DirectInput) <==> config.direct_input
            && !config.floating_window,
        plan(config).contains(DeliveryStep::Copy) <==> !config.direct_input
            && !config.floating_window,
        plan(config).contains(DeliveryStep::Paste) <==> config.auto_paste && !config.direct_input
            && !config.floating_window,
        plan(config).contains(DeliveryStep::PressEnter) <==> config.auto_enter
            && !config.floating_window,
{
    let steps = plan(config);
    plan_takes_one_way(config);
    let first = if config.double_click_fill {
        1int
    } else {
        0
    };
    if config.double_click_fill {
        assert(steps[0] == DeliveryStep::CacheCode);
    }
    if config.floating_window && config.double_click_fill {
        assert(steps[2] == DeliveryStep::RegisterPopup);
    }
    if !config.floating_window && !config.direct_input && config.auto_paste {
        assert(steps[first + 1] == DeliveryStep::Paste);
    }
    if !config.floating_window && config.auto_enter {
        assert(steps.last() == DeliveryStep::PressEnter);
        assert(steps[steps.len() - 1] == DeliveryStep::PressEnter);
    }
}

/// The place of a step among the others on the way of a code to the user.
pub open spec fn rank(step: DeliveryStep) -> int {
    match step {
        DeliveryStep::CacheCode => 0,
        DeliveryStep::SpawnWindow | DeliveryStep::DirectInput | DeliveryStep::Copy => 1,
        DeliveryStep::RegisterPopup | DeliveryStep::Paste => 2,
        DeliveryStep::PressEnter => 3,
    }
}

/// The steps come in their order, none of them twice: the code is kept before it goes anywhere,
/// a window is remembered after it was opened, the clipboard is pasted from after the code was
/// copied, and the enter key is pressed after all of that.
pub proof fn steps_come_in_order(config: DeliveryConfig, i: int, j: int)
    requires
        0 <= i < j < plan(config).len(),
    ensures
        rank(plan(config)[i]) < rank(plan(config)[j]),
        plan(config)[j] == DeliveryStep::Paste ==> plan(config)[j - 1] == DeliveryStep::Copy,
        plan(config)[j] == DeliveryStep::RegisterPopup ==> plan(config)[j - 1]
            == DeliveryStep::SpawnWindow,
{
}

/// A step that was done is followed by the next one. One that failed is the last one, but where
/// it was to keep the code: the others are taken all the same.
pub proof fn failures_end_the_delivery(steps: Seq<DeliveryStep>, ok: bool)
    requires
        steps.len() > 0,
    ensures
        ok ==> seq![steps[0]] + steps_after(steps, ok) == steps,
        !ok && steps[0] != DeliveryStep::CacheCode ==> steps_after(steps, ok).len() == 0,
        !ok && steps[0] == DeliveryStep::CacheCode ==> steps_after(steps, ok) == steps_after(
            steps,
            true,
        ),
{
    if ok {
        assert(seq![steps[0]] + steps_after(steps, ok) =~= steps);
    }
}

} // verus!
