use otp_fill::fill_worker::{
    next_start_step, start_listener, FillEvent, FillWorker, StartStep, FILL_VERIFICATION_DELAY,
    FOCUS_SETTLE_DELAY, LISTENER_RETRY_DELAY,
};
use otp_fill::focus::{FocusProbe, ProbeReply};
use std::time::Duration;

fn due(worker: &FillWorker) -> String {
    format!("{:?}", worker.action())
}

#[test]
fn listens_once_and_only_where_that_works() {
    let mut started = false;
    assert_eq!(start_listener(false, &mut started), StartStep::Idle);
    assert!(!started);
    assert_eq!(start_listener(true, &mut started), StartStep::SpawnWorker);
    assert!(started);
    assert_eq!(start_listener(true, &mut started), StartStep::Idle);
    assert_eq!(next_start_step(StartStep::SpawnWorker, true), StartStep::SpawnListener);
    assert_eq!(next_start_step(StartStep::SpawnWorker, false), StartStep::Idle);
    assert_eq!(next_start_step(StartStep::SpawnListener, true), StartStep::Idle);
}

#[test]
fn fills_in_a_code_and_has_it_confirmed() {
    let mut worker = FillWorker::new();
    assert_eq!(due(&worker), "AwaitTrigger");
    worker.step(FillEvent::Triggered);
    assert_eq!(due(&worker), "Sleep(80000000)");
    worker.step(FillEvent::Slept);
    assert_eq!(due(&worker), "LoadConfig");
    worker.step(FillEvent::FillEnabled(true));
    assert_eq!(due(&worker), "FindInput");
    worker.step(FillEvent::InputFound(true));
    assert_eq!(due(&worker), "ReadCode");
    worker.step(FillEvent::Code(Some("4711".to_string())));
    assert_eq!(due(&worker), "Paste(\"4711\")");
    worker.step(FillEvent::Pasted(true));
    assert_eq!(due(&worker), "Sleep(200000000)");
    worker.step(FillEvent::Slept);
    assert_eq!(due(&worker), "Observe");
    worker.step(FillEvent::Observed(Some("471".to_string())));
    assert_eq!(due(&worker), "Confirm { code: \"4711\", observed: Some(\"471\") }");
    worker.step(FillEvent::Confirmed);
    assert_eq!(due(&worker), "AwaitTrigger");
    worker.step(FillEvent::Disconnected);
    assert_eq!(due(&worker), "Stop");
    worker.step(FillEvent::Triggered);
    assert_eq!(due(&worker), "Stop");
}

#[test]
fn gives_up_where_something_is_missing() {
    let stops: [Vec<FillEvent>; 4] = [
        vec![FillEvent::FillEnabled(false)],
        vec![FillEvent::FillEnabled(true), FillEvent::InputFound(false)],
        vec![FillEvent::FillEnabled(true), FillEvent::InputFound(true), FillEvent::Code(None)],
        vec![
            FillEvent::FillEnabled(true),
            FillEvent::InputFound(true),
            FillEvent::Code(Some("1".to_string())),
            FillEvent::Pasted(false),
        ],
    ];
    for events in stops {
        let mut worker = FillWorker::new();
        worker.step(FillEvent::Triggered);
        worker.step(FillEvent::Slept);
        for event in events {
            assert_ne!(due(&worker), "AwaitTrigger");
            worker.step(event);
        }
        assert_eq!(due(&worker), "AwaitTrigger");
    }
}

#[test]
fn each_double_click_starts_from_the_beginning() {
    let mut worker = FillWorker::new();
    worker.step(FillEvent::Triggered);
    worker.step(FillEvent::Slept);
    worker.step(FillEvent::FillEnabled(true));
    worker.step(FillEvent::InputFound(true));
    worker.step(FillEvent::Code(Some("1".to_string())));
    worker.step(FillEvent::Triggered);
    assert_eq!(due(&worker), "Paste(\"1\")");
    worker.step(FillEvent::Pasted(false));
    assert_eq!(due(&worker), "AwaitTrigger");
    worker.step(FillEvent::Triggered);
    worker.step(FillEvent::Pasted(true));
    worker.step(FillEvent::Observed(None));
    assert_eq!(due(&worker), "Sleep(80000000)");
    worker.step(FillEvent::Slept);
    worker.step(FillEvent::Code(Some("2".to_string())));
    assert_eq!(due(&worker), "LoadConfig");
    worker.step(FillEvent::FillEnabled(true));
    worker.step(FillEvent::InputFound(true));
    worker.step(FillEvent::Code(Some("3".to_string())));
    assert_eq!(due(&worker), "Paste(\"3\")");
    worker.step(FillEvent::Pasted(true));
    worker.step(FillEvent::Slept);
    worker.step(FillEvent::Observed(None));
    assert_eq!(due(&worker), "Confirm { code: \"3\", observed: None }");
}

#[test]
fn waits_as_long_as_it_should() {
    assert_eq!(FOCUS_SETTLE_DELAY, Duration::from_millis(80).as_nanos());
    assert_eq!(FILL_VERIFICATION_DELAY, Duration::from_millis(200).as_nanos());
    assert_eq!(LISTENER_RETRY_DELAY, Duration::from_secs(10).as_nanos());
}

fn replies(role: &str, status: i32, settable: u8, value: Option<&str>) -> Vec<ProbeReply> {
    vec![
        ProbeReply::Exists(true),
        ProbeReply::Exists(true),
        ProbeReply::IsElement(true),
        ProbeReply::Role(Some(role.to_string())),
        ProbeReply::Settable { status, settable },
        ProbeReply::Value(value.map(|v| v.to_string())),
    ]
}

fn search(replies: Vec<ProbeReply>) -> FocusProbe {
    let mut probe = FocusProbe::SystemWide;
    for reply in &replies {
        probe = probe.next(reply);
    }
    probe
}

#[test]
fn takes_writable_empty_text_fields() {
    for role in ["AXTextField", "AXTextArea", "AXComboBox"] {
        assert_eq!(search(replies(role, 0, 1, Some(""))), FocusProbe::Accepted);
    }
}

#[test]
fn turns_down_anything_else() {
    assert_eq!(search(replies("AXButton", 0, 1, Some(""))), FocusProbe::Rejected);
    assert_eq!(search(replies("AXTextField", -25205, 1, Some(""))), FocusProbe::Rejected);
    assert_eq!(search(replies("AXTextField", 0, 0, Some(""))), FocusProbe::Rejected);
    assert_eq!(search(replies("AXTextField", 0, 1, Some("x"))), FocusProbe::Rejected);
    assert_eq!(search(replies("AXTextField", 0, 1, None)), FocusProbe::Rejected);
    for i in 0..2 {
        let mut missing = replies("AXTextField", 0, 1, Some(""));
        missing[i] = ProbeReply::Exists(false);
        assert_eq!(search(missing), FocusProbe::Rejected);
    }
    let mut other = replies("AXTextField", 0, 1, Some(""));
    other[2] = ProbeReply::IsElement(false);
    assert_eq!(search(other), FocusProbe::Rejected);
    let mut nameless = replies("AXTextField", 0, 1, Some(""));
    nameless[3] = ProbeReply::Role(None);
    assert_eq!(search(nameless), FocusProbe::Rejected);
    assert_eq!(FocusProbe::Role.next(&ProbeReply::Exists(true)), FocusProbe::Role);
}
