use otp_fill::delivery::{delivery_plan, message_source, DeliveryConfig, DeliveryStep};
use otp_fill::rows::scan_query;
use otp_fill::scan::{query_done, Scan, ScanAction, ScanEvent, ScanPhase, ScanTrigger};
use otp_fill::series::ROWS_AT_ONCE;

fn config(bits: u8) -> DeliveryConfig {
    DeliveryConfig {
        double_click_fill: bits & 1 != 0,
        floating_window: bits & 2 != 0,
        direct_input: bits & 4 != 0,
        auto_paste: bits & 8 != 0,
        auto_enter: bits & 16 != 0,
    }
}

#[test]
fn takes_one_way_to_the_user() {
    assert_eq!(message_source(), "iMessage");
    assert_eq!(delivery_plan(config(0)), vec![DeliveryStep::Copy]);
    assert_eq!(
        delivery_plan(config(1 | 8 | 16)),
        vec![
            DeliveryStep::CacheCode,
            DeliveryStep::Copy,
            DeliveryStep::Paste,
            DeliveryStep::PressEnter
        ]
    );
    assert_eq!(delivery_plan(config(16)), vec![DeliveryStep::Copy, DeliveryStep::PressEnter]);
    assert_eq!(
        delivery_plan(config(4 | 8 | 16)),
        vec![DeliveryStep::DirectInput, DeliveryStep::PressEnter]
    );
    assert_eq!(delivery_plan(config(2 | 4 | 8 | 16)), vec![DeliveryStep::SpawnWindow]);
    assert_eq!(
        delivery_plan(config(1 | 2)),
        vec![DeliveryStep::CacheCode, DeliveryStep::SpawnWindow, DeliveryStep::RegisterPopup]
    );
}

#[test]
fn plans_are_short_and_end_with_enter() {
    for bits in 0..32 {
        let steps = delivery_plan(config(bits));
        assert!(1 <= steps.len() && steps.len() <= 4);
        if let Some(i) = steps.iter().position(|step| *step == DeliveryStep::PressEnter) {
            assert_eq!(i, steps.len() - 1);
        }
    }
}

fn deliver(step: DeliveryStep, code: &str) -> String {
    format!("{:?}", ScanAction::Deliver(step, code.to_string()))
}

fn due(scan: &Scan) -> String {
    format!("{:?}", scan.action())
}

#[test]
fn scans_deliver_codes_and_record_the_newest_row() {
    let scan = Scan::new(ScanTrigger::CatchUpPolling, 7);
    assert_eq!(due(&scan), format!("{:?}", ScanAction::RunQuery(scan_query(7))));
    let scan = scan.step(query_done(true, b"8|hello\n9|code 4711\n", b""));
    assert_eq!(due(&scan), "ExtractCode(\"hello\")");
    let scan = scan.step(ScanEvent::Code(None));
    assert_eq!(due(&scan), "ExtractCode(\"code 4711\")");
    let scan = scan.step(ScanEvent::Code(Some("4711".to_string())));
    assert_eq!(due(&scan), "LoadConfig");
    let scan = scan.step(ScanEvent::Config(config(1 | 8)));
    assert_eq!(due(&scan), deliver(DeliveryStep::CacheCode, "4711"));
    let scan = scan.step(ScanEvent::Performed(false));
    assert_eq!(due(&scan), deliver(DeliveryStep::Copy, "4711"));
    let scan = scan.step(ScanEvent::Performed(true));
    assert_eq!(due(&scan), deliver(DeliveryStep::Paste, "4711"));
    let scan = scan.step(ScanEvent::Performed(true));
    assert_eq!(due(&scan), "ScheduleCatchUp");
    let scan = scan.step(ScanEvent::Performed(true));
    assert_eq!(due(&scan), "SetWatermark(9)");
    let scan = scan.step(ScanEvent::Performed(true));
    assert_eq!(due(&scan), "Finish");
    assert_eq!(scan.phase(), ScanPhase::Finished);
}

#[test]
fn a_step_that_fails_ends_the_delivery() {
    let scan = Scan::new(ScanTrigger::FileEvent, 0)
        .step(query_done(true, b"1|a\n2|b\n", b""))
        .step(ScanEvent::Code(Some("1".to_string())))
        .step(ScanEvent::Config(config(4 | 16)));
    assert_eq!(due(&scan), deliver(DeliveryStep::DirectInput, "1"));
    let scan = scan.step(ScanEvent::Performed(false));
    assert_eq!(due(&scan), "ExtractCode(\"b\")");
}

#[test]
fn polling_follows_new_messages_that_were_not_polled_for() {
    let query = || query_done(true, b"5|nothing\n", b"");
    let file = Scan::new(ScanTrigger::FileEvent, 4).step(query()).step(ScanEvent::Code(None));
    assert_eq!(due(&file), "ScheduleCatchUp");
    let polled = Scan::new(ScanTrigger::CatchUpPolling, 4).step(query()).step(ScanEvent::Code(None));
    assert_eq!(due(&polled), "SetWatermark(5)");
}

#[test]
fn a_scan_without_rows_looks_up_the_newest_one() {
    for trigger in [ScanTrigger::FileEvent, ScanTrigger::CatchUpPolling] {
        let scan = Scan::new(trigger, 4).step(query_done(true, b"\n", b"warning"));
        assert_eq!(due(&scan), "ReadLatest");
        assert_eq!(due(&scan.step(ScanEvent::LatestRowid(Some(4)))), "Finish");
    }
}

#[test]
fn an_unreadable_row_number_is_not_recorded() {
    let scan = Scan::new(ScanTrigger::CatchUpPolling, 4)
        .step(query_done(true, b"x|text\n", b""))
        .step(ScanEvent::Code(None));
    assert_eq!(due(&scan), "Finish");
}

#[test]
fn a_query_that_fails_may_ask_for_permission() {
    let denied = || {
        Scan::new(ScanTrigger::FileEvent, 4)
            .step(query_done(false, b"5|x\n", b"unable to open database file \xff"))
    };
    assert_eq!(due(&denied()), "CheckAccess");
    assert_eq!(due(&denied().step(ScanEvent::Access(true))), "Finish");
    let asked = denied().step(ScanEvent::Access(false));
    assert_eq!(due(&asked), "ShowDialog");
    assert_eq!(due(&asked.step(ScanEvent::Performed(true))), "Finish");
    let broken = Scan::new(ScanTrigger::FileEvent, 4).step(query_done(false, b"", b"no such table"));
    assert_eq!(due(&broken), "Finish");
    let missing = Scan::new(ScanTrigger::FileEvent, 4).step(ScanEvent::QueryFailed);
    assert_eq!(due(&missing), "Fail");
    assert_eq!(due(&missing.step(ScanEvent::Performed(true))), "Fail");
}

#[test]
fn bytes_that_are_not_text_are_replaced() {
    let scan = Scan::new(ScanTrigger::FileEvent, 4).step(query_done(true, b"5|a\xffb\n", b""));
    assert_eq!(due(&scan), "ExtractCode(\"a\u{fffd}b\")");
}

#[test]
fn events_that_answer_nothing_change_nothing() {
    let scan = Scan::new(ScanTrigger::FileEvent, 4)
        .step(ScanEvent::Performed(true))
        .step(ScanEvent::Code(Some("1".to_string())));
    assert_eq!(scan.phase(), ScanPhase::Query);
}

/// Scans the rows of `table` behind `record`. Every third text holds a code. Gives the texts that
/// were searched and the row number on record afterwards.
fn scan_table(table: &[(i64, String)], trigger: ScanTrigger, record: i64) -> (Vec<String>, i64) {
    let mut scan = Scan::new(trigger, record);
    let mut searched = Vec::new();
    let mut recorded = record;
    loop {
        let event = match scan.action() {
            ScanAction::RunQuery(sql) => {
                assert_eq!(sql, scan_query(record));
                let mut printed = String::new();
                for (rowid, text) in table.iter().filter(|row| row.0 > record).take(ROWS_AT_ONCE) {
                    printed.push_str(&format!("{}|{}\n", rowid, text));
                }
                query_done(true, printed.as_bytes(), b"")
            }
            ScanAction::ExtractCode(message) => {
                searched.push(message);
                let code = if searched.len() % 3 == 0 { Some("4711".to_string()) } else { None };
                ScanEvent::Code(code)
            }
            ScanAction::LoadConfig => ScanEvent::Config(config(8 | 16)),
            ScanAction::Deliver(_, _) | ScanAction::ScheduleCatchUp | ScanAction::ShowDialog => {
                ScanEvent::Performed(true)
            }
            ScanAction::SetWatermark(rowid) => {
                recorded = rowid;
                ScanEvent::Performed(true)
            }
            ScanAction::ReadLatest => ScanEvent::LatestRowid(None),
            ScanAction::CheckAccess => ScanEvent::Access(true),
            ScanAction::Finish => return (searched, recorded),
            ScanAction::Fail => panic!("the query was run"),
        };
        scan = scan.step(event);
    }
}

#[test]
fn scans_catch_up_with_every_new_row() {
    assert_eq!(ROWS_AT_ONCE, 50);
    assert!(scan_query(0).ends_with("LIMIT 50;"));
    let table: Vec<(i64, String)> =
        (0..130).map(|i| (2 * i - 11, format!(" text {} ", i))).collect();
    let mut record = 7;
    let mut all = Vec::new();
    for (number, last) in [(50, 107), (50, 207), (20, 247), (0, 247)] {
        let (searched, recorded) = scan_table(&table, ScanTrigger::FileEvent, record);
        assert_eq!(searched.len(), number);
        assert_eq!(recorded, last);
        assert!(record <= recorded);
        record = recorded;
        all.extend(searched);
    }
    let expected: Vec<String> = (10..130).map(|i| format!("text {}", i)).collect();
    assert_eq!(all, expected);
}

#[test]
fn a_full_batch_is_not_scanned_again() {
    let table: Vec<(i64, String)> = (1..51).map(|i| (i, i.to_string())).collect();
    let (searched, record) = scan_table(&table, ScanTrigger::CatchUpPolling, 0);
    assert_eq!((searched.len(), record), (50, 50));
    assert_eq!(scan_table(&table, ScanTrigger::CatchUpPolling, record), (Vec::new(), 50));
}
