use otp_fill::clock::{Timestamp, MILLISECOND, SECOND};
use otp_fill::message::{FileEventKind, FileVerdict, MessageProcessor};
use otp_fill::polling::{PollState, CATCH_UP_POLL_WINDOW};
use std::path::{Path, PathBuf};

fn at(nanos: u128) -> Timestamp {
    Timestamp { nanos }
}

fn processor() -> MessageProcessor {
    let mut last = 0;
    MessageProcessor::new(&mut last, None)
}

fn expected_relevance(path: &Path) -> bool {
    let file_name = path.file_name().and_then(|name| name.to_str()).unwrap_or_default();
    matches!(file_name, "chat.db" | "chat.db-wal" | "chat.db-shm")
        || (path.components().any(|component| component.as_os_str() == "NickNameCache")
            && path.extension().and_then(|ext| ext.to_str()) == Some("db"))
}

#[test]
fn knows_the_files_of_the_message_store() {
    for path in [
        "", "/", ".", "..", "chat.db", "/Users/a/Library/Messages/chat.db", "x/chat.db/", "x/chat.db/.",
        "x/chat.db/./", "x/chat.db//", "x/chat.db/..", "chat.db-wal", "a/chat.db-shm", "chat.db-journal",
        "NickNameCache/a.db", "NickNameCache", "NickNameCache/.db", "NickNameCache/..db",
        "NickNameCache/a.db.", "NickNameCache/a.tar.db", "a/NickNameCache/b/c.db", "NickNameCache/db",
        "NickNameCache.db", "xNickNameCache/a.db", "./NickNameCache/./a.db/", "NickNameCache/a.DB",
        "/NickNameCache/../a.db", "NickNameCache/a.db/..", "a.db", "Chat.db", "NickNameCache/...db",
        "NickNameCache//a.db", "...", "NickNameCache/...", "./chat.db", "././chat.db-wal",
    ] {
        assert_eq!(
            MessageProcessor::is_relevant_messages_path(path.as_bytes()),
            expected_relevance(Path::new(path)),
            "{}",
            path
        );
        assert_eq!(
            MessageProcessor::is_noisy_messages_path(path.as_bytes()),
            Path::new(path).file_name().and_then(|name| name.to_str()) == Some("chat.db-shm"),
            "{}",
            path
        );
    }
    assert!(!MessageProcessor::is_relevant_messages_path(b"\xff/chat\xff.db"));
    assert!(MessageProcessor::is_relevant_messages_path(b"\xff/chat.db"));
}

#[test]
fn knows_the_events_that_bring_messages() {
    assert!(MessageProcessor::is_relevant_event(FileEventKind::Any));
    assert!(MessageProcessor::is_relevant_event(FileEventKind::Create));
    assert!(MessageProcessor::is_relevant_event(FileEventKind::Modify));
    assert!(!MessageProcessor::is_relevant_event(FileEventKind::Access));
    assert!(!MessageProcessor::is_relevant_event(FileEventKind::Remove));
    assert!(!MessageProcessor::is_relevant_event(FileEventKind::Other));
}

#[test]
fn starts_behind_the_newest_row() {
    let mut last = 5;
    let first = MessageProcessor::new(&mut last, Some(77));
    assert_eq!(last, 77);
    assert!(first.catch_up.until.is_none() && !first.catch_up.running);
    MessageProcessor::new(&mut last, None);
    assert_eq!(last, 77);
}

#[test]
fn keeps_scans_apart() {
    let mut p = processor();
    let db = b"Library/Messages/chat.db-wal";
    assert_eq!(p.process_file(b"note.txt", FileEventKind::Modify, at(0)), FileVerdict::UnrelatedPath);
    assert_eq!(p.process_file(db, FileEventKind::Remove, at(0)), FileVerdict::UnrelatedEvent);
    assert_eq!(p.process_file(b"chat.db-shm", FileEventKind::Modify, at(0)), FileVerdict::Deferred);
    assert!(p.last_file_event_scan_at.is_none());
    assert_eq!(p.process_file(db, FileEventKind::Modify, at(10)), FileVerdict::Scan);
    assert_eq!(
        p.process_file(db, FileEventKind::Any, at(10 + 350 * MILLISECOND - 1)),
        FileVerdict::Deferred
    );
    assert_eq!(p.last_file_event_scan_at, Some(at(10)));
    assert_eq!(
        p.process_file(db, FileEventKind::Create, at(10 + 350 * MILLISECOND)),
        FileVerdict::Scan
    );
    assert_eq!(p.process_file(db, FileEventKind::Create, at(3)), FileVerdict::Deferred);
}

#[test]
fn polls_until_the_window_is_over() {
    let mut p = processor();
    let first = p.schedule_catch_up_polling(at(0));
    assert!(first.opened && first.spawn);
    let again = p.schedule_catch_up_polling(at(SECOND));
    assert!(!again.opened && !again.spawn);

    let end = SECOND + CATCH_UP_POLL_WINDOW;
    assert_eq!(p.run_catch_up_polling(PollState::Sleeping, at(end - 1)), PollState::Scanning);
    assert_eq!(p.run_catch_up_polling(PollState::Scanning, at(end - 1)), PollState::Sleeping);
    assert_eq!(p.run_catch_up_polling(PollState::Sleeping, at(end)), PollState::Clearing);
    assert!(p.catch_up.until.is_none() && p.catch_up.running);
    assert_eq!(p.run_catch_up_polling(PollState::Clearing, at(end)), PollState::Rechecking);
    assert!(!p.catch_up.running);
    assert_eq!(p.run_catch_up_polling(PollState::Rechecking, at(end)), PollState::Ended);
    assert_eq!(p.run_catch_up_polling(PollState::Ended, at(end)), PollState::Ended);
    assert_eq!(CATCH_UP_POLL_WINDOW, 60 * SECOND);
}

#[test]
fn a_request_while_a_task_ends_is_not_lost() {
    let mut p = processor();
    p.schedule_catch_up_polling(at(0));
    let late = CATCH_UP_POLL_WINDOW;
    assert_eq!(p.run_catch_up_polling(PollState::Sleeping, at(late)), PollState::Clearing);
    assert!(!p.schedule_catch_up_polling(at(late)).spawn);
    assert_eq!(p.run_catch_up_polling(PollState::Clearing, at(late)), PollState::Rechecking);
    assert_eq!(p.run_catch_up_polling(PollState::Rechecking, at(late)), PollState::TakingOver);
    assert_eq!(p.run_catch_up_polling(PollState::TakingOver, at(late)), PollState::Sleeping);
    assert!(p.catch_up.running);
}

#[test]
fn a_request_after_a_task_cleared_starts_another() {
    let mut p = processor();
    p.schedule_catch_up_polling(at(0));
    let late = CATCH_UP_POLL_WINDOW;
    p.run_catch_up_polling(PollState::Sleeping, at(late));
    p.run_catch_up_polling(PollState::Clearing, at(late));
    assert!(p.schedule_catch_up_polling(at(late)).spawn);
    assert_eq!(p.run_catch_up_polling(PollState::Rechecking, at(late)), PollState::TakingOver);
    assert_eq!(p.run_catch_up_polling(PollState::TakingOver, at(late)), PollState::Ended);
    assert!(p.catch_up.running);
}

#[test]
fn finds_the_store_below_the_home_directory() {
    for home in ["/Users/a", "/Users/a/", "", "/", "rel"] {
        assert_eq!(
            PathBuf::from(MessageProcessor::get_watch_path(home)).as_os_str(),
            PathBuf::from(home).join("Library/Messages").as_os_str()
        );
        assert_eq!(
            PathBuf::from(MessageProcessor::database_path(home)).as_os_str(),
            PathBuf::from(home).join("Library/Messages/chat.db").as_os_str()
        );
    }
    assert_eq!(processor().get_file_pattern(), ".db");
}

#[test]
fn a_request_between_its_two_steps_is_not_lost() {
    let mut p = processor();
    p.schedule_catch_up_polling(at(0));
    let late = CATCH_UP_POLL_WINDOW;
    p.run_catch_up_polling(PollState::Sleeping, at(late));
    assert!(p.catch_up.prolong(at(late)));
    p.run_catch_up_polling(PollState::Clearing, at(late));
    assert!(p.catch_up.claim());
    assert_eq!(p.run_catch_up_polling(PollState::Rechecking, at(late)), PollState::TakingOver);
    assert_eq!(p.run_catch_up_polling(PollState::TakingOver, at(late)), PollState::Ended);
    assert!(p.catch_up.running && p.catch_up.is_open(at(late)));
}

#[test]
fn changes_of_the_index_put_no_scan_off() {
    let mut noisy = processor();
    let mut quiet = processor();
    for t in (0..2000).step_by(50) {
        let now = at(t * MILLISECOND);
        assert_eq!(
            noisy.process_file(b"/m/chat.db-shm", FileEventKind::Modify, now),
            FileVerdict::Deferred
        );
        assert_eq!(
            noisy.process_file(b"/m/chat.db-wal", FileEventKind::Modify, now),
            quiet.process_file(b"/m/chat.db-wal", FileEventKind::Modify, now)
        );
        assert_eq!(noisy.last_file_event_scan_at, quiet.last_file_event_scan_at);
    }
    assert_eq!(quiet.last_file_event_scan_at, Some(at(1750 * MILLISECOND)));
}
