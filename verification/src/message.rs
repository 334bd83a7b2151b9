//! The watcher of the message store: which changes of its files lead to a scan, and the
//! polling that follows.

use crate::clock;
use crate::clock::{Timestamp, MILLISECOND};
use crate::paths;
use crate::polling::{CatchUp, PollState, Scheduled, CATCH_UP_POLL_WINDOW};
use crate::rows;
use crate::rows::RowidError;
use vstd::prelude::*;
use vstd::string::*;

verus! {

broadcast use vstd::string::group_string_axioms;

/// The least time between two scans that changes of files set off, in nanoseconds.
pub const FILE_EVENT_SCAN_DEBOUNCE: u128 = 350 * MILLISECOND;

/// What happened to a file.
#[derive(Clone, Copy, Debug, PartialEq, Eq, Structural)]
pub enum FileEventKind {
    /// Something, without saying what.
    Any,
    Access,
    Create,
    Modify,
    Remove,
    /// Something that is none of the others.
    Other,
}

/// What is done about a change of a file.
#[derive(Clone, Copy, Debug, PartialEq, Eq, Structural)]
pub enum FileVerdict {
    /// Nothing: the file has nothing to do with messages.
    UnrelatedPath,
    /// Nothing: what happened to the file brings no message.
    UnrelatedEvent,
    /// Nothing now: it is noise, or the last scan was just before.
    Deferred,
    /// The database is scanned.
    Scan,
}

/// The watcher of the message store.
#[derive(Debug)]
pub struct MessageProcessor {
    /// What the tasks share that poll the database.
    pub catch_up: CatchUp,
    /// When a change of a file last set off a scan.
    pub last_file_event_scan_at: Option<Timestamp>,
}

/// Whether what happened to a file can bring a message.
pub open spec fn brings_messages(kind: FileEventKind) -> bool {
    kind == FileEventKind::Any || kind == FileEventKind::Create || kind == FileEventKind::Modify
}

/// Whether a change of `path` at `now` may set off a scan, where `last` is when one last did.
pub open spec fn scan_is_due(last: Option<Timestamp>, path: Seq<u8>, now: Timestamp) -> bool {
    &&& !paths::is_store_index(path)
    &&& last matches Some(at) ==> clock::elapsed(at, now) >= FILE_EVENT_SCAN_DEBOUNCE
}

/// When a change of a file last set off a scan, after a change of `path` at `now` that may.
pub open spec fn last_scan(
    last: Option<Timestamp>,
    path: Seq<u8>,
    now: Timestamp,
) -> Option<Timestamp> {
    if scan_is_due(last, path, now) {
        Some(now)
    } else {
        last
    }
}

/// When a change of a file last set off a scan, after a change of any kind.
pub open spec fn last_scan_after(
    last: Option<Timestamp>,
    path: Seq<u8>,
    kind: FileEventKind,
    now: Timestamp,
) -> Option<Timestamp> {
    if verdict(last, path, kind, now) == FileVerdict::Scan {
        Some(now)
    } else {
        last
    }
}

/// The newest row that was dealt with once a watcher was set up.
pub open spec fn first_record(last_processed: i64, latest: Option<i64>) -> i64 {
    match latest {
        Some(rowid) => rowid,
        None => last_processed,
    }
}

/// What is done about a change of a file.
pub open spec fn verdict(
    last: Option<Timestamp>,
    path: Seq<u8>,
    kind: FileEventKind,
    now: Timestamp,
) -> FileVerdict {
    if !paths::in_message_store(path) {
        FileVerdict::UnrelatedPath
    } else if !brings_messages(kind) {
        FileVerdict::UnrelatedEvent
    } else if !scan_is_due(last, path, now) {
        FileVerdict::Deferred
    } else {
        FileVerdict::Scan
    }
}

impl MessageProcessor {
    /// A watcher that starts behind the newest row, where its number could be read:
    /// `last_processed` is the newest row that was dealt with so far.
    pub fn new(last_processed: &mut i64, latest: Option<i64>) -> (processor: MessageProcessor)
        ensures
            *final(last_processed) == match latest {
                Some(rowid) => rowid,
                None => *old(last_processed),
            },
            *final(last_processed) == first_record(*old(last_processed), latest),
            processor.catch_up.until is None,
            !processor.catch_up.running,
            processor.last_file_event_scan_at is None,
    {
        if let Some(rowid) = latest {
            *last_processed = rowid;
        }
        MessageProcessor { catch_up: CatchUp::new(), last_file_event_scan_at: None }
    }

    /// The newest row number, from how the query for it ended and the bytes that it wrote.
    pub fn get_latest_message_rowid(success: bool, stdout: &[u8]) -> (rowid: Result<
        i64,
        RowidError,
    >)
        ensures
            rowid == rows::latest_rowid_in(success, rows::utf8_lossy(stdout@)),
            vstd::utf8::valid_utf8(stdout@) ==> rowid == rows::latest_rowid_in(
                success,
                vstd::utf8::decode_utf8(stdout@),
            ),
    {
        let text: String = rows::text_of_bytes(stdout);
        rows::latest_rowid(success, text.as_str())
    }

    /// Whether what happened to a file can bring a message.
    pub fn is_relevant_event(kind: FileEventKind) -> (relevant: bool)
        ensures
            relevant == brings_messages(kind),
    {
        match kind {
            FileEventKind::Any | FileEventKind::Create | FileEventKind::Modify => true,
            FileEventKind::Access | FileEventKind::Remove | FileEventKind::Other => false,
        }
    }

    /// Whether a change of the file at `path` can mean a new message.
    pub fn is_relevant_messages_path(path: &[u8]) -> (relevant: bool)
        ensures
            relevant == paths::in_message_store(path@),
    {
        paths::is_named(path, "chat.db") || paths::is_named(path, "chat.db-wal")
            || paths::is_named(path, "chat.db-shm") || (paths::has_piece(path, "NickNameCache")
            && paths::has_extension(path, "db"))
    }

    /// Whether `path` is the index of the message database.
    pub fn is_noisy_messages_path(path: &[u8]) -> (noisy: bool)
        ensures
            noisy == paths::is_store_index(path@),
    {
        paths::is_named(path, "chat.db-shm")
    }

    /// Whether a change of `path` at `now` sets off a scan; if it does, that is remembered.
    pub fn should_scan_immediately_for_file_event(
        &mut self,
        path: &[u8],
        now: Timestamp,
    ) -> (scan: bool)
        ensures
            scan == scan_is_due(old(self).last_file_event_scan_at, path@, now),
            final(self).last_file_event_scan_at == if scan {
                Some(now)
            } else {
                old(self).last_file_event_scan_at
            },
            final(self).last_file_event_scan_at == last_scan(
                old(self).last_file_event_scan_at,
                path@,
                now,
            ),
            final(self).catch_up == old(self).catch_up,
    {
        if Self::is_noisy_messages_path(path) {
            return false;
        }
        if let Some(last) = self.last_file_event_scan_at {
            if now.duration_since(last) < FILE_EVENT_SCAN_DEBOUNCE {
                return false;
            }
        }
        self.last_file_event_scan_at = Some(now);
        true
    }

    /// Decides what is done about a change of the file at `path`; a scan is remembered.
    pub fn process_file(
        &mut self,
        path: &[u8],
        kind: FileEventKind,
        now: Timestamp,
    ) -> (done: FileVerdict)
        ensures
            done == verdict(old(self).last_file_event_scan_at, path@, kind, now),
            final(self).last_file_event_scan_at == if done == FileVerdict::Scan {
                Some(now)
            } else {
                old(self).last_file_event_scan_at
            },
            final(self).last_file_event_scan_at == last_scan_after(
                old(self).last_file_event_scan_at,
                path@,
                kind,
                now,
            ),
            final(self).catch_up == old(self).catch_up,
    {
        if !Self::is_relevant_messages_path(path) {
            return FileVerdict::UnrelatedPath;
        }
        if !Self::is_relevant_event(kind) {
            return FileVerdict::UnrelatedEvent;
        }
        if !self.should_scan_immediately_for_file_event(path, now) {
            return FileVerdict::Deferred;
        }
        FileVerdict::Scan
    }

    /// Asks for polling from `now` on.
    pub fn schedule_catch_up_polling(&mut self, now: Timestamp) -> (scheduled: Scheduled)
        requires
            now.nanos + CATCH_UP_POLL_WINDOW <= u128::MAX,
        ensures
            final(self).catch_up == old(self).catch_up.requested(now),
            final(self).last_file_event_scan_at == old(self).last_file_event_scan_at,
            scheduled.opened == (old(self).catch_up.until is None),
            scheduled.spawn == !old(self).catch_up.running,
            scheduled == old(self).catch_up.scheduling(),
    {
        self.catch_up.request(now)
    }

    /// Takes the step that a polling task stands before.
    pub fn run_catch_up_polling(&mut self, state: PollState, now: Timestamp) -> (next: PollState)
        ensures
            final(self).catch_up == old(self).catch_up.stepped(state, now),
            final(self).last_file_event_scan_at == old(self).last_file_event_scan_at,
            next == old(self).catch_up.next_state(state, now),
    {
        self.catch_up.step(state, now)
    }

    /// The directory of the message store below the home directory.
    pub fn get_watch_path(home: &str) -> (path: String)
        ensures
            path@ == paths::path_below(home@, "Library/Messages"@),
    {
        proof {
            reveal_strlit("Library/Messages");
        }
        paths::join_path(home, "Library/Messages")
    }

    /// The message database below the home directory.
    pub fn database_path(home: &str) -> (path: String)
        ensures
            path@ == paths::path_below(home@, "Library/Messages/chat.db"@),
    {
        proof {
            reveal_strlit("Library/Messages/chat.db");
        }
        paths::join_path(home, "Library/Messages/chat.db")
    }

    /// The ending of the names of the files that are watched.
    pub fn get_file_pattern(&self) -> (pattern: &'static str)
        ensures
            pattern@ == ".db"@,
    {
        ".db"
    }
}

/// When changes of files set off scans: the times of those that do, of a series of changes of
/// paths at times, where `last` is when one did before.
pub open spec fn scan_times(
    last: Option<Timestamp>,
    changes: Seq<(Seq<u8>, Timestamp)>,
) -> Seq<Timestamp>
    decreases changes.len(),
{
    if changes.len() == 0 {
        Seq::empty()
    } else {
        let (path, now) = changes[0];
        if scan_is_due(last, path, now) {
            seq![now] + scan_times(Some(now), changes.drop_first())
        } else {
            scan_times(last, changes.drop_first())
        }
    }
}

/// However many changes of files come in, two scans that they set off one after the other are
/// never closer than the debounce time.
pub proof fn scans_keep_their_distance(
    last: Option<Timestamp>,
    changes: Seq<(Seq<u8>, Timestamp)>,
)
    ensures
        ({
            let times = scan_times(last, changes);
            &&& times.len() > 0 ==> (last matches Some(at) ==> clock::elapsed(at, times[0])
                >= FILE_EVENT_SCAN_DEBOUNCE)
            &&& forall|i: int|
                0 < i < times.len() ==> clock::elapsed(times[i - 1], #[trigger] times[i])
                    >= FILE_EVENT_SCAN_DEBOUNCE
        }),
    decreases changes.len(),
{
    if changes.len() > 0 {
        let (path, now) = changes[0];
        let rest = changes.drop_first();
        if scan_is_due(last, path, now) {
            scans_keep_their_distance(Some(now), rest);
            let times = scan_times(last, changes);
            let later = scan_times(Some(now), rest);
            assert(times =~= seq![now] + later);
            assert(times[0] == now);
            assert forall|i: int| 0 < i < times.len() implies clock::elapsed(
                times[i - 1],
                #[trigger] times[i],
            ) >= FILE_EVENT_SCAN_DEBOUNCE by {
                assert(times[i] == later[i - 1]);
                if i > 1 {
                    assert(times[i - 1] == later[i - 2]);
                }
            }
        } else {
            scans_keep_their_distance(last, rest);
            assert(scan_times(last, changes) == scan_times(last, rest));
        }
    }
}

/// A change of the index of the database alone never sets off a scan.
pub proof fn noise_sets_off_no_scan(
    last: Option<Timestamp>,
    path: Seq<u8>,
    kind: FileEventKind,
    now: Timestamp,
)
    requires
        paths::is_store_index(path),
    ensures
        verdict(last, path, kind, now) != FileVerdict::Scan,
{
}

/// Changes of the index of the database make no difference to the others: neither do they set off
/// scans, nor do they put any off.
pub proof fn noise_is_passed_over(last: Option<Timestamp>, changes: Seq<(Seq<u8>, Timestamp)>)
    ensures
        scan_times(last, changes) == scan_times(
            last,
            changes.filter(|change: (Seq<u8>, Timestamp)| !paths::is_store_index(change.0)),
        ),
    decreases changes.len(),
{
    let matters = |change: (Seq<u8>, Timestamp)| !paths::is_store_index(change.0);
    if changes.len() > 0 {
        let (path, now) = changes[0];
        let rest = changes.drop_first();
        assert(changes =~= seq![changes[0]] + rest);
        rest.lemma_filter_prepend(changes[0], matters);
        noise_is_passed_over(last, rest);
        noise_is_passed_over(Some(now), rest);
        if matters(changes[0]) {
            assert(changes.filter(matters)[0] == changes[0]);
            assert(changes.filter(matters).drop_first() =~= rest.filter(matters));
        } else {
            assert(changes.filter(matters) =~= rest.filter(matters));
        }
    } else {
        reveal(Seq::filter);
    }
}

/// No change is put off longer than the debounce time: a change that can bring a message, of a
/// file of the message store other than its index, sets off a scan if no change did so before or
/// the last one that did lies 350 milliseconds back or more, however long that is. It is put off
/// if that lies less far back.
pub proof fn changes_wait_for_the_debounce_alone(
    last: Option<Timestamp>,
    path: Seq<u8>,
    kind: FileEventKind,
    now: Timestamp,
)
    requires
        paths::in_message_store(path),
        !paths::is_store_index(path),
        kind == FileEventKind::Any || kind == FileEventKind::Create || kind
            == FileEventKind::Modify,
    ensures
        last is None ==> verdict(last, path, kind, now) == FileVerdict::Scan,
        last matches Some(at) ==> verdict(last, path, kind, now) == if now.nanos >= at.nanos
            + 350_000_000 {
            FileVerdict::Scan
        } else {
            FileVerdict::Deferred
        },
        scan_is_due(last, path, now) <==> verdict(last, path, kind, now) == FileVerdict::Scan,
{
}

/// A change of a file outside the message store is unrelated whatever happened to the file, and
/// one inside it exactly if the file was read, removed or something else happened to it. Neither
/// depends on when it comes.
pub proof fn unrelated_changes_do_nothing(
    last: Option<Timestamp>,
    path: Seq<u8>,
    kind: FileEventKind,
    now: Timestamp,
)
    ensures
        verdict(last, path, kind, now) == FileVerdict::UnrelatedPath <==> !paths::in_message_store(
            path,
        ),
        verdict(last, path, kind, now) == FileVerdict::UnrelatedEvent <==> paths::in_message_store(
            path,
        ) && (kind == FileEventKind::Access || kind == FileEventKind::Remove || kind
            == FileEventKind::Other),
{
}

/// A change of the index of the database is put off whenever it comes, if it could bring a
/// message at all.
pub proof fn noise_is_deferred(
    last: Option<Timestamp>,
    path: Seq<u8>,
    kind: FileEventKind,
    now: Timestamp,
)
    requires
        paths::is_store_index(path),
        kind == FileEventKind::Any || kind == FileEventKind::Create || kind
            == FileEventKind::Modify,
    ensures
        verdict(last, path, kind, now) == FileVerdict::Deferred,
        !scan_is_due(last, path, now),
{
}

/// Of changes that come one after the other, each at least 350 milliseconds behind the one before,
/// every one sets off a scan unless it is noise.
pub proof fn changes_far_apart_are_all_scanned(
    last: Option<Timestamp>,
    changes: Seq<(Seq<u8>, Timestamp)>,
)
    requires
        forall|i: int| 0 <= i < changes.len() ==> !paths::is_store_index((#[trigger] changes[i]).0),
        changes.len() > 0 && last is Some ==> changes[0].1.nanos >= last->0.nanos + 350_000_000,
        forall|i: int|
            0 < i < changes.len() ==> (#[trigger] changes[i]).1.nanos >= changes[i - 1].1.nanos
                + 350_000_000,
    ensures
        scan_times(last, changes) == changes.map_values(|change: (Seq<u8>, Timestamp)| change.1),
    decreases changes.len(),
{
    let times = changes.map_values(|change: (Seq<u8>, Timestamp)| change.1);
    if changes.len() > 0 {
        let rest = changes.drop_first();
        assert forall|i: int| 0 <= i < rest.len() implies !paths::is_store_index(
            (#[trigger] rest[i]).0,
        ) by {
            assert(rest[i] == changes[i + 1]);
        }
        assert forall|i: int| 0 < i < rest.len() implies (#[trigger] rest[i]).1.nanos >= rest[i
            - 1].1.nanos + 350_000_000 by {
            assert(rest[i] == changes[i + 1]);
            assert(rest[i - 1] == changes[i]);
        }
        if rest.len() > 0 {
            assert(rest[0] == changes[1]);
        }
        changes_far_apart_are_all_scanned(Some(changes[0].1), rest);
    }
    assert(scan_times(last, changes) =~= times);
}

/// The time of a scan counts from the change that set it off: the next change is put off for 350
/// milliseconds behind that one and for nothing else. Changes that set off none do not count.
pub proof fn only_scans_start_the_debounce(
    last: Option<Timestamp>,
    path: Seq<u8>,
    kind: FileEventKind,
    now: Timestamp,
    next_path: Seq<u8>,
    next: Timestamp,
)
    requires
        paths::in_message_store(next_path),
        !paths::is_store_index(next_path),
    ensures
        ({
            let after = last_scan_after(last, path, kind, now);
            let due = verdict(after, next_path, FileEventKind::Modify, next);
            &&& verdict(last, path, kind, now) == FileVerdict::Scan ==> after == Some(now) && due
                == if next.nanos >= now.nanos + 350_000_000 {
                FileVerdict::Scan
            } else {
                FileVerdict::Deferred
            }
            &&& verdict(last, path, kind, now) != FileVerdict::Scan ==> after == last
        }),
        scan_is_due(last, path, now) ==> last_scan(last, path, now) == Some(now) && (scan_is_due(
            Some(now),
            next_path,
            next,
        ) <==> next.nanos >= now.nanos + 350_000_000),
        !scan_is_due(last, path, now) ==> last_scan(last, path, now) == last,
{
}

/// A watcher starts behind the newest row that the database tells of, whatever was dealt with
/// before, and where it was without an answer from it.
pub proof fn watchers_start_behind_the_newest_row(last_processed: i64, rowid: i64)
    ensures
        first_record(last_processed, Some(rowid)) == rowid,
        first_record(last_processed, None) == last_processed,
{
}

} // verus!
