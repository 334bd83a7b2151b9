//! Scans one after the other, over a table of messages that stays as it is meanwhile: together
//! they search every new message once.

use crate::delivery::DeliveryConfig;
use crate::number;
use crate::rows;
use crate::scan;
use crate::text;
use vstd::prelude::*;

verus! {

/// How many rows the query for new rows gives at most.
pub const ROWS_AT_ONCE: usize = 50;

/// A scan that was carried out: what started it, what the query complained of while it gave its
/// rows, and how the outside work behind the query went.
pub ghost struct Run {
    pub trigger: scan::ScanTrigger,
    pub stderr: Seq<char>,
    pub events: Seq<scan::EventView>,
}

/// Whether the rows of a table stand in the order of their numbers.
pub open spec fn ascending(table: Seq<(i64, Seq<char>)>) -> bool {
    forall|i: int, j: int|
        0 <= i < j < table.len() ==> (#[trigger] table[i]).0 < (#[trigger] table[j]).0
}

/// The rows of a table behind the row number `rowid`.
pub open spec fn rows_behind(table: Seq<(i64, Seq<char>)>, rowid: i64) -> Seq<
    (i64, Seq<char>),
> {
    table.filter(|row: (i64, Seq<char>)| row.0 > rowid)
}

/// How many of `pending` rows as many scans get to.
pub open spec fn reached(pending: nat, scans: nat) -> int {
    if ROWS_AT_ONCE * scans < pending {
        ROWS_AT_ONCE * scans
    } else {
        pending as int
    }
}

/// The rows that the query for the rows behind `rowid` gives.
pub open spec fn batch(table: Seq<(i64, Seq<char>)>, rowid: i64) -> Seq<(i64, Seq<char>)> {
    let behind = rows_behind(table, rowid);
    behind.take(reached(behind.len(), 1))
}

/// The texts of rows as they are searched.
pub open spec fn texts_of(rows: Seq<(i64, Seq<char>)>) -> Seq<Seq<char>> {
    rows.map_values(|row: (i64, Seq<char>)| text::trimmed(row.1))
}

/// The scan that was told what the query printed.
pub open spec fn queried(table: Seq<(i64, Seq<char>)>, rowid: i64, run: Run) -> scan::ScanView {
    scan::fresh_scan(run.trigger, rowid).after(
        scan::EventView::QueryDone {
            success: true,
            stdout: rows::printed_rows(batch(table, rowid)),
            stderr: run.stderr,
        },
    )
}

/// The texts that were searched for a code while the events came, in the order of the searches.
pub open spec fn searched(scan: scan::ScanView, events: Seq<scan::EventView>) -> Seq<Seq<char>>
    decreases events.len(),
{
    if events.len() == 0 {
        Seq::empty()
    } else {
        let rest = searched(scan.after(events[0]), events.drop_first());
        match scan.due() {
            scan::ActionView::ExtractCode(message) => {
                if scan::answers(scan.phase, events[0]) {
                    seq![message] + rest
                } else {
                    rest
                }
            },
            _ => rest,
        }
    }
}

/// The row number on record after the events, where it was `record` before them.
pub open spec fn recorded(
    scan: scan::ScanView,
    events: Seq<scan::EventView>,
    record: i64,
) -> i64
    decreases events.len(),
{
    if events.len() == 0 {
        record
    } else {
        let now = match scan.due() {
            scan::ActionView::SetWatermark(rowid) => {
                if scan::answers(scan.phase, events[0]) {
                    rowid
                } else {
                    record
                }
            },
            _ => record,
        };
        recorded(scan.after(events[0]), events.drop_first(), now)
    }
}

/// The row number on record after scans one after the other, each for the rows behind the one
/// that it found on record; the first found `rowid`.
pub open spec fn record_after(
    table: Seq<(i64, Seq<char>)>,
    rowid: i64,
    runs: Seq<Run>,
) -> i64
    decreases runs.len(),
{
    if runs.len() == 0 {
        rowid
    } else {
        let found = record_after(table, rowid, runs.drop_last());
        recorded(queried(table, found, runs.last()), runs.last().events, found)
    }
}

/// The texts that those scans searched for a code, in the order of the searches.
pub open spec fn searched_by_all(
    table: Seq<(i64, Seq<char>)>,
    rowid: i64,
    runs: Seq<Run>,
) -> Seq<Seq<char>>
    decreases runs.len(),
{
    if runs.len() == 0 {
        Seq::empty()
    } else {
        let found = record_after(table, rowid, runs.drop_last());
        searched_by_all(table, rowid, runs.drop_last()) + searched(
            queried(table, found, runs.last()),
            runs.last().events,
        )
    }
}

/// Whether each of those scans was carried out to its end.
pub open spec fn all_finished(
    table: Seq<(i64, Seq<char>)>,
    rowid: i64,
    runs: Seq<Run>,
) -> bool
    decreases runs.len(),
{
    runs.len() > 0 ==> {
        let found = record_after(table, rowid, runs.drop_last());
        let end = queried(table, found, runs.last()).after_all(runs.last().events);
        &&& all_finished(table, rowid, runs.drop_last())
        &&& end.phase == scan::ScanPhase::Finished
    }
}

/// The query for new rows asks for that many rows at most.
pub proof fn the_query_is_limited(rowid: i64)
    ensures
        rows::new_rows_query(rowid).len() >= 9,
        rows::new_rows_query(rowid).skip(rows::new_rows_query(rowid).len() - 9) == "LIMIT "@
            + number::decimal(ROWS_AT_ONCE as int) + ";"@,
{
    reveal_strlit("LIMIT ");
    reveal_strlit(";");
    reveal_strlit(
        "
             ORDER BY m.ROWID ASC
             LIMIT 50;",
    );
    reveal_with_fuel(number::digits_of, 3);
    let sql = rows::new_rows_query(rowid);
    assert(number::decimal(50) =~= seq!['5', '0']);
    assert(sql.skip(sql.len() - 9) =~= "LIMIT "@ + number::decimal(50) + ";"@);
}

proof fn lemma_searched(scan: scan::ScanView, events: Seq<scan::EventView>)
    requires
        scan.valid(),
        scan.phase != scan::ScanPhase::Query,
    ensures
        scan.examined <= scan.after_all(events).examined <= scan.messages.len(),
        searched(scan, events) == scan.messages.subrange(
            scan.examined,
            scan.after_all(events).examined,
        ),
    decreases events.len(),
{
    scan::scans_are_valid(scan, events);
    scan::rows_stay(scan, events);
    if events.len() > 0 {
        let next = scan.after(events[0]);
        scan::scans_stay_valid(scan, events[0]);
        scan::scans_end(scan, events[0]);
        scan::each_message_is_searched_once(scan, events[0]);
        scan::rows_stay(scan, seq![events[0]]);
        assert(next.messages == scan.messages);
        lemma_searched(next, events.drop_first());
    }
    assert(searched(scan, events) =~= scan.messages.subrange(
        scan.examined,
        scan.after_all(events).examined,
    ));
}

proof fn lemma_recorded(scan: scan::ScanView, events: Seq<scan::EventView>, record: i64)
    requires
        scan.valid(),
        scan.phase != scan::ScanPhase::Query,
        scan.after_all(events).phase == scan::ScanPhase::Finished,
    ensures
        scan.phase == scan::ScanPhase::Finished || scan.messages.len() == 0
            || scan.newest_rowid is None ==> recorded(
            scan,
            events,
            record,
        ) == record,
        scan.phase != scan::ScanPhase::Finished && scan.messages.len() > 0
            && scan.newest_rowid is Some ==> recorded(scan, events, record)
            == scan.newest_rowid->0,
    decreases events.len(),
{
    if events.len() > 0 {
        scan::scans_stay_valid(scan, events[0]);
        scan::scans_end(scan, events[0]);
        let now = if scan.phase == scan::ScanPhase::SetWatermark && events[0] is Performed {
            scan.newest_rowid->0
        } else {
            record
        };
        lemma_recorded(scan.after(events[0]), events.drop_first(), now);
    }
}

/// A scan that was carried out to its end searched the text of every row that the query gave,
/// once and in their order, and left the number of the last one on record. Where the query gave
/// none, it searched nothing and left the record as it was.
pub proof fn a_scan_takes_its_batch(table: Seq<(i64, Seq<char>)>, rowid: i64, run: Run)
    requires
        rows::one_line_each(table),
        queried(table, rowid, run).after_all(run.events).phase == scan::ScanPhase::Finished,
    ensures
        searched(queried(table, rowid, run), run.events) == texts_of(batch(table, rowid)),
        recorded(queried(table, rowid, run), run.events, rowid) == if batch(table, rowid).len()
            == 0 {
            rowid
        } else {
            batch(table, rowid).last().0
        },
{
    let given = batch(table, rowid);
    let start = queried(table, rowid, run);
    lemma_behind_one_line(table, rowid);
    assert(rows::one_line_each(given));
    rows::printed_messages_read_back(given);
    assert(start.messages == texts_of(given));
    if given.len() > 0 {
        rows::printed_rowid_reads_back(given);
    }
    scan::scans_stay_valid(
        scan::fresh_scan(run.trigger, rowid),
        scan::EventView::QueryDone {
            success: true,
            stdout: rows::printed_rows(given),
            stderr: run.stderr,
        },
    );
    scan::scans_are_valid(start, run.events);
    scan::rows_stay(start, run.events);
    lemma_searched(start, run.events);
    lemma_recorded(start, run.events, rowid);
    assert(start.messages.subrange(0, start.messages.len() as int) =~= start.messages);
}

proof fn lemma_behind_one_line(table: Seq<(i64, Seq<char>)>, rowid: i64)
    requires
        rows::one_line_each(table),
    ensures
        rows::one_line_each(rows_behind(table, rowid)),
    decreases table.len(),
{
    reveal(Seq::filter);
    if table.len() > 0 {
        assert(rows::one_line_each(table.drop_last()));
        lemma_behind_one_line(table.drop_last(), rowid);
        assert(!table[table.len() - 1].1.contains('\n'));
    }
}

proof fn lemma_behind(table: Seq<(i64, Seq<char>)>, rowid: i64) -> (start: int)
    requires
        ascending(table),
    ensures
        0 <= start <= table.len(),
        forall|i: int| 0 <= i < start ==> (#[trigger] table[i]).0 <= rowid,
        forall|i: int| start <= i < table.len() ==> (#[trigger] table[i]).0 > rowid,
        rows_behind(table, rowid) == table.skip(start),
    decreases table.len(),
{
    reveal(Seq::filter);
    if table.len() == 0 {
        assert(table.skip(0) =~= table);
        0
    } else {
        let front = table.drop_last();
        let last = table[table.len() - 1];
        assert(ascending(front));
        let start = lemma_behind(front, rowid);
        if last.0 > rowid {
            assert forall|i: int| start <= i < table.len() implies (#[trigger] table[i]).0
                > rowid by {
                if i < front.len() {
                    assert(front[i].0 > rowid);
                }
            }
            assert forall|i: int| 0 <= i < start implies (#[trigger] table[i]).0 <= rowid by {
                assert(front[i].0 <= rowid);
            }
            assert(rows_behind(table, rowid) =~= table.skip(start));
            start
        } else {
            if start < front.len() {
                assert(front[start].0 > rowid);
                assert(table[start].0 < table[table.len() - 1].0);
            }
            assert(rows_behind(table, rowid) =~= table.skip(table.len() as int));
            table.len() as int
        }
    }
}

proof fn lemma_behind_later(table: Seq<(i64, Seq<char>)>, rowid: i64, n: int)
    requires
        ascending(table),
        0 < n <= rows_behind(table, rowid).len(),
    ensures
        rows_behind(table, rowid)[n - 1].0 > rowid,
        rows_behind(table, rows_behind(table, rowid)[n - 1].0) == rows_behind(table, rowid).skip(n),
{
    let start = lemma_behind(table, rowid);
    let later = rows_behind(table, rowid)[n - 1].0;
    let next = lemma_behind(table, later);
    assert(table[start + n - 1].0 == later);
    if start + n < table.len() {
        assert(table[start + n].0 > later);
    }
    assert(next == start + n);
    assert(table.skip(next) =~= table.skip(start).skip(n));
}

/// Scan after scan, the new rows are taken in their order, none twice and none left out: on a
/// table that stays as it is, scans that are carried out to their ends search the texts of as
/// many of the rows behind the first record as their queries give together. What is on record
/// is the number of the last row that was searched, it never falls, and the rows behind it are
/// those not searched yet.
pub proof fn scans_take_the_rows_in_turn(
    table: Seq<(i64, Seq<char>)>,
    rowid: i64,
    runs: Seq<Run>,
)
    requires
        ascending(table),
        rows::one_line_each(table),
        all_finished(table, rowid, runs),
    ensures
        ({
            let pending = rows_behind(table, rowid);
            let n = reached(pending.len(), runs.len());
            let record = record_after(table, rowid, runs);
            &&& searched_by_all(table, rowid, runs) == texts_of(pending.take(n))
            &&& record == if n == 0 {
                rowid
            } else {
                pending[n - 1].0
            }
            &&& rows_behind(table, record) == pending.skip(n)
            &&& runs.len() > 0 ==> record_after(table, rowid, runs.drop_last()) <= record
        }),
    decreases runs.len(),
{
    let pending = rows_behind(table, rowid);
    let n = reached(pending.len(), runs.len());
    if runs.len() == 0 {
        assert(pending.skip(0) =~= pending);
        assert(texts_of(pending.take(0)) =~= Seq::<Seq<char>>::empty());
    } else {
        let front = runs.drop_last();
        let before = reached(pending.len(), front.len());
        let found = record_after(table, rowid, front);
        scans_take_the_rows_in_turn(table, rowid, front);
        a_scan_takes_its_batch(table, found, runs.last());
        assert(batch(table, found) =~= pending.subrange(before, n));
        assert(texts_of(pending.take(before)) + texts_of(pending.subrange(before, n))
            =~= texts_of(pending.take(n)));
        if before < n {
            lemma_behind_later(table, rowid, n);
            lemma_behind_later(table, found, n - before);
        }
    }
}

/// The scans catch up: with n new rows on a table that stays as it is, n / 50 scans, rounded up,
/// search each of their texts exactly once and in the order of the rows. The number of the last
/// one is then on record. One more scan is given no rows, searches nothing and leaves the record
/// as it is.
pub proof fn scans_catch_up(
    table: Seq<(i64, Seq<char>)>,
    rowid: i64,
    runs: Seq<Run>,
    more: Run,
)
    requires
        ascending(table),
        rows::one_line_each(table),
        runs.len() == (rows_behind(table, rowid).len() + ROWS_AT_ONCE - 1) / (ROWS_AT_ONCE as int),
        all_finished(table, rowid, runs.push(more)),
    ensures
        ({
            let pending = rows_behind(table, rowid);
            let record = record_after(table, rowid, runs);
            &&& searched_by_all(table, rowid, runs) == texts_of(pending)
            &&& record == if pending.len() == 0 {
                rowid
            } else {
                pending.last().0
            }
            &&& rowid <= record
            &&& batch(table, record) == Seq::<(i64, Seq<char>)>::empty()
            &&& searched(queried(table, record, more), more.events) == Seq::<Seq<char>>::empty()
            &&& searched_by_all(table, rowid, runs.push(more)) == texts_of(pending)
            &&& record_after(table, rowid, runs.push(more)) == record
        }),
{
    let pending = rows_behind(table, rowid);
    let record = record_after(table, rowid, runs);
    assert(runs.push(more).drop_last() =~= runs);
    scans_take_the_rows_in_turn(table, rowid, runs);
    assert(reached(pending.len(), runs.len()) == pending.len());
    assert(pending.take(pending.len() as int) =~= pending);
    if pending.len() > 0 {
        lemma_behind_later(table, rowid, pending.len() as int);
    }
    assert(batch(table, record) =~= Seq::<(i64, Seq<char>)>::empty());
    a_scan_takes_its_batch(table, record, more);
    assert(texts_of(batch(table, record)) =~= Seq::<Seq<char>>::empty());
    assert(searched_by_all(table, rowid, runs.push(more)) =~= texts_of(pending));
}

proof fn lemma_way_to_the_end(scan: scan::ScanView) -> (events: Seq<scan::EventView>)
    requires
        scan.valid(),
        scan.phase != scan::ScanPhase::Query,
        scan.phase != scan::ScanPhase::Failed,
    ensures
        scan.after_all(events).phase == scan::ScanPhase::Finished,
    decreases scan::work_left(scan),
{
    if scan.phase == scan::ScanPhase::Finished {
        Seq::empty()
    } else {
        let event = match scan.phase {
            scan::ScanPhase::Extract => scan::EventView::Code(None),
            scan::ScanPhase::LoadConfig => scan::EventView::Config(
                DeliveryConfig {
                    double_click_fill: false,
                    floating_window: false,
                    direct_input: false,
                    auto_paste: false,
                    auto_enter: false,
                },
            ),
            scan::ScanPhase::ReadLatest => scan::EventView::LatestRowid(None),
            scan::ScanPhase::CheckAccess => scan::EventView::Access(true),
            _ => scan::EventView::Performed(true),
        };
        scan::scans_stay_valid(scan, event);
        scan::scans_end(scan, event);
        let rest = lemma_way_to_the_end(scan.after(event));
        let events = seq![event] + rest;
        assert(events.drop_first() =~= rest);
        events
    }
}

/// Any number of scans can be carried out to their ends, one after the other.
pub proof fn scans_can_be_carried_out(
    table: Seq<(i64, Seq<char>)>,
    rowid: i64,
    scans: nat,
)
    ensures
        exists|runs: Seq<Run>| runs.len() == scans && #[trigger] all_finished(table, rowid, runs),
    decreases scans,
{
    if scans == 0 {
        assert(all_finished(table, rowid, Seq::<Run>::empty()));
    } else {
        scans_can_be_carried_out(table, rowid, (scans - 1) as nat);
        let front = choose|runs: Seq<Run>|
            runs.len() == scans - 1 && #[trigger] all_finished(table, rowid, runs);
        let found = record_after(table, rowid, front);
        let start = Run {
            trigger: scan::ScanTrigger::FileEvent,
            stderr: Seq::empty(),
            events: Seq::empty(),
        };
        scan::scans_stay_valid(
            scan::fresh_scan(start.trigger, found),
            scan::EventView::QueryDone {
                success: true,
                stdout: rows::printed_rows(batch(table, found)),
                stderr: start.stderr,
            },
        );
        let events = lemma_way_to_the_end(queried(table, found, start));
        let run = Run { events, ..start };
        assert(queried(table, found, run) == queried(table, found, start));
        assert(front.push(run).drop_last() =~= front);
        assert(all_finished(table, rowid, front.push(run)));
    }
}

/// Whatever a query printed, a scan that was carried out to its end searched every message in it,
/// once and in order, and left on record the row number in the last line, where there were
/// messages and that number could be read; else it left the record as it was.
pub proof fn a_scan_takes_what_was_printed(
    trigger: scan::ScanTrigger,
    rowid: i64,
    stdout: Seq<char>,
    stderr: Seq<char>,
    events: Seq<scan::EventView>,
)
    requires
        scan::fresh_scan(trigger, rowid).after(
            scan::EventView::QueryDone { success: true, stdout, stderr },
        ).after_all(events).phase == scan::ScanPhase::Finished,
    ensures
        ({
            let query = scan::EventView::QueryDone { success: true, stdout, stderr };
            let start = scan::fresh_scan(trigger, rowid).after(query);
            let messages = rows::messages_in(text::lines_of(stdout));
            &&& searched(start, events) == messages
            &&& recorded(start, events, rowid) == match rows::last_rowid_in(stdout) {
                Ok(newest) if messages.len() > 0 => newest,
                _ => rowid,
            }
        }),
{
    let query = scan::EventView::QueryDone { success: true, stdout, stderr };
    let start = scan::fresh_scan(trigger, rowid).after(query);
    scan::scans_stay_valid(scan::fresh_scan(trigger, rowid), query);
    scan::scans_are_valid(start, events);
    scan::rows_stay(start, events);
    lemma_searched(start, events);
    lemma_recorded(start, events, rowid);
    assert(start.messages.subrange(0, start.messages.len() as int) =~= start.messages);
    assert(searched(start, events) =~= start.messages);
}

/// A scan whose query failed or could not be run searches nothing and leaves the record as it is.
pub proof fn a_failed_query_leaves_the_record(
    trigger: scan::ScanTrigger,
    rowid: i64,
    query: scan::EventView,
    events: Seq<scan::EventView>,
)
    requires
        query matches scan::EventView::QueryDone { success, .. } ==> !success,
        query is QueryDone || query is QueryFailed,
    ensures
        searched(scan::fresh_scan(trigger, rowid).after(query), events) == Seq::<Seq<char>>::empty(),
        recorded(scan::fresh_scan(trigger, rowid).after(query), events, rowid) == rowid,
{
    lemma_refused(scan::fresh_scan(trigger, rowid).after(query), events, rowid);
}

proof fn lemma_refused(scan: scan::ScanView, events: Seq<scan::EventView>, rowid: i64)
    requires
        scan.phase == scan::ScanPhase::CheckAccess || scan.phase == scan::ScanPhase::ShowDialog
            || scan.phase == scan::ScanPhase::Finished || scan.phase == scan::ScanPhase::Failed,
    ensures
        searched(scan, events) == Seq::<Seq<char>>::empty(),
        recorded(scan, events, rowid) == rowid,
    decreases events.len(),
{
    if events.len() > 0 {
        lemma_refused(scan.after(events[0]), events.drop_first(), rowid);
    }
}

} // verus!
