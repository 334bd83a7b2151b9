//! What goes into and comes out of the message database: the query for new rows, the rows
//! that `sqlite3` prints (`rowid|text`, one a line), and what its complaints mean.

use crate::number;
use crate::text;
use vstd::prelude::*;
use vstd::string::*;

verus! {

broadcast use vstd::string::group_string_axioms;

/// Why no row number could be read.
#[derive(Clone, Copy, Debug, PartialEq, Eq, Structural)]
pub enum RowidError {
    /// The output holds no row.
    NoRow,
    /// What stands where the row number should be is not a 64-bit number.
    NotANumber,
}

/// The message text in a line of output: what stands behind the first bar, trimmed.
/// A blank line and a line without a bar hold none.
pub open spec fn message_in(line: Seq<char>) -> Option<Seq<char>> {
    let bar = text::position(line, '|');
    if text::trimmed(line).len() == 0 || bar == line.len() {
        None
    } else {
        Some(text::trimmed(line.skip(bar + 1)))
    }
}

/// The message texts in the lines of an output, in order.
pub open spec fn messages_in(lines: Seq<Seq<char>>) -> Seq<Seq<char>>
    decreases lines.len(),
{
    if lines.len() == 0 {
        Seq::empty()
    } else {
        let rest = messages_in(lines.drop_first());
        match message_in(lines[0]) {
            Some(text) => seq![text] + rest,
            None => rest,
        }
    }
}

/// The message text in a line of output, if it holds one.
fn message_text(line: &str) -> (text: Option<&str>)
    ensures
        text is Some <==> message_in(line@) is Some,
        text matches Some(t) ==> message_in(line@) == Some(t@),
{
    let chars: Vec<char> = text::chars_of(line);
    let bar: usize = text::find_char(&chars, '|');
    proof {
        text::lemma_position(line@, '|');
    }
    if text::trim(line).is_empty() || bar == chars.len() {
        return None;
    }
    let behind: &str = line.substring_char(bar + 1, chars.len());
    assert(behind@ =~= line@.skip(bar + 1));
    Some(text::trim(behind))
}

/// The message texts in the output of the query for new rows, in order.
pub fn parse_sqlite_output(output: &str) -> (messages: Vec<String>)
    ensures
        text::owned_views(messages@) == messages_in(text::lines_of(output@)),
{
    let list: Vec<&str> = text::lines(output);
    let ghost all = text::views(list@);
    let mut messages: Vec<String> = Vec::new();
    let mut i: usize = 0;
    proof {
        assert(all.skip(0) =~= all);
        assert(text::owned_views(messages@) + messages_in(all) =~= messages_in(all));
    }
    while i < list.len()
        invariant
            i <= list.len(),
            all == text::views(list@),
            text::owned_views(messages@) + messages_in(all.skip(i as int)) == messages_in(all),
        decreases list.len() - i,
    {
        let ghost before = messages@;
        let line: &str = list[i];
        proof {
            assert(all.skip(i as int)[0] == line@);
            assert(all.skip(i as int).drop_first() =~= all.skip(i + 1));
        }
        if let Some(text) = message_text(line) {
            let owned: String = text.to_owned();
            messages.push(owned);
            proof {
                assert(text::owned_views(messages@) =~= text::owned_views(before).push(text@));
                let rest = messages_in(all.skip(i + 1));
                assert(text::owned_views(messages@) + rest =~= text::owned_views(before) + (
                seq![text@] + rest));
            }
        }
        i += 1;
    }
    proof {
        assert(all.skip(i as int) =~= Seq::<Seq<char>>::empty());
        let read = text::owned_views(messages@);
        assert(read + Seq::<Seq<char>>::empty() =~= read);
    }
    messages
}

/// The row number in the last line of an output.
pub open spec fn last_rowid_in(output: Seq<char>) -> Result<i64, RowidError> {
    let lines = text::lines_of(text::trimmed(output));
    if lines.len() == 0 || lines.last().len() == 0 {
        Err(RowidError::NoRow)
    } else {
        let line = lines.last();
        match number::i64_in(line.take(text::position(line, '|'))) {
            Some(rowid) => Ok(rowid),
            None => Err(RowidError::NotANumber),
        }
    }
}

/// The row number in the last line of the output of the query for new rows.
pub fn get_last_rowid(output: &str) -> (rowid: Result<i64, RowidError>)
    ensures
        rowid == last_rowid_in(output@),
{
    let list: Vec<&str> = text::lines(text::trim(output));
    assert(text::views(list@).len() == list@.len());
    if list.len() == 0 {
        return Err(RowidError::NoRow);
    }
    let line: &str = list[list.len() - 1];
    assert(text::views(list@).last() == line@);
    if line.is_empty() {
        return Err(RowidError::NoRow);
    }
    let chars: Vec<char> = text::chars_of(line);
    let bar: usize = text::find_char(&chars, '|');
    proof {
        text::lemma_position(line@, '|');
    }
    let field: &str = line.substring_char(0, bar);
    assert(field@ =~= line@.take(bar as int));
    match number::parse_i64(field) {
        Some(rowid) => Ok(rowid),
        None => Err(RowidError::NotANumber),
    }
}

/// The newest row number that the query for it printed: zero if the query failed or the
/// table is empty.
pub open spec fn latest_rowid_in(success: bool, output: Seq<char>) -> Result<i64, RowidError> {
    if !success || text::trimmed(output).len() == 0 {
        Ok(0)
    } else {
        match number::i64_in(text::trimmed(output)) {
            Some(rowid) => Ok(rowid),
            None => Err(RowidError::NotANumber),
        }
    }
}

/// The newest row number, from what the query for it printed.
pub fn latest_rowid(success: bool, output: &str) -> (rowid: Result<i64, RowidError>)
    ensures
        rowid == latest_rowid_in(success, output@),
{
    if success {
        let text: &str = text::trim(output);
        if !text.is_empty() {
            return match number::parse_i64(text) {
                Some(rowid) => Ok(rowid),
                None => Err(RowidError::NotANumber),
            };
        }
    }
    Ok(0)
}

/// The text that `String::from_utf8_lossy` makes of bytes.
pub uninterp spec fn utf8_lossy(bytes: Seq<u8>) -> Seq<char>;

/// Calls `String::from_utf8_lossy`. Claimed of it: the text depends on the bytes alone, and
/// bytes that are UTF-8 are read as the text that they encode. Which replacement characters
/// stand for bytes that are not UTF-8 is not stated.
#[verifier::external_body]
pub(crate) fn text_of_bytes(bytes: &[u8]) -> (text: String)
    ensures
        text@ == utf8_lossy(bytes@),
        vstd::utf8::valid_utf8(bytes@) ==> text@ == vstd::utf8::decode_utf8(bytes@),
{
    String::from_utf8_lossy(bytes).into_owned()
}

/// The query for the newest row number.
pub open spec fn latest_query() -> Seq<char> {
    "SELECT MAX(ROWID) FROM message;"@
}

/// The query for the newest row number.
pub fn latest_rowid_query() -> (sql: &'static str)
    ensures
        sql@ == latest_query(),
{
    "SELECT MAX(ROWID) FROM message;"
}

/// The query for at most fifty rows behind `last_rowid`, oldest first, with line breaks and
/// bars in the texts replaced by blanks.
pub open spec fn new_rows_query(last_rowid: i64) -> Seq<char> {
    "SELECT m.ROWID,
                    REPLACE(REPLACE(REPLACE(IFNULL(m.text, ''), char(13), ' '), char(10), ' '), '|', ' ')
             FROM message m
             WHERE m.ROWID > "@
        + number::decimal(last_rowid as int)
        + "
             ORDER BY m.ROWID ASC
             LIMIT 50;"@
}

/// The query for the rows behind `last_rowid`.
pub fn scan_query(last_rowid: i64) -> (sql: String)
    ensures
        sql@ == new_rows_query(last_rowid),
{
    let mut sql: String =
        "SELECT m.ROWID,
                    REPLACE(REPLACE(REPLACE(IFNULL(m.text, ''), char(13), ' '), char(10), ' '), '|', ' ')
             FROM message m
             WHERE m.ROWID > ".to_owned();
    number::append_decimal(&mut sql, last_rowid);
    sql.append(
        "
             ORDER BY m.ROWID ASC
             LIMIT 50;",
    );
    sql
}

/// Whether a complaint of `sqlite3` says that the database may not be read.
pub open spec fn denies_access(complaint: Seq<char>) -> bool {
    ||| text::occurs_in("attempt to write a readonly database"@, complaint)
    ||| text::occurs_in("permission denied"@, complaint)
    ||| text::occurs_in("unable to open database"@, complaint)
}

/// Whether a complaint of `sqlite3` says that the database may not be read.
pub fn is_permission_error(stderr: &str) -> (denied: bool)
    ensures
        denied == denies_access(stderr@),
{
    text::contains_text(stderr, "attempt to write a readonly database") || text::contains_text(
        stderr,
        "permission denied",
    ) || text::contains_text(stderr, "unable to open database")
}

/// Every message text that is read has no white space at its ends.
pub proof fn messages_are_trimmed(lines: Seq<Seq<char>>, i: int)
    requires
        0 <= i < messages_in(lines).len(),
    ensures
        text::trimmed(messages_in(lines)[i]) == messages_in(lines)[i],
    decreases lines.len(),
{
    let rest = lines.drop_first();
    match message_in(lines[0]) {
        Some(message) => {
            if i == 0 {
                let line = lines[0];
                text::trimming_is_idempotent(line.skip(text::position(line, '|') + 1));
            } else {
                messages_are_trimmed(rest, i - 1);
            }
        },
        None => {
            messages_are_trimmed(rest, i);
        },
    }
}

proof fn lemma_message_ignores_return(line: Seq<char>)
    ensures
        message_in(text::without_return(line)) == message_in(line),
{
    let short = text::without_return(line);
    if short != line {
        text::lemma_trimmed_ignores_end(line);
        text::lemma_position(line, '|');
        text::lemma_position(short, '|');
        let bar = text::position(short, '|');
        assert forall|i: int| 0 <= i < bar implies line[i] != '|' by {
            assert(short[i] != '|');
        }
        if bar < short.len() {
            assert(line[bar] == short[bar]);
            text::lemma_position_is(line, '|', bar);
            let behind = line.skip(bar + 1);
            text::lemma_trimmed_ignores_end(behind);
            assert(behind.drop_last() =~= short.skip(bar + 1));
        } else {
            text::lemma_position_is(line, '|', line.len() as int);
        }
    }
}

/// An output can be split at any line feed: its messages are those of what stands before the
/// line feed and then those of what stands behind it.
pub proof fn messages_split_at_line_feeds(before: Seq<char>, behind: Seq<char>)
    ensures
        messages_in(text::lines_of(before + seq!['\n'] + behind)) == messages_in(
            text::lines_of(before),
        ) + messages_in(text::lines_of(behind)),
    decreases before.len(),
{
    let whole = before + seq!['\n'] + behind;
    let end = text::position(before, '\n');
    let last = messages_in(text::lines_of(behind));
    text::lemma_position(before, '\n');
    let line = before.take(end);
    assert(!line.contains('\n'));
    if end < before.len() {
        let rest = before.skip(end + 1);
        messages_split_at_line_feeds(rest, behind);
        assert(before =~= line + seq!['\n'] + rest);
        assert(whole =~= line + seq!['\n'] + (rest + seq!['\n'] + behind));
        text::lemma_lines_of_line_and_rest(line, rest);
        text::lemma_lines_of_line_and_rest(line, rest + seq!['\n'] + behind);
        lemma_messages_of_first(text::without_return(line), text::lines_of(rest));
        lemma_messages_of_first(
            text::without_return(line),
            text::lines_of(rest + seq!['\n'] + behind),
        );
        assert(messages_in(text::lines_of(whole)) =~= messages_in(text::lines_of(before)) + last);
    } else {
        assert(line =~= before);
        text::lemma_lines_of_line_and_rest(before, behind);
        lemma_messages_of_first(text::without_return(before), text::lines_of(behind));
        lemma_message_ignores_return(before);
        if before.len() > 0 {
            text::lemma_lines_of_one(before);
            lemma_messages_of_first(before, Seq::empty());
            assert(seq![before] + Seq::<Seq<char>>::empty() =~= seq![before]);
        }
        assert(messages_in(text::lines_of(whole)) =~= messages_in(text::lines_of(before)) + last);
    }
}

proof fn lemma_messages_of_first(first: Seq<char>, rest: Seq<Seq<char>>)
    ensures
        messages_in(seq![first] + rest) == (match message_in(first) {
            Some(message) => seq![message],
            None => Seq::empty(),
        }) + messages_in(rest),
{
    let all = seq![first] + rest;
    assert(all.drop_first() =~= rest);
    assert(Seq::<Seq<char>>::empty() + messages_in(rest) =~= messages_in(rest));
}

/// Rows that the database wrote in UTF-8 are read as what it printed.
pub proof fn printed_bytes_read_back(rows: Seq<(i64, Seq<char>)>)
    ensures
        vstd::utf8::valid_utf8(vstd::utf8::encode_utf8(printed_rows(rows))),
        vstd::utf8::decode_utf8(vstd::utf8::encode_utf8(printed_rows(rows))) == printed_rows(rows),
{
    vstd::utf8::encode_utf8_valid_utf8(printed_rows(rows));
    vstd::utf8::encode_utf8_decode_utf8(printed_rows(rows));
}

/// A row as `sqlite3` prints it, without the line feed behind it.
pub open spec fn printed_row(rowid: i64, text: Seq<char>) -> Seq<char> {
    number::decimal(rowid as int) + seq!['|'] + text
}

/// Rows as `sqlite3` prints them: one a line.
pub open spec fn printed_rows(rows: Seq<(i64, Seq<char>)>) -> Seq<char>
    decreases rows.len(),
{
    if rows.len() == 0 {
        Seq::empty()
    } else {
        printed_row(rows[0].0, rows[0].1) + seq!['\n'] + printed_rows(rows.drop_first())
    }
}

/// Whether no text of the rows holds a line feed: the query puts a blank in its place.
pub open spec fn one_line_each(rows: Seq<(i64, Seq<char>)>) -> bool {
    forall|i: int| 0 <= i < rows.len() ==> !(#[trigger] rows[i]).1.contains('\n')
}

proof fn lemma_printed_row(rowid: i64, text: Seq<char>)
    requires
        !text.contains('\n'),
    ensures
        !printed_row(rowid, text).contains('\n'),
        text::position(printed_row(rowid, text), '|') == number::decimal(rowid as int).len(),
        printed_row(rowid, text).len() > 0,
        !text::is_white_space(printed_row(rowid, text)[0]),
{
    let line = printed_row(rowid, text);
    let number = number::decimal(rowid as int);
    number::lemma_decimal_chars(rowid as int);
    assert forall|i: int| 0 <= i < number.len() implies line[i] != '|' && line[i] != '\n'
        && !text::is_white_space(line[i]) by {
        assert(line[i] == number[i]);
        assert(number::is_digit(number[i]) || number[i] == '-');
    }
    text::lemma_position_is(line, '|', number.len() as int);
    assert forall|i: int| 0 <= i < line.len() implies line[i] != '\n' by {
        if i > number.len() {
            assert(line[i] == text[i - number.len() - 1]);
            assert(text.contains(line[i]));
        }
    }
}

proof fn lemma_message_in_printed_row(rowid: i64, text: Seq<char>)
    requires
        !text.contains('\n'),
    ensures
        message_in(text::without_return(printed_row(rowid, text))) == Some(text::trimmed(text)),
{
    let full = printed_row(rowid, text);
    let line = text::without_return(full);
    let bar = number::decimal(rowid as int).len() as int;
    lemma_printed_row(rowid, text);
    text::lemma_position(full, '|');
    assert(full[bar] == '|');
    assert forall|i: int| 0 <= i < bar implies line[i] != '|' by {
        assert(line[i] == full[i]);
    }
    text::lemma_position_is(line, '|', bar);
    text::lemma_trimmed_keeps(line, bar);
    if full.last() == '\r' {
        assert(text.last() == '\r');
        assert(line.skip(bar + 1) =~= text.drop_last());
        text::lemma_trimmed_ignores_end(text);
    } else {
        assert(line.skip(bar + 1) =~= text);
    }
}

/// What the database prints is read back: of each printed row, in order, the text, trimmed.
pub proof fn printed_messages_read_back(rows: Seq<(i64, Seq<char>)>)
    requires
        one_line_each(rows),
    ensures
        messages_in(text::lines_of(printed_rows(rows))) == rows.map_values(
            |row: (i64, Seq<char>)| text::trimmed(row.1),
        ),
    decreases rows.len(),
{
    let texts = rows.map_values(|row: (i64, Seq<char>)| text::trimmed(row.1));
    if rows.len() > 0 {
        let rest = rows.drop_first();
        let line = printed_row(rows[0].0, rows[0].1);
        assert forall|i: int| 0 <= i < rest.len() implies !(#[trigger] rest[i]).1.contains(
            '\n',
        ) by {
            assert(rest[i] == rows[i + 1]);
        }
        printed_messages_read_back(rest);
        assert(!rows[0].1.contains('\n'));
        lemma_printed_row(rows[0].0, rows[0].1);
        text::lemma_lines_of_line_and_rest(line, printed_rows(rest));
        lemma_message_in_printed_row(rows[0].0, rows[0].1);
        let lines = text::lines_of(printed_rows(rows));
        assert(lines.drop_first() =~= text::lines_of(printed_rows(rest)));
        assert(lines[0] == text::without_return(line));
        assert(texts =~= seq![text::trimmed(rows[0].1)] + rest.map_values(
            |row: (i64, Seq<char>)| text::trimmed(row.1),
        ));
    } else {
        assert(messages_in(text::lines_of(printed_rows(rows))) =~= texts);
    }
}

proof fn lemma_last_line(rows: Seq<(i64, Seq<char>)>, tail: Seq<char>)
    requires
        one_line_each(rows),
        tail.len() > 0,
        !tail.contains('\n'),
    ensures
        text::lines_of(printed_rows(rows) + tail).len() > 0,
        text::lines_of(printed_rows(rows) + tail).last() == tail,
    decreases rows.len(),
{
    if rows.len() > 0 {
        let rest = rows.drop_first();
        let line = printed_row(rows[0].0, rows[0].1);
        assert forall|i: int| 0 <= i < rest.len() implies !(#[trigger] rest[i]).1.contains(
            '\n',
        ) by {
            assert(rest[i] == rows[i + 1]);
        }
        lemma_last_line(rest, tail);
        assert(!rows[0].1.contains('\n'));
        lemma_printed_row(rows[0].0, rows[0].1);
        text::lemma_lines_of_line_and_rest(line, printed_rows(rest) + tail);
        assert(printed_rows(rows) + tail =~= line + seq!['\n'] + (printed_rows(rest) + tail));
    } else {
        assert(printed_rows(rows) + tail =~= tail);
        text::lemma_lines_of_one(tail);
    }
}

proof fn lemma_printed_rows_last(rows: Seq<(i64, Seq<char>)>)
    requires
        rows.len() > 0,
    ensures
        printed_rows(rows) == printed_rows(rows.drop_last()) + printed_row(
            rows.last().0,
            rows.last().1,
        ) + seq!['\n'],
    decreases rows.len(),
{
    let line = printed_row(rows[0].0, rows[0].1) + seq!['\n'];
    let end = printed_row(rows.last().0, rows.last().1) + seq!['\n'];
    if rows.len() > 1 {
        let rest = rows.drop_first();
        lemma_printed_rows_last(rest);
        assert(rows.drop_last().drop_first() =~= rest.drop_last());
        assert(printed_rows(rows) =~= printed_rows(rows.drop_last()) + end);
    } else {
        assert(rows.drop_first() =~= Seq::<(i64, Seq<char>)>::empty());
        assert(rows.drop_last() =~= Seq::<(i64, Seq<char>)>::empty());
        assert(printed_rows(Seq::<(i64, Seq<char>)>::empty()) == Seq::<char>::empty());
        assert(printed_rows(rows) =~= line);
    }
    assert(printed_rows(rows) =~= printed_rows(rows.drop_last()) + printed_row(
        rows.last().0,
        rows.last().1,
    ) + seq!['\n']);
}

/// What the database prints is read back: the row number of the last printed row.
pub proof fn printed_rowid_reads_back(rows: Seq<(i64, Seq<char>)>)
    requires
        rows.len() > 0,
        one_line_each(rows),
    ensures
        last_rowid_in(printed_rows(rows)) == Ok::<i64, RowidError>(rows.last().0),
{
    let output = printed_rows(rows);
    let front = rows.drop_last();
    let (rowid, message) = rows.last();
    let line = printed_row(rowid, message);
    let number = number::decimal(rowid as int);
    let start = printed_rows(front).len() as int;
    let bar = start + number.len();
    lemma_printed_rows_last(rows);
    assert(!rows[rows.len() - 1].1.contains('\n'));
    lemma_printed_row(rowid, message);
    assert(!text::is_white_space(output[0])) by {
        assert(!rows[0].1.contains('\n'));
        lemma_printed_row(rows[0].0, rows[0].1);
        assert(output[0] == printed_row(rows[0].0, rows[0].1)[0]);
    }
    assert(line[number.len() as int] == '|');
    assert(output[bar] == line[number.len() as int]);
    let t = text::trimmed(output);
    text::lemma_trim_end(output);
    assert(t.len() > bar);
    let tail = output.subrange(start, t.len() as int);
    assert(t.len() <= start + line.len()) by {
        if t.len() > start + line.len() {
            assert(t.len() == output.len());
            assert(t.last() == '\n');
            text::lemma_trim_end_last(output);
        }
    }
    assert(t =~= printed_rows(front) + tail);
    assert(tail =~= line.take(t.len() - start));
    assert(!tail.contains('\n')) by {
        assert forall|i: int| 0 <= i < tail.len() implies tail[i] != '\n' by {
            assert(tail[i] == line[i]);
            assert(line.contains(line[i]));
        }
    }
    assert forall|i: int| 0 <= i < front.len() implies !(#[trigger] front[i]).1.contains(
        '\n',
    ) by {
        assert(front[i] == rows[i]);
    }
    lemma_last_line(front, tail);
    text::lemma_position(line, '|');
    assert forall|i: int| 0 <= i < number.len() implies tail[i] != '|' by {
        assert(tail[i] == line[i]);
    }
    text::lemma_position_is(tail, '|', number.len() as int);
    assert(tail.take(number.len() as int) =~= number);
    number::decimal_reads_back(rowid);
}

/// A line holds a message exactly if there is a bar in it: what stands behind the first one,
/// without the white space around it, whatever stands before it.
pub proof fn messages_stand_behind_the_first_bar(field: Seq<char>, rest: Seq<char>)
    requires
        !field.contains('|'),
    ensures
        message_in(field + seq!['|'] + rest) == Some(text::trimmed(rest)),
        message_in(field) is None,
{
    let line = field + seq!['|'] + rest;
    let n = field.len() as int;
    assert(line[n] == '|');
    assert forall|i: int| 0 <= i < n implies line[i] != '|' by {
        assert(line[i] == field[i]);
        assert(field.contains(field[i]));
    }
    text::lemma_position_is(line, '|', n);
    text::lemma_trimmed_keeps(line, n);
    assert(line.skip(n + 1) =~= rest);
    assert forall|i: int| 0 <= i < n implies field[i] != '|' by {
        assert(field.contains(field[i]));
    }
    text::lemma_position_is(field, '|', n);
}

/// The messages of one line are the one that it holds, or none.
pub proof fn a_line_holds_one_message(line: Seq<char>)
    requires
        !line.contains('\n'),
    ensures
        message_in(line) matches Some(message) ==> messages_in(text::lines_of(line)) == seq![
            message,
        ],
        message_in(line) is None ==> messages_in(text::lines_of(line)).len() == 0,
{
    if line.len() > 0 {
        text::lemma_lines_of_one(line);
        lemma_messages_of_first(line, Seq::empty());
        assert(seq![line] + Seq::<Seq<char>>::empty() =~= seq![line]);
        assert(messages_in(Seq::<Seq<char>>::empty()) =~= Seq::<Seq<char>>::empty());
        if let Some(message) = message_in(line) {
            assert(seq![message] + Seq::<Seq<char>>::empty() =~= seq![message]);
        }
    }
}

/// The row number of an output is the number in front of the first bar of its last line, whatever
/// the lines before it hold and whatever white space stands around the whole. A last line without
/// a bar is read as a number as it is.
pub proof fn row_numbers_stand_in_the_last_line(
    before: Seq<char>,
    body: Seq<char>,
    field: Seq<char>,
    rest: Seq<char>,
    behind: Seq<char>,
)
    requires
        forall|i: int| 0 <= i < before.len() ==> text::is_white_space(#[trigger] before[i]),
        forall|i: int| 0 <= i < behind.len() ==> text::is_white_space(#[trigger] behind[i]),
        body.len() > 0 ==> body.last() == '\n',
        rest.len() > 0 ==> rest[0] == '|',
        !field.contains('\n'),
        !field.contains('|'),
        !rest.contains('\n'),
        (field + rest).len() > 0,
        !text::is_white_space((body + (field + rest))[0]),
        !text::is_white_space((field + rest).last()),
    ensures
        last_rowid_in(before + (body + (field + rest)) + behind) == match number::i64_in(field) {
            Some(rowid) => Ok::<i64, RowidError>(rowid),
            None => Err(RowidError::NotANumber),
        },
{
    let line = field + rest;
    let core = body + line;
    let n = field.len() as int;
    assert(core.last() == line.last());
    text::trimming_takes_white_space_only(before, core, behind);
    assert(!line.contains('\n')) by {
        if line.contains('\n') {
            let i = choose|i: int| 0 <= i < line.len() && line[i] == '\n';
            if i < n {
                assert(field[i] == '\n');
            } else {
                assert(rest[i - n] == '\n');
            }
        }
    }
    text::the_last_line_is_behind_the_last_line_feed(body, line);
    assert forall|i: int| 0 <= i < n implies line[i] != '|' by {
        assert(line[i] == field[i]);
        assert(field.contains(field[i]));
    }
    text::lemma_position_is(line, '|', n);
    assert(line.take(n) =~= field);
}

/// An output holds no row exactly if it is nothing but white space.
pub proof fn no_row_means_nothing_printed(output: Seq<char>)
    ensures
        last_rowid_in(output) == Err::<i64, RowidError>(RowidError::NoRow) <==> (forall|i: int|
            0 <= i < output.len() ==> text::is_white_space(#[trigger] output[i])),
{
    let core = text::trimmed(output);
    if forall|i: int| 0 <= i < output.len() ==> text::is_white_space(#[trigger] output[i]) {
        text::trimming_takes_white_space_only(output, Seq::empty(), Seq::empty());
        assert(output + Seq::<char>::empty() + Seq::<char>::empty() =~= output);
    } else {
        let i = choose|i: int|
            0 <= i < output.len() && !text::is_white_space(#[trigger] output[i]);
        text::lemma_trimmed_keeps(output, i);
        text::lemma_trim_end_last(text::trim_start(output));
        assert(text::is_white_space('\n'));
        text::last_lines_are_not_empty(core);
    }
}

/// The newest row number is what the query printed, white space around it aside, if that is a
/// number that fits, and an error if it is anything else. It is zero if nothing was printed or
/// the query failed.
pub proof fn the_newest_row_is_what_was_printed(
    before: Seq<char>,
    core: Seq<char>,
    behind: Seq<char>,
)
    requires
        forall|i: int| 0 <= i < before.len() ==> text::is_white_space(#[trigger] before[i]),
        forall|i: int| 0 <= i < behind.len() ==> text::is_white_space(#[trigger] behind[i]),
        core.len() > 0 ==> !text::is_white_space(core[0]) && !text::is_white_space(core.last()),
    ensures
        latest_rowid_in(false, before + core + behind) == Ok::<i64, RowidError>(0),
        core.len() == 0 ==> latest_rowid_in(true, before + core + behind) == Ok::<i64, RowidError>(
            0,
        ),
        core.len() > 0 ==> latest_rowid_in(true, before + core + behind) == match number::i64_in(
            core,
        ) {
            Some(rowid) => Ok::<i64, RowidError>(rowid),
            None => Err(RowidError::NotANumber),
        },
{
    text::trimming_takes_white_space_only(before, core, behind);
}

/// The query for new rows is the same for every row number but for that number, and the number in
/// it reads back.
pub proof fn the_query_names_the_last_row(last_rowid: i64)
    ensures
        ({
            let sql = new_rows_query(last_rowid);
            let start =
                "SELECT m.ROWID,
                    REPLACE(REPLACE(REPLACE(IFNULL(m.text, ''), char(13), ' '), char(10), ' '), '|', ' ')
             FROM message m
             WHERE m.ROWID > "@;
            let end =
                "
             ORDER BY m.ROWID ASC
             LIMIT 50;"@;
            &&& start.len() + end.len() < sql.len()
            &&& sql.take(start.len() as int) == start
            &&& sql.skip(sql.len() - end.len()) == end
            &&& number::i64_in(sql.subrange(start.len() as int, sql.len() - end.len())) == Some(
                last_rowid,
            )
        }),
{
    let sql = new_rows_query(last_rowid);
    let start =
        "SELECT m.ROWID,
                    REPLACE(REPLACE(REPLACE(IFNULL(m.text, ''), char(13), ' '), char(10), ' '), '|', ' ')
             FROM message m
             WHERE m.ROWID > "@;
    let end =
        "
             ORDER BY m.ROWID ASC
             LIMIT 50;"@;
    let number = number::decimal(last_rowid as int);
    number::decimal_reads_back(last_rowid);
    number::lemma_decimal_chars(last_rowid as int);
    assert(sql.take(start.len() as int) =~= start);
    assert(sql.skip(sql.len() - end.len()) =~= end);
    assert(sql.subrange(start.len() as int, sql.len() - end.len()) =~= number);
}

/// A complaint says that the database may not be read wherever one of three phrases stands in it,
/// and nowhere else.
pub proof fn three_phrases_deny_access(before: Seq<char>, behind: Seq<char>, complaint: Seq<char>)
    ensures
        denies_access(before + "attempt to write a readonly database"@ + behind),
        denies_access(before + "permission denied"@ + behind),
        denies_access(before + "unable to open database"@ + behind),
        denies_access(complaint) <==> text::occurs_in(
            "attempt to write a readonly database"@,
            complaint,
        ) || text::occurs_in("permission denied"@, complaint) || text::occurs_in(
            "unable to open database"@,
            complaint,
        ),
{
    text::parts_occur_where_they_stand(
        before,
        "attempt to write a readonly database"@,
        behind,
        complaint,
    );
    text::parts_occur_where_they_stand(before, "permission denied"@, behind, complaint);
    text::parts_occur_where_they_stand(before, "unable to open database"@, behind, complaint);
}

} // verus!
