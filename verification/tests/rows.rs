use otp_fill::message::MessageProcessor;
use otp_fill::rows::{
    get_last_rowid, is_permission_error, latest_rowid, latest_rowid_query, parse_sqlite_output,
    scan_query, RowidError,
};

#[test]
fn reads_back_printed_rows() {
    let rows = [(41i64, " Your code is 123456. "), (-7, "a|b"), (i64::MAX, ""), (9, "x\r")];
    for n in 1..=rows.len() {
        let mut output = String::new();
        for (rowid, text) in &rows[..n] {
            output.push_str(&format!("{}|{}\n", rowid, text));
        }
        let texts: Vec<String> = rows[..n].iter().map(|row| row.1.trim().to_string()).collect();
        assert_eq!(parse_sqlite_output(&output), texts);
        assert_eq!(get_last_rowid(&output), Ok(rows[n - 1].0));
    }
}

#[test]
fn passes_over_lines_without_a_message() {
    assert_eq!(parse_sqlite_output(""), Vec::<String>::new());
    assert_eq!(parse_sqlite_output("\n  \n12\n"), Vec::<String>::new());
    assert_eq!(
        parse_sqlite_output("1|one\r\n\r\nno bar\n |blank id\n|\n"),
        vec!["one".to_string(), "blank id".to_string(), "".to_string()]
    );
}

#[test]
fn says_why_there_is_no_row_number() {
    assert_eq!(get_last_rowid(""), Err(RowidError::NoRow));
    assert_eq!(get_last_rowid(" \n\u{3000}\r\n"), Err(RowidError::NoRow));
    assert_eq!(get_last_rowid("1|a\nx|b"), Err(RowidError::NotANumber));
    assert_eq!(get_last_rowid("1|a\n2 |b"), Err(RowidError::NotANumber));
    assert_eq!(get_last_rowid("|b"), Err(RowidError::NotANumber));
    assert_eq!(get_last_rowid("99999999999999999999|b"), Err(RowidError::NotANumber));
    assert_eq!(get_last_rowid("1|a\n  \n"), Ok(1));
    assert_eq!(get_last_rowid("17"), Ok(17));
}

#[test]
fn reads_the_newest_row_number() {
    assert_eq!(latest_rowid(true, " 512\n"), Ok(512));
    assert_eq!(latest_rowid(true, "\n"), Ok(0));
    assert_eq!(latest_rowid(false, "512"), Ok(0));
    assert_eq!(latest_rowid(true, "no such table"), Err(RowidError::NotANumber));
    assert_eq!(latest_rowid_query(), "SELECT MAX(ROWID) FROM message;");
}

#[test]
fn reads_the_newest_row_number_from_bytes() {
    assert_eq!(MessageProcessor::get_latest_message_rowid(true, b" 512\r\n"), Ok(512));
    assert_eq!(MessageProcessor::get_latest_message_rowid(true, "\u{3000}3\n".as_bytes()), Ok(3));
    assert_eq!(
        MessageProcessor::get_latest_message_rowid(true, b"5\xff"),
        Err(RowidError::NotANumber)
    );
    assert_eq!(MessageProcessor::get_latest_message_rowid(false, b"\xff"), Ok(0));
}

#[test]
fn asks_for_the_rows_behind_the_last_one() {
    for last_rowid in [0i64, 42, -1, i64::MIN] {
        let sql = format!(
            "SELECT m.ROWID,
                    REPLACE(REPLACE(REPLACE(IFNULL(m.text, ''), char(13), ' '), char(10), ' '), '|', ' ')
             FROM message m
             WHERE m.ROWID > {}
             ORDER BY m.ROWID ASC
             LIMIT 50;",
            last_rowid
        );
        assert_eq!(scan_query(last_rowid), sql);
    }
}

#[test]
fn tells_a_lack_of_permission() {
    assert!(is_permission_error("Error: attempt to write a readonly database"));
    assert!(is_permission_error("sh: permission denied."));
    assert!(is_permission_error("Error: unable to open database \"chat.db\": x"));
    assert!(!is_permission_error("Error: Permission denied"));
    assert!(!is_permission_error("Error: no such table: message"));
    assert!(!is_permission_error(""));
}

#[test]
fn an_output_splits_at_a_line_feed() {
    let parts = ["", "1|one", "1|one\r", "1|one\n2|two\n", "\r", "no bar\n3|a|b\r\n", "|", "\n\n4|x"];
    for before in parts {
        for behind in parts {
            let mut apart = parse_sqlite_output(before);
            apart.extend(parse_sqlite_output(behind));
            assert_eq!(parse_sqlite_output(&format!("{}\n{}", before, behind)), apart);
        }
    }
}
