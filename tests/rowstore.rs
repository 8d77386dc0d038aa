use rowstore::command::{dispatch, do_meta_command, LineOutcome, MetaCommandResult};
use rowstore::execute::{execute_statement, ExecuteResult};
use rowstore::numeral::{parse_id, IdField};
use rowstore::prepare::{
    prepare_insert, prepare_statement, starts_with_keyword, PrepareResult, Statement,
    StatementType,
};
use rowstore::row::{Field, Row, ValidationError};
use rowstore::table::{Table, ROWS_PER_PAGE, TABLE_MAX_PAGES, TABLE_MAX_ROWS};

fn prepare(line: &str) -> (PrepareResult, Statement) {
    let mut statement = Statement::new();
    let r = prepare_statement(line, &mut statement);
    (r, statement)
}

fn insert_line(table: &mut Table, line: &str) -> ExecuteResult {
    let (r, statement) = prepare(line);
    assert_eq!(r, PrepareResult::Success);
    let mut out = Vec::new();
    let e = execute_statement(&statement, table, &mut out);
    assert!(out.is_empty());
    e
}

fn select_all(table: &mut Table) -> Vec<Row> {
    let (r, statement) = prepare("select");
    assert_eq!(r, PrepareResult::Success);
    let mut out = Vec::new();
    assert_eq!(execute_statement(&statement, table, &mut out), ExecuteResult::Success);
    out
}

fn line_of(row: &Row) -> String {
    format!("({}, {}, {})", row.id(), row.username(), row.email())
}

#[test]
fn negative_id_is_refused() {
    assert_eq!(prepare("insert -1 bob a@b.com").0, PrepareResult::PrepareNegativeId);
}

#[test]
fn long_username_is_refused() {
    let line = format!("insert 1 {} a@b.com", "x".repeat(33));
    assert_eq!(prepare(&line).0, PrepareResult::PrepareStringTooLong);
}

#[test]
fn missing_email_is_a_syntax_error() {
    assert_eq!(prepare("insert 1 bob").0, PrepareResult::SyntaxError);
}

#[test]
fn unknown_keyword_is_unrecognized() {
    assert_eq!(prepare("selectx").0, PrepareResult::UnrecognizedStatement);
    assert_eq!(prepare("insertx 1 bob a@b.com").0, PrepareResult::UnrecognizedStatement);
    assert_eq!(prepare("update 1 bob a@b.com").0, PrepareResult::UnrecognizedStatement);
    assert_eq!(prepare("").0, PrepareResult::UnrecognizedStatement);
}

#[test]
fn insert_then_select_prints_one_row() {
    let mut table = Table::new();
    assert_eq!(insert_line(&mut table, "insert 1 bob a@b.com"), ExecuteResult::Success);
    let rows = select_all(&mut table);
    assert_eq!(rows.len(), 1);
    assert_eq!(line_of(&rows[0]), "(1, bob, a@b.com)");
}

#[test]
fn insert_adds_one_row_at_the_end() {
    let mut table = Table::new();
    for i in 0..20u32 {
        let line = format!("insert {} user{} u{}@x.org", i, i, i);
        let before = table.num_rows();
        assert_eq!(insert_line(&mut table, &line), ExecuteResult::Success);
        assert_eq!(table.num_rows(), before + 1);
        let rows = table.scan();
        assert_eq!(rows.len(), before + 1);
        assert_eq!(line_of(&rows[before]), format!("({}, user{}, u{}@x.org)", i, i, i));
    }
}

#[test]
fn inserts_past_capacity_report_table_full() {
    let mut table = Table::new();
    for i in 0..TABLE_MAX_ROWS {
        let line = format!("insert {} n{} e{}", i, i, i);
        assert_eq!(insert_line(&mut table, &line), ExecuteResult::Success);
    }
    let before = table.scan();
    for i in 0..3 {
        let line = format!("insert {} late{} late{}", 5000 + i, i, i);
        assert_eq!(insert_line(&mut table, &line), ExecuteResult::TableFull);
        assert_eq!(table.num_rows(), TABLE_MAX_ROWS);
    }
    let after = table.scan();
    assert_eq!(after.len(), TABLE_MAX_ROWS);
    for k in 0..TABLE_MAX_ROWS {
        assert_eq!(line_of(&after[k]), line_of(&before[k]));
    }
}

#[test]
fn scan_returns_rows_in_insertion_order() {
    for n in [0usize, 1, 13, 14, 15, 100, TABLE_MAX_ROWS] {
        let mut table = Table::new();
        for i in 0..n {
            let line = format!("insert {} u{} e{}", 3 * i + 7, i, i);
            assert_eq!(insert_line(&mut table, &line), ExecuteResult::Success);
        }
        let rows = select_all(&mut table);
        assert_eq!(rows.len(), n);
        for (i, row) in rows.iter().enumerate() {
            assert_eq!(row.id(), (3 * i + 7) as u32);
            assert_eq!(row.username(), format!("u{}", i));
            assert_eq!(row.email(), format!("e{}", i));
        }
    }
}

#[test]
fn empty_table_scans_to_nothing() {
    let mut table = Table::new();
    assert_eq!(table.page_count(), 0);
    assert!(select_all(&mut table).is_empty());
}

#[test]
fn fields_come_back_byte_for_byte() {
    let username = "zoë_名前";
    let email = "ünï@例え.jp";
    let mut table = Table::new();
    let line = format!("insert 4294967295 {} {}", username, email);
    assert_eq!(insert_line(&mut table, &line), ExecuteResult::Success);
    let rows = table.scan();
    assert_eq!(rows[0].id(), 4294967295);
    assert_eq!(rows[0].username().as_bytes(), username.as_bytes());
    assert_eq!(rows[0].email().as_bytes(), email.as_bytes());
}

#[test]
fn full_table_fills_every_page() {
    let mut table = Table::new();
    for i in 0..TABLE_MAX_ROWS {
        assert_eq!(insert_line(&mut table, &format!("insert {} a b", i)), ExecuteResult::Success);
    }
    assert_eq!(table.page_count(), TABLE_MAX_PAGES);
    for p in 0..TABLE_MAX_PAGES {
        assert_eq!(table.page_len(p), ROWS_PER_PAGE);
    }
}

#[test]
fn only_the_last_page_is_partial() {
    let mut table = Table::new();
    for i in 0..(2 * ROWS_PER_PAGE + 3) {
        assert_eq!(insert_line(&mut table, &format!("insert {} a b", i)), ExecuteResult::Success);
    }
    assert_eq!(table.page_count(), 3);
    assert_eq!(table.page_len(0), ROWS_PER_PAGE);
    assert_eq!(table.page_len(1), ROWS_PER_PAGE);
    assert_eq!(table.page_len(2), 3);
}

#[test]
fn page_constants() {
    assert_eq!(ROWS_PER_PAGE, 14);
    assert_eq!(TABLE_MAX_ROWS, 1400);
}

#[test]
fn size_limits_are_in_bytes() {
    let ok = format!("insert 1 {} {}", "x".repeat(32), "y".repeat(255));
    assert_eq!(prepare(&ok).0, PrepareResult::Success);
    let long_email = format!("insert 1 bob {}", "y".repeat(256));
    assert_eq!(prepare(&long_email).0, PrepareResult::PrepareStringTooLong);
    // eleven characters of three bytes each: 33 bytes
    let wide = format!("insert 1 {} a@b.com", "€".repeat(11));
    assert_eq!(prepare(&wide).0, PrepareResult::PrepareStringTooLong);
    let fits = format!("insert 1 {} a@b.com", "€".repeat(10));
    assert_eq!(prepare(&fits).0, PrepareResult::Success);
}

#[test]
fn fields_are_checked_in_order() {
    let line = format!("insert -5 {} {}", "x".repeat(40), "y".repeat(300));
    assert_eq!(prepare(&line).0, PrepareResult::PrepareNegativeId);
    let line = format!("insert 5 {}", "x".repeat(40));
    assert_eq!(prepare(&line).0, PrepareResult::PrepareStringTooLong);
    let line = format!("insert 5 bob {}", "y".repeat(300));
    assert_eq!(prepare(&line).0, PrepareResult::PrepareStringTooLong);
    assert_eq!(prepare("insert").0, PrepareResult::SyntaxError);
    assert_eq!(prepare("insert abc bob a@b.com").0, PrepareResult::SyntaxError);
}

#[test]
fn id_range() {
    assert_eq!(prepare("insert 4294967296 bob a").0, PrepareResult::SyntaxError);
    assert_eq!(prepare("insert -99999999999999999999 bob a").0, PrepareResult::SyntaxError);
    assert_eq!(prepare("insert -9223372036854775808 bob a").0, PrepareResult::PrepareNegativeId);
    let (r, s) = prepare("insert -0 bob a");
    assert_eq!(r, PrepareResult::Success);
    assert_eq!(s.row_to_insert.id(), 0);
    let (r, s) = prepare("insert +7 bob a");
    assert_eq!(r, PrepareResult::Success);
    assert_eq!(s.row_to_insert.id(), 7);
}

#[test]
fn parse_id_cases() {
    assert_eq!(parse_id("0"), IdField::Valid(0));
    assert_eq!(parse_id("123"), IdField::Valid(123));
    assert_eq!(parse_id("-3"), IdField::Negative);
    assert_eq!(parse_id(""), IdField::Malformed);
    assert_eq!(parse_id("-"), IdField::Malformed);
    assert_eq!(parse_id("+"), IdField::Malformed);
    assert_eq!(parse_id("1x"), IdField::Malformed);
    assert_eq!(parse_id("--1"), IdField::Malformed);
    assert_eq!(parse_id("9223372036854775807"), IdField::Malformed);
    assert_eq!(parse_id("-9223372036854775809"), IdField::Malformed);
}

#[test]
fn prepared_insert_holds_scanned_fields() {
    let mut statement = Statement::new();
    let r = prepare_insert("insert 5 alice a@x.org", &mut statement);
    assert_eq!(r, PrepareResult::Success);
    assert_eq!(statement.statement_type, StatementType::Insert);
    assert_eq!(statement.row_to_insert.id(), 5);
    assert_eq!(statement.row_to_insert.username(), "alice");
    assert_eq!(statement.row_to_insert.email(), "a@x.org");
}

#[test]
fn extra_blanks_and_tokens() {
    let (r, s) = prepare("insert   9\tcarol  c@d.e trailing");
    assert_eq!(r, PrepareResult::Success);
    assert_eq!(line_of(&s.row_to_insert), "(9, carol, c@d.e)");
}

#[test]
fn refused_statement_is_left_unchanged() {
    let mut statement = Statement::new();
    assert_eq!(prepare_statement("insert -1 bob a", &mut statement), PrepareResult::PrepareNegativeId);
    assert_eq!(statement.statement_type, StatementType::Insert);
    assert_eq!(line_of(&statement.row_to_insert), "(0, , )");
}

#[test]
fn select_ignores_the_rest() {
    let (r, s) = prepare("select * from users");
    assert_eq!(r, PrepareResult::Success);
    assert_eq!(s.statement_type, StatementType::Select);
}

#[test]
fn keyword_must_be_a_whole_word() {
    assert!(starts_with_keyword("select", "select"));
    assert!(starts_with_keyword("select now", "select"));
    assert!(!starts_with_keyword("selected", "select"));
    assert!(!starts_with_keyword("sel", "select"));
}

#[test]
fn validate_and_build_errors() {
    let s = |t: &str| t.to_string();
    assert_eq!(
        Row::validate_and_build(-1, s("a"), s("b")).err(),
        Some(ValidationError::NegativeId)
    );
    assert_eq!(
        Row::validate_and_build(1 << 32, s("a"), s("b")).err(),
        Some(ValidationError::IdOutOfRange)
    );
    assert_eq!(
        Row::validate_and_build(1, "u".repeat(33), s("b")).err(),
        Some(ValidationError::FieldTooLong(Field::Username))
    );
    assert_eq!(
        Row::validate_and_build(1, s("a"), "e".repeat(256)).err(),
        Some(ValidationError::FieldTooLong(Field::Email))
    );
    let row = Row::validate_and_build(8, s("ann"), s("ann@x")).ok().unwrap();
    assert_eq!(line_of(&row), "(8, ann, ann@x)");
    assert_eq!(line_of(&row.clone()), "(8, ann, ann@x)");
}

#[test]
fn meta_commands() {
    assert_eq!(do_meta_command(".exit"), MetaCommandResult::Exit);
    assert_eq!(do_meta_command(".exi"), MetaCommandResult::UnrecognizedCommand);
    assert_eq!(do_meta_command(".exit now"), MetaCommandResult::UnrecognizedCommand);
    assert_eq!(do_meta_command(".tables"), MetaCommandResult::UnrecognizedCommand);
}

#[test]
fn dispatch_routes_lines() {
    let mut table = Table::new();
    let mut out = Vec::new();
    assert_eq!(
        dispatch(".help", &mut table, &mut out),
        LineOutcome::Meta(MetaCommandResult::UnrecognizedCommand)
    );
    assert_eq!(dispatch(".exit", &mut table, &mut out), LineOutcome::Meta(MetaCommandResult::Exit));
    assert_eq!(
        dispatch("insert 1 bob", &mut table, &mut out),
        LineOutcome::Rejected(PrepareResult::SyntaxError)
    );
    assert_eq!(
        dispatch("delete 1", &mut table, &mut out),
        LineOutcome::Rejected(PrepareResult::UnrecognizedStatement)
    );
    assert_eq!(table.num_rows(), 0);
    assert_eq!(
        dispatch("insert 2 eve e@v.e", &mut table, &mut out),
        LineOutcome::Executed(ExecuteResult::Success)
    );
    assert!(out.is_empty());
    assert_eq!(dispatch("select", &mut table, &mut out), LineOutcome::Executed(ExecuteResult::Success));
    assert_eq!(out.len(), 1);
    assert_eq!(line_of(&out[0]), "(2, eve, e@v.e)");
}
