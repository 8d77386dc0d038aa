//! Turning a command line into a statement, or into the reason it is refused.

use vstd::prelude::*;
use crate::numeral::{IdField, id_field, parse_id};
use crate::row::{
    Row,
    RowView,
    ValidationError,
    byte_len,
    utf8_len,
    COLUMN_EMAIL_SIZE,
    COLUMN_USERNAME_SIZE,
};
use crate::scanner::{insert_format, scan_fields, scanned_fields};

verus! {

/// The two statement shapes.
#[derive(Debug, Clone, Copy, PartialEq, Eq, Structural)]
pub enum StatementType {
    Insert,
    Select,
}

/// One parsed command: its shape and, for an insert, the row to append.
pub struct Statement {
    pub statement_type: StatementType,
    pub row_to_insert: Row,
}

/// The outcome of preparing a statement.
#[derive(Debug, Clone, Copy, PartialEq, Eq, Structural)]
pub enum PrepareResult {
    Success,
    SyntaxError,
    PrepareStringTooLong,
    PrepareNegativeId,
    UnrecognizedStatement,
}

impl Statement {
    /// Whether the statement's row respects the schema.
    pub open spec fn wf(&self) -> bool {
        self.row_to_insert.wf()
    }

    /// An insert of the empty row, the value a statement holds before it is
    /// prepared.
    pub fn new() -> (s: Statement)
        ensures
            s.statement_type == StatementType::Insert,
            s.row_to_insert@ == (RowView { id: 0, username: Seq::empty(), email: Seq::empty() }),
            s.wf(),
    {
        Statement { statement_type: StatementType::Insert, row_to_insert: Row::empty() }
    }
}

/// What an insert with these scanned fields prepares to: the id is checked
/// first, then the username, then the email, and a missing or malformed
/// field is a syntax error.
pub open spec fn insert_result(fields: Seq<Seq<char>>) -> PrepareResult {
    if fields.len() == 0 {
        PrepareResult::SyntaxError
    } else {
        match id_field(fields[0]) {
            IdField::Malformed => PrepareResult::SyntaxError,
            IdField::Negative => PrepareResult::PrepareNegativeId,
            IdField::Valid(_) => if fields.len() < 2 {
                PrepareResult::SyntaxError
            } else if byte_len(fields[1]) > COLUMN_USERNAME_SIZE {
                PrepareResult::PrepareStringTooLong
            } else if fields.len() < 3 {
                PrepareResult::SyntaxError
            } else if byte_len(fields[2]) > COLUMN_EMAIL_SIZE {
                PrepareResult::PrepareStringTooLong
            } else {
                PrepareResult::Success
            },
        }
    }
}

/// The row that an insert with these scanned fields appends, when
/// `insert_result` is `Success`.
pub open spec fn inserted_row(fields: Seq<Seq<char>>) -> RowView {
    RowView { id: id_field(fields[0])->Valid_0, username: fields[1], email: fields[2] }
}

/// Prepares an insert from its scanned fields: id, username, email.
/// On success the statement becomes that insert; otherwise it is left as it
/// was.
pub fn prepare_insert_fields(fields: &Vec<String>, statement: &mut Statement) -> (r:
    PrepareResult)
    requires
        old(statement).wf(),
    ensures
        final(statement).wf(),
        r == insert_result(fields.deep_view()),
        r == PrepareResult::Success ==> final(statement).statement_type == StatementType::Insert
            && final(statement).row_to_insert@ == inserted_row(fields.deep_view()),
        r != PrepareResult::Success ==> *final(statement) == *old(statement),
{
    let ghost f = fields.deep_view();
    if fields.len() == 0 {
        return PrepareResult::SyntaxError;
    }
    assert(f[0] == fields@[0]@);
    let id = match parse_id(fields[0].as_str()) {
        IdField::Valid(v) => v,
        IdField::Negative => {
            return PrepareResult::PrepareNegativeId;
        },
        IdField::Malformed => {
            return PrepareResult::SyntaxError;
        },
    };
    if fields.len() < 2 {
        return PrepareResult::SyntaxError;
    }
    assert(f[1] == fields@[1]@);
    if utf8_len(&fields[1]) > COLUMN_USERNAME_SIZE {
        return PrepareResult::PrepareStringTooLong;
    }
    if fields.len() < 3 {
        return PrepareResult::SyntaxError;
    }
    assert(f[2] == fields@[2]@);
    match Row::validate_and_build(id as i64, fields[1].clone(), fields[2].clone()) {
        Ok(row) => {
            statement.statement_type = StatementType::Insert;
            statement.row_to_insert = row;
            PrepareResult::Success
        },
        Err(ValidationError::FieldTooLong(_)) => PrepareResult::PrepareStringTooLong,
        Err(_) => PrepareResult::SyntaxError,
    }
}

/// Prepares an insert command line: scans it for an id, a username and an
/// email, then checks them as `prepare_insert_fields` does.
pub fn prepare_insert(input: &str, statement: &mut Statement) -> (r: PrepareResult)
    requires
        old(statement).wf(),
    ensures
        final(statement).wf(),
        r == insert_result(scanned_fields(input@, insert_format())),
        r == PrepareResult::Success ==> final(statement).statement_type == StatementType::Insert
            && final(statement).row_to_insert@ == inserted_row(
            scanned_fields(input@, insert_format()),
        ),
        r != PrepareResult::Success ==> *final(statement) == *old(statement),
{
    let format = "insert {} {} {}";
    proof {
        assert(format@ == insert_format());
    }
    let fields = scan_fields(input, format);
    prepare_insert_fields(&fields, statement)
}

} // verus!

verus! {

/// Whether `s` begins with `prefix`.
pub open spec fn has_prefix(s: Seq<char>, prefix: Seq<char>) -> bool {
    prefix.len() <= s.len() && s.subrange(0, prefix.len() as int) == prefix
}

/// Whether `s` begins with `prefix`.
pub fn starts_with(s: &str, prefix: &str) -> (r: bool)
    ensures
        r == has_prefix(s@, prefix@),
{
    let n = prefix.unicode_len();
    let m = s.unicode_len();
    if n > m {
        return false;
    }
    let mut i: usize = 0;
    while i < n
        invariant
            n == prefix@.len(),
            m == s@.len(),
            n <= m,
            i <= n,
            forall|j: int| 0 <= j < i ==> s@[j] == prefix@[j],
        decreases n - i,
    {
        if s.get_char(i) != prefix.get_char(i) {
            assert(s@.subrange(0, n as int)[i as int] != prefix@[i as int]);
            return false;
        }
        i = i + 1;
    }
    assert(s@.subrange(0, n as int) =~= prefix@);
    true
}

/// Whether `c` separates words: a space, a tab, a line feed or a carriage
/// return.
pub open spec fn is_blank(c: char) -> bool {
    c == ' ' || c == '\t' || c == '\n' || c == '\r'
}

/// Whether the first word of `s` is `keyword`: `s` begins with it, and it is
/// followed by the end of `s` or by a blank.
pub open spec fn begins_with_keyword(s: Seq<char>, keyword: Seq<char>) -> bool {
    has_prefix(s, keyword) && (s.len() == keyword.len() || is_blank(s[keyword.len() as int]))
}

/// Whether the first word of `s` is `keyword`.
pub fn starts_with_keyword(s: &str, keyword: &str) -> (r: bool)
    ensures
        r == begins_with_keyword(s@, keyword@),
{
    if !starts_with(s, keyword) {
        return false;
    }
    let k = keyword.unicode_len();
    if k == s.unicode_len() {
        return true;
    }
    let c = s.get_char(k);
    c == ' ' || c == '\t' || c == '\n' || c == '\r'
}

/// Prepares one command line. A line whose first word is `insert` is
/// prepared by `prepare_insert`; one whose first word is `select` becomes a
/// select, whatever follows; any other line is unrecognized. Only a
/// successful preparation changes the statement.
pub fn prepare_statement(input: &str, statement: &mut Statement) -> (r: PrepareResult)
    requires
        old(statement).wf(),
    ensures
        final(statement).wf(),
        begins_with_keyword(input@, "insert"@) ==> {
            &&& r == insert_result(scanned_fields(input@, insert_format()))
            &&& r == PrepareResult::Success ==> final(statement).statement_type
                == StatementType::Insert && final(statement).row_to_insert@ == inserted_row(
                scanned_fields(input@, insert_format()),
            )
            &&& r != PrepareResult::Success ==> *final(statement) == *old(statement)
        },
        !begins_with_keyword(input@, "insert"@) && begins_with_keyword(input@, "select"@) ==> r
            == PrepareResult::Success && final(statement).statement_type == StatementType::Select
            && final(statement).row_to_insert == old(statement).row_to_insert,
        !begins_with_keyword(input@, "insert"@) && !begins_with_keyword(input@, "select"@) ==> r
            == PrepareResult::UnrecognizedStatement && *final(statement) == *old(statement),
{
    if starts_with_keyword(input, "insert") {
        return prepare_insert(input, statement);
    }
    if starts_with_keyword(input, "select") {
        statement.statement_type = StatementType::Select;
        return PrepareResult::Success;
    }
    PrepareResult::UnrecognizedStatement
}

} // verus!
