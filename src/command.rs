//! Classifying one input line and routing it to the preparer and executor.

use vstd::prelude::*;
use crate::execute::{ExecuteResult, execute_statement, insert_step};
use crate::prepare::{
    PrepareResult,
    Statement,
    begins_with_keyword,
    has_prefix,
    insert_result,
    inserted_row,
    prepare_statement,
    starts_with,
};
use crate::row::Row;
use crate::scanner::{insert_format, scanned_fields};
use crate::table::Table;

verus! {

/// The outcome of a meta-command.
#[derive(Debug, Clone, Copy, PartialEq, Eq, Structural)]
pub enum MetaCommandResult {
    /// The exit directive: the process is to end with a success status.
    Exit,
    UnrecognizedCommand,
}

/// What became of one input line.
#[derive(Debug, Clone, Copy, PartialEq, Eq, Structural)]
pub enum LineOutcome {
    /// A meta-command, with its outcome.
    Meta(MetaCommandResult),
    /// A statement that preparation refused, with the reason.
    Rejected(PrepareResult),
    /// A statement that was prepared and executed, with the outcome.
    Executed(ExecuteResult),
}

/// Whether `s` is the same text as `t`.
pub fn same_text(s: &str, t: &str) -> (r: bool)
    ensures
        r == (s@ == t@),
{
    proof {
        if s@ == t@ {
            assert(s@.subrange(0, t@.len() as int) =~= s@);
        }
    }
    let equal = starts_with(s, t) && s.unicode_len() == t.unicode_len();
    proof {
        if equal {
            assert(s@ =~= t@);
        }
    }
    equal
}

/// Interprets a meta-command: `.exit` is the one directive.
pub fn do_meta_command(input: &str) -> (r: MetaCommandResult)
    ensures
        r == (if input@ == ".exit"@ {
            MetaCommandResult::Exit
        } else {
            MetaCommandResult::UnrecognizedCommand
        }),
{
    if same_text(input, ".exit") {
        MetaCommandResult::Exit
    } else {
        MetaCommandResult::UnrecognizedCommand
    }
}

/// Handles one trimmed input line. A line that begins with `.` is a
/// meta-command and touches nothing. Any other line is prepared; a refused
/// statement leaves the table as it was, and a prepared one is executed,
/// a select adding the table's rows to `out`.
pub fn dispatch(line: &str, table: &mut Table, out: &mut Vec<Row>) -> (r: LineOutcome)
    requires
        old(table).wf(),
    ensures
        final(table).wf(),
        has_prefix(line@, "."@) ==> r == LineOutcome::Meta(
            if line@ == ".exit"@ {
                MetaCommandResult::Exit
            } else {
                MetaCommandResult::UnrecognizedCommand
            },
        ) && final(table)@ == old(table)@ && final(out)@ == old(out)@,
        !has_prefix(line@, "."@) && begins_with_keyword(line@, "insert"@) ==> ({
            let fields = scanned_fields(line@, insert_format());
            &&& insert_result(fields) != PrepareResult::Success ==> r == LineOutcome::Rejected(
                insert_result(fields),
            ) && final(table)@ == old(table)@
            &&& insert_result(fields) == PrepareResult::Success ==> r is Executed && (
            final(table)@,
            r->Executed_0,
            ) == insert_step(old(table)@, inserted_row(fields))
            &&& final(out)@ == old(out)@
        }),
        !has_prefix(line@, "."@) && !begins_with_keyword(line@, "insert"@) && begins_with_keyword(line@, "select"@) ==> {
            &&& r == LineOutcome::Executed(ExecuteResult::Success)
            &&& final(table)@ == old(table)@
            &&& final(out)@.len() == old(out)@.len() + old(table)@.len()
            &&& forall|i: int| 0 <= i < old(out)@.len() ==> #[trigger] final(out)@[i] == old(out)@[i]
            &&& forall|k: int|
                0 <= k < old(table)@.len() ==> (#[trigger] final(out)@[old(out)@.len() + k])@
                    == old(table)@[k]
        },
        !has_prefix(line@, "."@) && !begins_with_keyword(line@, "insert"@) && !begins_with_keyword(line@, "select"@) ==> r == LineOutcome::Rejected(PrepareResult::UnrecognizedStatement) && final(table)@
            == old(table)@ && final(out)@ == old(out)@,
{
    if starts_with(line, ".") {
        return LineOutcome::Meta(do_meta_command(line));
    }
    let mut statement = Statement::new();
    let prepared = prepare_statement(line, &mut statement);
    if prepared != PrepareResult::Success {
        return LineOutcome::Rejected(prepared);
    }
    LineOutcome::Executed(execute_statement(&statement, table, out))
}

} // verus!
