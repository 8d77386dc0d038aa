//! Applying a prepared statement to the table.

use vstd::prelude::*;
use crate::prepare::{Statement, StatementType};
use crate::row::{Row, RowView, validated};
use vstd::utf8::encode_utf8;
use crate::table::{Table, TABLE_MAX_ROWS};

verus! {

/// The outcome of executing a statement.
#[derive(Debug, Clone, Copy, PartialEq, Eq, Structural)]
pub enum ExecuteResult {
    Success,
    TableFull,
}

/// The rows after inserting `row` into a table holding `rows`, and the
/// outcome: the row is appended unless the table is full.
pub open spec fn insert_step(rows: Seq<RowView>, row: RowView) -> (Seq<RowView>, ExecuteResult) {
    if rows.len() < TABLE_MAX_ROWS {
        (rows.push(row), ExecuteResult::Success)
    } else {
        (rows, ExecuteResult::TableFull)
    }
}

/// The rows after inserting each of `new_rows` in turn into a table holding
/// `rows`.
pub open spec fn insert_each(rows: Seq<RowView>, new_rows: Seq<RowView>) -> Seq<RowView>
    decreases new_rows.len(),
{
    if new_rows.len() == 0 {
        rows
    } else {
        insert_step(insert_each(rows, new_rows.drop_last()), new_rows.last()).0
    }
}

/// The outcomes of inserting each of `new_rows` in turn into a table holding
/// `rows`.
pub open spec fn insert_each_results(rows: Seq<RowView>, new_rows: Seq<RowView>) -> Seq<
    ExecuteResult,
>
    decreases new_rows.len(),
{
    if new_rows.len() == 0 {
        Seq::empty()
    } else {
        insert_each_results(rows, new_rows.drop_last()).push(
            insert_step(insert_each(rows, new_rows.drop_last()), new_rows.last()).1,
        )
    }
}

/// Executes an insert: the statement's row is copied and appended to the
/// table, unless the table is full, in which case nothing changes.
pub fn execute_insert(statement: &Statement, table: &mut Table) -> (r: ExecuteResult)
    requires
        old(table).wf(),
        statement.wf(),
    ensures
        final(table).wf(),
        (final(table)@, r) == insert_step(old(table)@, statement.row_to_insert@),
        r == ExecuteResult::TableFull ==> final(table).pages_view() == old(table).pages_view(),
        final(table).pages_view().len() <= old(table).pages_view().len() + 1,
{
    match table.append(statement.row_to_insert.clone()) {
        Ok(()) => ExecuteResult::Success,
        Err(_) => ExecuteResult::TableFull,
    }
}

/// Executes a select: every row of the table, in insertion order, is added
/// after what `out` already holds. The statement's row is ignored.
pub fn execute_select(statement: &Statement, table: &Table, out: &mut Vec<Row>) -> (r:
    ExecuteResult)
    requires
        table.wf(),
    ensures
        r == ExecuteResult::Success,
        final(out)@.len() == old(out)@.len() + table@.len(),
        forall|i: int| 0 <= i < old(out)@.len() ==> #[trigger] final(out)@[i] == old(out)@[i],
        forall|k: int|
            0 <= k < table@.len() ==> (#[trigger] final(out)@[old(out)@.len() + k])@ == table@[k],
{
    let rows = table.scan();
    let ghost start = out@.len();
    let mut k: usize = 0;
    while k < rows.len()
        invariant
            rows@.len() == table@.len(),
            forall|j: int| 0 <= j < rows@.len() ==> (#[trigger] rows@[j])@ == table@[j],
            k <= rows@.len(),
            out@.len() == start + k,
            start == old(out)@.len(),
            forall|i: int| 0 <= i < start ==> #[trigger] out@[i] == old(out)@[i],
            forall|j: int| 0 <= j < k ==> (#[trigger] out@[start + j])@ == table@[j],
        decreases rows@.len() - k,
    {
        out.push(rows[k].clone());
        k = k + 1;
    }
    ExecuteResult::Success
}

/// Executes a prepared statement: an insert as `execute_insert` does, a
/// select as `execute_select` does.
pub fn execute_statement(statement: &Statement, table: &mut Table, out: &mut Vec<Row>) -> (r:
    ExecuteResult)
    requires
        old(table).wf(),
        statement.wf(),
    ensures
        final(table).wf(),
        statement.statement_type == StatementType::Insert ==> (final(table)@, r) == insert_step(
            old(table)@,
            statement.row_to_insert@,
        ) && final(out)@ == old(out)@,
        statement.statement_type == StatementType::Select ==> {
            &&& r == ExecuteResult::Success
            &&& final(table)@ == old(table)@
            &&& final(out)@.len() == old(out)@.len() + old(table)@.len()
            &&& forall|i: int| 0 <= i < old(out)@.len() ==> #[trigger] final(out)@[i] == old(out)@[i]
            &&& forall|k: int|
                0 <= k < old(table)@.len() ==> (#[trigger] final(out)@[old(out)@.len() + k])@
                    == old(table)@[k]
        },
{
    match statement.statement_type {
        StatementType::Insert => execute_insert(statement, table),
        StatementType::Select => execute_select(statement, table, out),
    }
}

} // verus!

verus! {

/// An insert into a table that is not full succeeds, adds exactly one row,
/// and that row is the inserted one, unmodified, at the index equal to the
/// previous row count; the rows before it stay as they were.
pub proof fn lemma_insert_appends(rows: Seq<RowView>, row: RowView)
    requires
        rows.len() < TABLE_MAX_ROWS,
    ensures
        insert_step(rows, row).1 == ExecuteResult::Success,
        insert_step(rows, row).0.len() == rows.len() + 1,
        insert_step(rows, row).0[rows.len() as int] == row,
        insert_step(rows, row).0.take(rows.len() as int) == rows,
{
    assert(rows.push(row).take(rows.len() as int) =~= rows);
}

/// Inserting rows one after another into an empty table keeps the first
/// `TABLE_MAX_ROWS` of them in order; each of those inserts succeeds and
/// each later one reports a full table.
proof fn lemma_insert_each_from_empty(new_rows: Seq<RowView>)
    ensures
        new_rows.len() <= TABLE_MAX_ROWS ==> insert_each(Seq::empty(), new_rows) == new_rows,
        new_rows.len() > TABLE_MAX_ROWS ==> insert_each(Seq::empty(), new_rows) == new_rows.take(
            TABLE_MAX_ROWS as int,
        ),
        insert_each_results(Seq::empty(), new_rows).len() == new_rows.len(),
        forall|i: int|
            0 <= i < new_rows.len() ==> #[trigger] insert_each_results(Seq::empty(), new_rows)[i]
                == if i < TABLE_MAX_ROWS {
                ExecuteResult::Success
            } else {
                ExecuteResult::TableFull
            },
    decreases new_rows.len(),
{
    if new_rows.len() > 0 {
        let prev = new_rows.drop_last();
        lemma_insert_each_from_empty(prev);
        if new_rows.len() <= TABLE_MAX_ROWS {
            assert(prev.push(new_rows.last()) =~= new_rows);
        } else if prev.len() == TABLE_MAX_ROWS {
            assert(prev =~= new_rows.take(TABLE_MAX_ROWS as int));
        } else {
            assert(prev.take(TABLE_MAX_ROWS as int) =~= new_rows.take(TABLE_MAX_ROWS as int));
        }
    }
}

/// Inserting more than `TABLE_MAX_ROWS` rows into an empty table: the first
/// `TABLE_MAX_ROWS` inserts succeed, every later one reports a full table,
/// and from then on neither the row count nor the stored rows change.
pub proof fn lemma_inserts_past_capacity(new_rows: Seq<RowView>)
    requires
        new_rows.len() > TABLE_MAX_ROWS,
    ensures
        insert_each(Seq::empty(), new_rows) == new_rows.take(TABLE_MAX_ROWS as int),
        forall|i: int|
            0 <= i < TABLE_MAX_ROWS ==> #[trigger] insert_each_results(Seq::empty(), new_rows)[i]
                == ExecuteResult::Success,
        forall|i: int|
            TABLE_MAX_ROWS <= i < new_rows.len() ==> #[trigger] insert_each_results(
                Seq::empty(),
                new_rows,
            )[i] == ExecuteResult::TableFull,
        forall|i: int|
            TABLE_MAX_ROWS <= i <= new_rows.len() ==> #[trigger] insert_each(
                Seq::empty(),
                new_rows.take(i),
            ) == new_rows.take(TABLE_MAX_ROWS as int),
{
    lemma_insert_each_from_empty(new_rows);
    assert forall|i: int| TABLE_MAX_ROWS <= i <= new_rows.len() implies #[trigger] insert_each(
        Seq::empty(),
        new_rows.take(i),
    ) == new_rows.take(TABLE_MAX_ROWS as int) by {
        lemma_insert_each_from_empty(new_rows.take(i));
        assert(new_rows.take(i).take(TABLE_MAX_ROWS as int) =~= new_rows.take(
            TABLE_MAX_ROWS as int,
        ));
    }
}

/// Inserting up to `TABLE_MAX_ROWS` rows into an empty table succeeds each
/// time, and the table then holds exactly those rows in insertion order,
/// which is the order a scan returns them in.
pub proof fn lemma_scan_order_is_insert_order(new_rows: Seq<RowView>)
    requires
        new_rows.len() <= TABLE_MAX_ROWS,
    ensures
        insert_each(Seq::empty(), new_rows) == new_rows,
        forall|i: int|
            0 <= i < new_rows.len() ==> #[trigger] insert_each_results(Seq::empty(), new_rows)[i]
                == ExecuteResult::Success,
{
    lemma_insert_each_from_empty(new_rows);
}

/// A row that the codec accepts comes back from the table with the very
/// field values it was built from: the same id, and the same username and
/// email, character for character and so byte for byte.
pub proof fn lemma_codec_round_trip(
    rows: Seq<RowView>,
    id: int,
    username: Seq<char>,
    email: Seq<char>,
)
    requires
        validated(id, username, email) is Ok,
        rows.len() < TABLE_MAX_ROWS,
    ensures
        ({
            let stored = insert_step(rows, validated(id, username, email)->Ok_0).0[rows.len() as int];
            &&& stored.id == id
            &&& stored.username == username
            &&& stored.email == email
            &&& encode_utf8(stored.username) == encode_utf8(username)
            &&& encode_utf8(stored.email) == encode_utf8(email)
        }),
{
}

} // verus!
