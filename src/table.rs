//! The table: rows appended into fixed-capacity pages, read back as one
//! sequence in insertion order.

use vstd::prelude::*;
use crate::row::{Row, RowView, row_fits, ROW_SIZE};

verus! {

/// Byte budget of one page.
pub const PAGE_SIZE: usize = 4096;

/// Most pages a table allocates.
pub const TABLE_MAX_PAGES: usize = 100;

/// Rows that fit in one page.
pub const ROWS_PER_PAGE: usize = PAGE_SIZE / ROW_SIZE;

/// Most rows a table holds.
pub const TABLE_MAX_ROWS: usize = ROWS_PER_PAGE * TABLE_MAX_PAGES;

/// Pages in use when `n` rows are stored: every page but the last is full.
pub open spec fn pages_needed(n: nat) -> nat {
    ((n + ROWS_PER_PAGE - 1) / (ROWS_PER_PAGE as int)) as nat
}

/// Rows in page `p` when `n` rows are stored.
pub open spec fn page_len_at(n: nat, p: int) -> int {
    if n - p * ROWS_PER_PAGE >= ROWS_PER_PAGE {
        ROWS_PER_PAGE as int
    } else {
        n - p * ROWS_PER_PAGE
    }
}

/// The page that holds the row at logical index `k`.
pub open spec fn page_of(k: int) -> int {
    k / (ROWS_PER_PAGE as int)
}

/// The position of the row at logical index `k` within its page.
pub open spec fn slot_of(k: int) -> int {
    k % (ROWS_PER_PAGE as int)
}

/// The numbers the page constants come to.
pub proof fn lemma_capacity()
    ensures
        ROWS_PER_PAGE == 14,
        TABLE_MAX_ROWS == 1400,
{
    assert(ROW_SIZE == 291);
    assert(4096nat / 291nat == 14) by (nonlinear_arith);
}

/// Where the row at index `k` of `n` stored rows sits: in a page that is in
/// use, inside the part of it that is filled.
pub proof fn lemma_slot_in_range(n: nat, k: int)
    requires
        0 <= k < n,
    ensures
        0 <= page_of(k) < pages_needed(n),
        0 <= slot_of(k) < page_len_at(n, page_of(k)),
        k == page_of(k) * ROWS_PER_PAGE + slot_of(k),
{
    lemma_capacity();
    let q = page_of(k);
    let r = slot_of(k);
    assert(k == q * 14 + r && 0 <= r < 14);
    assert(q >= 0);
    assert((n + 13) / 14 >= q + 1) by (nonlinear_arith)
        requires
            k == q * 14 + r,
            0 <= r < 14,
            k < n,
            q >= 0,
    ;
}

/// How the page layout changes when a row is appended to `n` rows.
proof fn lemma_append_layout(n: nat)
    requires
        n < TABLE_MAX_ROWS,
    ensures
        slot_of(n as int) == 0 ==> pages_needed(n) == page_of(n as int),
        slot_of(n as int) != 0 ==> pages_needed(n) == page_of(n as int) + 1,
        slot_of(n as int) != 0 ==> page_len_at(n, page_of(n as int)) == slot_of(n as int),
        pages_needed(n + 1) == page_of(n as int) + 1,
        page_len_at(n + 1, page_of(n as int)) == slot_of(n as int) + 1,
        forall|p: int|
            0 <= p < page_of(n as int) ==> page_len_at(n, p) == ROWS_PER_PAGE && page_len_at(
                n + 1,
                p,
            ) == ROWS_PER_PAGE,
{
    lemma_capacity();
    let q = page_of(n as int);
    let r = slot_of(n as int);
    assert(n == q * 14 + r && 0 <= r < 14);
    assert forall|p: int| 0 <= p < q implies page_len_at(n, p) == ROWS_PER_PAGE && page_len_at(
        n + 1,
        p,
    ) == ROWS_PER_PAGE by {
        assert(p * 14 <= (q - 1) * 14) by (nonlinear_arith)
            requires
                p <= q - 1,
        ;
    }
}

/// The error of an append to a table that holds `TABLE_MAX_ROWS` rows.
#[derive(Debug, Clone, Copy, PartialEq, Eq, Structural)]
pub struct TableFull;

/// Rows in fixed-capacity pages. The row at logical index `k` sits in page
/// `k / ROWS_PER_PAGE`, at index `k % ROWS_PER_PAGE` within it.
pub struct Table {
    num_rows: usize,
    pages: Vec<Vec<Row>>,
}

impl View for Table {
    type V = Seq<RowView>;

    /// The stored rows in insertion order.
    closed spec fn view(&self) -> Seq<RowView> {
        Seq::new(
            self.num_rows as nat,
            |k: int| self.pages@[page_of(k)]@[slot_of(k)]@,
        )
    }
}

impl Table {
    /// The pages, each as the sequence of its rows.
    pub closed spec fn pages_view(&self) -> Seq<Seq<RowView>> {
        Seq::new(self.pages@.len(), |p: int| Seq::new(self.pages@[p]@.len(), |i: int| self.pages@[p]@[i]@))
    }

    /// The table's invariant: the row count is bounded, the pages are filled
    /// one after another, and each row is where its index puts it.
    pub open spec fn wf(&self) -> bool {
        &&& self@.len() <= TABLE_MAX_ROWS
        &&& self.pages_view().len() == pages_needed(self@.len())
        &&& forall|p: int|
            0 <= p < self.pages_view().len() ==> #[trigger] self.pages_view()[p].len()
                == page_len_at(self@.len(), p)
        &&& forall|k: int|
            0 <= k < self@.len() ==> #[trigger] self@[k] == self.pages_view()[page_of(k)][slot_of(k)]
        &&& forall|k: int| 0 <= k < self@.len() ==> row_fits(#[trigger] self@[k])
    }

    /// An empty table: no rows and no pages.
    pub fn new() -> (t: Table)
        ensures
            t.wf(),
            t@ == Seq::<RowView>::empty(),
            t.pages_view().len() == 0,
    {
        proof {
            lemma_capacity();
        }
        let t = Table { num_rows: 0, pages: Vec::new() };
        assert(t@ =~= Seq::<RowView>::empty());
        t
    }

    /// Number of rows stored.
    pub fn num_rows(&self) -> (r: usize)
        requires
            self.wf(),
        ensures
            r == self@.len(),
    {
        self.num_rows
    }

    /// Number of pages allocated.
    pub fn page_count(&self) -> (r: usize)
        requires
            self.wf(),
        ensures
            r == self.pages_view().len(),
    {
        self.pages.len()
    }

    /// Number of rows in page `p`.
    pub fn page_len(&self, p: usize) -> (r: usize)
        requires
            self.wf(),
            p < self.pages_view().len(),
        ensures
            r == self.pages_view()[p as int].len(),
    {
        self.pages[p].len()
    }

    /// Appends a row after the last one. The page that its index maps to
    /// is allocated first when it does not exist yet, so the page count
    /// grows by at most one.
    pub fn append(&mut self, row: Row) -> (r: Result<(), TableFull>)
        requires
            old(self).wf(),
            row.wf(),
        ensures
            final(self).wf(),
            old(self)@.len() == TABLE_MAX_ROWS ==> r == Err::<(), TableFull>(TableFull)
                && final(self)@ == old(self)@ && final(self).pages_view() == old(
                self,
            ).pages_view(),
            old(self)@.len() < TABLE_MAX_ROWS ==> r == Ok::<(), TableFull>(()) && final(self)@
                == old(self)@.push(row@),
            final(self).pages_view().len() <= old(self).pages_view().len() + 1,
    {
        if self.num_rows >= TABLE_MAX_ROWS {
            return Err(TableFull);
        }
        let ghost old_t = *self;
        let ghost n = self.num_rows as nat;
        proof {
            lemma_capacity();
            lemma_append_layout(n);
        }
        let page_num = self.num_rows / ROWS_PER_PAGE;
        if page_num == self.pages.len() {
            self.pages.push(Vec::new());
        }
        proof {
            let q = page_num as int;
            if slot_of(n as int) != 0 {
                assert(old_t.pages_view()[q].len() == old_t.pages@[q]@.len());
            }
        }
        assert(self.pages@[page_num as int]@.len() == slot_of(n as int));
        self.pages[page_num].push(row);
        self.num_rows = self.num_rows + 1;
        proof {
            let q = page_num as int;
            assert(self.pages@.len() == q + 1);
            assert forall|p: int| 0 <= p < q implies self.pages@[p] == old_t.pages@[p] by {}
            assert forall|p: int| 0 <= p < self.pages_view().len() implies #[trigger] self.pages_view()[p].len()
                == page_len_at(self@.len(), p) by {
                if p < q {
                    assert(old_t.pages_view()[p].len() == page_len_at(n, p));
                }
            }
            assert forall|k: int| 0 <= k < n implies #[trigger] self@[k] == old_t@[k] by {
                lemma_slot_in_range(n, k);
                if page_of(k) < q {
                    assert(self.pages@[page_of(k)] == old_t.pages@[page_of(k)]);
                } else {
                    assert(old_t.pages_view()[page_of(k)].len() == page_len_at(n, page_of(k)));
                }
            }
            assert(self@ =~= old_t@.push(row@));
        }
        Ok(())
    }

    /// Copies of all rows in insertion order: page by page, and within a
    /// page in the order of appending. The table is not changed.
    pub fn scan(&self) -> (r: Vec<Row>)
        requires
            self.wf(),
        ensures
            r@.len() == self@.len(),
            forall|k: int| 0 <= k < r@.len() ==> (#[trigger] r@[k])@ == self@[k] && r@[k].wf(),
    {
        let mut out: Vec<Row> = Vec::new();
        let mut k: usize = 0;
        while k < self.num_rows
            invariant
                self.wf(),
                k <= self@.len(),
                out@.len() == k,
                forall|j: int| 0 <= j < k ==> (#[trigger] out@[j])@ == self@[j] && out@[j].wf(),
            decreases self@.len() - k,
        {
            let row = self.row(k).clone();
            out.push(row);
            k = k + 1;
        }
        out
    }

    /// The row at logical index `k`.
    pub fn row(&self, k: usize) -> (r: &Row)
        requires
            self.wf(),
            k < self@.len(),
        ensures
            r@ == self@[k as int],
            r.wf(),
    {
        proof {
            lemma_slot_in_range(self@.len(), k as int);
            let p = page_of(k as int);
            assert(self.pages_view()[p].len() == self.pages@[p]@.len());
        }
        assert(self@[k as int] == self.pages_view()[page_of(k as int)][slot_of(k as int)]);
        &self.pages[k / ROWS_PER_PAGE][k % ROWS_PER_PAGE]
    }
}

} // verus!

verus! {

/// A table that holds `TABLE_MAX_ROWS` rows has allocated every one of its
/// `TABLE_MAX_PAGES` pages, and each of them holds exactly `ROWS_PER_PAGE`
/// rows.
pub proof fn lemma_full_table_pages_full(t: &Table)
    requires
        t.wf(),
        t@.len() == TABLE_MAX_ROWS,
    ensures
        t.pages_view().len() == TABLE_MAX_PAGES,
        forall|p: int| 0 <= p < TABLE_MAX_PAGES ==> #[trigger] t.pages_view()[p].len() == ROWS_PER_PAGE,
{
    lemma_capacity();
    assert forall|p: int| 0 <= p < TABLE_MAX_PAGES implies #[trigger] t.pages_view()[p].len()
        == ROWS_PER_PAGE by {
        assert(p * 14 <= 99 * 14) by (nonlinear_arith)
            requires
                p <= 99,
        ;
    }
}

/// In any table every page but the last is full, and the last one holds at
/// least one row.
pub proof fn lemma_only_last_page_partial(t: &Table)
    requires
        t.wf(),
    ensures
        forall|p: int|
            0 <= p < t.pages_view().len() - 1 ==> #[trigger] t.pages_view()[p].len()
                == ROWS_PER_PAGE,
        t.pages_view().len() > 0 ==> 0 < t.pages_view().last().len() <= ROWS_PER_PAGE,
{
    lemma_capacity();
    let n = t@.len();
    let m = t.pages_view().len();
    assert forall|p: int| 0 <= p < m - 1 implies #[trigger] t.pages_view()[p].len()
        == ROWS_PER_PAGE by {
        assert(m == (n + 13) / 14);
        assert(p * 14 + 14 <= (m - 1) * 14) by (nonlinear_arith)
            requires
                p <= m - 2,
        ;
        assert((m - 1) * 14 < n) by (nonlinear_arith)
            requires
                m == (n + 13) / 14,
                m >= 1,
        ;
    }
    if m > 0 {
        assert((m - 1) * 14 < n) by (nonlinear_arith)
            requires
                m == (n + 13) / 14,
                m >= 1,
        ;
        assert(t.pages_view()[m - 1].len() == page_len_at(n, m - 1));
    }
}

} // verus!
