//! The paged table store.
//!
//! A table keeps its rows in fixed-capacity pages of `ROWS_PER_PAGE`
//! optional slots. `execute_insert` writes the next row at the slot given by
//! the running row count, allocating one fresh page exactly when the count
//! crosses a page boundary; `execute_select` lists the occupied slots in
//! page order, skipping empty ones, and never changes the table.

use vstd::prelude::*;

use crate::data::ROWS_PER_PAGE;
use crate::data::Row;
use crate::data::RowV;
use crate::data::Table;
use crate::data::TableV;

verus! {

/// Geometric well-formedness: the page counter matches the pages held, every
/// page has exactly `ROWS_PER_PAGE` slots, and the row count fits the pages.
pub open spec fn wf_table(t: TableV) -> bool {
    &&& t.num_pages == t.pages.len()
    &&& (forall|i: int| 0 <= i < t.pages.len() ==> (#[trigger] t.pages[i]).len() == ROWS_PER_PAGE)
    &&& 0 <= t.num_rows <= t.num_pages * (ROWS_PER_PAGE as int)
}

/// A page of empty slots.
pub open spec fn empty_page_v() -> Seq<Option<RowV>> {
    Seq::new(ROWS_PER_PAGE as nat, |i: int| None)
}

/// What one insertion does to a table: place the row for logical index
/// `num_rows` at page `num_rows / ROWS_PER_PAGE`, slot `num_rows %
/// ROWS_PER_PAGE`, appending one empty page first when that page does not
/// exist yet.
pub open spec fn insert_spec(t: TableV, id: int, username: Seq<char>, email: Seq<char>) -> TableV {
    let pn = t.num_rows / (ROWS_PER_PAGE as int);
    let grow = pn == t.pages.len();
    let pages1 = if grow {
        t.pages.push(empty_page_v())
    } else {
        t.pages
    };
    let np1 = if grow {
        t.num_pages + 1
    } else {
        t.num_pages
    };
    let slot = t.num_rows % (ROWS_PER_PAGE as int);
    let row = RowV { id: id, username: username, email: email };
    TableV {
        name: t.name,
        num_rows: t.num_rows + 1,
        num_pages: np1,
        pages: pages1.update(pn, pages1[pn].update(slot, Some(row))),
    }
}

/// The occupied rows of one page, in slot order.
pub open spec fn page_rows(p: Seq<Option<RowV>>) -> Seq<RowV>
    decreases p.len(),
{
    if p.len() == 0 {
        Seq::empty()
    } else {
        page_rows(p.drop_last()) + (match p.last() {
            Some(r) => seq![r],
            None => Seq::empty(),
        })
    }
}

/// The occupied rows of a table, pages in order, slots in order.
pub open spec fn selected_rows(pages: Seq<Seq<Option<RowV>>>) -> Seq<RowV>
    decreases pages.len(),
{
    if pages.len() == 0 {
        Seq::empty()
    } else {
        selected_rows(pages.drop_last()) + page_rows(pages.last())
    }
}

/// A fresh page of `ROWS_PER_PAGE` empty slots.
fn empty_page() -> (p: Vec<Option<Row>>)
    ensures
        p.deep_view() == empty_page_v(),
        p@.len() == ROWS_PER_PAGE,
{
    let mut p: Vec<Option<Row>> = Vec::new();
    let mut i: usize = 0;
    while i < ROWS_PER_PAGE
        invariant
            i <= ROWS_PER_PAGE,
            p@.len() == i,
            forall|k: int| 0 <= k < i ==> p@[k] is None,
        decreases ROWS_PER_PAGE - i,
    {
        p.push(None);
        i += 1;
    }
    assert(p.deep_view() =~= empty_page_v());
    p
}

/// Insert a row built from `id`, `username` and `email` at the next logical
/// index, allocating a page when needed and bumping the row count.
pub fn execute_insert(table: &mut Table, id: i32, username: String, email: String)
    requires
        wf_table(old(table)@),
        old(table)@.num_rows < i32::MAX,
    ensures
        final(table)@ == insert_spec(old(table)@, id as int, username@, email@),
        wf_table(final(table)@),
{
    proof {
        assert(old(table)@.num_rows / (ROWS_PER_PAGE as int) <= old(table)@.num_pages) by {
            assert(old(table)@.num_rows <= old(table)@.num_pages * (ROWS_PER_PAGE as int));
        };
    }
    let page_num: usize = (table.num_rows as usize) / ROWS_PER_PAGE;
    if page_num == table.pages.len() {
        let p = empty_page();
        table.pages.push(p);
        table.num_pages = table.num_pages + 1;
    }
    let row = Row { id: id, email: email, username: username };
    let slot: usize = (table.num_rows as usize) % ROWS_PER_PAGE;
    proof {
        assert(page_num < table.pages@.len());
        assert(table.pages.deep_view()[page_num as int].len() == ROWS_PER_PAGE);
        assert(table.pages@[page_num as int].deep_view().len() == ROWS_PER_PAGE);
        assert(table.pages@[page_num as int]@.len() == ROWS_PER_PAGE);
    }
    let mut page = clone_page(&table.pages[page_num]);
    page[slot] = Some(row);
    let ghost mid_pages = table.pages.deep_view();
    table.pages[page_num] = page;
    table.num_rows = table.num_rows + 1;
    proof {
        let o = old(table)@;
        let want = insert_spec(o, id as int, username@, email@);
        assert(page.deep_view() =~= mid_pages[page_num as int].update(slot as int, Some(
            RowV { id: id as int, username: username@, email: email@ },
        )));
        assert(table.pages.deep_view() =~~= mid_pages.update(
            page_num as int,
            mid_pages[page_num as int].update(slot as int, Some(
                RowV { id: id as int, username: username@, email: email@ },
            )),
        ));
        assert(table@.pages =~~= want.pages);
        assert(table@ == want);
    }
}

/// Element-wise copy of a page, preserving its view.
fn clone_page(src: &Vec<Option<Row>>) -> (out: Vec<Option<Row>>)
    ensures
        out.deep_view() == src.deep_view(),
        out@.len() == src@.len(),
{
    let mut out: Vec<Option<Row>> = Vec::new();
    let mut j: usize = 0;
    while j < src.len()
        invariant
            j <= src.len(),
            out@.len() == j,
            forall|k: int| 0 <= k < j ==> out@[k].deep_view() == src@[k].deep_view(),
        decreases src.len() - j,
    {
        let slot = match &src[j] {
            Some(row) => Some(row.clone()),
            None => None,
        };
        out.push(slot);
        j += 1;
    }
    assert(out.deep_view() =~= src.deep_view());
    out
}

/// List the occupied rows, pages in order, slots in order; empty slots are
/// skipped and the table is left untouched.
pub fn execute_select(table: &Table) -> (rows: Vec<Row>)
    ensures
        rows.deep_view() == selected_rows(table@.pages),
{
    let mut rows: Vec<Row> = Vec::new();
    let mut i: usize = 0;
    while i < table.pages.len()
        invariant
            i <= table.pages.len(),
            rows.deep_view() =~= selected_rows(table@.pages.take(i as int)),
        decreases table.pages.len() - i,
    {
        let page = &table.pages[i];
        let mut j: usize = 0;
        while j < page.len()
            invariant
                i < table.pages.len(),
                j <= page.len(),
                page == &table.pages@[i as int],
                rows.deep_view() =~= selected_rows(table@.pages.take(i as int)) + page_rows(
                    page.deep_view().take(j as int),
                ),
            decreases page.len() - j,
        {
            let ghost prev = rows.deep_view();
            match &page[j] {
                Some(row) => {
                    rows.push(row.clone());
                    proof {
                        assert(page.deep_view()[j as int] == Some(row@));
                        assert(rows.deep_view() =~= prev.push(row@));
                    }
                }
                None => {}
            }
            proof {
                assert(page.deep_view().take(j as int + 1).drop_last() =~= page.deep_view().take(
                    j as int,
                ));
                assert(page.deep_view().take(j as int + 1).last() == page.deep_view()[j as int]);
                assert(rows.deep_view() =~= selected_rows(table@.pages.take(i as int))
                    + page_rows(page.deep_view().take(j as int + 1)));
            }
            j += 1;
        }
        proof {
            assert(page.deep_view().take(page@.len() as int) =~= page.deep_view());
            assert(table@.pages.take(i as int + 1).drop_last() =~= table@.pages.take(i as int));
            assert(table@.pages.take(i as int + 1).last() == table@.pages[i as int]);
            assert(table@.pages[i as int] == page.deep_view());
            assert(rows.deep_view() =~= selected_rows(table@.pages.take(i as int + 1)));
        }
        i += 1;
    }
    proof {
        assert(table@.pages.take(table.pages@.len() as int) =~= table@.pages);
    }
    rows
}

/// Does this table satisfy `wf_table`? A dynamic check used by the evaluator
/// before it trusts a table value drawn from the environment.
pub fn table_wf_check(table: &Table) -> (b: bool)
    ensures
        b == wf_table(table@),
{
    if table.num_rows < 0 {
        return false;
    }
    if table.num_pages < 0 || (table.num_pages as usize) != table.pages.len() {
        return false;
    }
    let nr = table.num_rows as usize;
    let cap_ok = nr / ROWS_PER_PAGE < table.pages.len() || (nr / ROWS_PER_PAGE
        == table.pages.len() && nr % ROWS_PER_PAGE == 0);
    if !cap_ok {
        proof {
            assert(!(table@.num_rows <= table@.num_pages * (ROWS_PER_PAGE as int)));
        }
        return false;
    }
    let mut i: usize = 0;
    while i < table.pages.len()
        invariant
            i <= table.pages.len(),
            forall|k: int|
                0 <= k < i ==> (#[trigger] table@.pages[k]).len() == ROWS_PER_PAGE,
        decreases table.pages.len() - i,
    {
        if table.pages[i].len() != ROWS_PER_PAGE {
            proof {
                assert(table@.pages[i as int].len() != ROWS_PER_PAGE);
            }
            return false;
        }
        i += 1;
    }
    proof {
        assert(table@.num_rows <= table@.num_pages * (ROWS_PER_PAGE as int));
    }
    true
}

/// A densely filled table: exactly the slots for logical indexes below the
/// row count are occupied, and exactly the pages needed for them exist. This
/// is the shape insertion builds from an empty table.
pub open spec fn dense_table(t: TableV) -> bool {
    &&& wf_table(t)
    &&& t.num_pages == (t.num_rows + (ROWS_PER_PAGE as int) - 1) / (ROWS_PER_PAGE as int)
    &&& (forall|p: int, s: int|
        0 <= p < t.pages.len() && 0 <= s < ROWS_PER_PAGE ==> ((#[trigger] t.pages[p][s]) is Some
            <==> p * (ROWS_PER_PAGE as int) + s < t.num_rows))
}

/// Insertion keeps a table dense, placing the new row at the page and slot
/// given by its logical index: `pages[n / ROWS_PER_PAGE][n % ROWS_PER_PAGE]`
/// for row count `n`, and grows the page count exactly to
/// `ceil((n + 1) / ROWS_PER_PAGE)`.
pub proof fn lemma_insert_dense(t: TableV, id: int, username: Seq<char>, email: Seq<char>)
    requires
        dense_table(t),
        t.num_rows < i32::MAX,
    ensures
        dense_table(insert_spec(t, id, username, email)),
        insert_spec(t, id, username, email).num_rows == t.num_rows + 1,
        insert_spec(t, id, username, email).name == t.name,
        insert_spec(t, id, username, email).pages[t.num_rows / (ROWS_PER_PAGE as int)][t.num_rows
            % (ROWS_PER_PAGE as int)] == Some(RowV { id, username, email }),
{
    let r = insert_spec(t, id, username, email);
    let pp = ROWS_PER_PAGE as int;
    let pn = t.num_rows / pp;
    let slot = t.num_rows % pp;
    assert(t.num_rows == pp * pn + slot) by {
        vstd::arithmetic::div_mod::lemma_fundamental_div_mod(t.num_rows, pp);
    };
    assert(0 <= slot < pp);
    assert(pn <= t.num_pages);
    let grow = pn == t.pages.len();
    assert(r.num_pages == r.pages.len());
    assert forall|i: int| 0 <= i < r.pages.len() implies (#[trigger] r.pages[i]).len() == ROWS_PER_PAGE by {
        if grow && i == t.pages.len() && i != pn {
            assert(r.pages[i] == t.pages.push(empty_page_v())[i]);
        }
    }
    assert(r.num_rows <= r.num_pages * pp);
    assert(r.num_pages == (r.num_rows + pp - 1) / pp);
    assert forall|p: int, s: int|
        0 <= p < r.pages.len() && 0 <= s < ROWS_PER_PAGE implies ((#[trigger] r.pages[p][s]) is Some
        <==> p * pp + s < r.num_rows) by {
        if p == pn && s == slot {
            assert(r.pages[p][s] == Some(RowV { id, username, email }));
        } else if p == pn {
            if grow {
                assert(r.pages[p][s] == empty_page_v()[s]);
                assert(r.pages[p][s] is None);
                assert(p * pp + s != t.num_rows);
                if p * pp + s < t.num_rows + 1 {
                    assert(p * pp + s < t.num_rows);
                    assert(p < (t.num_rows + pp - 1) / pp);
                }
            } else {
                assert(r.pages[p][s] == t.pages[p][s]);
                assert(p * pp + s != t.num_rows);
            }
        } else if grow && p == t.pages.len() {
            assert(false);
        } else {
            assert(p < t.pages.len());
            if grow {
                assert(r.pages[p] == t.pages.push(empty_page_v())[p]);
            }
            assert(r.pages[p][s] == t.pages[p][s]);
            assert(p * pp + s != t.num_rows);
        }
    }
}

} // verus!
