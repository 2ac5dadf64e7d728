use crate::model::LaptopView;
use crate::store::{OutcomeView, StatementView};
use vstd::prelude::*;

verus! {

/// Whether a row has the identifier `id`.
pub open spec fn has_id(id: i32) -> spec_fn(LaptopView) -> bool {
    |row: LaptopView| row.id == Some(id)
}

/// Whether a row has another identifier than `id`.
pub open spec fn lacks_id(id: i32) -> spec_fn(LaptopView) -> bool {
    |row: LaptopView| row.id != Some(id)
}

/// A row after `laptop` was put in place of the row with the identifier `id`:
/// `laptop` for that row, the row itself for any other.
pub open spec fn replaced_by(id: i32, laptop: LaptopView) -> spec_fn(LaptopView) -> LaptopView {
    |row: LaptopView|
        if row.id == Some(id) {
            laptop
        } else {
            row
        }
}

/// Whether no two rows of `rows` have the same identifier.
pub open spec fn distinct_ids(rows: Seq<LaptopView>) -> bool {
    forall|i: int, j: int| 0 <= i < j < rows.len() ==> rows[i].id != rows[j].id
}

/// The table of laptops as the service takes it to be: what a store that is
/// reached, and that runs every statement it is given, holds between two
/// statements. It exists in proofs only; the laws of this crate say what the
/// service does in front of such a store.
pub struct Table {
    /// The rows, in the order in which the store lists them.
    pub rows: Seq<LaptopView>,
    /// The identifier that the next new row gets.
    pub next_id: int,
}

impl Table {
    /// The table before anything was stored.
    pub open spec fn empty() -> Table {
        Table { rows: Seq::empty(), next_id: 1 }
    }

    /// Every row has an identifier, which the store gave out before, and no
    /// two rows have the same.
    pub open spec fn wf(self) -> bool {
        &&& 1 <= self.next_id
        &&& forall|i: int|
            0 <= i < self.rows.len() ==> (#[trigger] self.rows[i]).id is Some && self.rows[i].id->0
                < self.next_id
        &&& distinct_ids(self.rows)
    }

    /// Whether a row has the identifier `id`.
    pub open spec fn holds(self, id: i32) -> bool {
        exists|i: int| 0 <= i < self.rows.len() && (#[trigger] self.rows[i]).id == Some(id)
    }

    /// The rows that have the identifier `id`.
    pub open spec fn rows_with(self, id: i32) -> Seq<LaptopView> {
        self.rows.filter(has_id(id))
    }

    /// The table after `statement` ran, and what the store reports of it.
    ///
    /// A new row gets the next identifier, whatever identifier the laptop
    /// carried; once the identifiers of 32 bits are used up the statement
    /// fails. A replacement keeps the place and the identifier of the row; a
    /// laptop without identifier, which no plan asks to put in place, stands
    /// for no row and changes nothing. Reading changes nothing.
    pub open spec fn run(self, statement: StatementView) -> (Table, OutcomeView) {
        match statement {
            StatementView::Insert(laptop) => if self.next_id <= i32::MAX {
                (
                    Table {
                        rows: self.rows.push(laptop.with_id(self.next_id as i32)),
                        next_id: self.next_id + 1,
                    },
                    OutcomeView::Affected(1),
                )
            } else {
                (self, OutcomeView::Failed)
            },
            StatementView::SelectById(id) => (self, OutcomeView::Rows(self.rows_with(id))),
            StatementView::SelectAll => (self, OutcomeView::Rows(self.rows)),
            StatementView::Update(laptop) => match laptop.id {
                Some(id) => (
                    Table { rows: self.rows.map_values(replaced_by(id, laptop)), ..self },
                    OutcomeView::Affected(self.rows_with(id).len()),
                ),
                None => (self, OutcomeView::Affected(0)),
            },
            StatementView::DeleteById(id) => (
                Table { rows: self.rows.filter(lacks_id(id)), ..self },
                OutcomeView::Affected(self.rows_with(id).len()),
            ),
        }
    }
}

/// Where no row has the identifier `id`, reading by it gives no row.
pub proof fn lemma_absent_gives_no_row(rows: Seq<LaptopView>, id: i32)
    requires
        forall|i: int| 0 <= i < rows.len() ==> (#[trigger] rows[i]).id != Some(id),
    ensures
        rows.filter(has_id(id)).len() == 0,
{
    rows.lemma_all_neg_filter_empty(has_id(id));
}

/// Where the identifiers are distinct and row `k` has the identifier `id`,
/// reading by it gives that row and no other.
pub proof fn lemma_present_gives_one_row(rows: Seq<LaptopView>, id: i32, k: int)
    requires
        distinct_ids(rows),
        0 <= k < rows.len(),
        rows[k].id == Some(id),
    ensures
        rows.filter(has_id(id)) == seq![rows[k]],
    decreases rows.len(),
{
    reveal(Seq::filter);
    let front = rows.drop_last();
    if k == rows.len() - 1 {
        assert forall|i: int| 0 <= i < front.len() implies (#[trigger] front[i]).id != Some(
            id,
        ) by {
            assert(rows[i].id != rows[k].id);
        }
        lemma_absent_gives_no_row(front, id);
        assert(rows.filter(has_id(id)) =~= seq![rows[k]]);
    } else {
        assert(rows[k].id != rows[rows.len() - 1].id);
        assert(distinct_ids(front)) by {
            assert forall|i: int, j: int| 0 <= i < j < front.len() implies front[i].id
                != front[j].id by {
                assert(rows[i].id != rows[j].id);
            }
        }
        lemma_present_gives_one_row(front, id, k);
    }
}

/// Rows that are picked out of `rows` by `keep` are rows of `rows`, and their
/// identifiers are distinct where those of `rows` are.
pub proof fn lemma_kept_rows(rows: Seq<LaptopView>, keep: spec_fn(LaptopView) -> bool)
    requires
        distinct_ids(rows),
    ensures
        distinct_ids(rows.filter(keep)),
        forall|i: int|
            0 <= i < rows.filter(keep).len() ==> rows.contains(#[trigger] rows.filter(keep)[i]),
    decreases rows.len(),
{
    reveal(Seq::filter);
    if rows.len() > 0 {
        let front = rows.drop_last();
        let kept = front.filter(keep);
        assert(distinct_ids(front)) by {
            assert forall|i: int, j: int| 0 <= i < j < front.len() implies front[i].id
                != front[j].id by {
                assert(rows[i].id != rows[j].id);
            }
        }
        lemma_kept_rows(front, keep);
        assert forall|i: int| 0 <= i < kept.len() implies rows.contains(#[trigger] kept[i])
            && kept[i].id != rows.last().id by {
            assert(front.contains(kept[i]));
            let j = choose|j: int| 0 <= j < front.len() && front[j] == kept[i];
            assert(rows[j] == kept[i]);
            assert(rows[j].id != rows[rows.len() - 1].id);
        }
        if keep(rows.last()) {
            let all = rows.filter(keep);
            assert(all == kept.push(rows.last()));
            assert(rows[rows.len() - 1] == rows.last());
            assert forall|i: int| 0 <= i < all.len() implies rows.contains(#[trigger] all[i]) by {
                if i < kept.len() {
                    assert(all[i] == kept[i]);
                }
            }
            assert forall|i: int, j: int| 0 <= i < j < all.len() implies all[i].id
                != all[j].id by {
                assert(all[i] == kept[i]);
                if j < kept.len() {
                    assert(all[j] == kept[j]);
                }
            }
        }
    }
}

/// Identifiers stay as they were given: whatever statement runs, every row
/// still has an identifier that the store gave out, no two rows have the
/// same, and no identifier is given out twice.
pub proof fn run_keeps_identifiers(table: Table, statement: StatementView)
    requires
        table.wf(),
    ensures
        table.run(statement).0.wf(),
        table.run(statement).0.next_id >= table.next_id,
{
    let after = table.run(statement).0;
    match statement {
        StatementView::Insert(laptop) => {
            if table.next_id <= i32::MAX {
                assert forall|i: int| 0 <= i < after.rows.len() implies (
                #[trigger] after.rows[i]).id is Some && after.rows[i].id->0 < after.next_id by {
                    if i < table.rows.len() {
                        assert(after.rows[i] == table.rows[i]);
                    }
                }
                assert forall|i: int, j: int| 0 <= i < j < after.rows.len() implies after.rows[i].id
                    != after.rows[j].id by {
                    assert(after.rows[i] == table.rows[i]);
                    if j < table.rows.len() {
                        assert(after.rows[j] == table.rows[j]);
                    }
                }
            }
        },
        StatementView::SelectById(_) => {},
        StatementView::SelectAll => {},
        StatementView::Update(laptop) => {
            if laptop.id is Some {
                assert forall|i: int| 0 <= i < after.rows.len() implies (
                #[trigger] after.rows[i]).id == table.rows[i].id by {}
                assert forall|i: int, j: int| 0 <= i < j < after.rows.len() implies after.rows[i].id
                    != after.rows[j].id by {
                    assert(after.rows[i].id == table.rows[i].id);
                    assert(after.rows[j].id == table.rows[j].id);
                }
            }
        },
        StatementView::DeleteById(id) => {
            lemma_kept_rows(table.rows, lacks_id(id));
            assert forall|i: int| 0 <= i < after.rows.len() implies (
            #[trigger] after.rows[i]).id is Some && after.rows[i].id->0 < after.next_id by {
                assert(table.rows.contains(after.rows[i]));
                let j = choose|j: int| 0 <= j < table.rows.len() && table.rows[j] == after.rows[i];
                assert(table.rows[j].id is Some);
            }
        },
    }
}

} // verus!
