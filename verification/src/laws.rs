use crate::handlers::{planned, response_to, PlanView};
use crate::json::{integer_text, laptop_json, laptops_json};
use crate::model::LaptopView;
use crate::paths::{
    names_a_laptop, requests_without_id_name_no_laptop, usual_request,
    usual_requests_name_their_laptop,
};
use crate::request::{id_text, integer, route_of, Route};
use crate::response::{internal_error, laptop_not_found, success, ResponseView};
use crate::store::{OutcomeView, StatementView};
use crate::text::is_blank;
use crate::table::{
    distinct_ids, lacks_id, lemma_absent_gives_no_row, lemma_present_gives_one_row, Table,
};
use vstd::prelude::*;

verus! {

/// One request served in front of `table`: the table afterwards, and the
/// answer. `payload` is the laptop that the body of the request holds, `None`
/// where the body holds none.
pub open spec fn served(table: Table, request: Seq<char>, payload: Option<LaptopView>) -> (
    Table,
    ResponseView,
) {
    match planned(request, payload) {
        PlanView::Reply(response) => (table, response),
        PlanView::Run(statement) => {
            let (after, outcome) = table.run(statement);
            (after, response_to(statement, outcome))
        },
    }
}

/// Whether `request` asks to read the laptop with the identifier `id`.
pub open spec fn reads(request: Seq<char>, id: i32) -> bool {
    route_of(request) == Route::ReadOne && integer(id_text(request)) == Some(id)
}

/// Whether `request` asks to remove the laptop with the identifier `id`.
pub open spec fn removes(request: Seq<char>, id: i32) -> bool {
    route_of(request) == Route::Delete && integer(id_text(request)) == Some(id)
}

/// A laptop that was stored is read back: while the store has an identifier
/// left, storing succeeds, and reading by the identifier that the new row got
/// gives the JSON object of the laptop that was sent, under that identifier.
pub proof fn stored_laptop_is_read_back(
    table: Table,
    create: Seq<char>,
    laptop: LaptopView,
    read: Seq<char>,
    other: Option<LaptopView>,
)
    requires
        table.wf(),
        table.next_id <= i32::MAX,
        route_of(create) == Route::Create,
        reads(read, table.next_id as i32),
    ensures
        served(table, create, Some(laptop)).1 == success("Laptop created"@),
        served(served(table, create, Some(laptop)).0, read, other).1 == success(
            laptop_json(laptop.with_id(table.next_id as i32)),
        ),
{
    let id = table.next_id as i32;
    let after = served(table, create, Some(laptop)).0;
    assert(after.rows == table.rows.push(laptop.with_id(id)));
    assert(distinct_ids(after.rows)) by {
        assert forall|i: int, j: int| 0 <= i < j < after.rows.len() implies after.rows[i].id
            != after.rows[j].id by {
            assert(after.rows[i] == table.rows[i]);
            if j < table.rows.len() {
                assert(after.rows[j] == table.rows[j]);
            }
        }
    }
    lemma_present_gives_one_row(after.rows, id, table.rows.len() as int);
}

proof fn lemma_request_for_one(rest: Seq<char>)
    ensures
        "GET /laptops/1"@ + rest == usual_request("GET"@, integer_text(1), rest),
{
    reveal_strlit("GET");
    reveal_strlit(" /laptops/");
    reveal_strlit("GET /laptops/1");
    assert(integer_text(1) =~= seq!['1']);
    assert("GET /laptops/1"@ =~= "GET"@ + " /laptops/"@ + integer_text(1));
}

/// The first laptop that is stored is read back under the identifier 1, by a
/// request that begins with `GET /laptops/1` and goes on with nothing or with
/// white space.
pub proof fn first_laptop_is_read_under_one(
    create: Seq<char>,
    laptop: LaptopView,
    rest: Seq<char>,
    other: Option<LaptopView>,
)
    requires
        route_of(create) == Route::Create,
        rest.len() == 0 || is_blank(rest[0]),
    ensures
        served(Table::empty(), create, Some(laptop)).1 == success("Laptop created"@),
        served(
            served(Table::empty(), create, Some(laptop)).0,
            "GET /laptops/1"@ + rest,
            other,
        ).1 == success(laptop_json(laptop.with_id(1))),
{
    let read = "GET /laptops/1"@ + rest;
    lemma_request_for_one(rest);
    usual_requests_name_their_laptop("GET"@, 1, rest);
    let table = Table::empty();
    assert(table.wf() && table.next_id == 1);
    assert(reads(read, 1));
    stored_laptop_is_read_back(table, create, laptop, read, other);
}

/// A request to read, replace or remove a laptop that names none, with
/// nothing or white space behind `/laptops/`, answers with an internal error
/// and leaves the table as it is.
pub proof fn request_without_id_is_an_error(
    table: Table,
    method: Seq<char>,
    rest: Seq<char>,
    payload: Option<LaptopView>,
)
    requires
        names_a_laptop(method),
        rest.len() == 0 || is_blank(rest[0]),
    ensures
        served(table, usual_request(method, Seq::empty(), rest), payload) == (
            table,
            internal_error(),
        ),
{
    requests_without_id_name_no_laptop(method, rest);
    unreadable_id_is_an_error(table, usual_request(method, Seq::empty(), rest), payload);
}

/// An identifier that no row has is not found: reading by it and removing by
/// it both answer that the laptop was not found, and the table stays as it is.
pub proof fn absent_laptop_is_not_found(
    table: Table,
    id: i32,
    read: Seq<char>,
    remove: Seq<char>,
    other: Option<LaptopView>,
)
    requires
        !table.holds(id),
        reads(read, id),
        removes(remove, id),
    ensures
        served(table, read, other) == (table, laptop_not_found()),
        served(table, remove, other).1 == laptop_not_found(),
        served(table, remove, other).0.rows == table.rows,
{
    lemma_absent_gives_no_row(table.rows, id);
    lemma_nothing_to_remove(table.rows, id);
}

/// Where no row has the identifier `id`, removing by it leaves every row.
proof fn lemma_nothing_to_remove(rows: Seq<LaptopView>, id: i32)
    requires
        forall|i: int| 0 <= i < rows.len() ==> (#[trigger] rows[i]).id != Some(id),
    ensures
        rows.filter(lacks_id(id)) == rows,
    decreases rows.len(),
{
    reveal(Seq::filter);
    if rows.len() > 0 {
        let front = rows.drop_last();
        assert forall|i: int| 0 <= i < front.len() implies (#[trigger] front[i]).id != Some(
            id,
        ) by {
            assert(front[i] == rows[i]);
        }
        lemma_nothing_to_remove(front, id);
        assert(lacks_id(id)(rows.last()));
        assert(front.push(rows.last()) =~= rows);
    }
}

/// Reading all laptops of a table without rows succeeds with the empty JSON
/// array.
pub proof fn empty_table_lists_nothing(
    table: Table,
    request: Seq<char>,
    other: Option<LaptopView>,
)
    requires
        table.rows.len() == 0,
        route_of(request) == Route::ReadAll,
    ensures
        served(table, request, other) == (table, success("[]"@)),
{
    reveal_strlit("[");
    reveal_strlit("]");
    reveal_strlit("[]");
    assert(laptops_json(table.rows) =~= "[]"@);
}

/// Whether `request` asks to replace the laptop with the identifier `id`.
pub open spec fn replaces(request: Seq<char>, id: i32) -> bool {
    route_of(request) == Route::Update && integer(id_text(request)) == Some(id)
}

/// A replacement goes to the row that the path names, and to no other: it
/// succeeds whether or not there is such a row, the row with that identifier
/// takes the nine texts of the laptop that was sent and keeps its identifier,
/// whatever identifier that laptop carried, and every other row stays as it
/// was. No row is added or removed.
pub proof fn replacement_goes_to_the_named_row(
    table: Table,
    id: i32,
    update: Seq<char>,
    laptop: LaptopView,
)
    requires
        replaces(update, id),
    ensures
        served(table, update, Some(laptop)).1 == success("Laptop updated"@),
        served(table, update, Some(laptop)).0.next_id == table.next_id,
        served(table, update, Some(laptop)).0.rows.len() == table.rows.len(),
        forall|i: int|
            0 <= i < table.rows.len() ==> #[trigger] served(table, update, Some(laptop)).0.rows[i]
                == if table.rows[i].id == Some(id) {
                laptop.with_id(id)
            } else {
                table.rows[i]
            },
{
}

/// A replacement is whole: after a laptop was put in place of the row that
/// the path names, reading by that identifier gives the JSON object of the
/// laptop that was sent, under that identifier, and so nothing of the row as
/// it was before. The laptop that is sent may carry that identifier, another,
/// or none.
pub proof fn replaced_laptop_is_read_back(
    table: Table,
    id: i32,
    update: Seq<char>,
    laptop: LaptopView,
    read: Seq<char>,
    other: Option<LaptopView>,
)
    requires
        table.wf(),
        table.holds(id),
        replaces(update, id),
        reads(read, id),
    ensures
        served(table, update, Some(laptop)).1 == success("Laptop updated"@),
        served(served(table, update, Some(laptop)).0, read, other).1 == success(
            laptop_json(laptop.with_id(id)),
        ),
{
    let after = served(table, update, Some(laptop)).0;
    let k = choose|k: int| 0 <= k < table.rows.len() && (#[trigger] table.rows[k]).id == Some(id);
    assert(after.rows[k] == laptop.with_id(id));
    assert(distinct_ids(after.rows)) by {
        assert forall|i: int, j: int| 0 <= i < j < after.rows.len() implies after.rows[i].id
            != after.rows[j].id by {
            assert(after.rows[i].id == table.rows[i].id);
            assert(after.rows[j].id == table.rows[j].id);
        }
    }
    lemma_present_gives_one_row(after.rows, id, k);
}

/// What a client that asks the store for exactly one row hands over for the
/// rows that a read gives: the one row, or a failure where there is none or
/// more than one.
pub open spec fn single_row(rows: Seq<LaptopView>) -> OutcomeView {
    if rows.len() == 1 {
        OutcomeView::Rows(rows)
    } else {
        OutcomeView::Failed
    }
}

/// Reading one laptop answers alike whether the rows that the read gives are
/// handed over as they are, or as a client hands them over that asks for
/// exactly one row: with the single row where there is one, and with a laptop
/// not found for a failure, for no row and for several rows.
pub proof fn read_of_one_goes_by_the_single_row(id: i32, rows: Seq<LaptopView>)
    ensures
        response_to(StatementView::SelectById(id), single_row(rows)) == response_to(
            StatementView::SelectById(id),
            OutcomeView::Rows(rows),
        ),
        response_to(StatementView::SelectById(id), OutcomeView::Failed) == laptop_not_found(),
        rows.len() != 1 ==> response_to(StatementView::SelectById(id), OutcomeView::Rows(rows))
            == laptop_not_found(),
        rows.len() == 1 ==> response_to(StatementView::SelectById(id), OutcomeView::Rows(rows))
            == success(laptop_json(rows[0])),
{
}

/// A laptop that was removed is gone: removing a row that is there succeeds,
/// reading by its identifier then answers that the laptop was not found, and
/// so does removing it once more.
pub proof fn removed_laptop_is_gone(
    table: Table,
    id: i32,
    remove: Seq<char>,
    read: Seq<char>,
    other: Option<LaptopView>,
)
    requires
        table.wf(),
        table.holds(id),
        removes(remove, id),
        reads(read, id),
    ensures
        served(table, remove, other).1 == success("Laptop deleted"@),
        served(served(table, remove, other).0, read, other).1 == laptop_not_found(),
        served(served(table, remove, other).0, remove, other).1 == laptop_not_found(),
{
    let k = choose|k: int| 0 <= k < table.rows.len() && (#[trigger] table.rows[k]).id == Some(id);
    lemma_present_gives_one_row(table.rows, id, k);
    let after = served(table, remove, other).0;
    assert(after.rows == table.rows.filter(lacks_id(id)));
    assert forall|i: int| 0 <= i < after.rows.len() implies (#[trigger] after.rows[i]).id
        != Some(id) by {
        table.rows.lemma_filter_pred(lacks_id(id), i);
    }
    lemma_absent_gives_no_row(after.rows, id);
}

/// A request to store a laptop whose body holds none answers with an internal
/// error, and the table stays as it is.
pub proof fn unreadable_body_changes_nothing(table: Table, create: Seq<char>)
    requires
        route_of(create) == Route::Create,
    ensures
        served(table, create, None) == (table, internal_error()),
{
}

/// A request to read, replace or remove one laptop whose path names no
/// integer answers with an internal error, whatever the table holds, and the
/// table stays as it is.
pub proof fn unreadable_id_is_an_error(
    table: Table,
    request: Seq<char>,
    payload: Option<LaptopView>,
)
    requires
        route_of(request) == Route::ReadOne || route_of(request) == Route::Update || route_of(
            request,
        ) == Route::Delete,
        integer(id_text(request)) is None,
    ensures
        served(table, request, payload) == (table, internal_error()),
{
}

} // verus!
