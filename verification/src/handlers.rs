use crate::json::{laptop_json, laptop_to_json, laptops_json, laptops_to_json};
use crate::model::{view_of, Laptop, LaptopView};
use crate::request::{get_id, id_text, integer, parse_id, route, route_of, Route};
use crate::response::{
    internal_error, laptop_not_found, respond_with, route_not_found, success, Response,
    ResponseView, Status,
};
use crate::store::{Outcome, OutcomeView, Statement, StatementView};
use vstd::prelude::*;

verus! {

/// What is to be done for a request: run one statement on the store and
/// answer by what comes of it, or answer at once.
#[derive(Clone, Debug, PartialEq, Eq)]
pub enum Plan {
    Run(Statement),
    Reply(Response),
}

/// What a `Plan` holds, as mathematical values.
pub enum PlanView {
    Run(StatementView),
    Reply(ResponseView),
}

impl View for Plan {
    type V = PlanView;

    open spec fn view(&self) -> PlanView {
        match self {
            Plan::Run(statement) => PlanView::Run(statement@),
            Plan::Reply(response) => PlanView::Reply(response@),
        }
    }
}

/// The plan for storing a new laptop. `payload` is the laptop that the body of
/// the request holds, `None` where the body holds none.
pub open spec fn planned_create(payload: Option<LaptopView>) -> PlanView {
    match payload {
        Some(laptop) => PlanView::Run(StatementView::Insert(laptop)),
        None => PlanView::Reply(internal_error()),
    }
}

/// The plan for reading the laptop that the path of `request` names.
pub open spec fn planned_read_one(request: Seq<char>) -> PlanView {
    match integer(id_text(request)) {
        Some(id) => PlanView::Run(StatementView::SelectById(id)),
        None => PlanView::Reply(internal_error()),
    }
}

/// The plan for replacing a laptop. The path of `request` must name an
/// identifier, and the body must hold a laptop: the nine texts of that laptop
/// go to the row that the path names. An identifier that the laptop carries
/// itself is not used.
pub open spec fn planned_update(request: Seq<char>, payload: Option<LaptopView>) -> PlanView {
    match (integer(id_text(request)), payload) {
        (Some(id), Some(laptop)) => PlanView::Run(StatementView::Update(laptop.with_id(id))),
        _ => PlanView::Reply(internal_error()),
    }
}

/// The plan for removing the laptop that the path of `request` names.
pub open spec fn planned_delete(request: Seq<char>) -> PlanView {
    match integer(id_text(request)) {
        Some(id) => PlanView::Run(StatementView::DeleteById(id)),
        None => PlanView::Reply(internal_error()),
    }
}

/// The plan for a request, by its route. `payload` is the laptop that the body
/// of the request holds, `None` where the body holds none; only the routes
/// that store or replace a laptop look at it.
pub open spec fn planned(request: Seq<char>, payload: Option<LaptopView>) -> PlanView {
    match route_of(request) {
        Route::Create => planned_create(payload),
        Route::ReadOne => planned_read_one(request),
        Route::ReadAll => PlanView::Run(StatementView::SelectAll),
        Route::Update => planned_update(request, payload),
        Route::Delete => planned_delete(request),
        Route::Unmatched => PlanView::Reply(route_not_found()),
    }
}

/// Whether the plan for `request` looks at the laptop in its body: it does on
/// the two routes that store or replace a laptop.
pub fn wants_payload(request: &str) -> (wanted: bool)
    ensures
        wanted == (route_of(request@) == Route::Create || route_of(request@) == Route::Update),
{
    match route(request) {
        Route::Create => true,
        Route::Update => true,
        _ => false,
    }
}

/// The plan for storing a new laptop.
pub fn plan_create(payload: Option<Laptop>) -> (plan: Plan)
    ensures
        plan@ == planned_create(view_of(payload)),
{
    match payload {
        Some(laptop) => Plan::Run(Statement::Insert(laptop)),
        None => Plan::Reply(respond_with(Status::InternalError, "Internal error")),
    }
}

/// The plan for reading the laptop that the path of `request` names.
pub fn plan_read_one(request: &str) -> (plan: Plan)
    ensures
        plan@ == planned_read_one(request@),
{
    match parse_id(get_id(request)) {
        Some(id) => Plan::Run(Statement::SelectById(id)),
        None => Plan::Reply(respond_with(Status::InternalError, "Internal error")),
    }
}

/// The plan for reading every laptop.
pub fn plan_read_all() -> (plan: Plan)
    ensures
        plan@ == PlanView::Run(StatementView::SelectAll),
{
    Plan::Run(Statement::SelectAll)
}

/// The plan for replacing a laptop.
pub fn plan_update(request: &str, payload: Option<Laptop>) -> (plan: Plan)
    ensures
        plan@ == planned_update(request@, view_of(payload)),
{
    match (parse_id(get_id(request)), payload) {
        (Some(id), Some(laptop)) => {
            let mut named = laptop;
            named.id = Some(id);
            Plan::Run(Statement::Update(named))
        },
        _ => Plan::Reply(respond_with(Status::InternalError, "Internal error")),
    }
}

/// The plan for removing the laptop that the path of `request` names.
pub fn plan_delete(request: &str) -> (plan: Plan)
    ensures
        plan@ == planned_delete(request@),
{
    match parse_id(get_id(request)) {
        Some(id) => Plan::Run(Statement::DeleteById(id)),
        None => Plan::Reply(respond_with(Status::InternalError, "Internal error")),
    }
}

/// The plan for `request`, whose body holds the laptop `payload`, or none.
pub fn plan(request: &str, payload: Option<Laptop>) -> (plan: Plan)
    ensures
        plan@ == planned(request@, view_of(payload)),
{
    match route(request) {
        Route::Create => plan_create(payload),
        Route::ReadOne => plan_read_one(request),
        Route::ReadAll => plan_read_all(),
        Route::Update => plan_update(request, payload),
        Route::Delete => plan_delete(request),
        Route::Unmatched => Plan::Reply(respond_with(Status::NotFound, "404 not found")),
    }
}

/// The answer to a request, by the statement that was run for it and what
/// came of that.
///
/// Where the store could not be reached the answer is an internal error. A
/// statement that stores, replaces or removes answers with a success once it
/// has run, but for a removal that changed no row: that is a laptop not
/// found. Reading one laptop succeeds where exactly one row came, and is a
/// laptop not found in every other case in which the store was reached.
/// Reading all laptops succeeds with the rows that came, however few.
pub open spec fn response_to(statement: StatementView, outcome: OutcomeView) -> ResponseView {
    match statement {
        StatementView::Insert(_) => match outcome {
            OutcomeView::Affected(_) => success("Laptop created"@),
            _ => internal_error(),
        },
        StatementView::SelectById(_) => match outcome {
            OutcomeView::Unreachable => internal_error(),
            OutcomeView::Rows(rows) => if rows.len() == 1 {
                success(laptop_json(rows[0]))
            } else {
                laptop_not_found()
            },
            _ => laptop_not_found(),
        },
        StatementView::SelectAll => match outcome {
            OutcomeView::Rows(rows) => success(laptops_json(rows)),
            _ => internal_error(),
        },
        StatementView::Update(_) => match outcome {
            OutcomeView::Affected(_) => success("Laptop updated"@),
            _ => internal_error(),
        },
        StatementView::DeleteById(_) => match outcome {
            OutcomeView::Affected(count) => if count == 0 {
                laptop_not_found()
            } else {
                success("Laptop deleted"@)
            },
            _ => internal_error(),
        },
    }
}

/// The answer to a request for which `statement` was run with `outcome`.
pub fn respond(statement: &Statement, outcome: &Outcome) -> (response: Response)
    ensures
        response@ == response_to(statement@, outcome@),
{
    match statement {
        Statement::Insert(_) => match outcome {
            Outcome::Affected(_) => respond_with(Status::Success, "Laptop created"),
            _ => respond_with(Status::InternalError, "Internal error"),
        },
        Statement::SelectById(_) => match outcome {
            Outcome::Unreachable => respond_with(Status::InternalError, "Internal error"),
            Outcome::Rows(rows) => if rows.len() == 1 {
                Response { status: Status::Success, body: laptop_to_json(&rows[0]) }
            } else {
                respond_with(Status::NotFound, "Laptop not found")
            },
            _ => respond_with(Status::NotFound, "Laptop not found"),
        },
        Statement::SelectAll => match outcome {
            Outcome::Rows(rows) => Response {
                status: Status::Success,
                body: laptops_to_json(rows),
            },
            _ => respond_with(Status::InternalError, "Internal error"),
        },
        Statement::Update(_) => match outcome {
            Outcome::Affected(_) => respond_with(Status::Success, "Laptop updated"),
            _ => respond_with(Status::InternalError, "Internal error"),
        },
        Statement::DeleteById(_) => match outcome {
            Outcome::Affected(count) => if *count == 0 {
                respond_with(Status::NotFound, "Laptop not found")
            } else {
                respond_with(Status::Success, "Laptop deleted")
            },
            _ => respond_with(Status::InternalError, "Internal error"),
        },
    }
}

} // verus!
