use crate::model::{views, Laptop, LaptopView};
use vstd::prelude::*;

verus! {

/// One statement for the store. A request leads to one statement at most.
#[derive(Clone, Debug, PartialEq, Eq)]
pub enum Statement {
    /// Store the nine texts of a laptop in a new row. The store gives the row
    /// its identifier; the one that the laptop carries is not used.
    Insert(Laptop),
    /// Read the row with this identifier.
    SelectById(i32),
    /// Read every row.
    SelectAll,
    /// Put the nine texts of a laptop in place of those of the row with the
    /// laptop's identifier. The plan for a replacement sets that identifier
    /// to the one that the path of the request names.
    Update(Laptop),
    /// Remove the row with this identifier.
    DeleteById(i32),
}

/// What a `Statement` holds, as mathematical values.
pub enum StatementView {
    Insert(LaptopView),
    SelectById(i32),
    SelectAll,
    Update(LaptopView),
    DeleteById(i32),
}

impl View for Statement {
    type V = StatementView;

    open spec fn view(&self) -> StatementView {
        match self {
            Statement::Insert(laptop) => StatementView::Insert(laptop@),
            Statement::SelectById(id) => StatementView::SelectById(*id),
            Statement::SelectAll => StatementView::SelectAll,
            Statement::Update(laptop) => StatementView::Update(laptop@),
            Statement::DeleteById(id) => StatementView::DeleteById(*id),
        }
    }
}

/// One value that a statement is run with.
#[derive(Clone, Debug, PartialEq, Eq)]
pub enum Parameter {
    /// A text.
    Text(String),
    /// An identifier, or the null value where there is none.
    Id(Option<i32>),
}

/// What a `Parameter` holds, as mathematical values.
pub enum ParameterView {
    Text(Seq<char>),
    Id(Option<i32>),
}

impl View for Parameter {
    type V = ParameterView;

    open spec fn view(&self) -> ParameterView {
        match self {
            Parameter::Text(text) => ParameterView::Text(text@),
            Parameter::Id(id) => ParameterView::Id(*id),
        }
    }
}

/// The views of `parameters`, in the same order.
pub open spec fn parameter_views(parameters: Seq<Parameter>) -> Seq<ParameterView> {
    parameters.map_values(|parameter: Parameter| parameter@)
}

/// The nine texts of a laptop, in the order of the columns.
pub open spec fn texts_of(laptop: LaptopView) -> Seq<ParameterView> {
    seq![
        ParameterView::Text(laptop.name),
        ParameterView::Text(laptop.description),
        ParameterView::Text(laptop.price),
        ParameterView::Text(laptop.processor),
        ParameterView::Text(laptop.ram),
        ParameterView::Text(laptop.storage),
        ParameterView::Text(laptop.display),
        ParameterView::Text(laptop.os),
        ParameterView::Text(laptop.graphics),
    ]
}

/// The values that a statement is run with: they fill the places `$1`, `$2`
/// and so on of its SQL text, in this order.
pub open spec fn parameters_of(statement: StatementView) -> Seq<ParameterView> {
    match statement {
        StatementView::Insert(laptop) => texts_of(laptop),
        StatementView::SelectById(id) => seq![ParameterView::Id(Some(id))],
        StatementView::SelectAll => Seq::empty(),
        StatementView::Update(laptop) => texts_of(laptop).push(ParameterView::Id(laptop.id)),
        StatementView::DeleteById(id) => seq![ParameterView::Id(Some(id))],
    }
}

/// The SQL text of a statement.
pub open spec fn sql_text(statement: StatementView) -> Seq<char> {
    match statement {
        StatementView::Insert(_) =>
            "INSERT INTO laptops (name, description, price, processor, ram, storage, display, os, graphics) VALUES ($1, $2, $3, $4, $5, $6, $7, $8, $9)"@,
        StatementView::SelectById(_) => "SELECT * FROM laptops WHERE id = $1"@,
        StatementView::SelectAll =>
            "SELECT id, name, description, price, processor, ram, storage, display, os, graphics FROM laptops"@,
        StatementView::Update(_) =>
            "UPDATE laptops SET name = $1, description = $2, price = $3, processor = $4, ram = $5, storage = $6, display = $7, os = $8, graphics = $9 WHERE id = $10"@,
        StatementView::DeleteById(_) => "DELETE FROM laptops WHERE id = $1"@,
    }
}

/// The nine texts of `laptop`, appended to `out`.
fn push_texts(out: &mut Vec<Parameter>, laptop: &Laptop)
    ensures
        parameter_views(final(out)@) == parameter_views(old(out)@) + texts_of(laptop@),
{
    out.push(Parameter::Text(laptop.name.clone()));
    out.push(Parameter::Text(laptop.description.clone()));
    out.push(Parameter::Text(laptop.price.clone()));
    out.push(Parameter::Text(laptop.processor.clone()));
    out.push(Parameter::Text(laptop.ram.clone()));
    out.push(Parameter::Text(laptop.storage.clone()));
    out.push(Parameter::Text(laptop.display.clone()));
    out.push(Parameter::Text(laptop.os.clone()));
    out.push(Parameter::Text(laptop.graphics.clone()));
    assert(parameter_views(out@) =~= parameter_views(old(out)@) + texts_of(laptop@));
}

impl Statement {
    /// The SQL text of this statement.
    pub fn sql(&self) -> (text: &'static str)
        ensures
            text@ == sql_text(self@),
    {
        match self {
            Statement::Insert(_) =>
                "INSERT INTO laptops (name, description, price, processor, ram, storage, display, os, graphics) VALUES ($1, $2, $3, $4, $5, $6, $7, $8, $9)",
            Statement::SelectById(_) => "SELECT * FROM laptops WHERE id = $1",
            Statement::SelectAll =>
                "SELECT id, name, description, price, processor, ram, storage, display, os, graphics FROM laptops",
            Statement::Update(_) =>
                "UPDATE laptops SET name = $1, description = $2, price = $3, processor = $4, ram = $5, storage = $6, display = $7, os = $8, graphics = $9 WHERE id = $10",
            Statement::DeleteById(_) => "DELETE FROM laptops WHERE id = $1",
        }
    }

    /// The values that this statement is run with, in the order of their
    /// places in the SQL text.
    pub fn parameters(&self) -> (out: Vec<Parameter>)
        ensures
            parameter_views(out@) == parameters_of(self@),
    {
        let mut out: Vec<Parameter> = Vec::new();
        match self {
            Statement::Insert(laptop) => {
                push_texts(&mut out, laptop);
            },
            Statement::SelectById(id) => {
                out.push(Parameter::Id(Some(*id)));
            },
            Statement::SelectAll => {},
            Statement::Update(laptop) => {
                push_texts(&mut out, laptop);
                out.push(Parameter::Id(laptop.id));
            },
            Statement::DeleteById(id) => {
                out.push(Parameter::Id(Some(*id)));
            },
        }
        assert(parameter_views(out@) =~= parameters_of(self@));
        out
    }
}

/// The SQL text that makes the table where it does not exist yet: an
/// identifier that the store counts up, and nine texts that must be there.
pub open spec fn schema_text() -> Seq<char> {
    "CREATE TABLE IF NOT EXISTS laptops (id SERIAL PRIMARY KEY, name TEXT NOT NULL, description TEXT NOT NULL, price TEXT NOT NULL, processor TEXT NOT NULL, ram TEXT NOT NULL, storage TEXT NOT NULL, display TEXT NOT NULL, os TEXT NOT NULL, graphics TEXT NOT NULL)"@
}

/// The SQL text that makes the table where it does not exist yet.
pub fn schema() -> (text: &'static str)
    ensures
        text@ == schema_text(),
{
    "CREATE TABLE IF NOT EXISTS laptops (id SERIAL PRIMARY KEY, name TEXT NOT NULL, description TEXT NOT NULL, price TEXT NOT NULL, processor TEXT NOT NULL, ram TEXT NOT NULL, storage TEXT NOT NULL, display TEXT NOT NULL, os TEXT NOT NULL, graphics TEXT NOT NULL)"
}

/// What came of running one statement.
#[derive(Clone, Debug, PartialEq, Eq)]
pub enum Outcome {
    /// No connection to the store could be opened.
    Unreachable,
    /// The store was reached and the statement failed.
    Failed,
    /// The statement ran and changed this many rows.
    Affected(u64),
    /// The statement ran and gave these rows.
    Rows(Vec<Laptop>),
}

/// What an `Outcome` holds, as mathematical values.
pub enum OutcomeView {
    Unreachable,
    Failed,
    Affected(nat),
    Rows(Seq<LaptopView>),
}

impl View for Outcome {
    type V = OutcomeView;

    open spec fn view(&self) -> OutcomeView {
        match self {
            Outcome::Unreachable => OutcomeView::Unreachable,
            Outcome::Failed => OutcomeView::Failed,
            Outcome::Affected(count) => OutcomeView::Affected(*count as nat),
            Outcome::Rows(rows) => OutcomeView::Rows(views(rows@)),
        }
    }
}

} // verus!
