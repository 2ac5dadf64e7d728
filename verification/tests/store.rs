use laptops::model::Laptop;
use laptops::store::{schema, Parameter, Statement};

fn laptop(id: Option<i32>) -> Laptop {
    Laptop {
        id,
        name: "n".to_string(),
        description: "d".to_string(),
        price: "p".to_string(),
        processor: "c".to_string(),
        ram: "r".to_string(),
        storage: "s".to_string(),
        display: "y".to_string(),
        os: "o".to_string(),
        graphics: "g".to_string(),
    }
}

fn texts() -> Vec<Parameter> {
    ["n", "d", "p", "c", "r", "s", "y", "o", "g"]
        .iter()
        .map(|text| Parameter::Text(text.to_string()))
        .collect()
}

fn places(sql: &str) -> usize {
    let mut n = 0;
    while sql.contains(&format!("${}", n + 1)) {
        n += 1;
    }
    n
}

#[test]
fn every_statement_has_its_sql() {
    assert_eq!(
        Statement::Insert(laptop(None)).sql(),
        "INSERT INTO laptops (name, description, price, processor, ram, storage, display, os, graphics) VALUES ($1, $2, $3, $4, $5, $6, $7, $8, $9)"
    );
    assert_eq!(Statement::SelectById(1).sql(), "SELECT * FROM laptops WHERE id = $1");
    assert_eq!(
        Statement::SelectAll.sql(),
        "SELECT id, name, description, price, processor, ram, storage, display, os, graphics FROM laptops"
    );
    assert_eq!(
        Statement::Update(laptop(Some(1))).sql(),
        "UPDATE laptops SET name = $1, description = $2, price = $3, processor = $4, ram = $5, storage = $6, display = $7, os = $8, graphics = $9 WHERE id = $10"
    );
    assert_eq!(Statement::DeleteById(1).sql(), "DELETE FROM laptops WHERE id = $1");
}

#[test]
fn an_insert_is_run_with_the_nine_texts() {
    assert_eq!(Statement::Insert(laptop(None)).parameters(), texts());
    assert_eq!(Statement::Insert(laptop(Some(4))).parameters(), texts());
}

#[test]
fn an_update_is_run_with_the_nine_texts_and_the_id() {
    let mut expected = texts();
    expected.push(Parameter::Id(Some(4)));
    assert_eq!(Statement::Update(laptop(Some(4))).parameters(), expected);
    let mut expected = texts();
    expected.push(Parameter::Id(None));
    assert_eq!(Statement::Update(laptop(None)).parameters(), expected);
}

#[test]
fn reading_and_removing_one_are_run_with_the_id() {
    assert_eq!(Statement::SelectById(7).parameters(), vec![Parameter::Id(Some(7))]);
    assert_eq!(Statement::DeleteById(-7).parameters(), vec![Parameter::Id(Some(-7))]);
}

#[test]
fn reading_all_is_run_with_nothing() {
    assert_eq!(Statement::SelectAll.parameters(), Vec::<Parameter>::new());
}

#[test]
fn every_place_of_the_sql_has_its_parameter() {
    for statement in [
        Statement::Insert(laptop(None)),
        Statement::SelectById(1),
        Statement::SelectAll,
        Statement::Update(laptop(Some(1))),
        Statement::DeleteById(1),
    ] {
        assert_eq!(places(statement.sql()), statement.parameters().len(), "{:?}", statement);
    }
}

#[test]
fn the_schema_makes_the_table_once() {
    let text = schema();
    assert!(text.starts_with("CREATE TABLE IF NOT EXISTS laptops ("));
    assert!(text.contains("id SERIAL PRIMARY KEY"));
    for column in
        ["name", "description", "price", "processor", "ram", "storage", "display", "os", "graphics"]
    {
        assert!(text.contains(&format!(", {} TEXT NOT NULL", column)), "column {}", column);
    }
    assert!(text.ends_with(")"));
}
