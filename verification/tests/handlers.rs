use laptops::handlers::{
    plan, plan_create, plan_delete, plan_read_all, plan_read_one, plan_update, respond,
    wants_payload, Plan,
};
use laptops::model::Laptop;
use laptops::response::{respond_with, Response, Status};
use laptops::store::{Outcome, Statement};

fn laptop(id: Option<i32>) -> Laptop {
    Laptop {
        id,
        name: "T14".to_string(),
        description: "business laptop".to_string(),
        price: "999".to_string(),
        processor: "i7".to_string(),
        ram: "16GB".to_string(),
        storage: "512GB".to_string(),
        display: "14in".to_string(),
        os: "Linux".to_string(),
        graphics: "integrated".to_string(),
    }
}

fn internal_error() -> Response {
    Response { status: Status::InternalError, body: "Internal error".to_string() }
}

fn laptop_not_found() -> Response {
    Response { status: Status::NotFound, body: "Laptop not found".to_string() }
}

fn success(body: &str) -> Response {
    Response { status: Status::Success, body: body.to_string() }
}

fn every_outcome() -> Vec<Outcome> {
    vec![
        Outcome::Unreachable,
        Outcome::Failed,
        Outcome::Affected(0),
        Outcome::Affected(1),
        Outcome::Affected(2),
        Outcome::Rows(vec![]),
        Outcome::Rows(vec![laptop(Some(1))]),
        Outcome::Rows(vec![laptop(Some(1)), laptop(Some(2))]),
    ]
}

#[test]
fn storing_plans_an_insert_of_the_payload() {
    assert_eq!(plan_create(Some(laptop(None))), Plan::Run(Statement::Insert(laptop(None))));
    assert_eq!(plan_create(Some(laptop(Some(9)))), Plan::Run(Statement::Insert(laptop(Some(9)))));
}

#[test]
fn storing_without_a_payload_is_an_internal_error() {
    assert_eq!(plan_create(None), Plan::Reply(internal_error()));
}

#[test]
fn reading_one_plans_a_select_by_the_id_of_the_path() {
    assert_eq!(
        plan_read_one("GET /laptops/12 HTTP/1.1\r\n\r\n"),
        Plan::Run(Statement::SelectById(12))
    );
    assert_eq!(plan_read_one("GET /laptops/-3 HTTP/1.1"), Plan::Run(Statement::SelectById(-3)));
}

#[test]
fn reading_one_by_no_integer_is_an_internal_error() {
    for request in [
        "GET /laptops/abc HTTP/1.1\r\n\r\n",
        "GET /laptops/ HTTP/1.1\r\n\r\n",
        "GET /laptops/1.5 HTTP/1.1\r\n\r\n",
        "GET /laptops/2147483648 HTTP/1.1\r\n\r\n",
        "GET /laptops/12abc HTTP/1.1\r\n\r\n",
        "GET /laptops/ 12 HTTP/1.1\r\n\r\n",
        "GET /laptops/",
    ] {
        assert_eq!(plan_read_one(request), Plan::Reply(internal_error()), "{:?}", request);
    }
}

#[test]
fn reading_all_plans_a_select_of_everything() {
    assert_eq!(plan_read_all(), Plan::Run(Statement::SelectAll));
}

#[test]
fn replacing_plans_an_update_of_the_row_that_the_path_names() {
    assert_eq!(
        plan_update("PUT /laptops/4 HTTP/1.1\r\n\r\n{}", Some(laptop(Some(4)))),
        Plan::Run(Statement::Update(laptop(Some(4))))
    );
}

#[test]
fn replacing_does_not_go_by_the_id_of_the_payload() {
    assert_eq!(
        plan_update("PUT /laptops/4 HTTP/1.1\r\n\r\n{}", Some(laptop(Some(5)))),
        Plan::Run(Statement::Update(laptop(Some(4))))
    );
    assert_eq!(
        plan_update("PUT /laptops/4 HTTP/1.1\r\n\r\n{}", Some(laptop(None))),
        Plan::Run(Statement::Update(laptop(Some(4))))
    );
    assert_eq!(
        plan("PUT /laptops/-7 HTTP/1.1\r\n\r\n{}", Some(laptop(None))),
        Plan::Run(Statement::Update(laptop(Some(-7))))
    );
}

#[test]
fn replacing_without_id_or_payload_is_an_internal_error() {
    assert_eq!(
        plan_update("PUT /laptops/x HTTP/1.1\r\n\r\n{}", Some(laptop(Some(4)))),
        Plan::Reply(internal_error())
    );
    assert_eq!(plan_update("PUT /laptops/4 HTTP/1.1\r\n\r\n{}", None), Plan::Reply(internal_error()));
    assert_eq!(plan_update("PUT /laptops/x HTTP/1.1\r\n\r\n{}", None), Plan::Reply(internal_error()));
    assert_eq!(
        plan_update("PUT /laptops/ HTTP/1.1\r\n\r\n{}", Some(laptop(Some(4)))),
        Plan::Reply(internal_error())
    );
}

#[test]
fn removing_plans_a_delete_by_the_id_of_the_path() {
    assert_eq!(
        plan_delete("DELETE /laptops/8 HTTP/1.1\r\n\r\n"),
        Plan::Run(Statement::DeleteById(8))
    );
}

#[test]
fn removing_by_no_integer_is_an_internal_error() {
    assert_eq!(plan_delete("DELETE /laptops/eight HTTP/1.1\r\n\r\n"), Plan::Reply(internal_error()));
    assert_eq!(plan_delete("DELETE /laptops/"), Plan::Reply(internal_error()));
}

#[test]
fn plans_go_by_the_route() {
    assert_eq!(
        plan("POST /laptops HTTP/1.1\r\n\r\n{}", Some(laptop(None))),
        Plan::Run(Statement::Insert(laptop(None)))
    );
    assert_eq!(plan("POST /laptops HTTP/1.1\r\n\r\n{", None), Plan::Reply(internal_error()));
    assert_eq!(plan("GET /laptops/3 HTTP/1.1\r\n\r\n", None), Plan::Run(Statement::SelectById(3)));
    assert_eq!(plan("GET /laptops HTTP/1.1\r\n\r\n", None), Plan::Run(Statement::SelectAll));
    assert_eq!(
        plan("PUT /laptops/3 HTTP/1.1\r\n\r\n{}", Some(laptop(Some(3)))),
        Plan::Run(Statement::Update(laptop(Some(3))))
    );
    assert_eq!(
        plan("DELETE /laptops/3 HTTP/1.1\r\n\r\n", None),
        Plan::Run(Statement::DeleteById(3))
    );
}

#[test]
fn routes_that_read_or_remove_do_not_look_at_the_payload() {
    assert_eq!(
        plan("GET /laptops/3 HTTP/1.1\r\n\r\n", Some(laptop(Some(7)))),
        Plan::Run(Statement::SelectById(3))
    );
    assert_eq!(
        plan("GET /laptops HTTP/1.1\r\n\r\n", Some(laptop(Some(7)))),
        Plan::Run(Statement::SelectAll)
    );
    assert_eq!(
        plan("DELETE /laptops/3 HTTP/1.1\r\n\r\n", Some(laptop(Some(7)))),
        Plan::Run(Statement::DeleteById(3))
    );
}

#[test]
fn requests_without_a_route_are_not_found() {
    let expected = Plan::Reply(Response {
        status: Status::NotFound,
        body: "404 not found".to_string(),
    });
    assert_eq!(plan("PATCH /laptops/3 HTTP/1.1\r\n\r\n", None), expected);
    assert_eq!(plan("GET / HTTP/1.1\r\n\r\n", None), expected);
    assert_eq!(plan("", Some(laptop(None))), expected);
    assert_eq!(plan("PUT /laptops HTTP/1.1\r\n\r\n", Some(laptop(Some(1)))), expected);
}

#[test]
fn only_storing_and_replacing_want_the_payload() {
    assert!(wants_payload("POST /laptops HTTP/1.1\r\n\r\n{}"));
    assert!(wants_payload("PUT /laptops/1 HTTP/1.1\r\n\r\n{}"));
    assert!(!wants_payload("GET /laptops/1 HTTP/1.1\r\n\r\n"));
    assert!(!wants_payload("GET /laptops HTTP/1.1\r\n\r\n"));
    assert!(!wants_payload("DELETE /laptops/1 HTTP/1.1\r\n\r\n"));
    assert!(!wants_payload("PUT /laptops HTTP/1.1\r\n\r\n{}"));
    assert!(!wants_payload(""));
}

#[test]
fn a_store_out_of_reach_is_an_internal_error_for_every_statement() {
    for statement in [
        Statement::Insert(laptop(None)),
        Statement::SelectById(1),
        Statement::SelectAll,
        Statement::Update(laptop(Some(1))),
        Statement::DeleteById(1),
    ] {
        assert_eq!(respond(&statement, &Outcome::Unreachable), internal_error());
    }
}

#[test]
fn storing_answers_created_once_the_insert_ran() {
    let statement = Statement::Insert(laptop(None));
    for outcome in every_outcome() {
        let expected = match outcome {
            Outcome::Affected(_) => success("Laptop created"),
            _ => internal_error(),
        };
        assert_eq!(respond(&statement, &outcome), expected, "{:?}", outcome);
    }
}

#[test]
fn reading_one_answers_with_the_single_row() {
    let statement = Statement::SelectById(1);
    assert_eq!(
        respond(&statement, &Outcome::Rows(vec![laptop(Some(1))])),
        success(
            "{\"id\":1,\"name\":\"T14\",\"description\":\"business laptop\",\"price\":\"999\",\"processor\":\"i7\",\"ram\":\"16GB\",\"storage\":\"512GB\",\"display\":\"14in\",\"os\":\"Linux\",\"graphics\":\"integrated\"}"
        )
    );
}

#[test]
fn reading_one_is_not_found_unless_one_row_came() {
    let statement = Statement::SelectById(1);
    assert_eq!(respond(&statement, &Outcome::Rows(vec![])), laptop_not_found());
    assert_eq!(respond(&statement, &Outcome::Failed), laptop_not_found());
    assert_eq!(
        respond(&statement, &Outcome::Rows(vec![laptop(Some(1)), laptop(Some(1))])),
        laptop_not_found()
    );
    assert_eq!(respond(&statement, &Outcome::Affected(1)), laptop_not_found());
}

#[test]
fn reading_all_answers_with_the_rows_that_came() {
    let statement = Statement::SelectAll;
    assert_eq!(respond(&statement, &Outcome::Rows(vec![])), success("[]"));
    let body = respond(&statement, &Outcome::Rows(vec![laptop(Some(1)), laptop(Some(2))])).body;
    assert!(body.starts_with("[{\"id\":1,\"name\":\"T14\","));
    assert!(body.contains("\"},{\"id\":2,\"name\":\"T14\","));
    assert!(body.ends_with("\"graphics\":\"integrated\"}]"));
}

#[test]
fn reading_all_is_an_internal_error_when_the_query_fails() {
    let statement = Statement::SelectAll;
    assert_eq!(respond(&statement, &Outcome::Failed), internal_error());
    assert_eq!(respond(&statement, &Outcome::Affected(3)), internal_error());
}

#[test]
fn replacing_answers_updated_even_when_no_row_changed() {
    let statement = Statement::Update(laptop(Some(1)));
    assert_eq!(respond(&statement, &Outcome::Affected(1)), success("Laptop updated"));
    assert_eq!(respond(&statement, &Outcome::Affected(0)), success("Laptop updated"));
    assert_eq!(respond(&statement, &Outcome::Failed), internal_error());
    assert_eq!(respond(&statement, &Outcome::Rows(vec![])), internal_error());
}

#[test]
fn removing_answers_deleted_or_not_found_by_the_rows_changed() {
    let statement = Statement::DeleteById(1);
    assert_eq!(respond(&statement, &Outcome::Affected(1)), success("Laptop deleted"));
    assert_eq!(respond(&statement, &Outcome::Affected(u64::MAX)), success("Laptop deleted"));
    assert_eq!(respond(&statement, &Outcome::Affected(0)), laptop_not_found());
    assert_eq!(respond(&statement, &Outcome::Failed), internal_error());
    assert_eq!(respond(&statement, &Outcome::Rows(vec![])), internal_error());
}

#[test]
fn a_response_is_made_of_a_status_and_a_body() {
    assert_eq!(respond_with(Status::Success, "Laptop created"), success("Laptop created"));
    assert_eq!(respond_with(Status::NotFound, ""), Response { status: Status::NotFound, body: String::new() });
}
