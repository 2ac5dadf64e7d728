use laptops::response::{status_line, to_wire, Response, Status};

#[test]
fn status_lines_end_the_head() {
    assert_eq!(
        status_line(Status::Success),
        "HTTP/1.1 200 OK\r\nContent-Type: application/json\r\n\r\n"
    );
    assert_eq!(status_line(Status::NotFound), "HTTP/1.1 404 NOT FOUND\r\n\r\n");
    assert_eq!(status_line(Status::InternalError), "HTTP/1.1 500 INTERNAL ERROR\r\n\r\n");
}

#[test]
fn a_success_goes_out_with_head_body_and_allowed_origin() {
    let response = Response { status: Status::Success, body: "Laptop created".to_string() };
    assert_eq!(
        to_wire(&response),
        "HTTP/1.1 200 OK\r\nContent-Type: application/json\r\n\r\nLaptop createdaccess-control-allow-origin: http://localhost:5173\r\n"
    );
}

#[test]
fn an_error_goes_out_with_head_body_and_allowed_origin() {
    let missing = Response { status: Status::NotFound, body: "404 not found".to_string() };
    assert_eq!(
        to_wire(&missing),
        "HTTP/1.1 404 NOT FOUND\r\n\r\n404 not foundaccess-control-allow-origin: http://localhost:5173\r\n"
    );
    let failed = Response { status: Status::InternalError, body: "Internal error".to_string() };
    assert_eq!(
        to_wire(&failed),
        "HTTP/1.1 500 INTERNAL ERROR\r\n\r\nInternal erroraccess-control-allow-origin: http://localhost:5173\r\n"
    );
}

#[test]
fn an_empty_body_leaves_head_and_allowed_origin() {
    let response = Response { status: Status::Success, body: String::new() };
    assert_eq!(
        to_wire(&response),
        "HTTP/1.1 200 OK\r\nContent-Type: application/json\r\n\r\naccess-control-allow-origin: http://localhost:5173\r\n"
    );
}

#[test]
fn the_allowed_origin_is_named_as_the_http_crate_names_it() {
    let response = Response { status: Status::Success, body: "[]".to_string() };
    let expected = format!(
        "{}{}{}: {}\r\n",
        status_line(Status::Success),
        "[]",
        http::header::ACCESS_CONTROL_ALLOW_ORIGIN,
        "http://localhost:5173"
    );
    assert_eq!(to_wire(&response), expected);
}
