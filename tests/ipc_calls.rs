use sbbw::ipc::{exec_args, exec_response, parse_params, Dispatcher, Params, SbbwResponse};

fn table() -> Dispatcher<u16> {
    Dispatcher::new(vec![("battery.main".to_string(), 1u16), ("exec".to_string(), 2u16)])
}

fn call(method: &str, data: &str) -> Params {
    Params { method_id: 7, method: method.to_string(), data: data.to_string() }
}

#[test]
fn unknown_method_is_not_found() {
    let d = table();
    let r = d.process_ipc(&call("does.not.exist", "{}"), |_h, _p| SbbwResponse {
        status: 200,
        data: "handled".to_string(),
    });
    assert_eq!(r.status, 404);
    assert_eq!(r.data, "Invalid command");
}

#[test]
fn known_method_answer_is_verbatim() {
    let d = table();
    let r = d.process_ipc(&call("exec", "[\"ls\"]"), |h, p| SbbwResponse {
        status: 500 + *h,
        data: p.data.clone(),
    });
    assert_eq!(r.status, 502);
    assert_eq!(r.data, "[\"ls\"]");
    assert_eq!(d.find("battery.main"), Some(0));
    assert_eq!(d.find("battery"), None);
}

#[test]
fn malformed_message_is_bad_request() {
    let d = table();
    let r = d.handle_message(Err("eof".to_string()), |_h, _p| SbbwResponse::default());
    assert_eq!(r.status, 400);
    assert_eq!(r.data, "Invalid JSON sended");
    let r = d.handle_message(Ok(call("nope", "")), |_h, _p| SbbwResponse::default());
    assert_eq!(r.status, 404);
}

#[test]
fn parse_params_records_status() {
    let mut res = SbbwResponse::default();
    assert_eq!(res.status, 0);
    let p = parse_params(&mut res, Ok(call("exec", "x")));
    assert_eq!(p.unwrap().method_id, 7);
    assert_eq!(res.status, 200);
    let p = parse_params(&mut res, Err("bad".to_string()));
    assert!(p.is_none());
    assert_eq!(res.status, 400);
    assert_eq!(res.data, "Invalid JSON sended");
}

#[test]
fn exec_arguments_come_from_a_json_array() {
    assert_eq!(exec_args("[\"./run.sh\", \"a b\"]"), vec!["./run.sh".to_string(), "a b".to_string()]);
    assert_eq!(exec_args("{}"), Vec::<String>::new());
    assert_eq!(exec_args("not json"), Vec::<String>::new());
}

#[test]
fn exec_outcome_to_response() {
    let r = exec_response(Ok("hi\n".to_string()));
    assert_eq!((r.status, r.data.as_str()), (200, "hi\n"));
    let r = exec_response(Err("spawn".to_string()));
    assert_eq!((r.status, r.data.as_str()), (417, "Failed to excecute command"));
}
