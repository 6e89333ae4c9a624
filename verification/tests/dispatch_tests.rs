use zexec::dispatch::{
    interpret_engine_result, prepare_request, CommandDecision, PrepareStep, RequestError,
    MAX_BODY_BYTES,
};
use zexec::engine::EngineResult;
use zexec::store::{build_store, ContractStore, LoadedFile};

fn result(output: &str, success: bool) -> EngineResult {
    EngineResult { output: output.to_string(), success }
}

fn one_contract_store() -> ContractStore {
    let files = vec![
        LoadedFile { name: "alpha.zen".to_string(), content: "script a".to_string() },
        LoadedFile { name: "alpha.keys".to_string(), content: "keys a".to_string() },
    ];
    build_store(&files).unwrap()
}

#[test]
fn engine_failure_text_comes_back_verbatim() {
    match interpret_engine_result(result("diagnostic text", false)) {
        CommandDecision::Respond(d) => assert_eq!(d, "diagnostic text"),
        _ => panic!("a failed engine run must answer with its text"),
    }
}

#[test]
fn successful_output_yields_the_named_command() {
    match interpret_engine_result(result("{\"command\":\"echo hi\"}", true)) {
        CommandDecision::Run(cmd) => assert_eq!(cmd, "echo hi"),
        _ => panic!("a successful run with a command field must run it"),
    }
}

#[test]
fn missing_command_field_is_rejected() {
    match interpret_engine_result(result("{\"foo\":\"bar\"}", true)) {
        CommandDecision::Reject => {}
        _ => panic!("output without a command field must fail the request"),
    }
}

#[test]
fn unparseable_output_is_rejected() {
    match interpret_engine_result(result("not json at all", true)) {
        CommandDecision::Reject => {}
        _ => panic!("unparseable output must fail the request"),
    }
}

#[test]
fn non_string_command_is_rejected() {
    match interpret_engine_result(result("{\"command\":3}", true)) {
        CommandDecision::Reject => {}
        _ => panic!("a non-string command field must fail the request"),
    }
}

#[test]
fn absent_contract_name_is_not_found() {
    let store = one_contract_store();
    match prepare_request(&store, &"missing".to_string(), "{}") {
        PrepareStep::NotFound => {}
        _ => panic!("an absent name must be reported as not found"),
    }
}

#[test]
fn oversized_body_is_rejected() {
    let store = one_contract_store();
    let body = "x".repeat(MAX_BODY_BYTES + 1);
    match prepare_request(&store, &"alpha".to_string(), &body) {
        PrepareStep::TooLarge => {}
        _ => panic!("a body over the bound must be rejected"),
    }
}

#[test]
fn body_at_the_bound_is_accepted() {
    let store = one_contract_store();
    let body = "x".repeat(MAX_BODY_BYTES);
    match prepare_request(&store, &"alpha".to_string(), &body) {
        PrepareStep::Invoke(c) => assert_eq!(c.name, "alpha"),
        _ => panic!("a body at the bound must go to the engine"),
    }
}

#[test]
fn present_contract_is_handed_to_the_engine() {
    let store = one_contract_store();
    match prepare_request(&store, &"alpha".to_string(), "{\"n\":1}") {
        PrepareStep::Invoke(c) => {
            assert_eq!(c.name, "alpha");
            assert_eq!(c.script, "script a");
            assert_eq!(c.keys, "keys a");
        }
        _ => panic!("a present name must be handed to the engine"),
    }
}

#[test]
fn body_bound_is_two_mebibytes() {
    assert_eq!(MAX_BODY_BYTES, 2 * 1024 * 1024);
}

#[test]
fn request_errors_describe_themselves() {
    assert_eq!(
        RequestError::PayloadTooLarge.describe(),
        "request body exceeds the size bound"
    );
    assert_eq!(
        RequestError::OutputParse.describe(),
        "unable to find command in the engine output"
    );
}

#[test]
fn command_extraction_decodes_json_escapes() {
    match interpret_engine_result(result("{\"command\":\"echo \\\"hi\\\"\"}", true)) {
        CommandDecision::Run(cmd) => assert_eq!(cmd, "echo \"hi\""),
        _ => panic!("an escaped command string must decode"),
    }
}

#[test]
fn nested_objects_do_not_stand_in_for_the_command() {
    match interpret_engine_result(result("{\"command\":{\"inner\":\"echo\"}}", true)) {
        CommandDecision::Reject => {}
        _ => panic!("only a string command field may run"),
    }
}
