use std::time::Duration;
use surrealmcp::engine::{
    bind_parameters, complete_query, ErrorCode, IndexedResults, Level, Response,
};
use surrealmcp::metrics::{query_duration_histogram, Counter};
use surrealmcp::value::{Json, Number, OpaqueKind, Value};

fn created_person() -> Value {
    Value::Array(vec![Value::Object(vec![
        ("id".to_string(), Value::Opaque(OpaqueKind::RecordId, "person:john".to_string())),
        ("name".to_string(), Value::String("John".to_string())),
    ])])
}

fn response(result: Option<IndexedResults>, error: Option<&str>) -> Response {
    Response {
        query_id: 2,
        query: "CREATE person:john SET name = 'John'; SELECT * FROM person;".to_string(),
        duration: Duration::from_millis(3),
        error: error.map(|e| e.to_string()),
        result,
    }
}

#[test]
fn first_statement_is_the_one_shown() {
    let results = IndexedResults {
        statements: vec![
            Ok(created_person()),
            Ok(Value::Array(vec![Value::String("from the select".to_string())])),
        ],
    };
    let shown = response(Some(results), None).into_mcp_result().unwrap();
    let expected = Json::Array(vec![Json::Object(vec![
        ("id".to_string(), Json::String("person:john".to_string())),
        ("name".to_string(), Json::String("John".to_string())),
    ])]);
    assert_eq!(shown, expected);
}

#[test]
fn failure_of_the_first_statement_is_an_internal_error() {
    let results = IndexedResults {
        statements: vec![Err("table locked".to_string()), Ok(Value::Bool(true))],
    };
    let error = response(Some(results), None).into_mcp_result().unwrap_err();
    assert_eq!(error.code, ErrorCode::InternalError);
    assert_eq!(error.message, "table locked");
}

#[test]
fn query_without_statements_shows_null() {
    let results = IndexedResults { statements: vec![] };
    assert_eq!(response(Some(results), None).into_mcp_result(), Ok(Json::Null));
}

#[test]
fn response_without_result_surfaces_its_error() {
    let error = response(None, Some("function fn::missing does not exist"))
        .into_mcp_result()
        .unwrap_err();
    assert_eq!(error.code, ErrorCode::InternalError);
    assert_eq!(error.message, "function fn::missing does not exist");
}

#[test]
fn response_without_result_and_error_is_an_unknown_error() {
    let error = response(None, None).into_mcp_result().unwrap_err();
    assert_eq!(error.message, "Unknown error");
}

#[test]
fn answered_query_gives_a_result_and_counts_as_a_query() {
    let results = IndexedResults { statements: vec![Ok(Value::Number(Number::Int(1)))] };
    let done = complete_query(7, "RETURN 1;".to_string(), Duration::from_millis(12), Ok(results));
    assert_eq!(done.response.query_id, 7);
    assert_eq!(done.response.query, "RETURN 1;");
    assert_eq!(done.response.duration, Duration::from_millis(12));
    assert_eq!(done.response.error, None);
    assert_eq!(
        done.response.result,
        Some(IndexedResults { statements: vec![Ok(Value::Number(Number::Int(1)))] })
    );
    assert_eq!(done.counter, Counter::TotalQueries);
    assert_eq!(done.level, Level::Info);
}

#[test]
fn failed_query_gives_an_error_and_keeps_the_duration() {
    let done = complete_query(
        8,
        "RETURN fn::missing();".to_string(),
        Duration::from_millis(4),
        Err("The function 'fn::missing' does not exist".to_string()),
    );
    assert_eq!(done.response.result, None);
    assert_eq!(
        done.response.error,
        Some("The function 'fn::missing' does not exist".to_string())
    );
    assert_eq!(done.response.duration, Duration::from_millis(4));
    assert_eq!(done.counter, Counter::TotalQueryErrors);
    assert_eq!(done.level, Level::Error);
    assert_eq!(done.response.into_mcp_result().unwrap_err().message.is_empty(), false);
}

#[test]
fn parameters_are_bound_under_their_names() {
    let parameters = vec![
        ("name".to_string(), Json::String("John".to_string())),
        ("tags".to_string(), Json::Array(vec![Json::Int(1), Json::Null])),
    ];
    let bound = bind_parameters(&parameters).unwrap();
    assert_eq!(
        bound,
        vec![
            ("name".to_string(), Value::String("John".to_string())),
            (
                "tags".to_string(),
                Value::Array(vec![Value::Number(Number::Int(1)), Value::Nothing])
            ),
        ]
    );
    assert_eq!(bind_parameters(&vec![]), Ok(vec![]));
}

#[test]
fn metric_names_are_stable() {
    assert_eq!(Counter::TotalQueries.name(), "surrealmcp.total_queries");
    assert_eq!(Counter::TotalQueryErrors.name(), "surrealmcp.total_query_errors");
    assert_eq!(Counter::TotalErrors.name(), "surrealmcp.total_errors");
    assert_eq!(Counter::TotalRateLimitErrors.name(), "surrealmcp.total_rate_limit_errors");
    assert_eq!(query_duration_histogram(), "surrealmcp.query_duration_ms");
}

#[test]
fn failed_first_statement_is_a_failed_query() {
    let message = "Database index `unique_email` already contains 'a@b.c'";
    let results = IndexedResults {
        statements: vec![Err(message.to_string()), Ok(Value::Bool(true))],
    };
    let done = complete_query(9, "CREATE user;".to_string(), Duration::from_millis(2), Ok(results));
    assert_eq!(done.response.result, None);
    assert_eq!(done.response.error, Some(message.to_string()));
    assert_eq!(done.response.duration, Duration::from_millis(2));
    assert_eq!(done.counter, Counter::TotalQueryErrors);
    assert_eq!(done.level, Level::Error);
    assert_eq!(done.response.into_mcp_result().unwrap_err().message, message);
}

#[test]
fn failure_of_a_later_statement_leaves_the_query_answered() {
    let results = IndexedResults {
        statements: vec![Ok(Value::Bool(true)), Err("too late".to_string())],
    };
    let done = complete_query(10, "A; B;".to_string(), Duration::from_millis(2), Ok(results));
    assert_eq!(done.response.error, None);
    assert_eq!(done.counter, Counter::TotalQueries);
    assert_eq!(done.level, Level::Info);
    assert_eq!(done.response.into_mcp_result(), Ok(Json::Bool(true)));
}

#[test]
fn answer_without_statements_is_no_failure() {
    let done = complete_query(
        11,
        String::new(),
        Duration::from_millis(0),
        Ok(IndexedResults { statements: vec![] }),
    );
    assert_eq!(done.response.result, Some(IndexedResults { statements: vec![] }));
    assert_eq!(done.response.error, None);
    assert_eq!(done.counter, Counter::TotalQueries);
}
