//! What a query run leaves behind, and what of it the client is shown.

use vstd::prelude::*;
use std::time::Duration;
use crate::metrics::Counter;
use crate::utils::{
    convert_json_to_surreal_recursive, decode_tree, decode_value, encode_tree, parameter_error,
};
use crate::value::{Json, JsonTree, Value, ValueTree};

verus! {

/// The outcomes of the statements of one query, in the order in which they
/// were written: for each its value, or the message of its failure.
#[derive(Debug, PartialEq, Eq)]
pub struct IndexedResults {
    pub statements: Vec<Result<Value, String>>,
}

/// Model of one statement's outcome.
pub enum StatementView {
    Value(ValueTree),
    Failure(Seq<char>),
}

impl View for IndexedResults {
    type V = Seq<StatementView>;

    open spec fn view(&self) -> Seq<StatementView> {
        Seq::new(
            self.statements.len() as nat,
            |i: int|
                match self.statements[i] {
                    Ok(v) => StatementView::Value(v@),
                    Err(e) => StatementView::Failure(e@),
                },
        )
    }
}

/// Response from executing a query.
#[derive(Debug, PartialEq, Eq)]
pub struct Response {
    /// Query ID for tracking.
    pub query_id: u64,
    /// The query that was executed.
    pub query: String,
    /// How long the execution took.
    pub duration: Duration,
    /// Error message if the query failed.
    pub error: Option<String>,
    /// The result of the query.
    pub result: Option<IndexedResults>,
}

/// The kinds of failure that a tool call can report.
#[derive(Clone, Copy, Debug, PartialEq, Eq, Structural)]
pub enum ErrorCode {
    InternalError,
}

/// A tool call's terminal failure.
#[derive(Debug, PartialEq, Eq)]
pub struct ErrorData {
    pub code: ErrorCode,
    pub message: String,
}

/// How loudly a finished query is logged.
#[derive(Clone, Copy, Debug, PartialEq, Eq, Structural)]
pub enum Level {
    Info,
    Error,
}

/// A finished query: the response, and what is to be recorded of it. The
/// duration goes to the duration histogram either way.
#[derive(Debug, PartialEq, Eq)]
pub struct Completion {
    pub response: Response,
    /// The counter to increment by one.
    pub counter: Counter,
    /// The level of the trace event.
    pub level: Level,
}

/// What of a response the client is shown: the first statement's value as a
/// JSON tree, or a message. Later statements are not shown; a query without
/// statements shows `null`.
pub open spec fn flattened(result: Option<Seq<StatementView>>, error: Option<Seq<char>>) -> Result<
    JsonTree,
    Seq<char>,
> {
    match result {
        Some(statements) => if statements.len() == 0 {
            Ok(JsonTree::Null)
        } else {
            match statements[0] {
                StatementView::Value(v) => Ok(decode_tree(v)),
                StatementView::Failure(e) => Err(e),
            }
        },
        None => match error {
            Some(e) => Err(e),
            None => Err("Unknown error"@),
        },
    }
}

impl Response {
    /// Exactly one of result and error is there.
    pub open spec fn wf(&self) -> bool {
        self.result is None <==> self.error is Some
    }

    /// The statements' outcomes, where there is a result.
    pub open spec fn spec_result(&self) -> Option<Seq<StatementView>> {
        match self.result {
            Some(res) => Some(res@),
            None => None,
        }
    }

    /// The error message, where there is one.
    pub open spec fn spec_error(&self) -> Option<Seq<char>> {
        match self.error {
            Some(e) => Some(e@),
            None => None,
        }
    }

    /// Reduces the response to what the client is shown: the decoded value
    /// of the first statement, whatever else the query held, or an internal
    /// error with the captured message.
    pub fn into_mcp_result(self) -> (r: Result<Json, ErrorData>)
        ensures
            match flattened(self.spec_result(), self.spec_error()) {
                Ok(tree) => r is Ok && r.unwrap()@ == tree,
                Err(message) => r is Err && r.unwrap_err().message@ == message
                    && r.unwrap_err().code == ErrorCode::InternalError,
            },
    {
        match &self.result {
            Some(res) => {
                if res.statements.len() == 0 {
                    Ok(Json::Null)
                } else {
                    assert(res@[0] == match res.statements[0] {
                        Ok(v) => StatementView::Value(v@),
                        Err(e) => StatementView::Failure(e@),
                    });
                    match &res.statements[0] {
                        Ok(value) => Ok(decode_value(value)),
                        Err(e) => Err(
                            (ErrorData { code: ErrorCode::InternalError, message: e.clone() }),
                        ),
                    }
                }
            },
            None => {
                let message = match &self.error {
                    Some(e) => e.clone(),
                    None => String::from_str("Unknown error"),
                };
                Err((ErrorData { code: ErrorCode::InternalError, message }))
            },
        }
    }
}

/// The message with which a query failed: that of the call where the
/// database refused the query as a whole, else that of the first statement
/// where the database ran the query and that statement failed. `None` where
/// the query did not fail.
pub open spec fn failure_of(outcome: Result<IndexedResults, String>) -> Option<Seq<char>> {
    match outcome {
        Ok(res) => if res@.len() > 0 {
            match res@[0] {
                StatementView::Failure(e) => Some(e),
                StatementView::Value(_) => None,
            }
        } else {
            None
        },
        Err(e) => Some(e@),
    }
}

/// Turns the database's answer to a query into the response and the
/// records to make. A query that did not fail gives its result and no
/// error, counts as a query and is logged as information. A failed query,
/// be it refused as a whole or failed in its first statement, gives the
/// database's message as error and no result, counts as a query error and
/// is logged as an error. The duration is kept in both; the error is as long
/// as the database's message, so not empty where that is not.
pub fn complete_query(
    query_id: u64,
    query: String,
    duration: Duration,
    outcome: Result<IndexedResults, String>,
) -> (c: Completion)
    ensures
        c.response.wf(),
        c.response.query_id == query_id,
        c.response.query == query,
        c.response.duration == duration,
        match failure_of(outcome) {
            Some(message) => c.response.result is None && c.response.spec_error() == Some(message)
                && c.counter == Counter::TotalQueryErrors && c.level == Level::Error,
            None => c.response.result == Some(outcome->Ok_0) && c.response.error is None
                && c.counter == Counter::TotalQueries && c.level == Level::Info,
        },
        outcome matches Err(e) ==> c.response.error == Some(e),
        failure_of(outcome) matches Some(message) && message.len() > 0 ==> c.response.error
            is Some && c.response.error->Some_0@.len() > 0,
{
    match outcome {
        Ok(res) => {
            let failure: Option<String> = if res.statements.len() > 0 {
                match &res.statements[0] {
                    Ok(_) => None,
                    Err(e) => Some(e.clone()),
                }
            } else {
                None
            };
            match failure {
                Some(message) => Completion {
                    response: Response {
                        query_id,
                        query,
                        duration,
                        error: Some(message),
                        result: None,
                    },
                    counter: Counter::TotalQueryErrors,
                    level: Level::Error,
                },
                None => Completion {
                    response: Response { query_id, query, duration, error: None, result: Some(res) },
                    counter: Counter::TotalQueries,
                    level: Level::Info,
                },
            }
        },
        Err(e) => Completion {
            response: Response { query_id, query, duration, error: Some(e), result: None },
            counter: Counter::TotalQueryErrors,
            level: Level::Error,
        },
    }
}

/// Encodes the parameters of a query for binding, each under its own name
/// and in the order given. Every JSON value can be bound, so this succeeds;
/// a failure would name the parameter and the path to the value at fault.
pub fn bind_parameters(parameters: &Vec<(String, Json)>) -> (r: Result<Vec<(String, Value)>, String>)
    ensures
        r is Ok,
        r.unwrap()@.len() == parameters@.len(),
        forall|i: int|
            0 <= i < parameters@.len() ==> (#[trigger] r.unwrap()@[i]).0@ == parameters@[i].0@
                && r.unwrap()@[i].1@ == encode_tree(parameters@[i].1@),
{
    let mut bound: Vec<(String, Value)> = Vec::with_capacity(parameters.len());
    let mut i: usize = 0;
    while i < parameters.len()
        invariant
            i <= parameters.len(),
            bound.len() == i,
            forall|k: int|
                0 <= k < i ==> (#[trigger] bound@[k]).0@ == parameters@[k].0@ && bound@[k].1@
                    == encode_tree(parameters@[k].1@),
        decreases parameters.len() - i,
    {
        let name: &String = &parameters[i].0;
        match convert_json_to_surreal_recursive(&parameters[i].1) {
            Ok(value) => bound.push((name.clone(), value)),
            Err(path) => {
                return Err(parameter_error(name.as_str(), path.as_str()));
            },
        }
        i += 1;
    }
    Ok(bound)
}

/// Only the first statement shows: two results that agree on their first
/// statement are shown alike, whatever follows in either.
pub proof fn lemma_only_first_statement_shows(
    a: Seq<StatementView>,
    b: Seq<StatementView>,
    error: Option<Seq<char>>,
)
    requires
        a.len() > 0,
        b.len() > 0,
        a[0] == b[0],
    ensures
        flattened(Some(a), error) == flattened(Some(b), error),
        flattened(Some(a), error) == flattened(Some(seq![a[0]]), None),
{
}

/// A response with a result never shows its error field, and one without
/// never shows a value.
pub proof fn lemma_result_or_error(result: Option<Seq<StatementView>>, error: Option<Seq<char>>)
    ensures
        result is None ==> flattened(result, error) is Err,
        result is Some ==> flattened(result, error) == flattened(result, None),
{
}

} // verus!
