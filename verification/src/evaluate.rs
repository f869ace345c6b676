//! What the result of `Runtime.evaluate` is reported as.

use vstd::prelude::*;
use crate::console::{get_member, get_text, member_of, member_text, owned, string_or, text_or};
use crate::json::{pretty_json, pretty_text, Json, JsonV};
use crate::text::str_eq;

verus! {

/// How an evaluation is reported, before any JSON is written.
pub enum EvalReport {
    /// The expression threw; the description of the exception.
    Thrown(Seq<char>),
    /// The report is this text.
    Text(Seq<char>),
    /// The report is the value (`result.value`) as pretty-printed JSON.
    PrettyValue,
    /// The report is the remote object (`result`, null when absent) as pretty-printed JSON.
    PrettyResult,
}

/// How the reply of `Runtime.evaluate` is reported. An exception is reported by its
/// description, else its text, else `Unknown error`. Otherwise, as JSON, the value if
/// there is one, else the remote object; as text, `undefined` for undefined, the string
/// for a string, the JSON of a value, else the object's description.
pub open spec fn eval_report(reply: Json, as_json: bool) -> EvalReport {
    match reply.field("exceptionDetails"@) {
        Some(ex) => {
            let text = text_or(member_text(Some(ex), "text"@), "Unknown error"@);
            EvalReport::Thrown(
                text_or(member_text(member_of(Some(ex), "exception"@), "description"@), text),
            )
        },
        None => {
            let value = reply.field("result"@);
            let has_value = member_of(value, "value"@) is Some;
            if as_json {
                if has_value {
                    EvalReport::PrettyValue
                } else {
                    EvalReport::PrettyResult
                }
            } else {
                let kind = text_or(member_text(value, "type"@), "undefined"@);
                if kind == "undefined"@ {
                    EvalReport::Text("undefined"@)
                } else if kind == "string"@ {
                    EvalReport::Text(text_or(member_text(value, "value"@), ""@))
                } else if has_value {
                    EvalReport::PrettyValue
                } else {
                    EvalReport::Text(text_or(member_text(value, "description"@), ""@))
                }
            }
        },
    }
}

/// The report of an evaluation: the description of the exception as the error, or the
/// text, the pretty-printed value, or the pretty-printed remote object (null when absent).
pub open spec fn eval_result(reply: Json, as_json: bool) -> Result<Seq<char>, Seq<char>> {
    match eval_report(reply, as_json) {
        EvalReport::Thrown(d) => Err(d),
        EvalReport::Text(t) => Ok(t),
        EvalReport::PrettyValue => Ok(pretty_text(member_of(reply.field("result"@), "value"@)->0@)),
        EvalReport::PrettyResult => Ok(
            pretty_text(
                match reply.field("result"@) {
                    Some(r) => r@,
                    None => JsonV::Null,
                },
            ),
        ),
    }
}

/// Reads the reply of `Runtime.evaluate` into its report, or the description of the
/// exception that the expression threw.
pub fn evaluate(reply: &Json, as_json: bool) -> (r: Result<String, String>)
    ensures
        match r {
            Ok(t) => eval_result(*reply, as_json) == Ok::<Seq<char>, Seq<char>>(t@),
            Err(d) => eval_result(*reply, as_json) == Err::<Seq<char>, Seq<char>>(d@),
        },
{
    if let Some(ex) = reply.get("exceptionDetails") {
        let text = string_or(get_text(Some(ex), "text"), "Unknown error");
        let desc = string_or(get_text(get_member(Some(ex), "exception"), "description"), text.as_str());
        return Err(desc);
    }
    let value = reply.get("result");
    let inner = get_member(value, "value");
    if as_json {
        return Ok(pretty_value_or_result(value, inner));
    }
    let kind = string_or(get_text(value, "type"), "undefined");
    if str_eq(kind.as_str(), "undefined") {
        Ok(kind)
    } else if str_eq(kind.as_str(), "string") {
        Ok(string_or(get_text(value, "value"), ""))
    } else if let Some(v) = inner {
        Ok(pretty_json(v))
    } else {
        Ok(string_or(get_text(value, "description"), ""))
    }
}

/// The value as pretty-printed JSON if there is one, else the remote object (null when
/// absent).
fn pretty_value_or_result(value: Option<&Json>, inner: Option<&Json>) -> (t: String)
    ensures
        t@ == match owned(inner) {
            Some(v) => pretty_text(v@),
            None => pretty_text(
                match owned(value) {
                    Some(r) => r@,
                    None => JsonV::Null,
                },
            ),
        },
{
    match inner {
        Some(v) => pretty_json(v),
        None => match value {
            Some(r) => pretty_json(r),
            None => pretty_json(&Json::Null),
        },
    }
}

} // verus!
