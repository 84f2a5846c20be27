//! Reading the lines an MCP server writes back: which request a line
//! answers, whether it reports an error, and the text a tool call returned.

use vstd::prelude::*;

use crate::mcp::tools::{reply_step, ReplyStep};
use crate::text::{join, join_strs, strs_view};

verus! {

/// What `serde_json` reads from a reply line, when the line is JSON: the
/// `id` field when it is a string, and the `error` field written back as
/// compact JSON when there is one.
pub uninterp spec fn reply_fields_of(line: Seq<char>) -> Option<(Option<Seq<char>>, Option<Seq<char>>)>;

/// The fields of a parsed reply by their characters.
pub open spec fn reply_fields_view(r: Option<(Option<String>, Option<String>)>) -> Option<
    (Option<Seq<char>>, Option<Seq<char>>),
> {
    match r {
        None => None,
        Some((id, err)) => Some(
            (
                match id {
                    Some(i) => Some(i@),
                    None => None,
                },
                match err {
                    Some(e) => Some(e@),
                    None => None,
                },
            ),
        ),
    }
}

/// `serde_json::from_str::<Value>` on the line, then `Value::get("id")` with
/// `Value::as_str`, and `Value::get("error")` written back with
/// `Value::to_string`: `None` when the line is not JSON. The result depends
/// on the line alone.
#[verifier::external_body]
fn parse_reply_line(line: &str) -> (r: Option<(Option<String>, Option<String>)>)
    ensures
        reply_fields_view(r) == reply_fields_of(line@),
{
    let message: serde_json::Value = serde_json::from_str(line).ok()?;
    let id = message.get("id").and_then(serde_json::Value::as_str).map(str::to_owned);
    let error = message.get("error").map(|e| e.to_string());
    Some((id, error))
}

/// The step for a line that answers (or not) the request `sent_id`, given
/// the line's id and error.
pub open spec fn spec_reply_step(id: Option<Seq<char>>, sent_id: Seq<char>, error: Option<Seq<char>>) -> ReplyStepView {
    match id {
        Some(i) if i == sent_id => match error {
            Some(e) => ReplyStepView::Failed(e),
            None => ReplyStepView::Done,
        },
        _ => ReplyStepView::Skip,
    }
}

/// A reply step with its text taken by characters.
pub enum ReplyStepView {
    Skip,
    Failed(Seq<char>),
    Done,
}

/// The view of a reply step.
pub open spec fn step_view(r: ReplyStep) -> ReplyStepView {
    match r {
        ReplyStep::Skip => ReplyStepView::Skip,
        ReplyStep::Failed(m) => ReplyStepView::Failed(m@),
        ReplyStep::Done => ReplyStepView::Done,
    }
}

/// The step for a line read while the request `sent_id` waits: a line that
/// is not JSON, or answers another request, is skipped; the answer reports
/// its error or is done.
pub fn reply_step_for_line(line: &str, sent_id: &str) -> (r: ReplyStep)
    ensures
        match reply_fields_of(line@) {
            None => r is Skip,
            Some((id, err)) => step_view(r) == spec_reply_step(id, sent_id@, err),
        },
{
    match parse_reply_line(line) {
        None => ReplyStep::Skip,
        Some((id, error)) => {
            let r = match &id {
                Some(i) => reply_step(Some(i.as_str()), sent_id, error),
                None => reply_step(None, sent_id, error),
            };
            r
        },
    }
}

/// What `serde_json` reads from a tool call's reply line: for each item of
/// `result.content`, its `text` field when it is a string; `None` when the
/// line is not JSON or `result.content` is no array.
pub uninterp spec fn call_items_of(line: Seq<char>) -> Option<Seq<Option<Seq<char>>>>;

/// The items' texts by their characters.
pub open spec fn items_view(items: Seq<Option<String>>) -> Seq<Option<Seq<char>>> {
    items.map_values(|t: Option<String>| match t {
        Some(s) => Some(s@),
        None => None,
    })
}

/// `serde_json::from_str::<Value>` on the line, then `Value::get("result")`,
/// `Value::get("content")` and `Value::as_array`, and for each item
/// `Value::get("text")` with `Value::as_str`. The result depends on the line
/// alone.
#[verifier::external_body]
fn parse_call_items(line: &str) -> (r: Option<Vec<Option<String>>>)
    ensures
        match r {
            None => call_items_of(line@) is None,
            Some(items) => call_items_of(line@) == Some(items_view(items@)),
        },
{
    let message: serde_json::Value = serde_json::from_str(line).ok()?;
    let items = message.get("result")?.get("content")?.as_array()?;
    Some(
        items.iter().map(|item| item.get("text").and_then(serde_json::Value::as_str).map(str::to_owned)).collect(),
    )
}

/// The texts that are present, in order.
pub open spec fn present_texts(items: Seq<Option<Seq<char>>>) -> Seq<Seq<char>>
    decreases items.len(),
{
    if items.len() == 0 {
        seq![]
    } else {
        let rest = present_texts(items.drop_last());
        match items.last() {
            Some(t) => rest.push(t),
            None => rest,
        }
    }
}

/// The text a tool call returned: the texts of its content items, one per
/// line; empty when its reply holds no content list.
pub open spec fn spec_call_output(line: Seq<char>) -> Seq<char> {
    match call_items_of(line) {
        None => seq![],
        Some(items) => join(present_texts(items), "\n"@),
    }
}

/// The text a tool call's reply line carries.
pub fn call_output(line: &str) -> (r: String)
    ensures
        r@ == spec_call_output(line@),
{
    match parse_call_items(line) {
        None => String::new(),
        Some(items) => {
            let ghost iv = items_view(items@);
            let mut texts: Vec<String> = Vec::new();
            let mut i: usize = 0;
            while i < items.len()
                invariant
                    i <= items@.len(),
                    iv == items_view(items@),
                    strs_view(texts@) == present_texts(iv.take(i as int)),
                decreases items@.len() - i,
            {
                proof {
                    assert(iv.take(i + 1).drop_last() =~= iv.take(i as int));
                }
                match &items[i] {
                    Some(t) => {
                        let ghost before = texts@;
                        texts.push(crate::agent::copy_string(t));
                        assert(strs_view(texts@) =~= strs_view(before).push(t@));
                    },
                    None => {},
                }
                i = i + 1;
            }
            assert(iv.take(iv.len() as int) =~= iv);
            join_strs(&texts, "\n")
        },
    }
}

/// A tool a server lists: its name and, when it gives one, its description.
#[derive(Debug, Clone, PartialEq, Eq)]
pub struct McpTool {
    pub name: String,
    pub description: Option<String>,
}

/// What `serde_json` reads from a `tools/list` reply line: each item of
/// `result.tools` written back as compact JSON; `None` when the line is not
/// JSON or `result.tools` is no array.
pub uninterp spec fn tool_items_of(line: Seq<char>) -> Option<Seq<Seq<char>>>;

/// `serde_json::from_str::<Value>` on the line, then `Value::get("result")`,
/// `Value::get("tools")` and `Value::as_array`, each item written back with
/// `Value::to_string`. The result depends on the line alone.
#[verifier::external_body]
fn parse_tool_items(line: &str) -> (r: Option<Vec<String>>)
    ensures
        match r {
            None => tool_items_of(line@) is None,
            Some(items) => tool_items_of(line@) == Some(strs_view(items@)),
        },
{
    let message: serde_json::Value = serde_json::from_str(line).ok()?;
    let items = message.get("result")?.get("tools")?.as_array()?;
    Some(items.iter().map(|item| item.to_string()).collect())
}

/// The JSON texts of the tools a `tools/list` reply line lists, in order;
/// none when it holds no tool list.
pub fn tool_items(line: &str) -> (r: Vec<String>)
    ensures
        strs_view(r@) == match tool_items_of(line@) {
            Some(items) => items,
            None => Seq::<Seq<char>>::empty(),
        },
{
    match parse_tool_items(line) {
        Some(items) => items,
        None => Vec::new(),
    }
}

} // verus!
