//! Tools on the caller's side: how the result of a tool goes back into the
//! conversation.
//!
//! Running a tool is the caller's business. This crate finds the tool that a
//! call names, hands the call to the caller's [`ToolRunner`] and turns what
//! comes back into a message, in the way that the back-end expects.
use crate::json::Json;
use crate::pattern::{chars_occur_at, find_chars, first_from, lemma_first_from, occurs_at};
use crate::text::{chars_of, str_eq, string_of};
use crate::types::{Message, MessageView, Tool, ToolCall, ToolCallView, ToolView};
use vstd::prelude::*;
use vstd::slice::slice_subrange;
use vstd::string::StringExecFns;

verus! {

/// What begins the content of a message that carries a tool result together
/// with the id of the call.
pub const TOOL_RESULT_PREFIX: &'static str = "TOOL_RESULT:";

/// The id that stands for a call without one.
pub const UNKNOWN_CALL_ID: &'static str = "unknown";

/// The content that carries a result together with the id of its call.
pub open spec fn encoded_result(id: Seq<char>, result: Seq<char>) -> Seq<char> {
    TOOL_RESULT_PREFIX@ + id + ":"@ + result
}

/// The id and the result that a content carries: the content begins with
/// the prefix, the id goes up to the next colon, the result is the rest.
/// Any other content carries none.
pub open spec fn decoded_result(content: Seq<char>) -> Option<(Seq<char>, Seq<char>)> {
    if occurs_at(TOOL_RESULT_PREFIX@, content, 0) {
        match first_from(":"@, content, TOOL_RESULT_PREFIX@.len() as int) {
            Some(colon) => Some(
                (content.subrange(TOOL_RESULT_PREFIX@.len() as int, colon), content.skip(colon + 1)),
            ),
            None => None,
        }
    } else {
        None
    }
}

/// An id without a colon and any result come back from the content that
/// carries them.
pub proof fn lemma_result_round_trip(id: Seq<char>, result: Seq<char>)
    requires
        first_from(":"@, id, 0) is None,
    ensures
        decoded_result(encoded_result(id, result)) == Some((id, result)),
{
    reveal_strlit("TOOL_RESULT:");
    reveal_strlit(":");
    let prefix = TOOL_RESULT_PREFIX@;
    let colon = ":"@;
    let content = encoded_result(id, result);
    let n = prefix.len() as int;
    assert(content.subrange(0, n) =~= prefix);
    lemma_first_from(colon, id, 0);
    assert forall|j: int| n <= j < n + id.len() implies !occurs_at(colon, content, j) by {
        if occurs_at(colon, content, j) {
            assert(content.subrange(j, j + 1)[0] == content[j]);
            assert(id.subrange(j - n, j - n + 1) =~= colon);
            assert(occurs_at(colon, id, j - n));
        }
    }
    assert(content.subrange(n + id.len(), n + id.len() + 1) =~= colon);
    crate::pattern::lemma_first_from_is(colon, content, n, n + id.len());
    assert(content.subrange(n, n + id.len()) =~= id);
    assert(content.skip(n + id.len() + 1) =~= result);
}

/// The content that carries a result together with the id of its call.
pub fn encode_tool_result(id: &str, result: &str) -> (content: String)
    ensures
        content@ == encoded_result(id@, result@),
{
    let mut content = String::from_str(TOOL_RESULT_PREFIX);
    content.append(id);
    content.append(":");
    content.append(result);
    content
}

/// The id and the result that a content carries, if it carries any.
pub fn decode_tool_result(content: &str) -> (parts: Option<(String, String)>)
    ensures
        parts.deep_view() == decoded_result(content@),
{
    let text = chars_of(content);
    let len = text.len();
    let prefix = chars_of(TOOL_RESULT_PREFIX);
    let colon = chars_of(":");
    if !chars_occur_at(prefix.as_slice(), text.as_slice(), 0) {
        return None;
    }
    match find_chars(colon.as_slice(), text.as_slice(), prefix.len()) {
        Some(at) => {
            proof {
                reveal_strlit(":");
            }
            let id = string_of(slice_subrange(text.as_slice(), prefix.len(), at));
            let result = string_of(slice_subrange(text.as_slice(), at + 1, len));
            proof {
                assert(text@.skip(at + 1) =~= text@.subrange(at + 1, text@.len() as int));
            }
            Some((id, result))
        },
        None => None,
    }
}

/// How a back-end wants the result of a tool in the conversation.
#[derive(Debug, Clone, Copy, PartialEq, Eq)]
pub enum ResponseStyle {
    /// As a user message whose content carries the id of the call.
    EncodedForUser,
    /// As a tool message whose content carries the id of the call.
    EncodedForTool,
    /// As a tool message whose content is the result.
    Plain,
    /// As a user message that names the tool, for a model that does not
    /// know tool messages.
    Narrated,
}

/// The id of a call, or the one that stands for a call without id.
pub open spec fn call_id(call: ToolCallView) -> Seq<char> {
    match call.id {
        Some(id) => id,
        None => UNKNOWN_CALL_ID@,
    }
}

/// The message that takes the result of a call back into the
/// conversation.
pub open spec fn response_message(style: ResponseStyle, call: ToolCallView, result: Seq<char>)
    -> MessageView {
    let (role, content) = match style {
        ResponseStyle::EncodedForUser => ("user"@, encoded_result(call_id(call), result)),
        ResponseStyle::EncodedForTool => ("tool"@, encoded_result(call_id(call), result)),
        ResponseStyle::Plain => ("tool"@, result),
        ResponseStyle::Narrated => (
            "user"@,
            "Tool response from "@ + call.function.name + ": "@ + result,
        ),
    };
    MessageView { role, content, images: None, tool_calls: None }
}

/// The message that takes the result of a call back into the
/// conversation.
pub fn tool_response(style: ResponseStyle, call: &ToolCall, result: &str) -> (message: Message)
    ensures
        message@ == response_message(style, call@, result@),
{
    let id = match &call.id {
        Some(id) => id.clone(),
        None => String::from_str(UNKNOWN_CALL_ID),
    };
    let (role, content) = match style {
        ResponseStyle::EncodedForUser => (
            String::from_str("user"),
            encode_tool_result(id.as_str(), result),
        ),
        ResponseStyle::EncodedForTool => (
            String::from_str("tool"),
            encode_tool_result(id.as_str(), result),
        ),
        ResponseStyle::Plain => (String::from_str("tool"), String::from_str(result)),
        ResponseStyle::Narrated => {
            let mut content = String::from_str("Tool response from ");
            content.append(call.function.name.as_str());
            content.append(": ");
            content.append(result);
            (String::from_str("user"), content)
        },
    };
    Message { role, content, images: None, tool_calls: None }
}

/// The position of the first tool with the given name, at or after `from`.
pub open spec fn tool_from(names: Seq<Seq<char>>, name: Seq<char>, from: int) -> Option<int>
    decreases names.len() - from,
{
    if from < 0 || from >= names.len() {
        None
    } else if names[from] == name {
        Some(from)
    } else {
        tool_from(names, name, from + 1)
    }
}

/// The names of the tools, in order.
pub open spec fn tool_names(tools: Seq<ToolView>) -> Seq<Seq<char>> {
    Seq::new(tools.len(), |i: int| tools[i].name)
}

/// The first tool with the given name.
pub fn find_tool<'a>(tools: &'a [Tool], name: &str) -> (found: Option<&'a Tool>)
    ensures
        match found {
            Some(tool) => tool_from(tool_names(tools.deep_view()), name@, 0) matches Some(at)
                && *tool == tools@[at],
            None => tool_from(tool_names(tools.deep_view()), name@, 0) is None,
        },
{
    let mut i: usize = 0;
    while i < tools.len()
        invariant
            i <= tools.len(),
            tool_from(tool_names(tools.deep_view()), name@, 0) == tool_from(
                tool_names(tools.deep_view()),
                name@,
                i as int,
            ),
        decreases tools.len() - i,
    {
        if str_eq(tools[i].name.as_str(), name) {
            return Some(&tools[i]);
        }
        i += 1;
    }
    None
}

/// Runs tools. The caller implements it; nothing is known of what a tool
/// returns.
pub trait ToolRunner {
    /// Runs a tool on the arguments of a call and returns its result as
    /// text.
    fn run(&self, tool: &Tool, arguments: &Json) -> String;
}

/// The messages for the first `upto` calls, in order: one for each call
/// that was answered.
pub open spec fn responses_upto(
    style: ResponseStyle,
    calls: Seq<ToolCallView>,
    results: Seq<Option<Seq<char>>>,
    upto: int,
) -> Seq<MessageView>
    decreases upto,
{
    if upto <= 0 || upto > calls.len() || upto > results.len() {
        Seq::empty()
    } else {
        match results[upto - 1] {
            Some(result) => responses_upto(style, calls, results, upto - 1).push(
                response_message(style, calls[upto - 1], result),
            ),
            None => responses_upto(style, calls, results, upto - 1),
        }
    }
}

/// Answers tool calls: each call that names a registered tool is run, and
/// its result becomes a message. A call that names no registered tool gets
/// no message.
///
/// Whatever the tools return, the messages are those of
/// [`responses_upto`] for some results, one for each call of a registered
/// tool and none for the others.
pub fn answer_tool_calls<R: ToolRunner>(
    style: ResponseStyle,
    tools: &[Tool],
    calls: &[ToolCall],
    runner: &R,
) -> (messages: Vec<Message>)
    ensures
        exists|results: Seq<Option<Seq<char>>>|
            {
                &&& results.len() == calls.len()
                &&& forall|i: int|
                    0 <= i < calls.len() ==> ((#[trigger] results[i]) is Some) == (tool_from(
                        tool_names(tools.deep_view()),
                        calls@[i].function.name@,
                        0,
                    ) is Some)
                &&& messages.deep_view() == responses_upto(
                    style,
                    calls.deep_view(),
                    results,
                    calls.len() as int,
                )
            },
{
    let mut messages: Vec<Message> = Vec::new();
    let ghost mut results: Seq<Option<Seq<char>>> = Seq::empty();
    let mut i: usize = 0;
    assert(messages.deep_view() =~= Seq::<MessageView>::empty());
    while i < calls.len()
        invariant
            i <= calls.len(),
            results.len() == i,
            forall|k: int|
                0 <= k < i ==> ((#[trigger] results[k]) is Some) == (tool_from(
                    tool_names(tools.deep_view()),
                    calls@[k].function.name@,
                    0,
                ) is Some),
            messages.deep_view() == responses_upto(style, calls.deep_view(), results, i as int),
        decreases calls.len() - i,
    {
        let call = &calls[i];
        let ghost so_far = messages.deep_view();
        let ghost before = results;
        assert(calls.deep_view()[i as int] == call@);
        match find_tool(tools, call.function.name.as_str()) {
            Some(tool) => {
                let result = runner.run(tool, &call.function.arguments);
                let message = tool_response(style, call, result.as_str());
                proof {
                    results = results.push(Some(result@));
                }
                messages.push(message);
                assert(messages.deep_view() =~= so_far.push(message@));
            },
            None => {
                proof {
                    results = results.push(None);
                }
            },
        }
        proof {
            lemma_responses_ignore_later_results(style, calls.deep_view(), before, results, i as int);
        }
        i += 1;
    }
    assert(results.len() == calls.len());
    messages
}

/// The messages for the first calls depend on the results of those calls
/// alone.
proof fn lemma_responses_ignore_later_results(
    style: ResponseStyle,
    calls: Seq<ToolCallView>,
    one: Seq<Option<Seq<char>>>,
    other: Seq<Option<Seq<char>>>,
    upto: int,
)
    requires
        0 <= upto <= one.len(),
        upto <= other.len(),
        forall|k: int| 0 <= k < upto ==> one[k] == other[k],
    ensures
        responses_upto(style, calls, one, upto) == responses_upto(style, calls, other, upto),
    decreases upto,
{
    if upto > 0 && upto <= calls.len() {
        lemma_responses_ignore_later_results(style, calls, one, other, upto - 1);
    }
}

} // verus!
