//! The fallback tool protocol, for models without native tool calling.
//!
//! The tools are described to the model in the system message. The model
//! answers in free text and embeds an invocation between two markers. The
//! markers and what stands between them are kept from the user while the
//! text streams, and are read as tool calls once the stream has ended.
use crate::filter::{visible, StreamingXmlFilter, TOOL_CALL_CLOSE, TOOL_CALL_OPEN};
use crate::items::calls_if_any;
use crate::json::{json_of_text, json_text, parse_json_text, JsonView};
use crate::pattern::{
    find_chars, first_from, lemma_first_from, lemma_first_from_shift, occurs_at,
};
use crate::text::{chars_of, str_eq, string_of};
use crate::types::{
    Function, FunctionView, Message, MessageView, Tool, ToolCall, ToolCallView, ToolView,
};
use vstd::prelude::*;
use vstd::slice::{slice_subrange, slice_to_vec};
use vstd::string::StringExecFns;

verus! {

/// Whether a prompt template names the variable that templates of models
/// with native tool calling use: `.Tools` or `.tools`. A template without it
/// is taken as a sign that the model needs the fallback protocol.
pub open spec fn template_names_tools(template: Seq<char>) -> bool {
    first_from(".Tools"@, template, 0) is Some || first_from(".tools"@, template, 0) is Some
}

/// Whether the fallback protocol is in use: there are tools, and the model
/// does not call tools natively.
pub open spec fn fallback_in_use(has_tools: bool, supports_tools: bool) -> bool {
    has_tools && !supports_tools
}

/// Where the fallback protocol stands in the course of one request.
#[derive(Debug, Clone, Copy, PartialEq, Eq, Structural)]
pub enum FallbackPhase {
    /// The protocol is not in use: there are no tools, or the model calls
    /// tools natively.
    Disabled,
    /// The model is being asked whether it calls tools natively.
    ProbeCapability,
    /// The catalog of tools is being put into the conversation.
    Injecting,
    /// The response is streaming, and the tag filter is at work.
    Streaming,
    /// The response has ended, and the raw text is read for tool calls.
    Reconstructing,
}

/// What moves the fallback protocol on.
#[derive(Debug, Clone, Copy, PartialEq, Eq, Structural)]
pub enum FallbackEvent {
    /// A request begins for a client with tools.
    ToolsRegistered,
    /// The probe has found whether the model calls tools natively.
    Probed { supports_tools: bool },
    /// The catalog of tools is in the conversation.
    Injected,
    /// The terminal frame of the response has come.
    TerminalFrame,
    /// The raw text has been read for tool calls.
    Reconstructed,
}

/// The phase that follows a phase on an event. An event that the phase does
/// not wait for changes nothing.
pub open spec fn phase_after(phase: FallbackPhase, event: FallbackEvent) -> FallbackPhase {
    match (phase, event) {
        (FallbackPhase::Disabled, FallbackEvent::ToolsRegistered) => FallbackPhase::ProbeCapability,
        (FallbackPhase::ProbeCapability, FallbackEvent::Probed { supports_tools }) => if supports_tools {
            FallbackPhase::Disabled
        } else {
            FallbackPhase::Injecting
        },
        (FallbackPhase::Injecting, FallbackEvent::Injected) => FallbackPhase::Streaming,
        (FallbackPhase::Streaming, FallbackEvent::TerminalFrame) => FallbackPhase::Reconstructing,
        (FallbackPhase::Reconstructing, FallbackEvent::Reconstructed) => FallbackPhase::Disabled,
        _ => phase,
    }
}

impl FallbackPhase {
    /// The phase that follows this one on an event.
    pub fn after(self, event: FallbackEvent) -> (next: FallbackPhase)
        ensures
            next == phase_after(self, event),
    {
        match (self, event) {
            (FallbackPhase::Disabled, FallbackEvent::ToolsRegistered) => {
                FallbackPhase::ProbeCapability
            },
            (FallbackPhase::ProbeCapability, FallbackEvent::Probed { supports_tools }) => {
                if supports_tools {
                    FallbackPhase::Disabled
                } else {
                    FallbackPhase::Injecting
                }
            },
            (FallbackPhase::Injecting, FallbackEvent::Injected) => FallbackPhase::Streaming,
            (FallbackPhase::Streaming, FallbackEvent::TerminalFrame) => {
                FallbackPhase::Reconstructing
            },
            (FallbackPhase::Reconstructing, FallbackEvent::Reconstructed) => FallbackPhase::Disabled,
            (phase, _) => phase,
        }
    }

    /// Whether the tag filter is at work in this phase.
    pub fn filters(self) -> (active: bool)
        ensures
            active == (self == FallbackPhase::Streaming),
    {
        match self {
            FallbackPhase::Streaming => true,
            _ => false,
        }
    }
}

/// What stands between the markers of each complete span of `text`, from
/// position `from` on, in order. A span begins at the first opening marker
/// and ends at the first closing marker behind it.
pub open spec fn blocks_from(open: Seq<char>, close: Seq<char>, text: Seq<char>, from: int) -> Seq<
    Seq<char>,
>
    decreases text.len() - from,
{
    if from < 0 {
        Seq::empty()
    } else {
        match first_from(open, text, from) {
            Some(begin) => {
                proof {
                    lemma_first_from(open, text, from);
                }
                match first_from(close, text, begin + open.len()) {
                    Some(end) => {
                        proof {
                            lemma_first_from(close, text, begin + open.len());
                        }
                        seq![text.subrange(begin + open.len(), end)] + blocks_from(
                            open,
                            close,
                            text,
                            end + close.len(),
                        )
                    },
                    None => Seq::empty(),
                }
            },
            None => Seq::empty(),
        }
    }
}

/// The tool call that a block denotes: the block is a JSON object with a
/// name and arguments. Any other block denotes none.
pub open spec fn call_of_block(block: Seq<char>) -> Option<ToolCallView> {
    match json_of_text(block) {
        Some(object) => match (object.get_str("name"@), object.get("arguments"@)) {
            (Some(name), Some(arguments)) => Some(
                ToolCallView { id: None, function: FunctionView { name, arguments } },
            ),
            _ => None,
        },
        None => None,
    }
}

/// The tool calls that the first `upto` blocks denote, in order.
pub open spec fn calls_upto(blocks: Seq<Seq<char>>, upto: int) -> Seq<ToolCallView>
    decreases upto,
{
    if upto <= 0 || upto > blocks.len() {
        Seq::empty()
    } else {
        match call_of_block(blocks[upto - 1]) {
            Some(call) => calls_upto(blocks, upto - 1).push(call),
            None => calls_upto(blocks, upto - 1),
        }
    }
}

/// The tool calls embedded in a text, in order.
pub open spec fn embedded_calls(text: Seq<char>) -> Seq<ToolCallView> {
    let blocks = blocks_from(TOOL_CALL_OPEN@, TOOL_CALL_CLOSE@, text, 0);
    calls_upto(blocks, blocks.len() as int)
}

/// The tool calls embedded in a text, if there are any.
pub open spec fn fallback_calls(text: Seq<char>) -> Option<Seq<ToolCallView>> {
    if embedded_calls(text).len() > 0 {
        Some(embedded_calls(text))
    } else {
        None
    }
}

/// A span that was filtered out is recovered from the raw text: a text
/// that is an opening marker, a body and a closing marker, the first one to
/// follow the opening marker, has the body as its one block.
pub proof fn lemma_wrapped_span_is_recovered(open: Seq<char>, close: Seq<char>, body: Seq<char>)
    requires
        open.len() > 0,
        first_from(close, body + close, 0) == Some(body.len() as int),
    ensures
        blocks_from(open, close, open + body + close, 0) == seq![body],
{
    let text = open + body + close;
    let n = open.len() as int;
    assert(text.subrange(0, n) =~= open);
    assert(occurs_at(open, text, 0));
    assert(first_from(open, text, 0) == Some(0int));
    assert(text.skip(n) =~= body + close);
    lemma_first_from_shift(close, text, n, 0);
    lemma_first_from(close, body + close, 0);
    assert(first_from(close, text, n) == Some(n + body.len()));
    assert(text.subrange(n, n + body.len()) =~= body);
    assert(blocks_from(open, close, text, text.len() as int) == Seq::<Seq<char>>::empty()) by {
        lemma_first_from(open, text, text.len() as int);
    }
    assert(seq![body] + Seq::<Seq<char>>::empty() =~= seq![body]);
}

/// What stands between the markers of each complete span of `text`.
pub fn extract_blocks(open: &[char], close: &[char], text: &[char]) -> (blocks: Vec<Vec<char>>)
    ensures
        blocks.deep_view() == blocks_from(open@, close@, text@, 0),
{
    let mut blocks: Vec<Vec<char>> = Vec::new();
    let mut from: usize = 0;
    let mut searching = true;
    assert(blocks.deep_view() =~= Seq::<Seq<char>>::empty());
    while searching
        invariant
            from <= text.len(),
            searching ==> blocks_from(open@, close@, text@, 0) == blocks.deep_view() + blocks_from(
                open@,
                close@,
                text@,
                from as int,
            ),
            !searching ==> blocks_from(open@, close@, text@, 0) == blocks.deep_view(),
        decreases text.len() - from, if searching { 1int } else { 0int },
    {
        let ghost so_far = blocks.deep_view();
        match find_chars(open, text, from) {
            Some(begin) => {
                match find_chars(close, text, begin + open.len()) {
                    Some(end) => {
                        let block = slice_to_vec(
                            slice_subrange(text, begin + open.len(), end),
                        );
                        let ghost cut = text@.subrange(begin + open@.len(), end as int);
                        assert(block.deep_view() =~= cut);
                        blocks.push(block);
                        assert(blocks.deep_view() =~= so_far + seq![cut]);
                        assert(so_far + (seq![cut] + blocks_from(
                            open@,
                            close@,
                            text@,
                            end + close@.len(),
                        )) =~= (so_far + seq![cut]) + blocks_from(
                            open@,
                            close@,
                            text@,
                            end + close@.len(),
                        ));
                        from = end + close.len();
                    },
                    None => {
                        assert(so_far + Seq::<Seq<char>>::empty() =~= so_far);
                        searching = false;
                    },
                }
            },
            None => {
                assert(so_far + Seq::<Seq<char>>::empty() =~= so_far);
                searching = false;
            },
        }
    }
    blocks
}

/// The tool call that a block denotes.
pub fn parse_block(block: &[char]) -> (call: Option<ToolCall>)
    ensures
        call.deep_view() == call_of_block(block@),
{
    let text = string_of(block);
    match parse_json_text(text.as_str()) {
        Some(object) => match (object.get_str("name"), object.get("arguments")) {
            (Some(name), Some(arguments)) => Some(
                ToolCall {
                    id: None,
                    function: Function { name: name.clone(), arguments: arguments.duplicate() },
                },
            ),
            _ => None,
        },
        None => None,
    }
}

/// Whether `needle` stands somewhere in `text`.
pub fn contains_text(text: &str, needle: &str) -> (found: bool)
    ensures
        found == (first_from(needle@, text@, 0) is Some),
{
    let haystack = chars_of(text);
    let pattern = chars_of(needle);
    find_chars(pattern.as_slice(), haystack.as_slice(), 0).is_some()
}

/// The sentence that opens the catalog of tools in the system message.
pub const CATALOG_INTRO: &'static str =
    "\n\nYou have access to the following tools. To call a tool, answer with a JSON object between the markers, like this:\n<tool_call>{\"name\": \"tool_name\", \"arguments\": {\"parameter\": \"value\"}}</tool_call>\n\nAvailable tools:\n";

/// The system message that is made up when the conversation has none.
pub const DEFAULT_SYSTEM_PROMPT: &'static str = "You are a helpful assistant.";

/// The entry of one tool in the catalog: its name, its description and the
/// JSON schema of its parameters, on one line.
pub open spec fn catalog_entry(name: Seq<char>, description: Seq<char>, parameters: JsonView) -> Seq<
    char,
> {
    "- "@ + name + ": "@ + description + " Parameters: "@ + json_text(parameters) + "\n"@
}

/// The entries of the first `upto` tools, one after the other.
pub open spec fn catalog_entries(tools: Seq<ToolView>, upto: int) -> Seq<char>
    decreases upto,
{
    if upto <= 0 || upto > tools.len() {
        Seq::empty()
    } else {
        catalog_entries(tools, upto - 1) + catalog_entry(
            tools[upto - 1].name,
            tools[upto - 1].description,
            tools[upto - 1].parameters,
        )
    }
}

/// The catalog of tools: the introduction, then one entry for each tool.
pub open spec fn tool_context(tools: Seq<ToolView>) -> Seq<char> {
    CATALOG_INTRO@ + catalog_entries(tools, tools.len() as int)
}

/// The position of the first message whose role is `system`, at or after
/// `from`.
pub open spec fn system_message_from(messages: Seq<MessageView>, from: int) -> Option<int>
    decreases messages.len() - from,
{
    if from < 0 || from >= messages.len() {
        None
    } else if messages[from].role == "system"@ {
        Some(from)
    } else {
        system_message_from(messages, from + 1)
    }
}

/// The conversation with the catalog of tools in it: the catalog is added
/// to the content of the first system message or, where there is none, a
/// system message with the default prompt and the catalog is put first.
pub open spec fn with_tool_context(messages: Seq<MessageView>, context: Seq<char>) -> Seq<
    MessageView,
> {
    match system_message_from(messages, 0) {
        Some(at) => messages.update(
            at,
            MessageView { content: messages[at].content + context, ..messages[at] },
        ),
        None => seq![
            MessageView {
                role: "system"@,
                content: DEFAULT_SYSTEM_PROMPT@ + context,
                images: None,
                tool_calls: None,
            },
        ] + messages,
    }
}

/// The functions of the fallback tool protocol.
pub struct FallbackToolHandler;

impl FallbackToolHandler {
    /// Whether a model with this prompt template calls tools natively.
    pub fn template_supports_tools(template: &str) -> (supported: bool)
        ensures
            supported == template_names_tools(template@),
    {
        contains_text(template, ".Tools") || contains_text(template, ".tools")
    }

    /// Whether the fallback protocol is in use.
    pub fn is_fallback_mode(has_tools: bool, supports_tools: bool) -> (fallback: bool)
        ensures
            fallback == fallback_in_use(has_tools, supports_tools),
    {
        has_tools && !supports_tools
    }

    /// The catalog of tools, as text for the system message.
    pub fn generate_tool_context(tools: &[Tool]) -> (context: String)
        ensures
            context@ == tool_context(tools.deep_view()),
    {
        let mut context = String::from_str(CATALOG_INTRO);
        let mut i: usize = 0;
        assert(context@ =~= CATALOG_INTRO@ + catalog_entries(tools.deep_view(), 0));
        while i < tools.len()
            invariant
                i <= tools.len(),
                context@ == CATALOG_INTRO@ + catalog_entries(tools.deep_view(), i as int),
            decreases tools.len() - i,
        {
            let tool = &tools[i];
            assert(tools.deep_view()[i as int] == tool@);
            let ghost before = context@;
            let parameters = tool.parameters.to_text();
            context.append("- ");
            context.append(tool.name.as_str());
            context.append(": ");
            context.append(tool.description.as_str());
            context.append(" Parameters: ");
            context.append(parameters.as_str());
            context.append("\n");
            assert(context@ =~= before + catalog_entry(
                tool@.name,
                tool@.description,
                tool@.parameters,
            ));
            assert(CATALOG_INTRO@ + (catalog_entries(tools.deep_view(), i as int) + catalog_entry(
                tool@.name,
                tool@.description,
                tool@.parameters,
            )) =~= before + catalog_entry(tool@.name, tool@.description, tool@.parameters));
            i += 1;
        }
        context
    }

    /// Puts the catalog of tools into the conversation.
    pub fn inject_tool_context(messages: &mut Vec<Message>, context: &str)
        ensures
            final(messages).deep_view() == with_tool_context(old(messages).deep_view(), context@),
    {
        let ghost before = messages.deep_view();
        let mut i: usize = 0;
        while i < messages.len()
            invariant
                i <= messages.len(),
                messages.deep_view() == before,
                before == old(messages).deep_view(),
                system_message_from(before, 0) == system_message_from(before, i as int),
            decreases messages.len() - i,
        {
            assert(before[i as int] == messages@[i as int]@);
            if str_eq(messages[i].role.as_str(), "system") {
                assert(system_message_from(before, i as int) == Some(i as int));
                let mut message = messages.remove(i);
                let ghost was = message@;
                assert(was == before[i as int]);
                message.content.append(context);
                messages.insert(i, message);
                assert(messages.deep_view() =~= before.update(
                    i as int,
                    MessageView { content: was.content + context@, ..was },
                ));
                return ;
            }
            i += 1;
        }
        let mut content = String::from_str(DEFAULT_SYSTEM_PROMPT);
        content.append(context);
        let message = Message {
            role: String::from_str("system"),
            content,
            images: None,
            tool_calls: None,
        };
        let ghost made = message@;
        messages.insert(0, message);
        assert(messages.deep_view() =~= seq![made] + before);
    }

    /// Reads the tool calls that a text embeds. A block that is not
    /// a JSON object with a name and arguments is ignored. Returns `None`
    /// where the text embeds no call.
    pub fn parse_fallback_tool_calls(raw: &str) -> (calls: Option<Vec<ToolCall>>)
        ensures
            calls.deep_view() == fallback_calls(raw@),
    {
        let text = chars_of(raw);
        let open = chars_of(TOOL_CALL_OPEN);
        let close = chars_of(TOOL_CALL_CLOSE);
        let blocks = extract_blocks(open.as_slice(), close.as_slice(), text.as_slice());
        let mut calls: Vec<ToolCall> = Vec::new();
        let mut i: usize = 0;
        assert(calls.deep_view() =~= Seq::<ToolCallView>::empty());
        while i < blocks.len()
            invariant
                i <= blocks.len(),
                calls.deep_view() == calls_upto(blocks.deep_view(), i as int),
            decreases blocks.len() - i,
        {
            assert(blocks.deep_view()[i as int] =~= blocks@[i as int]@);
            let ghost so_far = calls.deep_view();
            match parse_block(blocks[i].as_slice()) {
                Some(call) => {
                    calls.push(call);
                    assert(calls.deep_view() =~= so_far.push(call@));
                },
                None => {},
            }
            i += 1;
        }
        calls_if_any(calls)
    }

    /// Takes a complete response apart: what is shown of it, with the
    /// spans removed, and the tool calls that it embeds.
    pub fn process_fallback_response(content: &str) -> (parts: (String, Option<Vec<ToolCall>>))
        ensures
            parts.0@ == visible(TOOL_CALL_OPEN@, TOOL_CALL_CLOSE@, content@),
            parts.1.deep_view() == fallback_calls(content@),
    {
        let mut filter = StreamingXmlFilter::new();
        let ghost none = Seq::<char>::empty();
        assert(none + content@ =~= content@);
        let shown = filter.process_chunk(content);
        let rest = filter.finish();
        proof {
            crate::filter::lemma_filter_chunk_invariance(
                TOOL_CALL_OPEN@,
                TOOL_CALL_CLOSE@,
                false,
                false,
                content@,
                none,
            );
            assert(content@ + none =~= content@);
            let head = crate::filter::scan_from(
                TOOL_CALL_OPEN@,
                TOOL_CALL_CLOSE@,
                true,
                false,
                content@,
                0,
            );
            assert(content@.skip(head.resume) + none =~= content@.skip(head.resume));
        }
        let cleaned = shown.concat(rest.as_str());
        (cleaned, Self::parse_fallback_tool_calls(content))
    }
}

} // verus!
