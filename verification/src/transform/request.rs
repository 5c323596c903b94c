//! Anthropic request → OpenAI request.
use vstd::prelude::*;

use crate::anthropic::{
    tool_description, tool_input_schema, tool_name, AnthropicContent, AnthropicContentBlock,
    AnthropicMessage, AnthropicRequest, AnthropicSystem, AnthropicTool, AnthropicToolChoice,
    SystemContentBlock, ToolResultContent, ToolResultContentBlock,
};
use crate::openai::{
    messages_view, opt_list_view, opt_view, ContentBlockModel, ContentModel, ImageUrl,
    MessageModel, OpenAIContent, OpenAIContentBlock, OpenAIFunction, OpenAIFunctionCall,
    OpenAIMessage, OpenAIRequest, OpenAITool, OpenAIToolCallRequest, OpenAIToolChoice,
    ToolCallModel, ToolChoiceModel, ToolModel,
};
use crate::text::{concat, join_strings, owned, seq_join, text_eq, views_of};
use crate::transform::response::stop_reason_for;

verus! {

// ---------------------------------------------------------------------------
// What the conversion produces
// ---------------------------------------------------------------------------

/// The texts of the system blocks that have one, in order.
pub open spec fn system_block_texts(bs: Seq<SystemContentBlock>) -> Seq<Seq<char>>
    decreases bs.len(),
{
    if bs.len() == 0 {
        Seq::empty()
    } else {
        let rest = system_block_texts(bs.drop_last());
        match bs.last().text {
            Some(t) => rest.push(t@),
            None => rest,
        }
    }
}

/// The system prompt as one text: a list of blocks is joined by blank lines.
pub open spec fn system_text(sys: AnthropicSystem) -> Seq<char> {
    match sys {
        AnthropicSystem::String(s) => s@,
        AnthropicSystem::ContentList(bs) => seq_join(system_block_texts(bs@), "\n\n"@),
    }
}

/// A message with the given role and plain text content.
pub open spec fn text_message(role: Seq<char>, text: Seq<char>) -> MessageModel {
    MessageModel { role, content: ContentModel::Text(text), tool_calls: None, tool_call_id: None }
}

/// The texts of the `text` blocks, in order.
pub open spec fn text_block_texts(bs: Seq<AnthropicContentBlock>) -> Seq<Seq<char>>
    decreases bs.len(),
{
    if bs.len() == 0 {
        Seq::empty()
    } else {
        let rest = text_block_texts(bs.drop_last());
        match bs.last() {
            AnthropicContentBlock::Text { text } => rest.push(text@),
            _ => rest,
        }
    }
}

/// The `tool_use` blocks as OpenAI function calls, in order.
pub open spec fn tool_use_calls(bs: Seq<AnthropicContentBlock>) -> Seq<ToolCallModel>
    decreases bs.len(),
{
    if bs.len() == 0 {
        Seq::empty()
    } else {
        let rest = tool_use_calls(bs.drop_last());
        match bs.last() {
            AnthropicContentBlock::ToolUse { id, name, input } => rest.push(
                ToolCallModel { id: id@, call_type: "function"@, name: name@, arguments: input@ },
            ),
            _ => rest,
        }
    }
}

/// An assistant message given as blocks: its texts concatenated (no content
/// when there is none) and its `tool_use` blocks as tool calls (none when
/// there is none). Images are dropped.
pub open spec fn assistant_message(bs: Seq<AnthropicContentBlock>) -> MessageModel {
    let texts = text_block_texts(bs);
    let calls = tool_use_calls(bs);
    MessageModel {
        role: "assistant"@,
        content: if texts.len() == 0 {
            ContentModel::Null
        } else {
            ContentModel::Text(seq_join(texts, ""@))
        },
        tool_calls: if calls.len() == 0 {
            None
        } else {
            Some(calls)
        },
        tool_call_id: None,
    }
}

/// The texts of the tool result blocks that have one, in order.
pub open spec fn result_block_texts(bs: Seq<ToolResultContentBlock>) -> Seq<Seq<char>>
    decreases bs.len(),
{
    if bs.len() == 0 {
        Seq::empty()
    } else {
        let rest = result_block_texts(bs.drop_last());
        match bs.last().text {
            Some(t) => rest.push(t@),
            None => rest,
        }
    }
}

/// The text of a tool result: its string, its block texts joined by new
/// lines, or nothing.
pub open spec fn tool_result_text(c: Option<ToolResultContent>) -> Seq<char> {
    match c {
        Some(ToolResultContent::Text(t)) => t@,
        Some(ToolResultContent::Blocks(bs)) => seq_join(result_block_texts(bs@), "\n"@),
        None => Seq::empty(),
    }
}

/// The `tool_result` blocks as `tool` messages, in order.
pub open spec fn tool_messages(bs: Seq<AnthropicContentBlock>) -> Seq<MessageModel>
    decreases bs.len(),
{
    if bs.len() == 0 {
        Seq::empty()
    } else {
        let rest = tool_messages(bs.drop_last());
        match bs.last() {
            AnthropicContentBlock::ToolResult { tool_use_id, content, .. } => rest.push(
                MessageModel {
                    role: "tool"@,
                    content: ContentModel::Text(tool_result_text(content)),
                    tool_calls: None,
                    tool_call_id: Some(tool_use_id@),
                },
            ),
            _ => rest,
        }
    }
}

/// The blocks other than `tool_result`, in order.
pub open spec fn non_tool_result_blocks(bs: Seq<AnthropicContentBlock>) -> Seq<AnthropicContentBlock>
    decreases bs.len(),
{
    if bs.len() == 0 {
        Seq::empty()
    } else {
        let rest = non_tool_result_blocks(bs.drop_last());
        match bs.last() {
            AnthropicContentBlock::ToolResult { .. } => rest,
            _ => rest.push(bs.last()),
        }
    }
}

/// The blocks that become content: all of them, or all but the tool results.
pub open spec fn kept_blocks(bs: Seq<AnthropicContentBlock>, skip_tool_results: bool) -> Seq<
    AnthropicContentBlock,
> {
    if skip_tool_results {
        non_tool_result_blocks(bs)
    } else {
        bs
    }
}

/// One content block as an OpenAI content part: images become `data:` URLs;
/// tool blocks, which never reach here from a user or assistant message,
/// become empty text.
pub open spec fn block_model(b: AnthropicContentBlock) -> ContentBlockModel {
    match b {
        AnthropicContentBlock::Image { source } => ContentBlockModel {
            content_type: "image_url"@,
            text: None,
            image_url: Some("data:"@ + source.media_type@ + ";base64,"@ + source.data@),
        },
        AnthropicContentBlock::Text { text } => ContentBlockModel {
            content_type: "text"@,
            text: Some(text@),
            image_url: None,
        },
        _ => ContentBlockModel { content_type: "text"@, text: Some(Seq::empty()), image_url: None },
    }
}

/// Content blocks as OpenAI content: a single text block is plain text,
/// anything else a list of parts.
pub open spec fn blocks_content(bs: Seq<AnthropicContentBlock>) -> ContentModel {
    if bs.len() == 1 && bs[0] is Text {
        match bs[0] {
            AnthropicContentBlock::Text { text } => ContentModel::Text(text@),
            _ => ContentModel::Null,
        }
    } else {
        ContentModel::Multi(bs.map_values(|b: AnthropicContentBlock| block_model(b)))
    }
}

/// A user message given as blocks: each tool result first, as a `tool`
/// message, then the remaining blocks (if any) as one user message.
pub open spec fn user_messages(bs: Seq<AnthropicContentBlock>) -> Seq<MessageModel> {
    let normal = non_tool_result_blocks(bs);
    tool_messages(bs) + if normal.len() == 0 {
        Seq::empty()
    } else {
        seq![
            MessageModel {
                role: "user"@,
                content: blocks_content(normal),
                tool_calls: None,
                tool_call_id: None,
            },
        ]
    }
}

/// The OpenAI messages that one Anthropic message becomes.
pub open spec fn converted_message(m: AnthropicMessage) -> Seq<MessageModel> {
    match m.content {
        AnthropicContent::SingleString(t) => seq![text_message(m.role@, t@)],
        AnthropicContent::TextBlocks(bs) => if m.role@ == "assistant"@ {
            seq![assistant_message(bs@)]
        } else if m.role@ == "user"@ {
            user_messages(bs@)
        } else {
            seq![
                MessageModel {
                    role: m.role@,
                    content: blocks_content(bs@),
                    tool_calls: None,
                    tool_call_id: None,
                },
            ]
        },
    }
}

/// The OpenAI messages that a list of Anthropic messages becomes, in order.
pub open spec fn converted_messages(ms: Seq<AnthropicMessage>) -> Seq<MessageModel>
    decreases ms.len(),
{
    if ms.len() == 0 {
        Seq::empty()
    } else {
        converted_messages(ms.drop_last()) + converted_message(ms.last())
    }
}

/// All messages of the converted request: the system prompt first, as a
/// `system` message, then the converted conversation.
pub open spec fn request_messages(req: AnthropicRequest) -> Seq<MessageModel> {
    (match req.system {
        Some(sys) => seq![text_message("system"@, system_text(sys))],
        None => Seq::empty(),
    }) + converted_messages(req.messages@)
}

/// A tool definition in OpenAI form.
pub open spec fn tool_model(t: AnthropicTool) -> ToolModel {
    ToolModel {
        tool_type: "function"@,
        name: tool_name(t),
        description: tool_description(t),
        parameters: tool_input_schema(t),
    }
}

/// A tool choice in OpenAI form: `any` becomes `required`.
pub open spec fn tool_choice_model(c: AnthropicToolChoice) -> ToolChoiceModel {
    match c {
        AnthropicToolChoice::Auto => ToolChoiceModel::Auto,
        AnthropicToolChoice::Any => ToolChoiceModel::Required,
        AnthropicToolChoice::Tool { name } => ToolChoiceModel::Function(name@),
    }
}

// ---------------------------------------------------------------------------
// Conversion
// ---------------------------------------------------------------------------

/// Converts an Anthropic request into the OpenAI request sent to the
/// backend. `top_k` has no OpenAI counterpart and is dropped.
pub fn convert_request(req: AnthropicRequest) -> (r: OpenAIRequest)
    ensures
        r.model@ == req.model@,
        messages_view(r.messages@) == request_messages(req),
        r.max_tokens == Some(req.max_tokens),
        opt_list_view(r.stop) == opt_list_view(req.stop_sequences),
        r.temperature == req.temperature,
        r.top_p == req.top_p,
        r.stream == req.stream,
        match (r.tools, req.tools) {
            (Some(ot), Some(at)) => ot@.map_values(|t: OpenAITool| t@) == at@.map_values(
                |t: AnthropicTool| tool_model(t),
            ),
            (None, None) => true,
            _ => false,
        },
        match (r.tool_choice, req.tool_choice) {
            (Some(oc), Some(ac)) => oc@ == tool_choice_model(ac),
            (None, None) => true,
            _ => false,
        },
{
    let ghost original = req;
    let AnthropicRequest {
        model,
        messages: anthropic_messages,
        system,
        max_tokens,
        stop_sequences,
        stream,
        temperature,
        top_p,
        top_k: _,
        tools,
        tool_choice,
    } = req;
    let mut messages: Vec<OpenAIMessage> = Vec::new();
    if let Some(sys) = &system {
        let m = OpenAIMessage {
            role: owned("system"),
            content: OpenAIContent::Text(system_text_of(sys)),
            tool_calls: None,
            tool_call_id: None,
        };
        messages.push(m);
    }
    let ghost prefix = messages_view(messages@);
    assert(prefix =~= match original.system {
        Some(sys) => seq![text_message("system"@, system_text(sys))],
        None => Seq::<MessageModel>::empty(),
    });
    let mut i: usize = 0;
    while i < anthropic_messages.len()
        invariant
            i <= anthropic_messages@.len(),
            messages_view(messages@) == prefix + converted_messages(
                anthropic_messages@.take(i as int),
            ),
        decreases anthropic_messages.len() - i,
    {
        assert(anthropic_messages@.take(i + 1).drop_last() =~= anthropic_messages@.take(i as int));
        convert_message(&anthropic_messages[i], &mut messages);
        i = i + 1;
    }
    assert(anthropic_messages@.take(anthropic_messages@.len() as int) =~= anthropic_messages@);
    let converted_tools = match &tools {
        Some(t) => Some(convert_tools(t)),
        None => None,
    };
    let converted_choice = match &tool_choice {
        Some(c) => Some(convert_tool_choice(c)),
        None => None,
    };
    OpenAIRequest {
        model,
        messages,
        max_tokens: Some(max_tokens),
        stop: stop_sequences,
        temperature,
        top_p,
        stream,
        tools: converted_tools,
        tool_choice: converted_choice,
    }
}

/// The system prompt as one text.
fn system_text_of(sys: &AnthropicSystem) -> (r: String)
    ensures
        r@ == system_text(*sys),
{
    match sys {
        AnthropicSystem::String(s) => s.clone(),
        AnthropicSystem::ContentList(blocks) => {
            let mut texts: Vec<String> = Vec::new();
            let mut i: usize = 0;
            while i < blocks.len()
                invariant
                    i <= blocks@.len(),
                    views_of(texts@) == system_block_texts(blocks@.take(i as int)),
                decreases blocks.len() - i,
            {
                assert(blocks@.take(i + 1).drop_last() =~= blocks@.take(i as int));
                let ghost before = texts@;
                if let Some(t) = &blocks[i].text {
                    texts.push(t.clone());
                    assert(views_of(texts@) =~= views_of(before).push(t@));
                }
                i = i + 1;
            }
            assert(blocks@.take(blocks@.len() as int) =~= blocks@);
            join_strings(&texts, "\n\n")
        },
    }
}

/// Appends the OpenAI messages that one Anthropic message becomes.
fn convert_message(msg: &AnthropicMessage, messages: &mut Vec<OpenAIMessage>)
    ensures
        messages_view(final(messages)@) == messages_view(old(messages)@) + converted_message(*msg),
{
    let ghost before = messages_view(messages@);
    match &msg.content {
        AnthropicContent::SingleString(text) => {
            messages.push(
                OpenAIMessage {
                    role: msg.role.clone(),
                    content: OpenAIContent::Text(text.clone()),
                    tool_calls: None,
                    tool_call_id: None,
                },
            );
            assert(messages_view(messages@) =~= before + converted_message(*msg));
        },
        AnthropicContent::TextBlocks(blocks) => {
            if text_eq(msg.role.as_str(), "assistant") {
                convert_assistant_blocks(blocks, messages);
                assert(messages_view(messages@) =~= before + converted_message(*msg));
            } else if text_eq(msg.role.as_str(), "user") {
                convert_user_blocks(blocks, messages);
            } else {
                let content = convert_content_blocks(blocks, false);
                messages.push(
                    OpenAIMessage {
                        role: msg.role.clone(),
                        content,
                        tool_calls: None,
                        tool_call_id: None,
                    },
                );
                assert(messages_view(messages@) =~= before + converted_message(*msg));
            }
        },
    }
}

/// Appends the message that an assistant's content blocks become.
fn convert_assistant_blocks(blocks: &Vec<AnthropicContentBlock>, messages: &mut Vec<OpenAIMessage>)
    ensures
        messages_view(final(messages)@) == messages_view(old(messages)@).push(
            assistant_message(blocks@),
        ),
{
    let mut text_parts: Vec<String> = Vec::new();
    let mut tool_calls: Vec<OpenAIToolCallRequest> = Vec::new();
    let mut i: usize = 0;
    while i < blocks.len()
        invariant
            i <= blocks@.len(),
            views_of(text_parts@) == text_block_texts(blocks@.take(i as int)),
            tool_calls@.map_values(|t: OpenAIToolCallRequest| t@) == tool_use_calls(
                blocks@.take(i as int),
            ),
        decreases blocks.len() - i,
    {
        assert(blocks@.take(i + 1).drop_last() =~= blocks@.take(i as int));
        let ghost texts_before = text_parts@;
        let ghost calls_before = tool_calls@;
        match &blocks[i] {
            AnthropicContentBlock::Text { text } => {
                text_parts.push(text.clone());
                assert(views_of(text_parts@) =~= views_of(texts_before).push(text@));
            },
            AnthropicContentBlock::ToolUse { id, name, input } => {
                let call = OpenAIToolCallRequest {
                    id: id.clone(),
                    call_type: owned("function"),
                    function: OpenAIFunctionCall { name: name.clone(), arguments: input.clone() },
                };
                tool_calls.push(call);
                assert(tool_calls@.map_values(|t: OpenAIToolCallRequest| t@) =~= calls_before.map_values(
                    |t: OpenAIToolCallRequest| t@,
                ).push(call@));
            },
            _ => {},
        }
        i = i + 1;
    }
    assert(blocks@.take(blocks@.len() as int) =~= blocks@);
    let content = if text_parts.len() == 0 {
        OpenAIContent::Null
    } else {
        OpenAIContent::Text(join_strings(&text_parts, ""))
    };
    let tool_calls_opt = if tool_calls.len() == 0 {
        None
    } else {
        Some(tool_calls)
    };
    let m = OpenAIMessage {
        role: owned("assistant"),
        content,
        tool_calls: tool_calls_opt,
        tool_call_id: None,
    };
    let ghost before = messages_view(messages@);
    messages.push(m);
    assert(messages_view(messages@) =~= before.push(m@));
}

/// The text of a tool result.
fn tool_result_text_of(content: &Option<ToolResultContent>) -> (r: String)
    ensures
        r@ == tool_result_text(*content),
{
    match content {
        Some(ToolResultContent::Text(t)) => t.clone(),
        Some(ToolResultContent::Blocks(blocks)) => {
            let mut texts: Vec<String> = Vec::new();
            let mut i: usize = 0;
            while i < blocks.len()
                invariant
                    i <= blocks@.len(),
                    views_of(texts@) == result_block_texts(blocks@.take(i as int)),
                decreases blocks.len() - i,
            {
                assert(blocks@.take(i + 1).drop_last() =~= blocks@.take(i as int));
                let ghost before = texts@;
                if let Some(t) = &blocks[i].text {
                    texts.push(t.clone());
                    assert(views_of(texts@) =~= views_of(before).push(t@));
                }
                i = i + 1;
            }
            assert(blocks@.take(blocks@.len() as int) =~= blocks@);
            join_strings(&texts, "\n")
        },
        None => String::new(),
    }
}

/// Appends the messages that a user's content blocks become: one `tool`
/// message per tool result, then the other blocks as one user message.
fn convert_user_blocks(blocks: &Vec<AnthropicContentBlock>, messages: &mut Vec<OpenAIMessage>)
    ensures
        messages_view(final(messages)@) == messages_view(old(messages)@) + user_messages(blocks@),
{
    let ghost start = messages_view(messages@);
    let mut has_normal = false;
    let mut i: usize = 0;
    while i < blocks.len()
        invariant
            i <= blocks@.len(),
            messages_view(messages@) == start + tool_messages(blocks@.take(i as int)),
            has_normal == (non_tool_result_blocks(blocks@.take(i as int)).len() > 0),
        decreases blocks.len() - i,
    {
        assert(blocks@.take(i + 1).drop_last() =~= blocks@.take(i as int));
        let ghost before = messages_view(messages@);
        match &blocks[i] {
            AnthropicContentBlock::ToolResult { tool_use_id, content, .. } => {
                let m = OpenAIMessage {
                    role: owned("tool"),
                    content: OpenAIContent::Text(tool_result_text_of(content)),
                    tool_calls: None,
                    tool_call_id: Some(tool_use_id.clone()),
                };
                messages.push(m);
                assert(messages_view(messages@) =~= before.push(m@));
            },
            _ => {
                has_normal = true;
            },
        }
        i = i + 1;
    }
    assert(blocks@.take(blocks@.len() as int) =~= blocks@);
    if has_normal {
        let content = convert_content_blocks(blocks, true);
        let m = OpenAIMessage {
            role: owned("user"),
            content,
            tool_calls: None,
            tool_call_id: None,
        };
        let ghost before = messages_view(messages@);
        messages.push(m);
        assert(messages_view(messages@) =~= before.push(m@));
        assert(messages_view(messages@) =~= start + user_messages(blocks@));
    } else {
        assert(messages_view(messages@) =~= start + user_messages(blocks@));
    }
}

/// Converts the kept content blocks (all, or all but the tool results) to
/// OpenAI content.
fn convert_content_blocks(blocks: &Vec<AnthropicContentBlock>, skip_tool_results: bool) -> (r:
    OpenAIContent)
    ensures
        r@ == blocks_content(kept_blocks(blocks@, skip_tool_results)),
{
    let mut converted: Vec<OpenAIContentBlock> = Vec::new();
    let mut first: usize = blocks.len();
    let mut i: usize = 0;
    while i < blocks.len()
        invariant
            i <= blocks@.len(),
            converted@.map_values(|b: OpenAIContentBlock| b@) == kept_blocks(
                blocks@.take(i as int),
                skip_tool_results,
            ).map_values(|b: AnthropicContentBlock| block_model(b)),
            kept_blocks(blocks@.take(i as int), skip_tool_results).len() > 0 ==> first < i
                && kept_blocks(blocks@.take(i as int), skip_tool_results)[0] == blocks@[first as int],
            kept_blocks(blocks@.take(i as int), skip_tool_results).len() == 0 ==> first
                == blocks@.len(),
        decreases blocks.len() - i,
    {
        assert(blocks@.take(i + 1).drop_last() =~= blocks@.take(i as int));
        let ghost kept_before = kept_blocks(blocks@.take(i as int), skip_tool_results);
        let ghost conv_before = converted@;
        let is_result = match &blocks[i] {
            AnthropicContentBlock::ToolResult { .. } => true,
            _ => false,
        };
        let keep = !skip_tool_results || !is_result;
        if keep {
            let b = convert_content_block(&blocks[i]);
            converted.push(b);
            if first == blocks.len() {
                first = i;
            }
            assert(kept_blocks(blocks@.take(i + 1), skip_tool_results) =~= kept_before.push(
                blocks@[i as int],
            ));
            assert(converted@.map_values(|b: OpenAIContentBlock| b@) =~= conv_before.map_values(
                |b: OpenAIContentBlock| b@,
            ).push(b@));
        } else {
            assert(kept_blocks(blocks@.take(i + 1), skip_tool_results) =~= kept_before);
        }
        i = i + 1;
    }
    assert(blocks@.take(blocks@.len() as int) =~= blocks@);
    if converted.len() == 1 {
        if let AnthropicContentBlock::Text { text } = &blocks[first] {
            return OpenAIContent::Text(text.clone());
        }
    }
    OpenAIContent::MultiContent(converted)
}

/// One content block as an OpenAI content part.
fn convert_content_block(block: &AnthropicContentBlock) -> (r: OpenAIContentBlock)
    ensures
        r@ == block_model(*block),
{
    match block {
        AnthropicContentBlock::Image { source } => {
            let mut url = concat("data:", source.media_type.as_str());
            url.append(";base64,");
            url.append(source.data.as_str());
            OpenAIContentBlock {
                content_type: owned("image_url"),
                text: None,
                image_url: Some(ImageUrl { url }),
            }
        },
        AnthropicContentBlock::Text { text } => OpenAIContentBlock {
            content_type: owned("text"),
            text: Some(text.clone()),
            image_url: None,
        },
        _ => OpenAIContentBlock {
            content_type: owned("text"),
            text: Some(String::new()),
            image_url: None,
        },
    }
}

/// Tool definitions in OpenAI form, in order.
fn convert_tools(tools: &Vec<AnthropicTool>) -> (r: Vec<OpenAITool>)
    ensures
        r@.map_values(|t: OpenAITool| t@) == tools@.map_values(|t: AnthropicTool| tool_model(t)),
{
    let mut r: Vec<OpenAITool> = Vec::new();
    let mut i: usize = 0;
    while i < tools.len()
        invariant
            i <= tools@.len(),
            r@.map_values(|t: OpenAITool| t@) == tools@.take(i as int).map_values(
                |t: AnthropicTool| tool_model(t),
            ),
        decreases tools.len() - i,
    {
        let ghost before = r@;
        let t = convert_tool(&tools[i]);
        r.push(t);
        assert(r@.map_values(|t: OpenAITool| t@) =~= before.map_values(|t: OpenAITool| t@).push(
            t@,
        ));
        assert(tools@.take(i + 1).map_values(|t: AnthropicTool| tool_model(t)) =~= tools@.take(
            i as int,
        ).map_values(|t: AnthropicTool| tool_model(t)).push(tool_model(tools@[i as int])));
        i = i + 1;
    }
    assert(tools@.take(tools@.len() as int) =~= tools@);
    r
}

/// One tool definition in OpenAI form.
fn convert_tool(tool: &AnthropicTool) -> (r: OpenAITool)
    ensures
        r@ == tool_model(*tool),
{
    let description = match tool.description() {
        Some(d) => Some(owned(d)),
        None => None,
    };
    OpenAITool {
        tool_type: owned("function"),
        function: OpenAIFunction {
            name: owned(tool.name()),
            description,
            parameters: tool.input_schema(),
        },
    }
}

/// A tool choice in OpenAI form.
fn convert_tool_choice(choice: &AnthropicToolChoice) -> (r: OpenAIToolChoice)
    ensures
        r@ == tool_choice_model(*choice),
{
    match choice {
        AnthropicToolChoice::Auto => OpenAIToolChoice::Auto,
        AnthropicToolChoice::Any => OpenAIToolChoice::Required,
        AnthropicToolChoice::Tool { name } => OpenAIToolChoice::Function { name: name.clone() },
    }
}

// ---------------------------------------------------------------------------
// Laws
// ---------------------------------------------------------------------------

/// Whether a content block is a `tool_use` block.
pub open spec fn is_tool_use(b: AnthropicContentBlock) -> bool {
    b is ToolUse
}

/// The `tool_use` blocks of `bs`, in order.
pub open spec fn tool_use_blocks(bs: Seq<AnthropicContentBlock>) -> Seq<AnthropicContentBlock> {
    bs.filter(|b: AnthropicContentBlock| is_tool_use(b))
}

proof fn lemma_tool_use_calls(bs: Seq<AnthropicContentBlock>)
    ensures
        tool_use_calls(bs).len() == tool_use_blocks(bs).len(),
        forall|i: int|
            0 <= i < tool_use_calls(bs).len() ==> (#[trigger] tool_use_blocks(bs)[i] matches AnthropicContentBlock::ToolUse { id, name, input } && tool_use_calls(
                bs,
            )[i] == ToolCallModel {
                id: id@,
                call_type: "function"@,
                name: name@,
                arguments: input@,
            }),
    decreases bs.len(),
{
    reveal(Seq::filter);
    let pred = |b: AnthropicContentBlock| is_tool_use(b);
    if bs.len() > 0 {
        lemma_tool_use_calls(bs.drop_last());
        let f0 = bs.drop_last().filter(pred);
        assert(tool_use_blocks(bs.drop_last()) == f0);
        assert(tool_use_blocks(bs) == bs.filter(pred));
        assert(bs.filter(pred) == if pred(bs.last()) {
            f0.push(bs.last())
        } else {
            f0
        });
    }
}

/// An assistant message's `tool_use` blocks all become its tool calls: one
/// call per block, in the blocks' order, each with the block's id, name and
/// input as arguments; a message without `tool_use` blocks has no tool
/// calls.
pub proof fn law_assistant_tool_calls(m: AnthropicMessage)
    requires
        m.role@ == "assistant"@,
        m.content is TextBlocks,
    ensures
        converted_message(m).len() == 1,
        ({
            let bs = m.content->TextBlocks_0@;
            let uses = tool_use_blocks(bs);
            let msg = converted_message(m)[0];
            &&& msg.role == "assistant"@
            &&& uses.len() == 0 ==> msg.tool_calls is None
            &&& uses.len() > 0 ==> (msg.tool_calls matches Some(calls) && calls.len() == uses.len()
                && forall|i: int|
                0 <= i < uses.len() ==> (#[trigger] uses[i] matches AnthropicContentBlock::ToolUse {
                    id,
                    name,
                    input,
                } && calls[i] == ToolCallModel {
                    id: id@,
                    call_type: "function"@,
                    name: name@,
                    arguments: input@,
                }))
        }),
{
    let bs = m.content->TextBlocks_0@;
    lemma_tool_use_calls(bs);
}

/// A converted tool keeps the schema its definition gives: the parameters
/// of an OpenAI-style definition, the input schema of a native one; only an
/// OpenAI-style definition without parameters gets the empty object `{}`.
pub proof fn law_tool_schema_kept(t: AnthropicTool)
    ensures
        match t {
            AnthropicTool::OpenAIStyle { function, .. } => match function.parameters {
                Some(p) => tool_model(t).parameters == p@,
                None => tool_model(t).parameters == "{}"@,
            },
            AnthropicTool::Native { input_schema, .. } => tool_model(t).parameters
                == input_schema@,
        },
        tool_model(t).name == match t {
            AnthropicTool::OpenAIStyle { function, .. } => function.name@,
            AnthropicTool::Native { name, .. } => name@,
        },
        tool_model(t).tool_type == "function"@,
{
    reveal_strlit("{}");
    assert("{}"@ =~= seq!['{', '}']);
}

/// Whether a content block is a `tool_result` block.
pub open spec fn is_tool_result(b: AnthropicContentBlock) -> bool {
    b is ToolResult
}

/// The `tool_result` blocks of `bs`, in order.
pub open spec fn tool_result_blocks(bs: Seq<AnthropicContentBlock>) -> Seq<AnthropicContentBlock> {
    bs.filter(|b: AnthropicContentBlock| is_tool_result(b))
}

proof fn lemma_tool_messages(bs: Seq<AnthropicContentBlock>)
    ensures
        tool_messages(bs).len() == tool_result_blocks(bs).len(),
        forall|i: int|
            0 <= i < tool_messages(bs).len() ==> (#[trigger] tool_result_blocks(bs)[i] matches AnthropicContentBlock::ToolResult {
                tool_use_id,
                content,
                ..
            } && tool_messages(bs)[i].role == "tool"@ && tool_messages(bs)[i].tool_call_id == Some(
                tool_use_id@,
            ) && tool_messages(bs)[i].tool_calls is None && (content matches Some(
                ToolResultContent::Text(t),
            ) ==> tool_messages(bs)[i].content == ContentModel::Text(t@))),
        non_tool_result_blocks(bs).len() + tool_result_blocks(bs).len() == bs.len(),
    decreases bs.len(),
{
    reveal(Seq::filter);
    let pred = |b: AnthropicContentBlock| is_tool_result(b);
    if bs.len() > 0 {
        lemma_tool_messages(bs.drop_last());
        let f0 = bs.drop_last().filter(pred);
        assert(tool_result_blocks(bs.drop_last()) == f0);
        assert(tool_result_blocks(bs) == bs.filter(pred));
        assert(bs.filter(pred) == if pred(bs.last()) {
            f0.push(bs.last())
        } else {
            f0
        });
    }
}

/// A user message given as blocks becomes one `tool` message per
/// `tool_result` block, in order, each answering the block's `tool_use_id`
/// (with the block's text when its content is a string), followed by one
/// user message when any other block is left.
pub proof fn law_user_tool_results(m: AnthropicMessage)
    requires
        m.role@ == "user"@,
        m.content is TextBlocks,
    ensures
        ({
            let bs = m.content->TextBlocks_0@;
            let results = tool_result_blocks(bs);
            let out = converted_message(m);
            &&& out.len() == results.len() + if results.len() < bs.len() {
                1int
            } else {
                0int
            }
            &&& forall|i: int|
                0 <= i < results.len() ==> (#[trigger] results[i] matches AnthropicContentBlock::ToolResult {
                    tool_use_id,
                    content,
                    ..
                } && out[i].role == "tool"@ && out[i].tool_call_id == Some(tool_use_id@)
                    && out[i].tool_calls is None && (content matches Some(
                    ToolResultContent::Text(t),
                ) ==> out[i].content == ContentModel::Text(t@)))
            &&& results.len() < bs.len() ==> out[out.len() - 1].role == "user"@
        }),
{
    let bs = m.content->TextBlocks_0@;
    reveal_strlit("assistant");
    reveal_strlit("user");
    assert(m.role@.len() == 4 && "assistant"@.len() == 9);
    assert(m.role@ != "assistant"@);
    lemma_tool_messages(bs);
    let tm = tool_messages(bs);
    let out = converted_message(m);
    assert(out == user_messages(bs));
    assert forall|i: int| 0 <= i < tm.len() implies out[i] == tm[i] by {}
}

/// The stop reason of an OpenAI finish reason: `stop` is `end_turn`,
/// `length` is `max_tokens`, `tool_calls` is `tool_use`, and any other
/// reason passes unchanged.
pub proof fn law_stop_reasons(reason: Seq<char>)
    ensures
        reason == "stop"@ ==> stop_reason_for(reason) == "end_turn"@,
        reason == "length"@ ==> stop_reason_for(reason) == "max_tokens"@,
        reason == "tool_calls"@ ==> stop_reason_for(reason) == "tool_use"@,
        reason != "stop"@ && reason != "length"@ && reason != "tool_calls"@ ==> stop_reason_for(
            reason,
        ) == reason,
{
    reveal_strlit("stop");
    reveal_strlit("length");
    reveal_strlit("tool_calls");
    assert("stop"@.len() == 4 && "length"@.len() == 6 && "tool_calls"@.len() == 10);
}

} // verus!
