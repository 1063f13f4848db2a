//! Translation between canonical messages and the OpenAI-compatible wire
//! shape, and checks on provider error bodies.

use vstd::prelude::*;
use crate::json::{
    JsonValue, JsonSpec, str_eq, json_get, json_view_seq, lemma_json_vec_deep_view,
    lemma_json_fields_deep_view, obj1, obj2, obj3, arr_value,
};
use crate::content::ContentSpec;
use crate::errors::{AgentError, AgentErrorSpec, error_message};
use crate::message::{
    Role, Message, MessageContent, MessageSpec, MessageContentSpec, ToolRequestSpec,
};
use crate::tool::{Tool, ToolCall, ToolSpec, ToolCallSpec};
use crate::codec::{rendered_json, parsed_json};

verus! {

/// `s` begins with the characters of `p`.
pub open spec fn text_starts_with(s: Seq<char>, p: Seq<char>) -> bool {
    p.len() <= s.len() && s.subrange(0, p.len() as int) == p
}

/// How a role is written on the wire.
pub open spec fn role_text(r: Role) -> Seq<char> {
    match r {
        Role::User => "user"@,
        Role::Assistant => "assistant"@,
    }
}

/// The data URL an image is sent as.
pub open spec fn image_url_text(data: Seq<char>, mime: Seq<char>) -> Seq<char> {
    "data:"@ + mime + ";base64,"@ + data
}

/// The text a tool error is reported with.
pub open spec fn error_text(e: AgentErrorSpec) -> Seq<char> {
    "Error: "@ + error_message(e)
}

/// The note standing in for an image inside a tool result.
pub open spec fn image_note_text() -> Seq<char> {
    "This tool result included an image that is uploaded in the next message."@
}

/// The text an image inside a tool result is described with.
pub open spec fn image_data_text(data: Seq<char>, mime: Seq<char>) -> Seq<char> {
    "image data: "@ + data + ", type: "@ + mime
}

/// A `tool`-role wire message carrying `content` for the request `id`.
pub open spec fn tool_entry(content: JsonSpec, id: Seq<char>) -> JsonSpec {
    JsonSpec::Obj(
        seq![
            ("role"@, JsonSpec::Str("tool"@)),
            ("content"@, content),
            ("tool_call_id"@, JsonSpec::Str(id)),
        ],
    )
}

/// The wire content of a message that is a single image.
pub open spec fn image_content_wire(data: Seq<char>, mime: Seq<char>) -> JsonSpec {
    JsonSpec::Arr(
        seq![
            JsonSpec::Obj(
                seq![
                    ("type"@, JsonSpec::Str("image_url"@)),
                    (
                        "image_url"@,
                        JsonSpec::Obj(seq![("url"@, JsonSpec::Str(image_url_text(data, mime)))]),
                    ),
                ],
            ),
        ],
    )
}

/// The `tool`-role wire message standing in for an image in a tool result.
pub open spec fn image_note_wire(id: Seq<char>) -> JsonSpec {
    tool_entry(
        JsonSpec::Arr(
            seq![
                JsonSpec::Obj(
                    seq![
                        ("type"@, JsonSpec::Str("text"@)),
                        ("text"@, JsonSpec::Str(image_note_text())),
                    ],
                ),
            ],
        ),
        id,
    )
}

/// One entry of a wire `tool_calls` array.
pub open spec fn tool_call_wire(id: Seq<char>, c: ToolCallSpec) -> JsonSpec {
    JsonSpec::Obj(
        seq![
            ("id"@, JsonSpec::Str(id)),
            ("type"@, JsonSpec::Str("function"@)),
            (
                "function"@,
                JsonSpec::Obj(
                    seq![
                        ("name"@, JsonSpec::Str(sanitized_name(c.name))),
                        ("arguments"@, JsonSpec::Str(rendered_json(c.arguments))),
                    ],
                ),
            ),
        ],
    )
}

/// The wire message one piece of a tool result becomes.
pub open spec fn response_content_wire(id: Seq<char>, c: ContentSpec) -> JsonSpec {
    match c {
        ContentSpec::Text(t) => if text_starts_with(t, "image:"@) {
            image_note_wire(id)
        } else {
            tool_entry(JsonSpec::Str(t), id)
        },
        ContentSpec::Image(data, mime) => tool_entry(
            JsonSpec::Str(image_data_text(data, mime)),
            id,
        ),
    }
}

/// The wire messages the pieces of a tool result become, in order.
pub open spec fn response_contents_wire(id: Seq<char>, cs: Seq<ContentSpec>) -> Seq<JsonSpec>
    decreases cs.len(),
{
    if cs.len() == 0 {
        Seq::empty()
    } else {
        response_contents_wire(id, cs.drop_last()).push(response_content_wire(id, cs.last()))
    }
}

/// What one message contributes to the wire: the chat message's own content
/// and tool calls, and the `tool`-role messages that follow it.
#[verifier::ext_equal]
pub struct WireParts {
    pub content: Option<JsonSpec>,
    pub tool_calls: Seq<JsonSpec>,
    pub tail: Seq<JsonSpec>,
}

/// How one content part extends the wire parts gathered so far.
pub open spec fn wire_step(st: WireParts, part: MessageContentSpec) -> WireParts {
    match part {
        MessageContentSpec::Text(t) => WireParts { content: Some(JsonSpec::Str(t)), ..st },
        MessageContentSpec::Image(data, mime) => WireParts {
            content: Some(image_content_wire(data, mime)),
            ..st
        },
        MessageContentSpec::ToolRequest(req) => match req.tool_call {
            Ok(c) => WireParts { tool_calls: st.tool_calls.push(tool_call_wire(req.id, c)), ..st },
            Err(e) => WireParts {
                tail: st.tail.push(tool_entry(JsonSpec::Str(error_text(e)), req.id)),
                ..st
            },
        },
        MessageContentSpec::ToolResponse(resp) => match resp.tool_result {
            Ok(cs) => WireParts { tail: st.tail + response_contents_wire(resp.id, cs), ..st },
            Err(e) => WireParts {
                tail: st.tail.push(tool_entry(JsonSpec::Str(error_text(e)), resp.id)),
                ..st
            },
        },
    }
}

/// The wire parts a whole content list gathers.
pub open spec fn wire_parts(parts: Seq<MessageContentSpec>) -> WireParts
    decreases parts.len(),
{
    if parts.len() == 0 {
        WireParts { content: None, tool_calls: Seq::empty(), tail: Seq::empty() }
    } else {
        wire_step(wire_parts(parts.drop_last()), parts.last())
    }
}

/// The fields of the chat message leading a message's wire form.
pub open spec fn head_fields(role: Role, st: WireParts) -> Seq<(Seq<char>, JsonSpec)> {
    seq![("role"@, JsonSpec::Str(role_text(role)))] + (match st.content {
        Some(c) => seq![("content"@, c)],
        None => Seq::empty(),
    }) + (if st.tool_calls.len() > 0 {
        seq![("tool_calls"@, JsonSpec::Arr(st.tool_calls))]
    } else {
        Seq::empty()
    })
}

/// Every wire message one canonical message becomes, in order.
pub open spec fn message_wire(m: MessageSpec) -> Seq<JsonSpec> {
    let st = wire_parts(m.content);
    if st.content is Some || st.tool_calls.len() > 0 {
        seq![JsonSpec::Obj(head_fields(m.role, st))] + st.tail
    } else {
        st.tail
    }
}

/// Every wire message a conversation becomes, in order.
pub open spec fn messages_wire(ms: Seq<MessageSpec>) -> Seq<JsonSpec>
    decreases ms.len(),
{
    if ms.len() == 0 {
        Seq::empty()
    } else {
        messages_wire(ms.drop_last()) + message_wire(ms.last())
    }
}

/// The characters a function name may hold.
pub open spec fn is_name_char(c: char) -> bool {
    ('a' <= c && c <= 'z') || ('A' <= c && c <= 'Z') || ('0' <= c && c <= '9') || c == '_' || c
        == '-'
}

/// A valid function name: non-empty, every character allowed.
pub open spec fn valid_name(s: Seq<char>) -> bool {
    s.len() > 0 && forall|i: int| 0 <= i < s.len() ==> is_name_char(#[trigger] s[i])
}

/// The name with every disallowed character replaced by an underscore.
pub open spec fn sanitized_name(s: Seq<char>) -> Seq<char> {
    s.map_values(|c: char| if is_name_char(c) { c } else { '_' })
}

/// Two string slices joined.
fn concat2(a: &str, b: &str) -> (r: String)
    ensures
        r@ == a@ + b@,
{
    let mut s = a.to_owned();
    s.append(b);
    s
}

/// `s` begins with the characters of `p`.
pub fn str_starts_with(s: &str, p: &str) -> (r: bool)
    ensures
        r == text_starts_with(s@, p@),
{
    let p_len = p.unicode_len();
    let s_len = s.unicode_len();
    if p_len > s_len {
        return false;
    }
    let mut i: usize = 0;
    while i < p_len
        invariant
            i <= p_len,
            p_len == p@.len(),
            s_len == s@.len(),
            p_len <= s_len,
            forall|j: int| 0 <= j < i ==> s@[j] == p@[j],
        decreases p_len - i,
    {
        if s.get_char(i) != p.get_char(i) {
            proof {
                assert(s@.subrange(0, p@.len() as int)[i as int] == s@[i as int]);
            }
            return false;
        }
        i += 1;
    }
    proof {
        assert(s@.subrange(0, p@.len() as int) =~= p@);
    }
    true
}

/// The `tool`-role wire message reporting a tool error.
fn wire_error_entry(id: &String, e: &AgentError) -> (r: JsonValue)
    ensures
        r.deep_view() == tool_entry(JsonSpec::Str(error_text(e.deep_view())), id@),
{
    let text = concat2("Error: ", e.message().as_str());
    obj3(
        "role",
        JsonValue::string("tool"),
        "content",
        JsonValue::Str(text),
        "tool_call_id",
        JsonValue::Str(id.clone()),
    )
}

/// The wire content for a message that is a single image.
fn wire_image_content(data: &String, mime: &String) -> (r: JsonValue)
    ensures
        r.deep_view() == image_content_wire(data@, mime@),
{
    let mut url = ("data:").to_owned();
    url.append(mime.as_str());
    url.append(";base64,");
    url.append(data.as_str());
    let inner = obj1("url", JsonValue::Str(url));
    let entry = obj2("type", JsonValue::string("image_url"), "image_url", inner);
    let ghost g = entry.deep_view();
    let mut items: Vec<JsonValue> = Vec::new();
    items.push(entry);
    proof {
        lemma_json_vec_deep_view(&items);
        assert(items.deep_view() =~= seq![g]);
    }
    arr_value(items)
}

/// The `tool`-role wire message standing in for an image in a tool result.
fn wire_image_note(id: &String) -> (r: JsonValue)
    ensures
        r.deep_view() == image_note_wire(id@),
{
    let note = JsonValue::string(
        "This tool result included an image that is uploaded in the next message.",
    );
    let inner = obj2("type", JsonValue::string("text"), "text", note);
    let ghost g = inner.deep_view();
    let mut items: Vec<JsonValue> = Vec::new();
    items.push(inner);
    proof {
        lemma_json_vec_deep_view(&items);
        assert(items.deep_view() =~= seq![g]);
    }
    let content = arr_value(items);
    obj3(
        "role",
        JsonValue::string("tool"),
        "content",
        content,
        "tool_call_id",
        JsonValue::Str(id.clone()),
    )
}

/// The `tool`-role wire message describing an image in a tool result.
fn wire_image_data_entry(id: &String, data: &String, mime: &String) -> (r: JsonValue)
    ensures
        r.deep_view() == tool_entry(JsonSpec::Str(image_data_text(data@, mime@)), id@),
{
    let mut text = ("image data: ").to_owned();
    text.append(data.as_str());
    text.append(", type: ");
    text.append(mime.as_str());
    obj3(
        "role",
        JsonValue::string("tool"),
        "content",
        JsonValue::Str(text),
        "tool_call_id",
        JsonValue::Str(id.clone()),
    )
}

/// One entry of the wire `tool_calls` array.
fn wire_tool_call_entry(id: &String, name: &String, arguments: &JsonValue) -> (r: JsonValue)
    ensures
        r.deep_view() == tool_call_wire(
            id@,
            ToolCallSpec { name: name@, arguments: arguments.deep_view() },
        ),
{
    let sanitized = sanitize_function_name(name.as_str());
    let rendered = crate::codec::render_json(arguments);
    let function = obj2(
        "name",
        JsonValue::Str(sanitized),
        "arguments",
        JsonValue::Str(rendered),
    );
    obj3(
        "id",
        JsonValue::Str(id.clone()),
        "type",
        JsonValue::string("function"),
        "function",
        function,
    )
}

/// The wire message one piece of a tool result becomes.
fn wire_response_content(id: &String, c: &crate::content::Content) -> (r: JsonValue)
    ensures
        r.deep_view() == response_content_wire(id@, c.deep_view()),
{
    match c {
        crate::content::Content::Text(t) => {
            if str_starts_with(t.text.as_str(), "image:") {
                wire_image_note(id)
            } else {
                obj3(
                    "role",
                    JsonValue::string("tool"),
                    "content",
                    JsonValue::Str(t.text.clone()),
                    "tool_call_id",
                    JsonValue::Str(id.clone()),
                )
            }
        },
        crate::content::Content::Image(img) => wire_image_data_entry(id, &img.data, &img.mime_type),
    }
}

/// One canonical message's wire messages, appended to `out` in order.
fn append_message_wire(out: &mut Vec<JsonValue>, message: &Message)
    ensures
        final(out).deep_view() == old(out).deep_view() + message_wire(message.deep_view()),
{
    let ghost parts_spec = message.deep_view().content;
    let mut content_val: Option<JsonValue> = None;
    let mut tool_calls: Vec<JsonValue> = Vec::new();
    let mut tail: Vec<JsonValue> = Vec::new();
    let n = message.content.len();
    let mut i: usize = 0;
    while i < n
        invariant
            i <= n,
            n == message.content@.len(),
            parts_spec == message.deep_view().content,
            parts_spec.len() == n,
            match content_val {
                Some(v) => wire_parts(parts_spec.take(i as int)).content == Some(v.deep_view()),
                None => wire_parts(parts_spec.take(i as int)).content is None,
            },
            tool_calls.deep_view() == wire_parts(parts_spec.take(i as int)).tool_calls,
            tail.deep_view() == wire_parts(parts_spec.take(i as int)).tail,
        decreases n - i,
    {
        let ghost st = wire_parts(parts_spec.take(i as int));
        proof {
            assert(parts_spec.take(i as int + 1).drop_last() =~= parts_spec.take(i as int));
            assert(parts_spec.take(i as int + 1).last() == parts_spec[i as int]);
            assert(wire_parts(parts_spec.take(i as int + 1)) == wire_step(st, parts_spec[i as int]));
        }
        let part = &message.content[i];
        proof {
            assert(part.deep_view() == parts_spec[i as int]);
        }
        match part {
            MessageContent::Text(t) => {
                content_val = Some(JsonValue::Str(t.text.clone()));
            },
            MessageContent::Image(img) => {
                content_val = Some(wire_image_content(&img.data, &img.mime_type));
            },
            MessageContent::ToolRequest(req) => {
                match &req.tool_call {
                    Ok(call) => {
                        let ghost before = tool_calls.deep_view();
                        let entry = wire_tool_call_entry(&req.id, &call.name, &call.arguments);
                        let ghost g = entry.deep_view();
                        tool_calls.push(entry);
                        proof {
                            assert(tool_calls.deep_view() =~= before.push(g));
                        }
                    },
                    Err(e) => {
                        let ghost before = tail.deep_view();
                        let entry = wire_error_entry(&req.id, e);
                        let ghost g = entry.deep_view();
                        tail.push(entry);
                        proof {
                            assert(tail.deep_view() =~= before.push(g));
                        }
                    },
                }
            },
            MessageContent::ToolResponse(resp) => {
                match &resp.tool_result {
                    Ok(contents) => {
                        let ghost base = tail.deep_view();
                        let ghost cs = contents.deep_view();
                        let m = contents.len();
                        let mut k: usize = 0;
                        while k < m
                            invariant
                                k <= m,
                                m == contents@.len(),
                                cs == contents.deep_view(),
                                cs.len() == m,
                                tail.deep_view() == base + response_contents_wire(
                                    resp.id@,
                                    cs.take(k as int),
                                ),
                        decreases m - k,
                        {
                            proof {
                                assert(cs.take(k as int + 1).drop_last() =~= cs.take(k as int));
                                assert(cs.take(k as int + 1).last() == cs[k as int]);
                                assert(contents@[k as int].deep_view() == cs[k as int]);
                            }
                            let ghost before = tail.deep_view();
                            let entry = wire_response_content(&resp.id, &contents[k]);
                            let ghost g = entry.deep_view();
                            tail.push(entry);
                            proof {
                                assert(tail.deep_view() =~= before.push(g));
                            }
                            k += 1;
                        }
                        proof {
                            assert(cs.take(m as int) =~= cs);
                            assert(tail.deep_view() =~= st.tail + response_contents_wire(
                                resp.id@,
                                cs,
                            ));
                        }
                    },
                    Err(e) => {
                        let ghost before = tail.deep_view();
                        let entry = wire_error_entry(&resp.id, e);
                        let ghost g = entry.deep_view();
                        tail.push(entry);
                        proof {
                            assert(tail.deep_view() =~= before.push(g));
                        }
                    },
                }
            },
        }
        i += 1;
    }
    proof {
        assert(parts_spec.take(n as int) =~= parts_spec);
    }
    let ghost st = wire_parts(parts_spec);
    let ghost prev = out.deep_view();
    let emit_head = content_val.is_some() || tool_calls.len() > 0;
    if emit_head {
        let role_val = match message.role {
            Role::User => JsonValue::string("user"),
            Role::Assistant => JsonValue::string("assistant"),
        };
        let ghost g_role = role_val.deep_view();
        let mut fields: Vec<(String, JsonValue)> = Vec::new();
        fields.push(("role".to_owned(), role_val));
        match content_val {
            Some(cv) => {
                let ghost g_cv = cv.deep_view();
                fields.push(("content".to_owned(), cv));
            },
            None => {},
        }
        if tool_calls.len() > 0 {
            let ghost g_calls = tool_calls.deep_view();
            let calls_val = arr_value(tool_calls);
            fields.push(("tool_calls".to_owned(), calls_val));
        }
        proof {
            lemma_json_fields_deep_view(&fields);
            assert(fields.deep_view() =~= head_fields(message.deep_view().role, st));
        }
        let head = JsonValue::Obj(fields);
        out.push(head);
    }
    out.append(&mut tail);
    proof {
        assert(out.deep_view() =~= prev + message_wire(message.deep_view()));
    }
}

/// Every wire message the conversation becomes, in order: one chat entry
/// per message that has content or tool calls, followed by one
/// `tool`-role entry for each tool error and each piece of a tool result.
pub fn messages_to_openai_spec(messages: &[Message]) -> (r: Vec<JsonValue>)
    ensures
        r.deep_view() == messages_wire(messages.deep_view()),
{
    let ghost ms = messages.deep_view();
    let mut out: Vec<JsonValue> = Vec::new();
    let n = messages.len();
    let mut i: usize = 0;
    proof {
        assert(out.deep_view() =~= messages_wire(ms.take(0)));
    }
    while i < n
        invariant
            i <= n,
            n == messages@.len(),
            ms == messages.deep_view(),
            ms.len() == n,
            out.deep_view() == messages_wire(ms.take(i as int)),
        decreases n - i,
    {
        proof {
            assert(ms.take(i as int + 1).drop_last() =~= ms.take(i as int));
            assert(ms.take(i as int + 1).last() == ms[i as int]);
            assert(messages@[i as int].deep_view() == ms[i as int]);
        }
        append_message_wire(&mut out, &messages[i]);
        i += 1;
    }
    proof {
        assert(ms.take(n as int) =~= ms);
    }
    out
}

/// Whether `name` is non-empty and made only of letters, digits,
/// underscores and hyphens.
pub fn is_valid_function_name(name: &str) -> (r: bool)
    ensures
        r == valid_name(name@),
{
    let n = name.unicode_len();
    if n == 0 {
        return false;
    }
    let mut i: usize = 0;
    while i < n
        invariant
            i <= n,
            n == name@.len(),
            forall|j: int| 0 <= j < i ==> is_name_char(#[trigger] name@[j]),
        decreases n - i,
    {
        let c = name.get_char(i);
        let ok = ('a' <= c && c <= 'z') || ('A' <= c && c <= 'Z') || ('0' <= c && c <= '9') || c
            == '_' || c == '-';
        if !ok {
            return false;
        }
        i += 1;
    }
    true
}

/// The name with every disallowed character replaced by an underscore.
pub fn sanitize_function_name(name: &str) -> (r: String)
    ensures
        r@ == sanitized_name(name@),
{
    let n = name.unicode_len();
    let mut out = String::new();
    let mut i: usize = 0;
    while i < n
        invariant
            i <= n,
            n == name@.len(),
            out@ == sanitized_name(name@.subrange(0, i as int)),
        decreases n - i,
    {
        let c = name.get_char(i);
        let ok = ('a' <= c && c <= 'z') || ('A' <= c && c <= 'Z') || ('0' <= c && c <= '9') || c
            == '_' || c == '-';
        if ok {
            let piece = name.substring_char(i, i + 1);
            out.append(piece);
        } else {
            out.append("_");
            proof {
                reveal_strlit("_");
            }
        }
        proof {
            assert(out@ =~= sanitized_name(name@.subrange(0, i as int + 1)));
        }
        i += 1;
    }
    proof {
        assert(name@.subrange(0, n as int) =~= name@);
    }
    out
}


/// The wire entry one tool descriptor becomes.
pub open spec fn tool_wire(t: ToolSpec) -> JsonSpec {
    JsonSpec::Obj(
        seq![
            ("type"@, JsonSpec::Str("function"@)),
            (
                "function"@,
                JsonSpec::Obj(
                    seq![
                        ("name"@, JsonSpec::Str(t.name)),
                        ("description"@, JsonSpec::Str(t.description)),
                        ("parameters"@, t.input_schema),
                    ],
                ),
            ),
        ],
    )
}

/// The wire entries a tool list becomes, in order.
pub open spec fn tools_wire(ts: Seq<ToolSpec>) -> Seq<JsonSpec>
    decreases ts.len(),
{
    if ts.len() == 0 {
        Seq::empty()
    } else {
        tools_wire(ts.drop_last()).push(tool_wire(ts.last()))
    }
}

/// No two tools share a name.
pub open spec fn tool_names_unique(ts: Seq<ToolSpec>) -> bool {
    forall|i: int, j: int| 0 <= i < j < ts.len() ==> ts[i].name != ts[j].name
}

/// Two tools were given the same name.
#[derive(Debug, PartialEq)]
pub struct DuplicateToolNameError {
    pub name: String,
}

impl DuplicateToolNameError {
    /// The error written out as text.
    pub fn to_text(&self) -> (r: String)
        ensures
            r@ == "Duplicate tool name: "@ + self.name@,
    {
        concat2("Duplicate tool name: ", self.name.as_str())
    }
}

/// Whether `name` is the view of some element of `seen`.
fn name_seen(seen: &Vec<String>, name: &String) -> (r: bool)
    ensures
        r == exists|k: int| 0 <= k < seen@.len() && (#[trigger] seen@[k])@ == name@,
{
    let n = seen.len();
    let mut i: usize = 0;
    while i < n
        invariant
            i <= n,
            n == seen@.len(),
            forall|k: int| 0 <= k < i ==> (#[trigger] seen@[k])@ != name@,
        decreases n - i,
    {
        if str_eq(seen[i].as_str(), name.as_str()) {
            return true;
        }
        i += 1;
    }
    false
}

/// The wire entry for one tool.
fn tool_wire_entry(t: &Tool) -> (r: JsonValue)
    ensures
        r.deep_view() == tool_wire(t.deep_view()),
{
    let function = obj3(
        "name",
        JsonValue::Str(t.name.clone()),
        "description",
        JsonValue::Str(t.description.clone()),
        "parameters",
        t.input_schema.duplicate(),
    );
    obj2("type", JsonValue::string("function"), "function", function)
}

/// The wire entries for a tool list: one per tool, in order, or the first
/// name that repeats. Succeeds exactly when all names are distinct.
pub fn tools_to_openai_spec(tools: &[Tool]) -> (r: Result<Vec<JsonValue>, DuplicateToolNameError>)
    ensures
        r is Ok <==> tool_names_unique(tools.deep_view()),
        r matches Ok(v) ==> v.deep_view() == tools_wire(tools.deep_view()),
        r matches Err(e) ==> exists|i: int, j: int|
            0 <= i < j < tools.deep_view().len()
                && (#[trigger] tools.deep_view()[i]).name == (#[trigger] tools.deep_view()[j]).name
                && e.name@ == tools.deep_view()[j].name,
{
    let ghost ts = tools.deep_view();
    let mut seen: Vec<String> = Vec::new();
    let mut out: Vec<JsonValue> = Vec::new();
    let n = tools.len();
    let mut i: usize = 0;
    proof {
        assert(out.deep_view() =~= tools_wire(ts.take(0)));
    }
    while i < n
        invariant
            i <= n,
            n == tools@.len(),
            ts == tools.deep_view(),
            ts.len() == n,
            seen@.len() == i,
            forall|k: int| 0 <= k < i ==> (#[trigger] seen@[k])@ == ts[k].name,
            forall|a: int, b: int| 0 <= a < b < i ==> ts[a].name != ts[b].name,
            out.deep_view() == tools_wire(ts.take(i as int)),
        decreases n - i,
    {
        proof {
            assert(tools@[i as int].deep_view() == ts[i as int]);
        }
        if name_seen(&seen, &tools[i].name) {
            return Err(DuplicateToolNameError { name: tools[i].name.clone() });
        }
        proof {
            assert forall|a: int| 0 <= a < i implies ts[a].name != ts[i as int].name by {
                assert(seen@[a]@ == ts[a].name);
                assert(seen@[a]@ != tools@[i as int].name@);
            }
        }
        seen.push(tools[i].name.clone());
        let ghost before = out.deep_view();
        let entry = tool_wire_entry(&tools[i]);
        let ghost g = entry.deep_view();
        out.push(entry);
        proof {
            assert(ts.take(i as int + 1).drop_last() =~= ts.take(i as int));
            assert(ts.take(i as int + 1).last() == ts[i as int]);
            assert(out.deep_view() =~= before.push(g));
        }
        i += 1;
    }
    proof {
        assert(ts.take(n as int) =~= ts);
    }
    Ok(out)
}


/// The value under `key`, or JSON null where there is none.
pub open spec fn json_get_or_null(v: JsonSpec, key: Seq<char>) -> JsonSpec {
    match json_get(v, key) {
        Some(w) => w,
        None => JsonSpec::Null,
    }
}

/// The item at `i`, or JSON null where there is none.
pub open spec fn json_at_or_null(v: JsonSpec, i: int) -> JsonSpec {
    match v {
        JsonSpec::Arr(items) => if 0 <= i < items.len() {
            items[i]
        } else {
            JsonSpec::Null
        },
        _ => JsonSpec::Null,
    }
}

/// The text of a string value, or nothing.
pub open spec fn str_or_empty(v: JsonSpec) -> Seq<char> {
    match v {
        JsonSpec::Str(s) => s,
        _ => Seq::empty(),
    }
}

/// The message reported for a malformed function name.
pub open spec fn invalid_name_text(name: Seq<char>) -> Seq<char> {
    "The provided function name '"@ + name
        + "' had invalid characters, it must match this regex [a-zA-Z0-9_-]+"@
}

/// The message reported for arguments that do not parse.
pub open spec fn bad_params_text(id: Seq<char>) -> Seq<char> {
    "Could not interpret tool use parameters for id "@ + id
}

/// The tool request one wire `tool_calls` entry becomes.
pub open spec fn request_of_call(c: JsonSpec) -> ToolRequestSpec {
    let id = str_or_empty(json_get_or_null(c, "id"@));
    let name = str_or_empty(json_get_or_null(json_get_or_null(c, "function"@), "name"@));
    let args = str_or_empty(json_get_or_null(json_get_or_null(c, "function"@), "arguments"@));
    if !valid_name(name) {
        ToolRequestSpec {
            id,
            tool_call: Err(AgentErrorSpec::ToolNotFound(invalid_name_text(name))),
        }
    } else {
        match parsed_json(args) {
            Some(v) => ToolRequestSpec { id, tool_call: Ok(ToolCallSpec { name, arguments: v }) },
            None => ToolRequestSpec {
                id,
                tool_call: Err(AgentErrorSpec::InvalidParameters(bad_params_text(id))),
            },
        }
    }
}

/// The tool requests a wire `tool_calls` array becomes, in order.
pub open spec fn requests_of_calls(calls: Seq<JsonSpec>) -> Seq<MessageContentSpec>
    decreases calls.len(),
{
    if calls.len() == 0 {
        Seq::empty()
    } else {
        requests_of_calls(calls.drop_last()).push(
            MessageContentSpec::ToolRequest(request_of_call(calls.last())),
        )
    }
}

/// The content parts a provider response carries: the first choice's text,
/// then one tool request per `tool_calls` entry.
pub open spec fn response_message_content(resp: JsonSpec) -> Seq<MessageContentSpec> {
    let wire_msg = json_get_or_null(
        json_at_or_null(json_get_or_null(resp, "choices"@), 0),
        "message"@,
    );
    (match json_get(wire_msg, "content"@) {
        Some(JsonSpec::Str(t)) => seq![MessageContentSpec::Text(t)],
        _ => Seq::empty(),
    }) + (match json_get(wire_msg, "tool_calls"@) {
        Some(JsonSpec::Arr(calls)) => requests_of_calls(calls),
        _ => Seq::empty(),
    })
}

/// The string under `key`, cloned, or an empty string.
fn get_str_or_empty(v: &JsonValue, key: &str) -> (r: String)
    ensures
        r@ == str_or_empty(json_get_or_null(v.deep_view(), key@)),
{
    match v.get(key) {
        Some(w) => match w.as_str() {
            Some(s) => s.clone(),
            None => String::new(),
        },
        None => String::new(),
    }
}

/// The tool request part for one wire `tool_calls` entry.
fn request_part_of_call(call: &JsonValue) -> (r: MessageContent)
    ensures
        r.deep_view() == MessageContentSpec::ToolRequest(request_of_call(call.deep_view())),
{
    let id = get_str_or_empty(call, "id");
    let function_name;
    let arguments;
    match call.get("function") {
        Some(f) => {
            function_name = get_str_or_empty(f, "name");
            arguments = get_str_or_empty(f, "arguments");
        },
        None => {
            function_name = String::new();
            arguments = String::new();
        },
    }
    if !is_valid_function_name(function_name.as_str()) {
        let mut text = ("The provided function name '").to_owned();
        text.append(function_name.as_str());
        text.append("' had invalid characters, it must match this regex [a-zA-Z0-9_-]+");
        MessageContent::tool_request(id.as_str(), Err(AgentError::ToolNotFound(text)))
    } else {
        match crate::codec::parse_json(arguments.as_str()) {
            Some(v) => MessageContent::tool_request(
                id.as_str(),
                Ok(ToolCall::new(function_name.as_str(), v)),
            ),
            None => {
                let mut text = ("Could not interpret tool use parameters for id ").to_owned();
                text.append(id.as_str());
                MessageContent::tool_request(
                    id.as_str(),
                    Err(AgentError::InvalidParameters(text)),
                )
            },
        }
    }
}

/// The canonical assistant message a provider response becomes: its text
/// content if any, then one tool request per `tool_calls` entry, malformed
/// names and arguments wrapped as errors.
pub fn openai_response_to_message(response: &JsonValue) -> (r: Result<Message, AgentError>)
    ensures
        r is Ok,
        r matches Ok(m) ==> m.deep_view().role == Role::Assistant && m.deep_view().content
            == response_message_content(response.deep_view()),
{
    let ghost resp = response.deep_view();
    let null_value = JsonValue::Null;
    let choice = match response.get("choices") {
        Some(c) => match c.at(0) {
            Some(ch) => ch,
            None => &null_value,
        },
        None => &null_value,
    };
    let wire_msg = match choice.get("message") {
        Some(m) => m,
        None => &null_value,
    };
    let ghost wm = json_get_or_null(json_at_or_null(json_get_or_null(resp, "choices"@), 0), "message"@);
    proof {
        assert(wire_msg.deep_view() == wm);
    }
    let mut content: Vec<MessageContent> = Vec::new();
    match wire_msg.get("content") {
        Some(c) => match c.as_str() {
            Some(s) => {
                let part = MessageContent::text(s.as_str());
                let ghost g = part.deep_view();
                content.push(part);
                proof {
                    assert(content.deep_view() =~= seq![g]);
                }
            },
            None => {},
        },
        None => {},
    }
    let ghost text_parts = content.deep_view();
    match wire_msg.get("tool_calls") {
        Some(tc) => match tc {
            JsonValue::Arr(calls) => {
                proof {
                    crate::json::lemma_json_view_seq(calls@);
                }
                let ghost calls_spec = json_view_seq(calls@);
                let n = calls.len();
                let mut i: usize = 0;
                while i < n
                    invariant
                        i <= n,
                        n == calls@.len(),
                        calls_spec == json_view_seq(calls@),
                        calls_spec.len() == n,
                        forall|k: int| 0 <= k < n ==> calls_spec[k] == calls@[k].deep_view(),
                        content.deep_view() == text_parts + requests_of_calls(
                            calls_spec.take(i as int),
                        ),
                    decreases n - i,
                {
                    proof {
                        assert(calls_spec.take(i as int + 1).drop_last() =~= calls_spec.take(
                            i as int,
                        ));
                        assert(calls_spec.take(i as int + 1).last() == calls_spec[i as int]);
                    }
                    let ghost before = content.deep_view();
                    let part = request_part_of_call(&calls[i]);
                    let ghost g = part.deep_view();
                    content.push(part);
                    proof {
                        assert(content.deep_view() =~= before.push(g));
                    }
                    i += 1;
                }
                proof {
                    assert(calls_spec.take(n as int) =~= calls_spec);
                }
            },
            _ => {},
        },
        None => {},
    }
    Ok(Message { role: Role::Assistant, created: crate::message::now_unix_seconds(), content })
}

/// The conversation was too long for the provider.
#[derive(Debug, PartialEq)]
pub struct InitialMessageTooLargeError(pub String);

impl InitialMessageTooLargeError {
    /// The error written out as text.
    pub fn to_text(&self) -> (r: String)
        ensures
            r@ == "Input message too long. Message: "@ + self.0@,
    {
        concat2("Input message too long. Message: ", self.0.as_str())
    }
}

/// The error body names one of the codes the provider uses for an
/// over-long conversation.
pub open spec fn is_context_length_code(v: JsonSpec) -> bool {
    match json_get(v, "code"@) {
        Some(JsonSpec::Str(c)) => c == "context_length_exceeded"@ || c
            == "string_above_max_length"@,
        _ => false,
    }
}

/// The message the error body carries, or the fallback text.
pub open spec fn context_error_text(v: JsonSpec) -> Seq<char> {
    match json_get(v, "message"@) {
        Some(JsonSpec::Str(m)) => m,
        _ => "Unknown error"@,
    }
}

/// Reports the error exactly when the body's `code` is one of the two
/// context-length codes, carrying the body's `message`.
pub fn check_openai_context_length_error(error: &JsonValue) -> (r: Option<
    InitialMessageTooLargeError,
>)
    ensures
        r is Some <==> is_context_length_code(error.deep_view()),
        r matches Some(e) ==> e.0@ == context_error_text(error.deep_view()),
{
    let code_matches = match error.get("code") {
        Some(c) => match c.as_str() {
            Some(s) => str_eq(s.as_str(), "context_length_exceeded") || str_eq(
                s.as_str(),
                "string_above_max_length",
            ),
            None => false,
        },
        None => false,
    };
    if !code_matches {
        return None;
    }
    let message = match error.get("message") {
        Some(m) => match m.as_str() {
            Some(s) => s.clone(),
            None => ("Unknown error").to_owned(),
        },
        None => ("Unknown error").to_owned(),
    };
    Some(InitialMessageTooLargeError(message))
}


/// Sanitizing any non-empty name yields a valid name, and a name that is
/// already valid comes back unchanged.
pub proof fn lemma_sanitize_name(s: Seq<char>)
    requires
        s.len() > 0,
    ensures
        valid_name(sanitized_name(s)),
        valid_name(s) ==> sanitized_name(s) == s,
{
    assert(sanitized_name(s).len() == s.len());
    assert forall|i: int| 0 <= i < sanitized_name(s).len() implies is_name_char(
        #[trigger] sanitized_name(s)[i],
    ) by {
        assert(sanitized_name(s)[i] == if is_name_char(s[i]) {
            s[i]
        } else {
            '_'
        });
    }
    if valid_name(s) {
        assert(sanitized_name(s) =~= s);
    }
}


/// An assistant reply as the provider shapes it: at most one text part,
/// standing first, and otherwise only well-formed tool requests whose
/// names are valid and whose arguments name each object key once.
pub open spec fn assistant_reply_shape(content: Seq<MessageContentSpec>) -> bool {
    &&& forall|i: int|
        0 <= i < content.len() ==> ((#[trigger] content[i]) is Text || (content[i]
            matches MessageContentSpec::ToolRequest(r) && r.tool_call matches Ok(c)
            && valid_name(c.name) && crate::json::json_keys_unique(c.arguments)))
    &&& forall|i: int| 0 < i < content.len() ==> !((#[trigger] content[i]) is Text)
}

/// Each request's arguments survive the trip through their rendered text.
/// The JSON codec guarantees this of every value whose object keys are
/// unique, whose nesting stays under the parser's depth limit, and whose
/// opaque numbers carry the parser's own canonical text; stating it of the
/// names keeps the law honest about where that guarantee comes from.
pub open spec fn arguments_reencode(content: Seq<MessageContentSpec>) -> bool {
    forall|i: int|
        0 <= i < content.len() ==> ((#[trigger] content[i])
            matches MessageContentSpec::ToolRequest(r) ==> (r.tool_call matches Ok(c)
            ==> parsed_json(rendered_json(c.arguments)) == Some(c.arguments)))
}

/// How many leading text parts a shaped reply has.
pub open spec fn text_offset(content: Seq<MessageContentSpec>) -> int {
    if content.len() > 0 && content[0] is Text {
        1int
    } else {
        0int
    }
}

/// What the wire parts of a shaped assistant reply look like: no tool-role
/// tail, the leading text as the chat content, and one `tool_calls` entry
/// per request, in order.
pub proof fn lemma_wire_parts_shape(content: Seq<MessageContentSpec>)
    requires
        assistant_reply_shape(content),
    ensures
        wire_parts(content).tail == Seq::<JsonSpec>::empty(),
        wire_parts(content).content == (if text_offset(content) == 1 {
            Some(JsonSpec::Str(content[0]->Text_0))
        } else {
            None::<JsonSpec>
        }),
        wire_parts(content).tool_calls.len() == content.len() - text_offset(content),
        forall|k: int|
            0 <= k < content.len() - text_offset(content) ==> {
                let part = content[k + text_offset(content)];
                &&& part is ToolRequest
                &&& (#[trigger] wire_parts(content).tool_calls[k]) == tool_call_wire(
                    part->ToolRequest_0.id,
                    part->ToolRequest_0.tool_call->Ok_0,
                )
            },
    decreases content.len(),
{
    if content.len() > 0 {
        let prefix = content.drop_last();
        assert(assistant_reply_shape(prefix)) by {
            assert(forall|i: int| 0 <= i < prefix.len() ==> prefix[i] == content[i]);
        }
        lemma_wire_parts_shape(prefix);
        let last = content.last();
        if content.len() == 1 && last is Text {
            assert(wire_parts(content) == wire_step(wire_parts(prefix), last));
        } else {
            assert(!(last is Text));
            assert(last is ToolRequest);
            assert(text_offset(content) == text_offset(prefix)) by {
                if prefix.len() > 0 {
                    assert(prefix[0] == content[0]);
                }
            }
        }
    }
}

/// A `tool_calls` entry built from a valid call reads back as that call.
pub proof fn lemma_tool_call_wire_parses_back(id: Seq<char>, c: ToolCallSpec)
    requires
        valid_name(c.name),
        parsed_json(rendered_json(c.arguments)) == Some(c.arguments),
    ensures
        request_of_call(tool_call_wire(id, c)) == (ToolRequestSpec { id, tool_call: Ok(c) }),
{
    reveal_strlit("id");
    reveal_strlit("type");
    reveal_strlit("function");
    reveal_strlit("name");
    reveal_strlit("arguments");
    let w = tool_call_wire(id, c);
    reveal_with_fuel(crate::json::obj_lookup, 4);
    assert("id"@.len() == 2 && "type"@.len() == 4 && "function"@.len() == 8 && "name"@.len() == 4
        && "arguments"@.len() == 9);
    assert(json_get(w, "id"@) == Some(JsonSpec::Str(id)));
    let f = JsonSpec::Obj(
        seq![
            ("name"@, JsonSpec::Str(sanitized_name(c.name))),
            ("arguments"@, JsonSpec::Str(rendered_json(c.arguments))),
        ],
    );
    assert(json_get(w, "function"@) == Some(f));
    assert(json_get(f, "name"@) == Some(JsonSpec::Str(sanitized_name(c.name))));
    assert(json_get(f, "arguments"@) == Some(JsonSpec::Str(rendered_json(c.arguments))));
    lemma_sanitize_name(c.name);
}

/// Reading each of a list of `tool_calls` entries back, in order.
pub proof fn lemma_requests_of_calls_pointwise(
    calls: Seq<JsonSpec>,
    parts: Seq<MessageContentSpec>,
)
    requires
        calls.len() == parts.len(),
        forall|k: int|
            0 <= k < calls.len() ==> (#[trigger] parts[k]) is ToolRequest && request_of_call(
                calls[k],
            ) == parts[k]->ToolRequest_0,
    ensures
        requests_of_calls(calls) =~= parts,
    decreases calls.len(),
{
    if calls.len() > 0 {
        lemma_requests_of_calls_pointwise(calls.drop_last(), parts.drop_last());
    }
}

/// A provider response carrying exactly one choice with the given message.
pub open spec fn response_wrapper(w: JsonSpec) -> JsonSpec {
    JsonSpec::Obj(
        seq![("choices"@, JsonSpec::Arr(seq![JsonSpec::Obj(seq![("message"@, w)])]))],
    )
}

/// Translating a shaped assistant reply to the wire and reading the wire
/// back yields the reply's own content: its text, and each tool request's
/// id, name and arguments, in order. The reading of the arguments string
/// holds wherever the JSON codec's re-parse guarantee does, which the
/// codec gives for every value whose object keys are unique, whose nesting
/// stays under the parser's depth limit, and whose opaque numbers carry
/// the parser's own canonical text.
pub proof fn lemma_wire_round_trip(m: MessageSpec)
    requires
        m.role == Role::Assistant,
        m.content.len() > 0,
        assistant_reply_shape(m.content),
    ensures
        arguments_reencode(m.content) ==> message_wire(m).len() == 1
            && response_message_content(response_wrapper(message_wire(m)[0])) == m.content,
{
    if arguments_reencode(m.content) {
        reveal_strlit("role");
        reveal_strlit("content");
        reveal_strlit("tool_calls");
        reveal_strlit("choices");
        reveal_strlit("message");
        reveal_strlit("assistant");
        lemma_wire_parts_shape(m.content);
        let st = wire_parts(m.content);
        let off = text_offset(m.content);
        assert(st.content is Some || st.tool_calls.len() > 0) by {
            if off == 0 {
                assert(m.content[0] is ToolRequest);
                assert(st.tool_calls.len() == m.content.len());
            }
        }
        let head = JsonSpec::Obj(head_fields(m.role, st));
        assert(message_wire(m) =~= seq![head]);
        let resp = response_wrapper(head);
        reveal_with_fuel(crate::json::obj_lookup, 4);
        assert(json_get_or_null(
            json_at_or_null(json_get_or_null(resp, "choices"@), 0),
            "message"@,
        ) == head);
        let fields = head_fields(m.role, st);
        assert(fields[0] == ("role"@, JsonSpec::Str("assistant"@)));
        assert("role"@.len() == 4 && "content"@.len() == 7 && "tool_calls"@.len() == 10);
        assert("role"@ != "content"@ && "role"@ != "tool_calls"@ && "content"@
            != "tool_calls"@);
        let text_found = json_get(head, "content"@);
        let calls_found = json_get(head, "tool_calls"@);
        if off == 1 {
            assert(fields[1] == ("content"@, JsonSpec::Str(m.content[0]->Text_0)));
            if st.tool_calls.len() > 0 {
                assert(fields =~= seq![fields[0], fields[1], (
                    "tool_calls"@,
                    JsonSpec::Arr(st.tool_calls),
                )]);
                assert(calls_found == Some(JsonSpec::Arr(st.tool_calls)));
            } else {
                assert(fields =~= seq![fields[0], fields[1]]);
                assert(calls_found is None);
            }
            assert(text_found == Some(JsonSpec::Str(m.content[0]->Text_0)));
        } else {
            assert(fields =~= seq![fields[0], ("tool_calls"@, JsonSpec::Arr(st.tool_calls))]);
            assert(text_found is None);
            assert(calls_found == Some(JsonSpec::Arr(st.tool_calls)));
        }
        let parts = m.content.subrange(off, m.content.len() as int);
        assert forall|k: int| 0 <= k < st.tool_calls.len() implies (#[trigger] parts[k])
            is ToolRequest && request_of_call(st.tool_calls[k]) == parts[k]->ToolRequest_0 by {
            let part = m.content[k + off];
            assert(parts[k] == part);
            let r = part->ToolRequest_0;
            lemma_tool_call_wire_parses_back(r.id, r.tool_call->Ok_0);
        }
        lemma_requests_of_calls_pointwise(st.tool_calls, parts);
        if off == 1 {
            assert(response_message_content(resp) =~= seq![m.content[0]] + parts);
            assert(seq![m.content[0]] + parts =~= m.content);
        } else {
            assert(response_message_content(resp) =~= parts);
            assert(parts =~= m.content);
        }
    }
}


/// The token counts a provider reports: zero where a count is missing.
#[derive(Debug, Clone, Copy, PartialEq, Eq, Structural)]
pub struct Usage {
    pub input_tokens: u64,
    pub output_tokens: u64,
    pub total_tokens: u64,
}

/// The count under `key`, or zero where there is none or it is no
/// non-negative integer.
pub open spec fn count_of(v: JsonSpec, key: Seq<char>) -> u64 {
    match json_get(v, key) {
        Some(JsonSpec::Int(i)) => if 0 <= i < 0x1_0000_0000_0000_0000 {
            i as u64
        } else {
            0
        },
        _ => 0,
    }
}

/// The usage a response reports.
pub open spec fn usage_of(resp: JsonSpec) -> Usage {
    let u = json_get_or_null(resp, "usage"@);
    Usage {
        input_tokens: count_of(u, "input_tokens"@),
        output_tokens: count_of(u, "output_tokens"@),
        total_tokens: count_of(u, "total_tokens"@),
    }
}

/// The count under `key` of `v`, zero where absent.
fn read_count(v: &JsonValue, key: &str) -> (r: u64)
    ensures
        r == count_of(v.deep_view(), key@),
{
    match v.get(key) {
        Some(w) => match w {
            JsonValue::Int(i) => {
                if *i >= 0 {
                    *i as u64
                } else {
                    0
                }
            },
            _ => 0,
        },
        None => 0,
    }
}

/// The token counts the response's `usage` object reports, with zero for
/// every count the provider left out.
pub fn response_usage(response: &JsonValue) -> (r: Usage)
    ensures
        r == usage_of(response.deep_view()),
{
    let null_value = JsonValue::Null;
    let usage = match response.get("usage") {
        Some(u) => u,
        None => &null_value,
    };
    Usage {
        input_tokens: read_count(usage, "input_tokens"),
        output_tokens: read_count(usage, "output_tokens"),
        total_tokens: read_count(usage, "total_tokens"),
    }
}


/// Each `tool_calls` entry reads back as one tool-request part.
pub proof fn lemma_requests_of_calls_shape(calls: Seq<JsonSpec>)
    ensures
        requests_of_calls(calls).len() == calls.len(),
        forall|k: int|
            0 <= k < calls.len() ==> (#[trigger] requests_of_calls(calls)[k]) is ToolRequest,
    decreases calls.len(),
{
    if calls.len() > 0 {
        lemma_requests_of_calls_shape(calls.drop_last());
    }
}

/// A provider reply reads back with no tool-request parts exactly when its
/// first choice carries no `tool_calls` entry (the field absent, not an
/// array, or empty): the terminal assistant message that ends a reply.
pub proof fn lemma_terminal_response(resp: JsonSpec)
    ensures
        (crate::reply::tool_requests_of(response_message_content(resp)).len() == 0) <==> (match
            json_get(
            json_get_or_null(json_at_or_null(json_get_or_null(resp, "choices"@), 0), "message"@),
            "tool_calls"@,
        ) {
            Some(JsonSpec::Arr(calls)) => calls.len() == 0,
            _ => true,
        }),
{
    let wire_msg = json_get_or_null(
        json_at_or_null(json_get_or_null(resp, "choices"@), 0),
        "message"@,
    );
    let text_part = match json_get(wire_msg, "content"@) {
        Some(JsonSpec::Str(t)) => seq![MessageContentSpec::Text(t)],
        _ => Seq::<MessageContentSpec>::empty(),
    };
    let call_parts = match json_get(wire_msg, "tool_calls"@) {
        Some(JsonSpec::Arr(calls)) => requests_of_calls(calls),
        _ => Seq::<MessageContentSpec>::empty(),
    };
    crate::reply::lemma_tool_requests_of_concat(text_part, call_parts);
    reveal_with_fuel(crate::reply::tool_requests_of, 2);
    assert(crate::reply::tool_requests_of(text_part).len() == 0) by {
        if text_part.len() > 0 {
            assert(text_part.drop_last() =~= Seq::<MessageContentSpec>::empty());
        }
    }
    match json_get(wire_msg, "tool_calls"@) {
        Some(JsonSpec::Arr(calls)) => {
            lemma_requests_of_calls_shape(calls);
            crate::reply::lemma_tool_requests_of_all_requests(call_parts);
        },
        _ => {},
    }
}

/// A user message holding one successful tool result goes to the wire as
/// one `tool`-role entry per piece of the result, in order, each carrying
/// the response's id: the ordered contents are preserved.
pub proof fn lemma_tool_result_wire(m: MessageSpec, id: Seq<char>, cs: Seq<ContentSpec>)
    requires
        m.content == seq![
            MessageContentSpec::ToolResponse(
                crate::message::ToolResponseSpec { id, tool_result: Ok(cs) },
            ),
        ],
    ensures
        message_wire(m).len() == cs.len(),
        forall|k: int|
            0 <= k < cs.len() ==> message_wire(m)[k] == response_content_wire(id, cs[k]),
{
    reveal_with_fuel(wire_parts, 2);
    assert(m.content.drop_last() =~= Seq::<MessageContentSpec>::empty());
    let st = wire_parts(m.content);
    assert(st.tail =~= response_contents_wire(id, cs));
    lemma_response_contents_wire_index(id, cs);
}

/// Each piece of a tool result stands at its own position on the wire.
pub proof fn lemma_response_contents_wire_index(id: Seq<char>, cs: Seq<ContentSpec>)
    ensures
        response_contents_wire(id, cs).len() == cs.len(),
        forall|k: int|
            0 <= k < cs.len() ==> #[trigger] response_contents_wire(id, cs)[k]
                == response_content_wire(id, cs[k]),
    decreases cs.len(),
{
    if cs.len() > 0 {
        lemma_response_contents_wire_index(id, cs.drop_last());
        assert forall|k: int|
            0 <= k < cs.len() implies #[trigger] response_contents_wire(id, cs)[k]
            == response_content_wire(id, cs[k]) by {
            if k < cs.len() - 1 {
                assert(cs.drop_last()[k] == cs[k]);
            }
        }
    }
}


/// The wire entries a list of tool-response parts contributes, in order:
/// each successful response its per-item entries, each failed one its
/// error entry.
pub open spec fn responses_wire(parts: Seq<MessageContentSpec>) -> Seq<JsonSpec>
    decreases parts.len(),
{
    if parts.len() == 0 {
        Seq::empty()
    } else {
        responses_wire(parts.drop_last()) + (match parts.last() {
            MessageContentSpec::ToolResponse(resp) => match resp.tool_result {
                Ok(cs) => response_contents_wire(resp.id, cs),
                Err(e) => seq![tool_entry(JsonSpec::Str(error_text(e)), resp.id)],
            },
            _ => Seq::empty(),
        })
    }
}

/// A content list of tool responses gathers no chat content and no tool
/// calls: only the tool-role tail, in response order.
pub proof fn lemma_wire_parts_responses(content: Seq<MessageContentSpec>)
    requires
        forall|k: int| 0 <= k < content.len() ==> (#[trigger] content[k]) is ToolResponse,
    ensures
        wire_parts(content).content is None,
        wire_parts(content).tool_calls == Seq::<JsonSpec>::empty(),
        wire_parts(content).tail == responses_wire(content),
    decreases content.len(),
{
    if content.len() > 0 {
        let prefix = content.drop_last();
        assert(forall|k: int| 0 <= k < prefix.len() ==> (#[trigger] prefix[k]) is ToolResponse);
        lemma_wire_parts_responses(prefix);
        assert(content.last() is ToolResponse);
        match content.last() {
            MessageContentSpec::ToolResponse(resp) => match resp.tool_result {
                Ok(cs) => {},
                Err(e) => {
                    assert(wire_parts(content).tail =~= responses_wire(content));
                },
            },
            _ => {},
        }
    }
}

/// A user message made of tool responses, standing anywhere in the
/// conversation, goes to the wire as exactly the per-response entries, in
/// response order: ids and ordered contents are preserved.
pub proof fn lemma_tool_response_message_wire(m: MessageSpec)
    requires
        forall|k: int| 0 <= k < m.content.len() ==> (#[trigger] m.content[k]) is ToolResponse,
    ensures
        message_wire(m) == responses_wire(m.content),
{
    lemma_wire_parts_responses(m.content);
}

} // verus!
