//! Conversation items and the Chat Completions request body built from
//! them: the `messages` array (tool calls grouped into assistant messages,
//! reasoning attached to the adjacent assistant turn), the function tools,
//! and the role normalisation for strict providers.

use vstd::prelude::*;
use crate::json::{
    array_of, copy_all, copy_json, entries_get, eviews, get, get_str, insert_entry, jstr, jview,
    jviews, json_text, lemma_eviews, lemma_jviews, lookup, obj1, obj2, obj3, obj4, obj5, obj6, ostr,
    print_json, vget, vstr, Json, JsonV,
};
use crate::text::{extend, from_chars, to_chars, trim, trim_vec};
use std::collections::HashMap;

verus! {

broadcast use vstd::std_specs::hash::group_hash_axioms;

/// One part of a message's content.
#[derive(Debug, PartialEq)]
pub enum ContentItem {
    InputText { text: String },
    OutputText { text: String },
    InputImage { image_url: String },
    InputAudio { audio_url: String },
}

/// One part of a reasoning item's content.
#[derive(Debug, PartialEq)]
pub enum ReasoningContent {
    ReasoningText { text: String },
    Text { text: String },
}

/// A conversation item, with what the request body reads of it. Items that
/// have no Chat Completions form (agent messages, compaction markers,
/// additional tools, web searches, image generations, unknown items) are
/// `Other`.
#[derive(Debug, PartialEq)]
pub enum ResponseItem {
    Message { id: Option<String>, role: String, content: Vec<ContentItem> },
    Reasoning { id: Option<String>, content: Option<Vec<ReasoningContent>> },
    FunctionCall { id: Option<String>, name: String, arguments: String, call_id: String },
    ToolSearchCall { call_id: Option<String>, status: Json, execution: Json, arguments: Json },
    LocalShellCall { id: Option<String>, status: Json, action: Json },
    FunctionCallOutput { call_id: String, output: String },
    ToolSearchOutput { call_id: Option<String>, status: Json, execution: Json, tools: Json },
    CustomToolCall { id: Option<String>, name: String, input: String },
    CustomToolCallOutput { call_id: String, output: String },
    Other,
}

// ---------------------------------------------------------------------------
// Message objects
// ---------------------------------------------------------------------------

pub open spec fn has_image(c: Seq<ContentItem>) -> bool
    decreases c.len(),
{
    c.len() > 0 && (c.last() is InputImage || has_image(c.drop_last()))
}

/// The texts of the input and output text parts, concatenated.
pub open spec fn content_text(c: Seq<ContentItem>) -> Seq<char>
    decreases c.len(),
{
    if c.len() == 0 {
        seq![]
    } else {
        content_text(c.drop_last()) + match c.last() {
            ContentItem::InputText { text } => text@,
            ContentItem::OutputText { text } => text@,
            _ => seq![],
        }
    }
}

/// The multimodal form of one content part.
pub open spec fn content_part(c: ContentItem) -> JsonV {
    match c {
        ContentItem::InputText { text } => JsonV::Object(
            seq![("type"@, JsonV::Str("text"@)), ("text"@, JsonV::Str(text@))],
        ),
        ContentItem::OutputText { text } => JsonV::Object(
            seq![("type"@, JsonV::Str("text"@)), ("text"@, JsonV::Str(text@))],
        ),
        ContentItem::InputImage { image_url } => JsonV::Object(
            seq![
                ("type"@, JsonV::Str("image_url"@)),
                ("image_url"@, JsonV::Object(seq![("url"@, JsonV::Str(image_url@))])),
            ],
        ),
        ContentItem::InputAudio { audio_url } => JsonV::Object(
            seq![
                ("type"@, JsonV::Str("input_audio"@)),
                ("input_audio"@, JsonV::Object(seq![("data"@, JsonV::Str(audio_url@))])),
            ],
        ),
    }
}

pub open spec fn content_parts(c: Seq<ContentItem>) -> Seq<JsonV> {
    c.map_values(|x: ContentItem| content_part(x))
}

/// The message for a conversation message: the array form when it holds
/// an image, a single string of its texts otherwise.
pub open spec fn message_json(role: Seq<char>, c: Seq<ContentItem>) -> JsonV {
    if has_image(c) {
        JsonV::Object(
            seq![("role"@, JsonV::Str(role)), ("content"@, JsonV::Array(content_parts(c)))],
        )
    } else {
        JsonV::Object(seq![("role"@, JsonV::Str(role)), ("content"@, JsonV::Str(content_text(c)))])
    }
}

fn content_part_exec(c: &ContentItem) -> (r: Json)
    ensures
        r@ == content_part(*c),
{
    match c {
        ContentItem::InputText { text } => obj2("type", jstr("text"), "text", jstr(text.as_str())),
        ContentItem::OutputText { text } => obj2("type", jstr("text"), "text", jstr(text.as_str())),
        ContentItem::InputImage { image_url } => obj2(
            "type",
            jstr("image_url"),
            "image_url",
            obj1("url", jstr(image_url.as_str())),
        ),
        ContentItem::InputAudio { audio_url } => obj2(
            "type",
            jstr("input_audio"),
            "input_audio",
            obj1("data", jstr(audio_url.as_str())),
        ),
    }
}

/// Pushes the message for a conversation message (see [`message_json`]).
pub fn push_message(messages: &mut Vec<Json>, role: &str, content: &[ContentItem])
    ensures
        jviews(final(messages)@) == jviews(old(messages)@).push(message_json(role@, content@)),
{
    let mut image = false;
    let mut i: usize = 0;
    while i < content.len()
        invariant
            i <= content@.len(),
            image == has_image(content@.take(i as int)),
        decreases content@.len() - i,
    {
        assert(content@.take(i + 1).drop_last() =~= content@.take(i as int));
        if let ContentItem::InputImage { .. } = &content[i] {
            image = true;
        }
        i = i + 1;
    }
    assert(content@.take(content@.len() as int) =~= content@);
    let msg = if image {
        let mut parts: Vec<Json> = Vec::new();
        let mut k: usize = 0;
        while k < content.len()
            invariant
                k <= content@.len(),
                jviews(parts@) == content_parts(content@.take(k as int)),
            decreases content@.len() - k,
        {
            let part = content_part_exec(&content[k]);
            let ghost prev = parts@;
            parts.push(part);
            assert(parts@.drop_last() =~= prev);
            assert(content_parts(content@.take(k + 1)) =~= content_parts(content@.take(k as int)).push(
                content_part(content@[k as int]),
            ));
            k = k + 1;
        }
        assert(content@.take(content@.len() as int) =~= content@);
        obj2("role", jstr(role), "content", array_of(parts))
    } else {
        let mut text: Vec<char> = Vec::new();
        let mut k: usize = 0;
        while k < content.len()
            invariant
                k <= content@.len(),
                text@ == content_text(content@.take(k as int)),
            decreases content@.len() - k,
        {
            assert(content@.take(k + 1).drop_last() =~= content@.take(k as int));
            match &content[k] {
                ContentItem::InputText { text: t } => extend(&mut text, &to_chars(t.as_str())),
                ContentItem::OutputText { text: t } => extend(&mut text, &to_chars(t.as_str())),
                _ => {
                    assert(text@ + Seq::<char>::empty() =~= text@);
                },
            }
            k = k + 1;
        }
        obj2("role", jstr(role), "content", Json::Str(from_chars(&text)))
    };
    let ghost prev = messages@;
    messages.push(msg);
    assert(messages@.drop_last() =~= prev);
    proof {
        lemma_jviews(messages@);
        lemma_jviews(prev);
    }
    assert(jviews(messages@) =~= jviews(prev).push(message_json(role@, content@)));
}

// ---------------------------------------------------------------------------
// Tool calls
// ---------------------------------------------------------------------------

/// The assistant message that tool calls can still be added to: an object
/// with role `assistant`, a null content and an array of tool calls.
pub open spec fn is_open_tool_call_message(j: JsonV) -> bool {
    &&& j is Object
    &&& ostr(vget(j, "role"@)) == Some("assistant"@)
    &&& vget(j, "content"@) == Some(JsonV::Null)
    &&& vget(j, "tool_calls"@) matches Some(JsonV::Array(_))
}

/// A new assistant message holding one tool call, with the reasoning
/// attached to it if any.
pub open spec fn new_tool_call_message(tc: JsonV, reasoning: Option<Seq<char>>) -> JsonV {
    let base = seq![
        ("role"@, JsonV::Str("assistant"@)),
        ("content"@, JsonV::Null),
        ("tool_calls"@, JsonV::Array(seq![tc])),
    ];
    match reasoning {
        Some(r) => JsonV::Object(base.push(("reasoning"@, JsonV::Str(r)))),
        None => JsonV::Object(base),
    }
}

/// The entries of an open tool-call message after adding a call and its
/// reasoning: the call is appended to `tool_calls`; the reasoning is joined
/// to a string `reasoning` with a newline (none when that was empty), and
/// otherwise set.
pub open spec fn extended_entries(
    m: Seq<(Seq<char>, JsonV)>,
    tc: JsonV,
    reasoning: Option<Seq<char>>,
) -> Seq<(Seq<char>, JsonV)> {
    let calls = match lookup(m, "tool_calls"@) {
        Some(JsonV::Array(a)) => a,
        _ => seq![],
    };
    let m1 = insert_entry(m, "tool_calls"@, JsonV::Array(calls.push(tc)));
    match reasoning {
        Some(r) => match lookup(m1, "reasoning"@) {
            Some(JsonV::Str(e)) => insert_entry(
                m1,
                "reasoning"@,
                JsonV::Str(
                    if e.len() > 0 {
                        e + "\n"@ + r
                    } else {
                        r
                    },
                ),
            ),
            _ => insert_entry(m1, "reasoning"@, JsonV::Str(r)),
        },
        None => m1,
    }
}

/// Tool calls are grouped into one assistant message: the call joins the
/// last message when that is an open tool-call message, and starts a new
/// one otherwise.
pub open spec fn spec_push_tool_call(msgs: Seq<JsonV>, tc: JsonV, reasoning: Option<Seq<char>>) -> Seq<
    JsonV,
> {
    if msgs.len() > 0 && is_open_tool_call_message(msgs.last()) {
        match msgs.last() {
            JsonV::Object(m) => msgs.drop_last().push(JsonV::Object(extended_entries(m, tc, reasoning))),
            _ => msgs,
        }
    } else {
        msgs.push(new_tool_call_message(tc, reasoning))
    }
}

/// `Map::insert` on object entries, computed.
fn set_entry(entries: &mut Vec<(String, Json)>, key: &str, val: Json)
    ensures
        eviews(final(entries)@) == insert_entry(eviews(old(entries)@), key@, val@),
{
    let ghost ms = eviews(entries@);
    proof {
        lemma_eviews(entries@);
    }
    let k = to_chars(key);
    let mut i: usize = 0;
    assert(ms.skip(0) =~= ms);
    assert(ms.take(0) + insert_entry(ms.skip(0), key@, val@) =~= insert_entry(ms, key@, val@));
    while i < entries.len()
        invariant
            i <= entries@.len(),
            ms == eviews(entries@),
            ms == eviews(old(entries)@),
            ms.len() == entries@.len(),
            forall|t: int| 0 <= t < entries@.len() ==> #[trigger] ms[t] == (entries@[t].0@, jview(entries@[t].1)),
            k@ == key@,
            ms.take(i as int) + insert_entry(ms.skip(i as int), key@, val@) == insert_entry(ms, key@, val@),
        decreases entries@.len() - i,
    {
        let name = to_chars(entries[i].0.as_str());
        let ghost rest = ms.skip(i as int);
        assert(rest[0] == ms[i as int]);
        if crate::text::seq_eq(&name, &k) {
            let ghost old_entries = entries@;
            assert(rest[0].0 == key@);
            assert(insert_entry(rest, key@, val@) == rest.update(0, (key@, val@)));
            let vv = val;
            entries.set(i, (key.to_owned(), vv));
            proof {
                lemma_eviews(entries@);
            }
            assert(eviews(entries@) =~= ms.take(i as int) + rest.update(0, (key@, val@))) by {
                assert forall|t: int| 0 <= t < entries@.len() implies #[trigger] eviews(entries@)[t] == (
                    ms.take(i as int) + rest.update(0, (key@, val@)))[t] by {
                    if t != i {
                        assert(entries@[t] == old_entries[t]);
                    }
                }
            }
            return;
        }
        assert(rest.drop_first() =~= ms.skip(i + 1));
        assert(ms.take(i + 1) =~= ms.take(i as int).push(ms[i as int]));
        assert(ms.take(i as int) + (seq![rest[0]] + insert_entry(rest.drop_first(), key@, val@)) =~= ms.take(
            i + 1,
        ) + insert_entry(ms.skip(i + 1), key@, val@));
        i = i + 1;
    }
    assert(ms.skip(i as int) =~= Seq::<(Seq<char>, JsonV)>::empty());
    assert(ms.take(i as int) =~= ms);
    let ghost prev = entries@;
    entries.push((key.to_owned(), val));
    proof {
        lemma_eviews(entries@);
    }
    assert(eviews(entries@) =~= ms + seq![(key@, val@)]) by {
        assert forall|t: int| 0 <= t < entries@.len() implies #[trigger] eviews(entries@)[t] == (ms
            + seq![(key@, val@)])[t] by {
            if t < prev.len() {
                assert(entries@[t] == prev[t]);
            }
        }
    }
}

/// An optional text as a view.
pub open spec fn opt_view(o: Option<&str>) -> Option<Seq<char>> {
    match o {
        Some(r) => Some(r@),
        None => None,
    }
}

fn is_open_tool_call_message_exec(j: &Json) -> (r: bool)
    ensures
        r == is_open_tool_call_message(j@),
{
    match j {
        Json::Object(_) => {},
        _ => {
            return false;
        },
    }
    let role_ok = match get_str(j, "role") {
        Some(r) => crate::text::eq_lit(&to_chars(r), "assistant"),
        None => false,
    };
    let content_null = match get(j, "content") {
        Some(Json::Null) => true,
        _ => false,
    };
    let calls = match get(j, "tool_calls") {
        Some(Json::Array(_)) => true,
        _ => false,
    };
    role_ok && content_null && calls
}

/// Adds a tool call to the messages (see [`spec_push_tool_call`]).
pub fn push_tool_call_message(messages: &mut Vec<Json>, tool_call: Json, reasoning: Option<&str>)
    ensures
        jviews(final(messages)@) == spec_push_tool_call(
            jviews(old(messages)@),
            tool_call@,
            opt_view(reasoning),
        ),
{
    let ghost old_msgs = jviews(messages@);
    proof {
        lemma_jviews(messages@);
    }
    let n = messages.len();
    if n > 0 && is_open_tool_call_message_exec(&messages[n - 1]) {
        let last = messages.pop().unwrap();
        assert(messages@ =~= old(messages)@.drop_last());
        match last {
            Json::Object(mut entries) => {
                let ghost m = eviews(entries@);
                let mut calls: Vec<Json> = match entries_get(&entries, "tool_calls") {
                    Some(Json::Array(a)) => copy_all(a),
                    _ => Vec::new(),
                };
                let ghost callsv = match lookup(m, "tool_calls"@) {
                    Some(JsonV::Array(a)) => a,
                    _ => seq![],
                };
                assert(jviews(calls@) == callsv);
                let ghost tcv = tool_call@;
                let ghost prev_calls = calls@;
                calls.push(tool_call);
                proof {
                    lemma_jviews(calls@);
                    lemma_jviews(prev_calls);
                }
                assert(jviews(calls@) =~= callsv.push(tcv)) by {
                    assert(calls@.drop_last() =~= prev_calls);
                }
                set_entry(&mut entries, "tool_calls", array_of(calls));
                let ghost m1 = eviews(entries@);
                match reasoning {
                    Some(r) => {
                        let existing: Option<Vec<char>> = match entries_get(&entries, "reasoning") {
                            Some(Json::Str(e)) => Some(to_chars(e.as_str())),
                            _ => None,
                        };
                        match existing {
                            Some(e) => {
                                let mut t = e;
                                if t.len() > 0 {
                                    t.push('\n');
                                }
                                extend(&mut t, &to_chars(r));
                                assert(t@ =~= (if e@.len() > 0 {
                                    e@ + "\n"@ + r@
                                } else {
                                    r@
                                })) by {
                                    reveal_strlit("\n");
                                }
                                set_entry(&mut entries, "reasoning", Json::Str(from_chars(&t)));
                            },
                            None => {
                                set_entry(&mut entries, "reasoning", jstr(r));
                            },
                        }
                    },
                    None => {},
                }
                assert(eviews(entries@) == extended_entries(m, tcv, opt_view(reasoning)));
                let ghost prev = messages@;
                messages.push(Json::Object(entries));
                proof {
                    lemma_jviews(messages@);
                    lemma_jviews(prev);
                }
                assert(jviews(messages@) =~= old_msgs.drop_last().push(
                    JsonV::Object(extended_entries(m, tcv, opt_view(reasoning))),
                )) by {
                    assert(messages@.drop_last() =~= prev);
                }
            },
            _ => {
                assert(false);
            },
        }
    } else {
        let ghost tcv = tool_call@;
        let one = vec![tool_call];
        proof {
            lemma_jviews(one@);
        }
        assert(jviews(one@) =~= seq![tcv]);
        let arr = array_of(one);
        let msg = match reasoning {
            Some(r) => obj4(
                "role",
                jstr("assistant"),
                "content",
                Json::Null,
                "tool_calls",
                arr,
                "reasoning",
                jstr(r),
            ),
            None => obj3("role", jstr("assistant"), "content", Json::Null, "tool_calls", arr),
        };
        proof {
            let base = seq![
                ("role"@, JsonV::Str("assistant"@)),
                ("content"@, JsonV::Null),
                ("tool_calls"@, JsonV::Array(seq![tcv])),
            ];
            match reasoning {
                Some(r) => {
                    assert(base.push(("reasoning"@, JsonV::Str(r@))) =~= seq![
                        ("role"@, JsonV::Str("assistant"@)),
                        ("content"@, JsonV::Null),
                        ("tool_calls"@, JsonV::Array(seq![tcv])),
                        ("reasoning"@, JsonV::Str(r@)),
                    ]);
                },
                None => {},
            }
        }
        assert(msg@ == new_tool_call_message(tcv, opt_view(reasoning)));
        let ghost prev = messages@;
        messages.push(msg);
        proof {
            lemma_jviews(messages@);
            lemma_jviews(prev);
        }
        assert(jviews(messages@) =~= old_msgs.push(new_tool_call_message(tcv, opt_view(reasoning)))) by {
            assert(messages@.drop_last() =~= prev);
        }
    }
}

// ---------------------------------------------------------------------------
// Reasoning anchors
// ---------------------------------------------------------------------------

/// The role an item is sent with, when it is sent.
pub open spec fn emitted_role(item: ResponseItem) -> Option<Seq<char>> {
    match item {
        ResponseItem::Message { role, .. } => Some(role@),
        ResponseItem::FunctionCall { .. } => Some("assistant"@),
        ResponseItem::ToolSearchCall { .. } => Some("assistant"@),
        ResponseItem::LocalShellCall { .. } => Some("assistant"@),
        ResponseItem::FunctionCallOutput { .. } => Some("tool"@),
        ResponseItem::ToolSearchOutput { .. } => Some("tool"@),
        _ => None,
    }
}

/// The role of the last item before `k` that is sent with one.
pub open spec fn last_emitted_role(input: Seq<ResponseItem>, k: int) -> Option<Seq<char>>
    decreases k,
{
    if k <= 0 {
        None
    } else {
        match emitted_role(input[k - 1]) {
            Some(r) => Some(r),
            None => last_emitted_role(input, k - 1),
        }
    }
}

pub open spec fn is_message_with_role(item: ResponseItem, r: Seq<char>) -> bool {
    item matches ResponseItem::Message { role, .. } && role@ == r
}

/// The index of the last user message before `k`.
pub open spec fn last_user_index(input: Seq<ResponseItem>, k: int) -> Option<int>
    decreases k,
{
    if k <= 0 {
        None
    } else if is_message_with_role(input[k - 1], "user"@) {
        Some(k - 1)
    } else {
        last_user_index(input, k - 1)
    }
}

/// The texts of a reasoning item's parts, concatenated.
pub open spec fn reasoning_text(c: Seq<ReasoningContent>) -> Seq<char>
    decreases c.len(),
{
    if c.len() == 0 {
        seq![]
    } else {
        reasoning_text(c.drop_last()) + match c.last() {
            ReasoningContent::ReasoningText { text } => text@,
            ReasoningContent::Text { text } => text@,
        }
    }
}

/// An item reasoning can be attached to when it follows the reasoning: a
/// call, or an assistant message.
pub open spec fn is_call_anchor(item: ResponseItem) -> bool {
    item is FunctionCall || item is ToolSearchCall || item is LocalShellCall
        || is_message_with_role(item, "assistant"@)
}

pub open spec fn append_anchor(acc: Seq<Option<Seq<char>>>, at: int, text: Seq<char>) -> Seq<
    Option<Seq<char>>,
> {
    acc.update(
        at,
        Some(
            match acc[at] {
                Some(v) => v + text,
                None => text,
            },
        ),
    )
}

/// The reasoning item at `idx`, when it comes after the last user message
/// and its text is not blank, is attached to the assistant message right
/// before it, or else to the call or assistant message right after it.
pub open spec fn anchor_step(input: Seq<ResponseItem>, idx: int, acc: Seq<Option<Seq<char>>>) -> Seq<
    Option<Seq<char>>,
> {
    let after_user = match last_user_index(input, input.len() as int) {
        Some(u) => idx > u,
        None => true,
    };
    if !after_user {
        acc
    } else {
        match input[idx] {
            ResponseItem::Reasoning { content: Some(items), .. } => {
                let text = reasoning_text(items@);
                if trim(text).len() == 0 {
                    acc
                } else if idx > 0 && is_message_with_role(input[idx - 1], "assistant"@) {
                    append_anchor(acc, idx - 1, text)
                } else if idx + 1 < input.len() && is_call_anchor(input[idx + 1]) {
                    append_anchor(acc, idx + 1, text)
                } else {
                    acc
                }
            },
            _ => acc,
        }
    }
}

pub open spec fn no_anchors(n: nat) -> Seq<Option<Seq<char>>> {
    Seq::new(n, |i: int| None)
}

pub open spec fn anchors_upto(input: Seq<ResponseItem>, k: int) -> Seq<Option<Seq<char>>>
    decreases k,
{
    if k <= 0 {
        no_anchors(input.len())
    } else {
        anchor_step(input, k - 1, anchors_upto(input, k - 1))
    }
}

/// The reasoning attached to each item's index; none at all when the
/// conversation ends with a user message.
pub open spec fn spec_anchors(input: Seq<ResponseItem>) -> Seq<Option<Seq<char>>> {
    if last_emitted_role(input, input.len() as int) == Some("user"@) {
        no_anchors(input.len())
    } else {
        anchors_upto(input, input.len() as int)
    }
}

pub proof fn lemma_anchors_len(input: Seq<ResponseItem>, k: int)
    requires
        k <= input.len(),
    ensures
        anchors_upto(input, k).len() == input.len(),
    decreases k,
{
    if k > 0 {
        lemma_anchors_len(input, k - 1);
    }
}

/// Where reasoning may be attached: to a call or an assistant message
/// after the last user message, right next to a reasoning item.
pub open spec fn anchor_ok(input: Seq<ResponseItem>, k: int) -> bool {
    &&& (match last_user_index(input, input.len() as int) {
        Some(u) => k > u,
        None => true,
    })
    &&& is_call_anchor(input[k])
    &&& ((k > 0 && input[k - 1] is Reasoning) || (k + 1 < input.len() && input[k + 1] is Reasoning))
}

proof fn lemma_last_user_index(input: Seq<ResponseItem>, k: int)
    ensures
        last_user_index(input, k) matches Some(u) ==> 0 <= u < k && is_message_with_role(
            input[u],
            "user"@,
        ),
    decreases k,
{
    if k > 0 && !is_message_with_role(input[k - 1], "user"@) {
        lemma_last_user_index(input, k - 1);
    }
}

proof fn lemma_anchors_upto_ok(input: Seq<ResponseItem>, j: int)
    requires
        0 <= j <= input.len(),
    ensures
        anchors_upto(input, j).len() == input.len(),
        forall|k: int|
            0 <= k < input.len() && #[trigger] anchors_upto(input, j)[k] is Some ==> anchor_ok(
                input,
                k,
            ),
    decreases j,
{
    lemma_anchors_len(input, j);
    if j > 0 {
        lemma_anchors_upto_ok(input, j - 1);
        lemma_last_user_index(input, input.len() as int);
        let idx = j - 1;
        let acc = anchors_upto(input, j - 1);
        assert forall|k: int|
            0 <= k < input.len() && #[trigger] anchors_upto(input, j)[k] is Some implies anchor_ok(
                input,
                k,
            ) by {
            if acc[k] is None {
                if idx > 0 && is_message_with_role(input[idx - 1], "assistant"@) {
                    assert(k == idx - 1);
                    if let Some(u) = last_user_index(input, input.len() as int) {
                        reveal_strlit("user");
                        reveal_strlit("assistant");
                        assert("user"@.len() != "assistant"@.len());
                        assert(u != idx - 1);
                    }
                } else {
                    assert(k == idx + 1);
                }
            }
        }
    }
}

/// Reasoning is attached only where a Chat Completions request can carry
/// it: nowhere when the conversation ends with a user message, and
/// otherwise only to a call or an assistant message after the last user
/// message that stands right next to a reasoning item.
pub proof fn lemma_anchor_structure(input: Seq<ResponseItem>)
    ensures
        spec_anchors(input).len() == input.len(),
        last_emitted_role(input, input.len() as int) == Some("user"@) ==> forall|k: int|
            0 <= k < input.len() ==> #[trigger] spec_anchors(input)[k] is None,
        forall|k: int|
            0 <= k < input.len() && #[trigger] spec_anchors(input)[k] is Some ==> anchor_ok(input, k),
{
    lemma_anchors_upto_ok(input, input.len() as int);
}

/// The reasoning a map of anchors holds for each of the first `n` item
/// indices.
pub open spec fn anchor_map_view(m: Map<usize, String>, n: nat) -> Seq<Option<Seq<char>>> {
    Seq::new(
        n,
        |i: int|
            if m.contains_key(i as usize) {
                Some(m[i as usize]@)
            } else {
                None
            },
    )
}

/// Every key of a map of anchors is an index below `n`.
pub open spec fn anchor_keys_below(m: Map<usize, String>, n: nat) -> bool {
    forall|k: usize| #[trigger] m.contains_key(k) ==> (k as int) < n
}

fn emitted_role_exec(item: &ResponseItem) -> (r: Option<&str>)
    ensures
        opt_view(r) == emitted_role(*item),
{
    match item {
        ResponseItem::Message { role, .. } => Some(role.as_str()),
        ResponseItem::FunctionCall { .. } => Some("assistant"),
        ResponseItem::ToolSearchCall { .. } => Some("assistant"),
        ResponseItem::LocalShellCall { .. } => Some("assistant"),
        ResponseItem::FunctionCallOutput { .. } => Some("tool"),
        ResponseItem::ToolSearchOutput { .. } => Some("tool"),
        _ => None,
    }
}

fn is_message_with_role_exec(item: &ResponseItem, r: &str) -> (b: bool)
    ensures
        b == is_message_with_role(*item, r@),
{
    match item {
        ResponseItem::Message { role, .. } => crate::text::eq_lit(&to_chars(role.as_str()), r),
        _ => false,
    }
}

fn is_call_anchor_exec(item: &ResponseItem) -> (b: bool)
    ensures
        b == is_call_anchor(*item),
{
    match item {
        ResponseItem::FunctionCall { .. } => true,
        ResponseItem::ToolSearchCall { .. } => true,
        ResponseItem::LocalShellCall { .. } => true,
        _ => is_message_with_role_exec(item, "assistant"),
    }
}

fn reasoning_text_exec(c: &Vec<ReasoningContent>) -> (r: Vec<char>)
    ensures
        r@ == reasoning_text(c@),
{
    let mut out: Vec<char> = Vec::new();
    let mut k: usize = 0;
    while k < c.len()
        invariant
            k <= c@.len(),
            out@ == reasoning_text(c@.take(k as int)),
        decreases c@.len() - k,
    {
        assert(c@.take(k + 1).drop_last() =~= c@.take(k as int));
        match &c[k] {
            ReasoningContent::ReasoningText { text } => extend(&mut out, &to_chars(text.as_str())),
            ReasoningContent::Text { text } => extend(&mut out, &to_chars(text.as_str())),
        }
        k = k + 1;
    }
    assert(c@.take(c@.len() as int) =~= c@);
    out
}

fn append_anchor_exec(acc: &mut HashMap<usize, String>, n: usize, at: usize, text: &[char])
    requires
        at < n,
        anchor_keys_below(old(acc)@, n as nat),
    ensures
        anchor_map_view(final(acc)@, n as nat) == append_anchor(
            anchor_map_view(old(acc)@, n as nat),
            at as int,
            text@,
        ),
        anchor_keys_below(final(acc)@, n as nat),
{
    let joined: Vec<char> = match acc.get(&at) {
        Some(v) => {
            let mut t = to_chars(v.as_str());
            extend(&mut t, text);
            t
        },
        None => crate::text::slice_vec(text, 0, text.len()),
    };
    assert(text@.subrange(0, text@.len() as int) =~= text@);
    acc.insert(at, from_chars(&joined));
    assert(anchor_map_view(acc@, n as nat) =~= append_anchor(
        anchor_map_view(old(acc)@, n as nat),
        at as int,
        text@,
    ));
}

/// The reasoning to attach to items (see [`spec_anchors`]), keyed by item
/// index: the text for the assistant message or call at that index.
pub fn collect_reasoning_anchors(input: &[ResponseItem]) -> (r: HashMap<usize, String>)
    ensures
        anchor_keys_below(r@, input@.len()),
        anchor_map_view(r@, input@.len()) == spec_anchors(input@),
{
    let n = input.len();
    let mut acc: HashMap<usize, String> = HashMap::new();
    assert(anchor_map_view(acc@, n as nat) =~= no_anchors(n as nat));
    // The role sent last.
    let mut k: usize = n;
    let mut last_role: Option<&str> = None;
    while k > 0 && last_role.is_none()
        invariant
            k <= n == input@.len(),
            last_emitted_role(input@, input@.len() as int) == match opt_view(last_role) {
                Some(r) => Some(r),
                None => last_emitted_role(input@, k as int),
            },
        decreases k,
    {
        last_role = emitted_role_exec(&input[k - 1]);
        k = k - 1;
    }
    let ends_with_user = match last_role {
        Some(r) => crate::text::eq_lit(&to_chars(r), "user"),
        None => false,
    };
    if ends_with_user {
        return acc;
    }
    // The last user message.
    let mut u: usize = n;
    let mut last_user: Option<usize> = None;
    while u > 0 && last_user.is_none()
        invariant
            u <= n == input@.len(),
            last_user_index(input@, n as int) == match last_user {
                Some(x) => Some(x as int),
                None => last_user_index(input@, u as int),
            },
        decreases u,
    {
        if is_message_with_role_exec(&input[u - 1], "user") {
            last_user = Some(u - 1);
        }
        u = u - 1;
    }
    let mut idx: usize = 0;
    while idx < n
        invariant
            idx <= n == input@.len(),
            anchor_keys_below(acc@, n as nat),
            anchor_map_view(acc@, n as nat) == anchors_upto(input@, idx as int),
            last_user_index(input@, n as int) == match last_user {
                Some(x) => Some(x as int),
                None => None::<int>,
            },
        decreases n - idx,
    {
        let after_user = match last_user {
            Some(x) => idx > x,
            None => true,
        };
        if after_user {
            match &input[idx] {
                ResponseItem::Reasoning { content: Some(items), .. } => {
                    let text = reasoning_text_exec(items);
                    let t = trim_vec(&text);
                    if t.len() == 0 {
                    } else if idx > 0 && is_message_with_role_exec(&input[idx - 1], "assistant") {
                        append_anchor_exec(&mut acc, n, idx - 1, &text);
                    } else if idx + 1 < n && is_call_anchor_exec(&input[idx + 1]) {
                        append_anchor_exec(&mut acc, n, idx + 1, &text);
                    }
                },
                _ => {},
            }
        }
        idx = idx + 1;
    }
    acc
}

// ---------------------------------------------------------------------------
// The messages array
// ---------------------------------------------------------------------------

pub open spec fn opt_text(o: Option<String>) -> Seq<char> {
    match o {
        Some(s) => s@,
        None => seq![],
    }
}

pub open spec fn opt_json(o: Option<String>) -> JsonV {
    match o {
        Some(s) => JsonV::Str(s@),
        None => JsonV::Null,
    }
}

pub open spec fn function_call_json(name: Seq<char>, arguments: Seq<char>, call_id: Seq<char>) -> JsonV {
    JsonV::Object(
        seq![
            ("id"@, JsonV::Str(call_id)),
            ("type"@, JsonV::Str("function"@)),
            (
                "function"@,
                JsonV::Object(
                    seq![("name"@, JsonV::Str(name)), ("arguments"@, JsonV::Str(arguments))],
                ),
            ),
        ],
    )
}

pub open spec fn tool_search_call_json(
    call_id: Option<String>,
    status: JsonV,
    execution: JsonV,
    arguments: JsonV,
) -> JsonV {
    JsonV::Object(
        seq![
            ("id"@, JsonV::Str(opt_text(call_id))),
            ("type"@, JsonV::Str("tool_search_call"@)),
            ("call_id"@, opt_json(call_id)),
            ("status"@, status),
            ("execution"@, execution),
            ("arguments"@, arguments),
        ],
    )
}

pub open spec fn local_shell_call_json(id: Option<String>, status: JsonV, action: JsonV) -> JsonV {
    JsonV::Object(
        seq![
            ("id"@, JsonV::Str(opt_text(id))),
            ("type"@, JsonV::Str("local_shell_call"@)),
            ("status"@, status),
            ("action"@, action),
        ],
    )
}

pub open spec fn custom_tool_call_json(id: Option<String>, name: Seq<char>, input: Seq<char>) -> JsonV {
    JsonV::Object(
        seq![
            ("id"@, JsonV::Str(opt_text(id))),
            ("type"@, JsonV::Str("custom"@)),
            (
                "custom"@,
                JsonV::Object(seq![("name"@, JsonV::Str(name)), ("input"@, JsonV::Str(input))]),
            ),
        ],
    )
}

pub open spec fn tool_message_json(call_id: Seq<char>, content: Seq<char>) -> JsonV {
    JsonV::Object(
        seq![
            ("role"@, JsonV::Str("tool"@)),
            ("tool_call_id"@, JsonV::Str(call_id)),
            ("content"@, JsonV::Str(content)),
        ],
    )
}

/// The text sent as the content of a tool search's output.
pub open spec fn tool_search_output_text(status: JsonV, execution: JsonV, tools: JsonV) -> Seq<char> {
    json_text(
        JsonV::Object(
            seq![("status"@, status), ("execution"@, execution), ("tools"@, tools)],
        ),
    )
}

/// What one item adds to the messages: a message for a conversation
/// message or a tool output, a tool call grouped into the assistant
/// message (with the reasoning attached to the item), nothing for the rest.
pub open spec fn item_step(msgs: Seq<JsonV>, item: ResponseItem, anchor: Option<Seq<char>>) -> Seq<
    JsonV,
> {
    match item {
        ResponseItem::Message { role, content, .. } => msgs.push(message_json(role@, content@)),
        ResponseItem::FunctionCall { name, arguments, call_id, .. } => spec_push_tool_call(
            msgs,
            function_call_json(name@, arguments@, call_id@),
            anchor,
        ),
        ResponseItem::ToolSearchCall { call_id, status, execution, arguments } => spec_push_tool_call(
            msgs,
            tool_search_call_json(call_id, status@, execution@, arguments@),
            anchor,
        ),
        ResponseItem::LocalShellCall { id, status, action } => spec_push_tool_call(
            msgs,
            local_shell_call_json(id, status@, action@),
            anchor,
        ),
        ResponseItem::FunctionCallOutput { call_id, output } => msgs.push(
            tool_message_json(call_id@, output@),
        ),
        ResponseItem::ToolSearchOutput { call_id, status, execution, tools } => msgs.push(
            tool_message_json(opt_text(call_id), tool_search_output_text(status@, execution@, tools@)),
        ),
        ResponseItem::CustomToolCall { id, name, input } => spec_push_tool_call(
            msgs,
            custom_tool_call_json(id, name@, input@),
            anchor,
        ),
        ResponseItem::CustomToolCallOutput { call_id, output } => msgs.push(
            tool_message_json(call_id@, output@),
        ),
        _ => msgs,
    }
}

pub open spec fn messages_from(
    init: Seq<JsonV>,
    input: Seq<ResponseItem>,
    anchors: Seq<Option<Seq<char>>>,
    k: int,
) -> Seq<JsonV>
    decreases k,
{
    if k <= 0 {
        init
    } else {
        item_step(messages_from(init, input, anchors, k - 1), input[k - 1], anchors[k - 1])
    }
}

/// A tool output, whether of a function call or of a custom tool call, adds
/// exactly one message at the end, `{"role": "tool", "tool_call_id": call_id,
/// "content": output}`, and leaves the messages before it as they were.
pub proof fn lemma_tool_output_step(msgs: Seq<JsonV>, item: ResponseItem, anchor: Option<Seq<char>>)
    ensures
        item matches ResponseItem::CustomToolCallOutput { call_id, output } ==> item_step(
            msgs,
            item,
            anchor,
        ) == msgs.push(
            JsonV::Object(
                seq![
                    (seq!['r', 'o', 'l', 'e'], JsonV::Str(seq!['t', 'o', 'o', 'l'])),
                    (
                        seq!['t', 'o', 'o', 'l', '_', 'c', 'a', 'l', 'l', '_', 'i', 'd'],
                        JsonV::Str(call_id@),
                    ),
                    (seq!['c', 'o', 'n', 't', 'e', 'n', 't'], JsonV::Str(output@)),
                ],
            ),
        ),
        item matches ResponseItem::FunctionCallOutput { call_id, output } ==> item_step(
            msgs,
            item,
            anchor,
        ) == msgs.push(
            JsonV::Object(
                seq![
                    (seq!['r', 'o', 'l', 'e'], JsonV::Str(seq!['t', 'o', 'o', 'l'])),
                    (
                        seq!['t', 'o', 'o', 'l', '_', 'c', 'a', 'l', 'l', '_', 'i', 'd'],
                        JsonV::Str(call_id@),
                    ),
                    (seq!['c', 'o', 'n', 't', 'e', 'n', 't'], JsonV::Str(output@)),
                ],
            ),
        ),
{
    reveal_strlit("role");
    reveal_strlit("tool");
    reveal_strlit("tool_call_id");
    reveal_strlit("content");
    assert("role"@ =~= seq!['r', 'o', 'l', 'e']);
    assert("tool"@ =~= seq!['t', 'o', 'o', 'l']);
    assert("tool_call_id"@ =~= seq!['t', 'o', 'o', 'l', '_', 'c', 'a', 'l', 'l', '_', 'i', 'd']);
    assert("content"@ =~= seq!['c', 'o', 'n', 't', 'e', 'n', 't']);
}

/// A conversation message adds exactly one message at the end and keeps
/// the ones before it; a message made of one text part `t` is sent as
/// `{"role": role, "content": t}`.
pub proof fn lemma_message_step(msgs: Seq<JsonV>, item: ResponseItem, anchor: Option<Seq<char>>)
    ensures
        item is Message ==> {
            let out = item_step(msgs, item, anchor);
            &&& out.len() == msgs.len() + 1
            &&& out.take(msgs.len() as int) =~= msgs
        },
        item matches ResponseItem::Message { role, content, .. } ==> (content@.len() == 1 ==> (
        content@[0] matches ContentItem::InputText { text } ==> item_step(msgs, item, anchor)
            == msgs.push(
            JsonV::Object(
                seq![
                    (seq!['r', 'o', 'l', 'e'], JsonV::Str(role@)),
                    (seq!['c', 'o', 'n', 't', 'e', 'n', 't'], JsonV::Str(text@)),
                ],
            ),
        ))),
{
    reveal_strlit("role");
    reveal_strlit("content");
    assert("role"@ =~= seq!['r', 'o', 'l', 'e']);
    assert("content"@ =~= seq!['c', 'o', 'n', 't', 'e', 'n', 't']);
    match item {
        ResponseItem::Message { role, content, .. } => {
            let out = item_step(msgs, item, anchor);
            assert(out.take(msgs.len() as int) =~= msgs);
            if content@.len() == 1 {
                let c = content@;
                assert(c.drop_last() =~= Seq::<ContentItem>::empty());
                assert(!has_image(c.drop_last()));
                assert(content_text(c.drop_last()) =~= Seq::<char>::empty());
                match c[0] {
                    ContentItem::InputText { text } => {
                        assert(content_text(c) =~= text@);
                    },
                    _ => {},
                }
            }
        },
        _ => {},
    }
}

/// In the messages built from a conversation, the item at index `k`, when it
/// is a tool output, contributes its tool message right after the messages of
/// the items before it: one message per output, in item order.
pub proof fn lemma_tool_output_in_order(
    init: Seq<JsonV>,
    input: Seq<ResponseItem>,
    anchors: Seq<Option<Seq<char>>>,
    k: int,
)
    requires
        0 <= k < input.len(),
    ensures
        input[k] matches ResponseItem::CustomToolCallOutput { call_id, output } ==> {
            let before = messages_from(init, input, anchors, k);
            let after = messages_from(init, input, anchors, k + 1);
            &&& after.len() == before.len() + 1
            &&& after.take(before.len() as int) =~= before
            &&& after.last() == JsonV::Object(
                seq![
                    (seq!['r', 'o', 'l', 'e'], JsonV::Str(seq!['t', 'o', 'o', 'l'])),
                    (
                        seq!['t', 'o', 'o', 'l', '_', 'c', 'a', 'l', 'l', '_', 'i', 'd'],
                        JsonV::Str(call_id@),
                    ),
                    (seq!['c', 'o', 'n', 't', 'e', 'n', 't'], JsonV::Str(output@)),
                ],
            )
        },
        input[k] matches ResponseItem::FunctionCallOutput { call_id, output } ==> {
            let before = messages_from(init, input, anchors, k);
            let after = messages_from(init, input, anchors, k + 1);
            &&& after.len() == before.len() + 1
            &&& after.take(before.len() as int) =~= before
            &&& after.last() == JsonV::Object(
                seq![
                    (seq!['r', 'o', 'l', 'e'], JsonV::Str(seq!['t', 'o', 'o', 'l'])),
                    (
                        seq!['t', 'o', 'o', 'l', '_', 'c', 'a', 'l', 'l', '_', 'i', 'd'],
                        JsonV::Str(call_id@),
                    ),
                    (seq!['c', 'o', 'n', 't', 'e', 'n', 't'], JsonV::Str(output@)),
                ],
            )
        },
{
    let before = messages_from(init, input, anchors, k);
    lemma_tool_output_step(before, input[k], anchors[k]);
    let after = messages_from(init, input, anchors, k + 1);
    assert(after == item_step(before, input[k], anchors[k]));
    assert(after.take(before.len() as int) =~= before ||
        !(input[k] is CustomToolCallOutput || input[k] is FunctionCallOutput));
}

/// The system message with the base instructions, when they are not empty.
pub open spec fn system_messages(instructions: Seq<char>) -> Seq<JsonV> {
    if instructions.len() > 0 {
        seq![
            JsonV::Object(
                seq![("role"@, JsonV::Str("system"@)), ("content"@, JsonV::Str(instructions))],
            ),
        ]
    } else {
        seq![]
    }
}

/// The `messages` of the request body.
pub open spec fn spec_chat_messages(instructions: Seq<char>, input: Seq<ResponseItem>) -> Seq<JsonV> {
    messages_from(system_messages(instructions), input, spec_anchors(input), input.len() as int)
}

fn opt_str_exec(o: &Option<String>) -> (r: &str)
    ensures
        r@ == opt_text(*o),
{
    proof {
        reveal_strlit("");
    }
    match o {
        Some(s) => s.as_str(),
        None => "",
    }
}

fn opt_json_exec(o: &Option<String>) -> (r: Json)
    ensures
        r@ == opt_json(*o),
{
    match o {
        Some(s) => jstr(s.as_str()),
        None => Json::Null,
    }
}

fn tool_message_exec(call_id: &str, content: &str) -> (r: Json)
    ensures
        r@ == tool_message_json(call_id@, content@),
{
    obj3("role", jstr("tool"), "tool_call_id", jstr(call_id), "content", jstr(content))
}

fn push_json(messages: &mut Vec<Json>, m: Json)
    ensures
        jviews(final(messages)@) == jviews(old(messages)@).push(m@),
{
    let ghost v = m@;
    let ghost prev = messages@;
    messages.push(m);
    proof {
        lemma_jviews(messages@);
        lemma_jviews(prev);
    }
    assert(jviews(messages@) =~= jviews(prev).push(v)) by {
        assert(messages@.drop_last() =~= prev);
    }
}

fn item_step_exec(messages: &mut Vec<Json>, item: &ResponseItem, anchor: Option<&String>)
    ensures
        jviews(final(messages)@) == item_step(
            jviews(old(messages)@),
            *item,
            match anchor {
                Some(s) => Some(s@),
                None => None,
            },
        ),
{
    let reasoning: Option<&str> = match anchor {
        Some(s) => Some(s.as_str()),
        None => None,
    };
    match item {
        ResponseItem::Message { role, content, .. } => {
            push_message(messages, role.as_str(), content.as_slice());
        },
        ResponseItem::FunctionCall { name, arguments, call_id, .. } => {
            let tc = obj3(
                "id",
                jstr(call_id.as_str()),
                "type",
                jstr("function"),
                "function",
                obj2("name", jstr(name.as_str()), "arguments", jstr(arguments.as_str())),
            );
            push_tool_call_message(messages, tc, reasoning);
        },
        ResponseItem::ToolSearchCall { call_id, status, execution, arguments } => {
            let tc = obj6(
                "id",
                jstr(opt_str_exec(call_id)),
                "type",
                jstr("tool_search_call"),
                "call_id",
                opt_json_exec(call_id),
                "status",
                copy_json(status),
                "execution",
                copy_json(execution),
                "arguments",
                copy_json(arguments),
            );
            push_tool_call_message(messages, tc, reasoning);
        },
        ResponseItem::LocalShellCall { id, status, action } => {
            let tc = obj4(
                "id",
                jstr(opt_str_exec(id)),
                "type",
                jstr("local_shell_call"),
                "status",
                copy_json(status),
                "action",
                copy_json(action),
            );
            push_tool_call_message(messages, tc, reasoning);
        },
        ResponseItem::FunctionCallOutput { call_id, output } => {
            push_json(messages, tool_message_exec(call_id.as_str(), output.as_str()));
        },
        ResponseItem::ToolSearchOutput { call_id, status, execution, tools } => {
            let body = obj3(
                "status",
                copy_json(status),
                "execution",
                copy_json(execution),
                "tools",
                copy_json(tools),
            );
            let text = print_json(&body);
            push_json(messages, tool_message_exec(opt_str_exec(call_id), text.as_str()));
        },
        ResponseItem::CustomToolCall { id, name, input } => {
            let tc = obj3(
                "id",
                jstr(opt_str_exec(id)),
                "type",
                jstr("custom"),
                "custom",
                obj2("name", jstr(name.as_str()), "input", jstr(input.as_str())),
            );
            push_tool_call_message(messages, tc, reasoning);
        },
        ResponseItem::CustomToolCallOutput { call_id, output } => {
            push_json(messages, tool_message_exec(call_id.as_str(), output.as_str()));
        },
        _ => {},
    }
}

// ---------------------------------------------------------------------------
// Tools and the request body
// ---------------------------------------------------------------------------

/// The entries without those named `key`.
pub open spec fn without_key(m: Seq<(Seq<char>, JsonV)>, key: Seq<char>) -> Seq<(Seq<char>, JsonV)>
    decreases m.len(),
{
    if m.len() == 0 {
        seq![]
    } else if m.last().0 == key {
        without_key(m.drop_last(), key)
    } else {
        without_key(m.drop_last(), key).push(m.last())
    }
}

/// The Chat Completions form of a Responses-API tool: only a function tool
/// has one, nested under `function` without its own `type`.
pub open spec fn chat_tool(t: JsonV) -> Option<JsonV> {
    if vget(t, "type"@) == Some(JsonV::Str("function"@)) {
        match t {
            JsonV::Object(m) => Some(
                JsonV::Object(
                    seq![
                        ("type"@, JsonV::Str("function"@)),
                        ("function"@, JsonV::Object(without_key(m, "type"@))),
                    ],
                ),
            ),
            _ => None,
        }
    } else {
        None
    }
}

pub open spec fn chat_tools(ts: Seq<JsonV>) -> Seq<JsonV>
    decreases ts.len(),
{
    if ts.len() == 0 {
        seq![]
    } else {
        let rest = chat_tools(ts.drop_last());
        match chat_tool(ts.last()) {
            Some(x) => rest.push(x),
            None => rest,
        }
    }
}

fn without_key_exec(m: &Vec<(String, Json)>, key: &str) -> (r: Vec<(String, Json)>)
    ensures
        eviews(r@) == without_key(eviews(m@), key@),
{
    let k = to_chars(key);
    let mut out: Vec<(String, Json)> = Vec::new();
    let mut i: usize = 0;
    proof {
        lemma_eviews(m@);
    }
    while i < m.len()
        invariant
            i <= m@.len(),
            k@ == key@,
            eviews(m@).len() == m@.len(),
            forall|t: int| 0 <= t < m@.len() ==> #[trigger] eviews(m@)[t] == (m@[t].0@, jview(m@[t].1)),
            eviews(out@) == without_key(eviews(m@).take(i as int), key@),
        decreases m@.len() - i,
    {
        let ghost ms = eviews(m@);
        assert(ms.take(i + 1).drop_last() =~= ms.take(i as int));
        assert(ms.take(i + 1).last() == ms[i as int]);
        let name = to_chars(m[i].0.as_str());
        if !crate::text::seq_eq(&name, &k) {
            let c = copy_json(&m[i].1);
            let nm = m[i].0.clone();
            let ghost prev = out@;
            out.push((nm, c));
            proof {
                lemma_eviews(out@);
                lemma_eviews(prev);
            }
            assert(eviews(out@) =~= eviews(prev).push(ms[i as int])) by {
                assert(out@.drop_last() =~= prev);
            }
        }
        i = i + 1;
    }
    assert(eviews(m@).take(m@.len() as int) =~= eviews(m@));
    out
}

fn chat_tool_exec(t: &Json) -> (r: Option<Json>)
    ensures
        r matches Some(x) ==> chat_tool(t@) == Some(x@),
        r is None ==> chat_tool(t@) is None,
{
    let is_function = match get(t, "type") {
        Some(Json::Str(s)) => crate::text::eq_lit(&to_chars(s.as_str()), "function"),
        _ => false,
    };
    if !is_function {
        return None;
    }
    match t {
        Json::Object(m) => {
            let rest = without_key_exec(m, "type");
            Some(obj2("type", jstr("function"), "function", Json::Object(rest)))
        },
        _ => None,
    }
}

/// The Chat Completions tools for the Responses-API tool values: the
/// function tools, nested under `function` (see [`chat_tool`]); the others
/// are dropped.
pub fn create_tools_json_for_chat_completions_api(responses_api_tools: &[Json]) -> (r: Vec<Json>)
    ensures
        jviews(r@) == chat_tools(jviews(responses_api_tools@)),
{
    let ghost ts = jviews(responses_api_tools@);
    proof {
        lemma_jviews(responses_api_tools@);
    }
    let mut out: Vec<Json> = Vec::new();
    let mut i: usize = 0;
    while i < responses_api_tools.len()
        invariant
            i <= responses_api_tools@.len(),
            ts == jviews(responses_api_tools@),
            ts.len() == responses_api_tools@.len(),
            forall|t: int| 0 <= t < responses_api_tools@.len() ==> #[trigger] ts[t] == jview(responses_api_tools@[t]),
            jviews(out@) == chat_tools(ts.take(i as int)),
        decreases responses_api_tools@.len() - i,
    {
        assert(ts.take(i + 1).drop_last() =~= ts.take(i as int));
        assert(ts.take(i + 1).last() == ts[i as int]);
        match chat_tool_exec(&responses_api_tools[i]) {
            Some(x) => push_json(&mut out, x),
            None => {},
        }
        i = i + 1;
    }
    assert(ts.take(responses_api_tools@.len() as int) =~= ts);
    out
}

/// The request body: model, messages, streaming on, storage off, tools.
pub open spec fn spec_payload(model: Seq<char>, messages: Seq<JsonV>, tools: Seq<JsonV>) -> JsonV {
    JsonV::Object(
        seq![
            ("model"@, JsonV::Str(model)),
            ("messages"@, JsonV::Array(messages)),
            ("stream"@, JsonV::Bool(true)),
            ("store"@, JsonV::Bool(false)),
            ("tools"@, JsonV::Array(tools)),
        ],
    )
}

/// See [`spec_payload`].
pub fn create_chat_completions_payload(model_slug: &str, messages: Vec<Json>, tools_json: Vec<Json>) -> (r: Json)
    ensures
        r@ == spec_payload(model_slug@, jviews(messages@), jviews(tools_json@)),
{
    obj5(
        "model",
        jstr(model_slug),
        "messages",
        array_of(messages),
        "stream",
        Json::Bool(true),
        "store",
        Json::Bool(false),
        "tools",
        array_of(tools_json),
    )
}

/// The request body for a conversation: the base instructions as a system
/// message, the items as messages (see [`spec_chat_messages`]), and the
/// Chat Completions forms of the Responses-API tools.
pub fn build_chat_completions_payload(
    base_instructions: &str,
    input: &[ResponseItem],
    responses_api_tools: &[Json],
    model_slug: &str,
) -> (r: Json)
    ensures
        r@ == spec_payload(
            model_slug@,
            spec_chat_messages(base_instructions@, input@),
            chat_tools(jviews(responses_api_tools@)),
        ),
{
    let mut messages: Vec<Json> = Vec::new();
    assert(jviews(messages@) =~= Seq::<JsonV>::empty());
    if !base_instructions.is_empty() {
        push_json(
            &mut messages,
            obj2("role", jstr("system"), "content", jstr(base_instructions)),
        );
    }
    assert(jviews(messages@) =~= system_messages(base_instructions@));
    let anchors = collect_reasoning_anchors(input);
    let ghost av = anchor_map_view(anchors@, input@.len());
    let mut idx: usize = 0;
    while idx < input.len()
        invariant
            idx <= input@.len(),
            av == anchor_map_view(anchors@, input@.len()),
            av == spec_anchors(input@),
            jviews(messages@) == messages_from(
                system_messages(base_instructions@),
                input@,
                av,
                idx as int,
            ),
        decreases input@.len() - idx,
    {
        item_step_exec(&mut messages, &input[idx], anchors.get(&idx));
        idx = idx + 1;
    }
    let tools = create_tools_json_for_chat_completions_api(responses_api_tools);
    create_chat_completions_payload(model_slug, messages, tools)
}

// ---------------------------------------------------------------------------
// Roles for strict providers
// ---------------------------------------------------------------------------

pub open spec fn is_standard_role(r: Seq<char>) -> bool {
    r == "system"@ || r == "user"@ || r == "assistant"@ || r == "tool"@
}

/// A message whose role is a string other than `system`, `user`,
/// `assistant` and `tool` gets the role `system`; anything else is kept.
pub open spec fn sanitize_message(j: JsonV) -> JsonV {
    match j {
        JsonV::Object(m) => match ostr(lookup(m, "role"@)) {
            Some(r) => if is_standard_role(r) {
                j
            } else {
                JsonV::Object(insert_entry(m, "role"@, JsonV::Str("system"@)))
            },
            None => j,
        },
        _ => j,
    }
}

/// The payload with each message of its `messages` array passed through
/// [`sanitize_message`]; unchanged when there is no such array.
pub open spec fn spec_sanitize(p: JsonV) -> JsonV {
    match p {
        JsonV::Object(m) => match lookup(m, "messages"@) {
            Some(JsonV::Array(a)) => JsonV::Object(
                insert_entry(m, "messages"@, JsonV::Array(a.map_values(|x: JsonV| sanitize_message(x)))),
            ),
            _ => p,
        },
        _ => p,
    }
}

fn sanitize_message_exec(j: &Json) -> (r: Json)
    ensures
        r@ == sanitize_message(j@),
{
    let std = match j {
        Json::Object(m) => match entries_get(m, "role") {
            Some(Json::Str(r)) => {
                let rv = to_chars(r.as_str());
                Some(
                    crate::text::eq_lit(&rv, "system") || crate::text::eq_lit(&rv, "user")
                        || crate::text::eq_lit(&rv, "assistant") || crate::text::eq_lit(&rv, "tool"),
                )
            },
            _ => None,
        },
        _ => None,
    };
    match std {
        Some(false) => match copy_json(j) {
            Json::Object(mut e) => {
                set_entry(&mut e, "role", jstr("system"));
                Json::Object(e)
            },
            other => other,
        },
        _ => copy_json(j),
    }
}

/// Rewrites the roles of the payload's messages for strict providers (see
/// [`spec_sanitize`]).
pub fn sanitize_message_roles_for_strict_chat_providers(payload: &mut Json)
    ensures
        final(payload)@ == spec_sanitize(old(payload)@),
{
    let msgs: Option<Vec<Json>> = match &*payload {
        Json::Object(m) => match entries_get(m, "messages") {
            Some(Json::Array(a)) => {
                let mut out: Vec<Json> = Vec::new();
                let mut i: usize = 0;
                proof {
                    lemma_jviews(a@);
                }
                while i < a.len()
                    invariant
                        i <= a@.len(),
                        jviews(a@).len() == a@.len(),
                        forall|t: int| 0 <= t < a@.len() ==> #[trigger] jviews(a@)[t] == jview(a@[t]),
                        jviews(out@) == jviews(a@).take(i as int).map_values(
                            |x: JsonV| sanitize_message(x),
                        ),
                    decreases a@.len() - i,
                {
                    push_json(&mut out, sanitize_message_exec(&a[i]));
                    assert(jviews(a@).take(i + 1).map_values(|x: JsonV| sanitize_message(x))
                        =~= jviews(a@).take(i as int).map_values(|x: JsonV| sanitize_message(x)).push(
                        sanitize_message(jview(a@[i as int])),
                    ));
                    i = i + 1;
                }
                assert(jviews(a@).take(a@.len() as int) =~= jviews(a@));
                Some(out)
            },
            _ => None,
        },
        _ => None,
    };
    match msgs {
        Some(out) => {
            let copy = copy_json(&*payload);
            match copy {
                Json::Object(mut e) => {
                    set_entry(&mut e, "messages", array_of(out));
                    *payload = Json::Object(e);
                },
                _ => {},
            }
        },
        None => {},
    }
}


/// Sanitizing a message twice is sanitizing it once.
pub proof fn lemma_sanitize_message_idempotent(j: JsonV)
    ensures
        sanitize_message(sanitize_message(j)) == sanitize_message(j),
{
    match j {
        JsonV::Object(m) => match ostr(lookup(m, "role"@)) {
            Some(r) => if !is_standard_role(r) {
                crate::json::lemma_lookup_insert_same(m, "role"@, JsonV::Str("system"@));
            },
            None => {},
        },
        _ => {},
    }
}

/// After sanitizing, a message's role, when it is a string, is one of
/// `system`, `user`, `assistant` and `tool`.
pub proof fn lemma_sanitize_message_standard(j: JsonV)
    ensures
        ostr(vget(sanitize_message(j), "role"@)) matches Some(r) ==> is_standard_role(r),
{
    match j {
        JsonV::Object(m) => match ostr(lookup(m, "role"@)) {
            Some(r) => if !is_standard_role(r) {
                crate::json::lemma_lookup_insert_same(m, "role"@, JsonV::Str("system"@));
            },
            None => {},
        },
        _ => {},
    }
}

/// What sanitizing changes of one message: nothing, unless it is an object
/// whose `role` is a string other than `system`, `user`, `assistant` and
/// `tool`; then its `role` becomes `system` and every other member stays.
pub proof fn lemma_sanitize_message_frame(j: JsonV)
    ensures
        !(ostr(vget(j, "role"@)) matches Some(r) && !is_standard_role(r)) ==> sanitize_message(j) == j,
        ostr(vget(j, "role"@)) matches Some(r) && !is_standard_role(r) ==> {
            &&& vget(sanitize_message(j), "role"@) == Some(JsonV::Str("system"@))
            &&& forall|k: Seq<char>| k != "role"@ ==> vget(sanitize_message(j), k) == vget(j, k)
        },
{
    match j {
        JsonV::Object(m) => match ostr(lookup(m, "role"@)) {
            Some(r) => if !is_standard_role(r) {
                crate::json::lemma_lookup_insert_same(m, "role"@, JsonV::Str("system"@));
                assert forall|k: Seq<char>| k != "role"@ implies vget(sanitize_message(j), k) == vget(j, k) by {
                    crate::json::lemma_lookup_insert_other(m, "role"@, JsonV::Str("system"@), k);
                }
            },
            None => {},
        },
        _ => {},
    }
}

/// What sanitizing changes of a payload: nothing when it has no `messages`
/// array; otherwise only that array, each message passed through
/// [`sanitize_message`] (see [`lemma_sanitize_message_frame`]), in the same
/// order and number, every other member of the payload as it was.
pub proof fn lemma_sanitize_frame(p: JsonV)
    ensures
        !(vget(p, "messages"@) matches Some(JsonV::Array(_))) ==> spec_sanitize(p) == p,
        vget(p, "messages"@) matches Some(JsonV::Array(a)) ==> {
            &&& vget(spec_sanitize(p), "messages"@) == Some(JsonV::Array(a.map_values(|x: JsonV| sanitize_message(x))))
            &&& a.map_values(|x: JsonV| sanitize_message(x)).len() == a.len()
            &&& forall|k: Seq<char>| k != "messages"@ ==> vget(spec_sanitize(p), k) == vget(p, k)
        },
{
    match p {
        JsonV::Object(m) => match lookup(m, "messages"@) {
            Some(JsonV::Array(a)) => {
                let v = JsonV::Array(a.map_values(|x: JsonV| sanitize_message(x)));
                crate::json::lemma_lookup_insert_same(m, "messages"@, v);
                assert forall|k: Seq<char>| k != "messages"@ implies vget(spec_sanitize(p), k) == vget(p, k) by {
                    crate::json::lemma_lookup_insert_other(m, "messages"@, v, k);
                }
            },
            _ => {},
        },
        _ => {},
    }
}

/// Sanitizing a payload twice is sanitizing it once, and afterwards every
/// string role of its messages is a standard one: a strict provider is
/// sent nothing it rejects.
pub proof fn lemma_sanitize_idempotent(p: JsonV)
    ensures
        spec_sanitize(spec_sanitize(p)) == spec_sanitize(p),
        vget(spec_sanitize(p), "messages"@) matches Some(JsonV::Array(a)) ==> forall|i: int|
            0 <= i < a.len() ==> (#[trigger] ostr(vget(a[i], "role"@)) matches Some(r) ==> is_standard_role(r)),
{
    match p {
        JsonV::Object(m) => match lookup(m, "messages"@) {
            Some(JsonV::Array(a)) => {
                let a2 = a.map_values(|x: JsonV| sanitize_message(x));
                let m2 = insert_entry(m, "messages"@, JsonV::Array(a2));
                crate::json::lemma_lookup_insert_same(m, "messages"@, JsonV::Array(a2));
                let a3 = a2.map_values(|x: JsonV| sanitize_message(x));
                assert(a3 =~= a2) by {
                    assert forall|i: int| 0 <= i < a2.len() implies a3[i] == a2[i] by {
                        lemma_sanitize_message_idempotent(a[i]);
                    }
                }
                crate::json::lemma_insert_present(m2, "messages"@, JsonV::Array(a2));
                assert forall|i: int| 0 <= i < a2.len() implies (#[trigger] ostr(vget(a2[i], "role"@)) matches Some(r)
                    ==> is_standard_role(r)) by {
                    lemma_sanitize_message_standard(a[i]);
                }
            },
            _ => {},
        },
        _ => {},
    }
}

} // verus!
