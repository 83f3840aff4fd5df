//! The Chat Completions event stream: each `data:` payload of the server's
//! event stream is a chunk `{"id", "model", "choices": [{"delta": {..},
//! "finish_reason": ..}]}`, ended by `[DONE]`. The decisions live here, as
//! a step from the stream's state and the next input to the events to
//! forward and whether the stream is over; reading the socket, the idle
//! timer and the channel stay with the caller.

use vstd::prelude::*;
use vstd::string::StringExecFns;
use crate::chat::{ContentItem, ReasoningContent, ResponseItem};
use crate::json::{
    as_str, at, get, get_str, json_parse, oget, ostr, parse_json, vat, vget, vstr, Json, JsonV,
};
use crate::text::{eq_lit, from_chars, to_chars, trim, trim_vec};

verus! {

/// An event forwarded to the consumer of the stream.
#[derive(Debug, PartialEq)]
pub enum StreamEvent {
    Created,
    OutputTextDelta(String),
    ReasoningContentDelta { delta: String, content_index: usize },
    OutputItemDone(ResponseItem),
    Completed { response_id: String, end_turn: Option<bool> },
    /// The stream failed; the text says how.
    Error(String),
}

/// What the transport hands to the next step.
#[derive(Debug, PartialEq)]
pub enum SseInput {
    /// The `data` of one server-sent event.
    Data(String),
    /// Reading the stream failed; the error's text.
    TransportError(String),
    /// The server closed the stream.
    Closed,
    /// No event came within the idle timeout.
    IdleTimeout,
}

/// What is carried from one chunk to the next: the tool call being
/// assembled, the assistant and reasoning text so far, and the ids seen.
pub struct ChatStreamState {
    fn_name: Option<String>,
    fn_arguments: String,
    fn_call_id: Option<String>,
    fn_active: bool,
    assistant_text: String,
    reasoning_text: String,
    current_item_id: Option<String>,
    current_response_id: Option<String>,
    current_response_model: Option<String>,
    created_emitted: bool,
}

pub struct StreamModel {
    pub fn_name: Option<Seq<char>>,
    pub fn_arguments: Seq<char>,
    pub fn_call_id: Option<Seq<char>>,
    pub fn_active: bool,
    pub assistant_text: Seq<char>,
    pub reasoning_text: Seq<char>,
    pub item_id: Option<Seq<char>>,
    pub response_id: Option<Seq<char>>,
    pub response_model: Option<Seq<char>>,
    pub created_emitted: bool,
}

pub open spec fn ov(o: Option<String>) -> Option<Seq<char>> {
    match o {
        Some(s) => Some(s@),
        None => None,
    }
}

impl View for ChatStreamState {
    type V = StreamModel;

    closed spec fn view(&self) -> StreamModel {
        StreamModel {
            fn_name: ov(self.fn_name),
            fn_arguments: self.fn_arguments@,
            fn_call_id: ov(self.fn_call_id),
            fn_active: self.fn_active,
            assistant_text: self.assistant_text@,
            reasoning_text: self.reasoning_text@,
            item_id: ov(self.current_item_id),
            response_id: ov(self.current_response_id),
            response_model: ov(self.current_response_model),
            created_emitted: self.created_emitted,
        }
    }
}

/// The forwarded events, as the contracts speak of them.
pub enum StreamEventV {
    Created,
    TextDelta(Seq<char>),
    ReasoningDelta(Seq<char>),
    MessageDone { id: Option<Seq<char>>, text: Seq<char> },
    ReasoningDone { id: Option<Seq<char>>, text: Seq<char> },
    FunctionCallDone { id: Option<Seq<char>>, name: Seq<char>, arguments: Seq<char>, call_id: Seq<char> },
    Completed { response_id: Seq<char>, end_turn: Option<bool> },
    Error(Seq<char>),
}

/// `e` is the event `v`: a finished message is an assistant message with
/// one output text part; finished reasoning has one reasoning text part;
/// reasoning deltas are at content index 0.
pub open spec fn matches_event(e: StreamEvent, v: StreamEventV) -> bool {
    match v {
        StreamEventV::Created => e is Created,
        StreamEventV::TextDelta(t) => e matches StreamEvent::OutputTextDelta(s) && s@ == t,
        StreamEventV::ReasoningDelta(t) => e matches StreamEvent::ReasoningContentDelta {
            delta,
            content_index,
        } && delta@ == t && content_index == 0,
        StreamEventV::MessageDone { id, text } => match e {
            StreamEvent::OutputItemDone(ResponseItem::Message { id: i, role, content }) => {
                &&& ov(i) == id
                &&& role@ == "assistant"@
                &&& content@.len() == 1
                &&& match content@[0] {
                    ContentItem::OutputText { text: x } => x@ == text,
                    _ => false,
                }
            },
            _ => false,
        },
        StreamEventV::ReasoningDone { id, text } => match e {
            StreamEvent::OutputItemDone(ResponseItem::Reasoning { id: i, content: Some(c) }) => {
                &&& ov(i) == id
                &&& c@.len() == 1
                &&& match c@[0] {
                    ReasoningContent::ReasoningText { text: x } => x@ == text,
                    _ => false,
                }
            },
            _ => false,
        },
        StreamEventV::FunctionCallDone { id, name, arguments, call_id } => e matches StreamEvent::OutputItemDone(
            ResponseItem::FunctionCall { id: i, name: n, arguments: a, call_id: c },
        ) && ov(i) == id && n@ == name && a@ == arguments && c@ == call_id,
        StreamEventV::Completed { response_id, end_turn } => e matches StreamEvent::Completed {
            response_id: r,
            end_turn: t,
        } && r@ == response_id && t == end_turn,
        StreamEventV::Error(t) => e matches StreamEvent::Error(s) && s@ == t,
    }
}

pub open spec fn events_match(es: Seq<StreamEvent>, vs: Seq<StreamEventV>) -> bool {
    &&& es.len() == vs.len()
    &&& forall|i: int| 0 <= i < es.len() ==> #[trigger] matches_event(es[i], vs[i])
}

/// The item id sent with an item: the server's id, when it is not empty.
pub open spec fn item_id(o: Option<Seq<char>>) -> Option<Seq<char>> {
    match o {
        Some(s) => if s.len() > 0 {
            Some(s)
        } else {
            None
        },
        None => None,
    }
}

pub open spec fn or_empty(o: Option<Seq<char>>) -> Seq<char> {
    match o {
        Some(s) => s,
        None => seq![],
    }
}

/// A `delta.reasoning` field: a non-empty string, or an object whose `text`
/// or else `content` is a non-empty string.
pub open spec fn spec_reasoning_text_delta(v: JsonV) -> Option<Seq<char>> {
    match vstr(v) {
        Some(s) if s.len() > 0 => Some(s),
        _ => if v is Object {
            match ostr(vget(v, "text"@)) {
                Some(s) if s.len() > 0 => Some(s),
                _ => match ostr(vget(v, "content"@)) {
                    Some(s) if s.len() > 0 => Some(s),
                    _ => None,
                },
            }
        } else {
            None
        },
    }
}

/// A `message.reasoning` field: a string, or an object whose `text` or
/// else `content` is a string.
pub open spec fn spec_reasoning_text_from_value(v: JsonV) -> Option<Seq<char>> {
    match vstr(v) {
        Some(s) => Some(s),
        None => if v is Object {
            match ostr(vget(v, "text"@)) {
                Some(s) => Some(s),
                None => ostr(vget(v, "content"@)),
            }
        } else {
            None
        },
    }
}

/// The terminal events when the stream ends without a finish reason: the
/// assistant message and the reasoning, when there is any of each, then
/// `Completed` without an end-of-turn flag.
pub open spec fn flush_events(st: StreamModel) -> Seq<StreamEventV> {
    (if st.assistant_text.len() > 0 {
        seq![StreamEventV::MessageDone { id: item_id(st.item_id), text: st.assistant_text }]
    } else {
        seq![]
    }) + (if st.reasoning_text.len() > 0 {
        seq![StreamEventV::ReasoningDone { id: item_id(st.item_id), text: st.reasoning_text }]
    } else {
        seq![]
    }) + seq![StreamEventV::Completed { response_id: or_empty(st.response_id), end_turn: None }]
}

pub open spec fn flushed(st: StreamModel) -> StreamModel {
    StreamModel { assistant_text: seq![], reasoning_text: seq![], ..st }
}

/// Taking the first tool call of a delta: the call is active; its id and
/// name are kept from the first chunk that has them; argument fragments
/// are appended.
pub open spec fn tool_call_update(st: StreamModel, tc: JsonV) -> StreamModel {
    let call_id = match st.fn_call_id {
        Some(c) => Some(c),
        None => ostr(vget(tc, "id"@)),
    };
    match vget(tc, "function"@) {
        Some(f) => StreamModel {
            fn_active: true,
            fn_call_id: call_id,
            fn_name: match st.fn_name {
                Some(n) => Some(n),
                None => ostr(vget(f, "name"@)),
            },
            fn_arguments: match ostr(vget(f, "arguments"@)) {
                Some(a) => st.fn_arguments + a,
                None => st.fn_arguments,
            },
            ..st
        },
        None => StreamModel { fn_active: true, fn_call_id: call_id, ..st },
    }
}

/// The events for a finish reason, and the state after: on `tool_calls`
/// with a call in progress, the reasoning (if any) then the function call;
/// on `stop`, the assistant message then the reasoning, each if any.
pub open spec fn finish_events(st: StreamModel, reason: Seq<char>) -> (StreamModel, Seq<StreamEventV>) {
    let rid = item_id(st.item_id);
    if reason == "tool_calls"@ && st.fn_active {
        let r = if st.reasoning_text.len() > 0 {
            seq![StreamEventV::ReasoningDone { id: rid, text: st.reasoning_text }]
        } else {
            seq![]
        };
        (
            StreamModel {
                reasoning_text: seq![],
                fn_name: None,
                fn_arguments: seq![],
                fn_call_id: None,
                ..st
            },
            r + seq![
                StreamEventV::FunctionCallDone {
                    id: rid,
                    name: or_empty(st.fn_name),
                    arguments: st.fn_arguments,
                    call_id: or_empty(st.fn_call_id),
                },
            ],
        )
    } else if reason == "stop"@ {
        let m = if st.assistant_text.len() > 0 {
            seq![StreamEventV::MessageDone { id: rid, text: st.assistant_text }]
        } else {
            seq![]
        };
        let r = if st.reasoning_text.len() > 0 {
            seq![StreamEventV::ReasoningDone { id: rid, text: st.reasoning_text }]
        } else {
            seq![]
        };
        (StreamModel { assistant_text: seq![], reasoning_text: seq![], ..st }, m + r)
    } else {
        (st, seq![])
    }
}

/// The chunk's header: the response id and model are taken from the first
/// chunk that has them (and `Created` is sent once either is known); a
/// top-level `item_id` is remembered.
pub open spec fn spec_header(st: StreamModel, chunk: JsonV) -> (StreamModel, Seq<StreamEventV>) {
    let st1 = StreamModel {
        response_id: match st.response_id {
            Some(r) => Some(r),
            None => ostr(vget(chunk, "id"@)),
        },
        ..st
    };
    let st2 = StreamModel {
        response_model: match st1.response_model {
            Some(m) => Some(m),
            None => ostr(vget(chunk, "model"@)),
        },
        ..st1
    };
    let created = !st2.created_emitted && (st2.response_id is Some || st2.response_model is Some);
    let st3 = if created {
        StreamModel { created_emitted: true, ..st2 }
    } else {
        st2
    };
    let ev1 = if created {
        seq![StreamEventV::Created]
    } else {
        seq![]
    };
    let st4 = match ostr(vget(chunk, "item_id"@)) {
        Some(i) => StreamModel { item_id: Some(i), ..st3 },
        None => st3,
    };
    (st4, ev1)
}

/// The first choice: its `item_id` is remembered; its content delta, its
/// reasoning delta, the reasoning of its final message and its first tool
/// call are taken in.
pub open spec fn spec_choice(st4: StreamModel, choice: JsonV) -> (StreamModel, Seq<StreamEventV>) {
    let st5 = match ostr(vget(choice, "item_id"@)) {
        Some(i) => StreamModel { item_id: Some(i), ..st4 },
        None => st4,
    };
    let delta = vget(choice, "delta"@);
    let content = ostr(oget(delta, "content"@));
    let (st6, ev2) = match content {
        Some(c) if c.len() > 0 => (
            StreamModel { assistant_text: st5.assistant_text + c, ..st5 },
            seq![StreamEventV::TextDelta(c)],
        ),
        _ => (st5, seq![]),
    };
    let rd = match oget(delta, "reasoning"@) {
        Some(v) => spec_reasoning_text_delta(v),
        None => None,
    };
    let (st7, ev3) = match rd {
        Some(r) => (
            StreamModel { reasoning_text: st6.reasoning_text + r, ..st6 },
            seq![StreamEventV::ReasoningDelta(r)],
        ),
        None => (st6, seq![]),
    };
    let mr = match oget(vget(choice, "message"@), "reasoning"@) {
        Some(v) => spec_reasoning_text_from_value(v),
        None => None,
    };
    let (st8, ev4) = match mr {
        Some(s) if s.len() > 0 => (
            StreamModel { reasoning_text: st7.reasoning_text + s, ..st7 },
            seq![StreamEventV::ReasoningDelta(s)],
        ),
        _ => (st7, seq![]),
    };
    let st9 = match oget(delta, "tool_calls"@) {
        Some(JsonV::Array(tcs)) => if tcs.len() > 0 {
            tool_call_update(st8, tcs[0])
        } else {
            st8
        },
        _ => st8,
    };
    (st9, ev2 + ev3 + ev4)
}

/// A finish reason ends the stream: its events (see [`finish_events`]),
/// then `Completed`, ending the turn when the reason is `stop`.
pub open spec fn spec_finish(st9: StreamModel, fr: Seq<char>) -> (StreamModel, Seq<StreamEventV>) {
    let (st10, ev5) = finish_events(st9, fr);
    (
        st10,
        ev5 + seq![
            StreamEventV::Completed { response_id: or_empty(st10.response_id), end_turn: Some(fr == "stop"@) },
        ],
    )
}

/// One parsed chunk: its header, then its first choice and that choice's
/// finish reason; the stream is over once a finish reason came.
pub open spec fn spec_chunk(st: StreamModel, chunk: JsonV) -> (StreamModel, Seq<StreamEventV>, bool) {
    let (st4, ev1) = spec_header(st, chunk);
    let choice = match vget(chunk, "choices"@) {
        Some(c) => vat(c, 0),
        None => None,
    };
    match choice {
        None => (st4, ev1, false),
        Some(choice) => {
            let (st9, evs) = spec_choice(st4, choice);
            match ostr(vget(choice, "finish_reason"@)) {
                None => (st9, ev1 + evs, false),
                Some(fr) => {
                    let (st10, fin) = spec_finish(st9, fr);
                    (st10, ev1 + evs + fin, true)
                },
            }
        },
    }
}

/// One input: a transport error or an idle timeout ends the stream with
/// an error; a close, `[DONE]` or `DONE` ends it with the terminal events;
/// blank data and data that is not JSON are skipped; a chunk is taken in
/// (see [`spec_chunk`]). The last part says whether the stream is over.
pub open spec fn spec_step(st: StreamModel, input: SseInput) -> (StreamModel, Seq<StreamEventV>, bool) {
    match input {
        SseInput::TransportError(e) => (st, seq![StreamEventV::Error("[transport] "@ + e@)], true),
        SseInput::IdleTimeout => (
            st,
            seq![StreamEventV::Error("[idle] timeout waiting for SSE"@)],
            true,
        ),
        SseInput::Closed => (flushed(st), flush_events(st), true),
        SseInput::Data(raw) => {
            let data = trim(raw@);
            if data.len() == 0 {
                (st, seq![], false)
            } else if data == "[DONE]"@ || data == "DONE"@ {
                (flushed(st), flush_events(st), true)
            } else {
                match json_parse(data) {
                    Some(chunk) => spec_chunk(st, chunk),
                    None => (st, seq![], false),
                }
            }
        },
    }
}

pub open spec fn initial_model() -> StreamModel {
    StreamModel {
        fn_name: None,
        fn_arguments: seq![],
        fn_call_id: None,
        fn_active: false,
        assistant_text: seq![],
        reasoning_text: seq![],
        item_id: None,
        response_id: None,
        response_model: None,
        created_emitted: false,
    }
}

fn take_string(s: &mut String) -> (r: String)
    ensures
        r@ == old(s)@,
        final(s)@ == Seq::<char>::empty(),
{
    let mut t = String::new();
    std::mem::swap(&mut t, s);
    t
}

/// The item id sent with an item (see [`item_id`]).
fn item_id_from(id: &Option<String>) -> (r: Option<String>)
    ensures
        ov(r) == item_id(ov(*id)),
{
    match id {
        Some(s) => if !s.as_str().is_empty() {
            Some(s.clone())
        } else {
            None
        },
        None => None,
    }
}

fn nonempty_str(j: Option<&Json>, key: &str) -> (r: Option<String>)
    ensures
        ov(r) == match j {
            Some(v) => match ostr(vget(v@, key@)) {
                Some(s) if s.len() > 0 => Some(s),
                _ => None,
            },
            None => None,
        },
{
    match j {
        Some(v) => match get_str(v, key) {
            Some(s) => if !s.is_empty() {
                Some(s.to_owned())
            } else {
                None
            },
            None => None,
        },
        None => None,
    }
}

/// See [`spec_reasoning_text_delta`].
pub fn reasoning_text_delta(v: &Json) -> (r: Option<String>)
    ensures
        ov(r) == spec_reasoning_text_delta(v@),
{
    match as_str(v) {
        Some(s) => if !s.is_empty() {
            return Some(s.to_owned());
        },
        None => {},
    }
    match v {
        Json::Object(_) => {},
        _ => {
            return None;
        },
    }
    match nonempty_str(Some(v), "text") {
        Some(s) => Some(s),
        None => nonempty_str(Some(v), "content"),
    }
}

/// See [`spec_reasoning_text_from_value`].
pub fn reasoning_text_from_value(v: &Json) -> (r: Option<String>)
    ensures
        ov(r) == spec_reasoning_text_from_value(v@),
{
    match as_str(v) {
        Some(s) => {
            return Some(s.to_owned());
        },
        None => {},
    }
    match v {
        Json::Object(_) => {},
        _ => {
            return None;
        },
    }
    match get_str(v, "text") {
        Some(s) => Some(s.to_owned()),
        None => match get_str(v, "content") {
            Some(s) => Some(s.to_owned()),
            None => None,
        },
    }
}

fn message_done(id: Option<String>, text: String) -> (r: StreamEvent)
    ensures
        matches_event(r, StreamEventV::MessageDone { id: ov(id), text: text@ }),
{
    proof {
        reveal_strlit("assistant");
    }
    let content = vec![ContentItem::OutputText { text }];
    StreamEvent::OutputItemDone(
        ResponseItem::Message { id, role: "assistant".to_owned(), content },
    )
}

fn reasoning_done(id: Option<String>, text: String) -> (r: StreamEvent)
    ensures
        matches_event(r, StreamEventV::ReasoningDone { id: ov(id), text: text@ }),
{
    let content = vec![ReasoningContent::ReasoningText { text }];
    StreamEvent::OutputItemDone(ResponseItem::Reasoning { id, content: Some(content) })
}

fn push_event(out: &mut Vec<StreamEvent>, e: StreamEvent, Ghost(v): Ghost<StreamEventV>, Ghost(vs): Ghost<Seq<StreamEventV>>)
    requires
        matches_event(e, v),
        events_match(old(out)@, vs),
    ensures
        events_match(final(out)@, vs.push(v)),
{
    out.push(e);
    assert forall|i: int| 0 <= i < out@.len() implies #[trigger] matches_event(out@[i], vs.push(v)[i]) by {
        if i < vs.len() {
            assert(out@[i] == old(out)@[i]);
        }
    }
}

impl ChatStreamState {
    /// The state before the first chunk.
    pub fn new() -> (r: ChatStreamState)
        ensures
            r@ == initial_model(),
    {
        ChatStreamState {
            fn_name: None,
            fn_arguments: String::new(),
            fn_call_id: None,
            fn_active: false,
            assistant_text: String::new(),
            reasoning_text: String::new(),
            current_item_id: None,
            current_response_id: None,
            current_response_model: None,
            created_emitted: false,
        }
    }

    /// The terminal events when the stream ends without a finish reason
    /// (see [`flush_events`]); the texts are emptied.
    pub fn flush_and_complete(&mut self) -> (r: Vec<StreamEvent>)
        ensures
            final(self)@ == flushed(old(self)@),
            events_match(r@, flush_events(old(self)@)),
    {
        let ghost st = self@;
        let mut out: Vec<StreamEvent> = Vec::new();
        let ghost mut vs: Seq<StreamEventV> = seq![];
        if !self.assistant_text.as_str().is_empty() {
            let text = take_string(&mut self.assistant_text);
            let e = message_done(item_id_from(&self.current_item_id), text);
            push_event(&mut out, e, Ghost(StreamEventV::MessageDone { id: item_id(st.item_id), text: st.assistant_text }), Ghost(vs));
            proof {
                vs = vs.push(StreamEventV::MessageDone { id: item_id(st.item_id), text: st.assistant_text });
            }
        }
        if !self.reasoning_text.as_str().is_empty() {
            let text = take_string(&mut self.reasoning_text);
            let e = reasoning_done(item_id_from(&self.current_item_id), text);
            push_event(&mut out, e, Ghost(StreamEventV::ReasoningDone { id: item_id(st.item_id), text: st.reasoning_text }), Ghost(vs));
            proof {
                vs = vs.push(StreamEventV::ReasoningDone { id: item_id(st.item_id), text: st.reasoning_text });
            }
        }
        let rid = match &self.current_response_id {
            Some(r) => r.clone(),
            None => String::new(),
        };
        let e = StreamEvent::Completed { response_id: rid, end_turn: None };
        push_event(&mut out, e, Ghost(StreamEventV::Completed { response_id: or_empty(st.response_id), end_turn: None }), Ghost(vs));
        assert(vs.push(StreamEventV::Completed { response_id: or_empty(st.response_id), end_turn: None }) =~= flush_events(st));
        assert(self.assistant_text@ =~= Seq::<char>::empty());
        assert(self.reasoning_text@ =~= Seq::<char>::empty());
        assert(self@ == flushed(st));
        out
    }
}

impl ChatStreamState {
    /// Takes in the first tool call of a delta (see [`tool_call_update`]).
    fn take_tool_call(&mut self, tc: &Json)
        ensures
            final(self)@ == tool_call_update(old(self)@, tc@),
    {
        self.fn_active = true;
        if self.fn_call_id.is_none() {
            self.fn_call_id = match get_str(tc, "id") {
                Some(s) => Some(s.to_owned()),
                None => None,
            };
        }
        match get(tc, "function") {
            Some(f) => {
                if self.fn_name.is_none() {
                    self.fn_name = match get_str(f, "name") {
                        Some(s) => Some(s.to_owned()),
                        None => None,
                    };
                }
                match get_str(f, "arguments") {
                    Some(a) => self.fn_arguments.append(a),
                    None => {},
                }
            },
            None => {},
        }
    }

    fn absorb_header(&mut self, chunk: &Json, out: &mut Vec<StreamEvent>)
        requires
            old(out)@.len() == 0,
        ensures
            final(self)@ == spec_header(old(self)@, chunk@).0,
            events_match(final(out)@, spec_header(old(self)@, chunk@).1),
    {
        let ghost st = self@;
        if self.current_response_id.is_none() {
            self.current_response_id = match get_str(chunk, "id") {
                Some(s) => Some(s.to_owned()),
                None => None,
            };
        }
        if self.current_response_model.is_none() {
            self.current_response_model = match get_str(chunk, "model") {
                Some(s) => Some(s.to_owned()),
                None => None,
            };
        }
        let ghost none: Seq<StreamEventV> = seq![];
        assert(events_match(out@, none));
        if !self.created_emitted && (self.current_response_id.is_some()
            || self.current_response_model.is_some()) {
            push_event(out, StreamEvent::Created, Ghost(StreamEventV::Created), Ghost(none));
            assert(none.push(StreamEventV::Created) =~= seq![StreamEventV::Created]);
            self.created_emitted = true;
        }
        match get_str(chunk, "item_id") {
            Some(i) => {
                self.current_item_id = Some(i.to_owned());
            },
            None => {},
        }
    }

    fn absorb_choice(&mut self, choice: &Json, out: &mut Vec<StreamEvent>, Ghost(vs): Ghost<Seq<StreamEventV>>)
        requires
            events_match(old(out)@, vs),
        ensures
            final(self)@ == spec_choice(old(self)@, choice@).0,
            events_match(final(out)@, vs + spec_choice(old(self)@, choice@).1),
    {
        let ghost st = self@;
        let ghost vs0 = vs;
        let ghost mut vs = vs;
        match get_str(choice, "item_id") {
            Some(i) => {
                self.current_item_id = Some(i.to_owned());
            },
            None => {},
        }
        let delta = get(choice, "delta");
        match delta {
            Some(d) => match get_str(d, "content") {
                Some(c) => if !c.is_empty() {
                    self.assistant_text.append(c);
                    push_event(
                        out,
                        StreamEvent::OutputTextDelta(c.to_owned()),
                        Ghost(StreamEventV::TextDelta(c@)),
                        Ghost(vs),
                    );
                    proof {
                        vs = vs.push(StreamEventV::TextDelta(c@));
                    }
                },
                None => {},
            },
            None => {},
        }
        let rd = match delta {
            Some(d) => match get(d, "reasoning") {
                Some(v) => reasoning_text_delta(v),
                None => None,
            },
            None => None,
        };
        match rd {
            Some(r) => {
                self.reasoning_text.append(r.as_str());
                let ghost rv = r@;
                push_event(
                    out,
                    StreamEvent::ReasoningContentDelta { delta: r, content_index: 0 },
                    Ghost(StreamEventV::ReasoningDelta(rv)),
                    Ghost(vs),
                );
                proof {
                    vs = vs.push(StreamEventV::ReasoningDelta(rv));
                }
            },
            None => {},
        }
        let mr = match get(choice, "message") {
            Some(m) => match get(m, "reasoning") {
                Some(v) => reasoning_text_from_value(v),
                None => None,
            },
            None => None,
        };
        match mr {
            Some(x) => if !x.as_str().is_empty() {
                self.reasoning_text.append(x.as_str());
                let ghost xv = x@;
                push_event(
                    out,
                    StreamEvent::ReasoningContentDelta { delta: x, content_index: 0 },
                    Ghost(StreamEventV::ReasoningDelta(xv)),
                    Ghost(vs),
                );
                proof {
                    vs = vs.push(StreamEventV::ReasoningDelta(xv));
                }
            },
            None => {},
        }
        match delta {
            Some(d) => match get(d, "tool_calls") {
                Some(Json::Array(tcs)) => {
                    proof {
                        crate::json::lemma_jviews(tcs@);
                    }
                    if tcs.len() > 0 {
                        self.take_tool_call(&tcs[0]);
                    }
                },
                _ => {},
            },
            None => {},
        }
        assert(vs =~= vs0 + spec_choice(st, choice@).1);
    }

    fn finish(&mut self, fr: &str, out: &mut Vec<StreamEvent>, Ghost(vs): Ghost<Seq<StreamEventV>>)
        requires
            events_match(old(out)@, vs),
        ensures
            final(self)@ == spec_finish(old(self)@, fr@).0,
            events_match(final(out)@, vs + spec_finish(old(self)@, fr@).1),
    {
        let ghost st9 = self@;
        let ghost vs0 = vs;
        let ghost mut vs = vs;
        let frv = to_chars(fr);
        let is_stop = eq_lit(&frv, "stop");
        let ghost rid = item_id(st9.item_id);
        if eq_lit(&frv, "tool_calls") && self.fn_active {
            if !self.reasoning_text.as_str().is_empty() {
                let text = take_string(&mut self.reasoning_text);
                let e = reasoning_done(item_id_from(&self.current_item_id), text);
                push_event(out, e, Ghost(StreamEventV::ReasoningDone { id: rid, text: st9.reasoning_text }), Ghost(vs));
                proof {
                    vs = vs.push(StreamEventV::ReasoningDone { id: rid, text: st9.reasoning_text });
                }
            } else {
                self.reasoning_text = String::new();
            }
            let name = match self.fn_name.take() {
                Some(n) => n,
                None => String::new(),
            };
            let arguments = take_string(&mut self.fn_arguments);
            let call_id = match self.fn_call_id.take() {
                Some(c) => c,
                None => String::new(),
            };
            let e = StreamEvent::OutputItemDone(
                ResponseItem::FunctionCall {
                    id: item_id_from(&self.current_item_id),
                    name,
                    arguments,
                    call_id,
                },
            );
            let ghost fv = StreamEventV::FunctionCallDone {
                id: rid,
                name: or_empty(st9.fn_name),
                arguments: st9.fn_arguments,
                call_id: or_empty(st9.fn_call_id),
            };
            push_event(out, e, Ghost(fv), Ghost(vs));
            proof {
                vs = vs.push(fv);
            }
        } else if is_stop {
            if !self.assistant_text.as_str().is_empty() {
                let text = take_string(&mut self.assistant_text);
                let e = message_done(item_id_from(&self.current_item_id), text);
                push_event(out, e, Ghost(StreamEventV::MessageDone { id: rid, text: st9.assistant_text }), Ghost(vs));
                proof {
                    vs = vs.push(StreamEventV::MessageDone { id: rid, text: st9.assistant_text });
                }
            } else {
                self.assistant_text = String::new();
            }
            if !self.reasoning_text.as_str().is_empty() {
                let text = take_string(&mut self.reasoning_text);
                let e = reasoning_done(item_id_from(&self.current_item_id), text);
                push_event(out, e, Ghost(StreamEventV::ReasoningDone { id: rid, text: st9.reasoning_text }), Ghost(vs));
                proof {
                    vs = vs.push(StreamEventV::ReasoningDone { id: rid, text: st9.reasoning_text });
                }
            } else {
                self.reasoning_text = String::new();
            }
        }
        let ghost fin = finish_events(st9, fr@);
        assert(self.assistant_text@ =~= fin.0.assistant_text);
        assert(self.reasoning_text@ =~= fin.0.reasoning_text);
        assert(self.fn_arguments@ =~= fin.0.fn_arguments);
        assert(self@ == fin.0);
        assert(vs =~= vs0 + fin.1);
        let response_id = match &self.current_response_id {
            Some(r) => r.clone(),
            None => String::new(),
        };
        let ghost cv = StreamEventV::Completed {
            response_id: or_empty(self@.response_id),
            end_turn: Some(fr@ == "stop"@),
        };
        push_event(
            out,
            StreamEvent::Completed { response_id, end_turn: Some(is_stop) },
            Ghost(cv),
            Ghost(vs),
        );
        assert(vs.push(cv) =~= vs0 + spec_finish(st9, fr@).1);
    }

    /// Takes in one parsed chunk (see [`spec_chunk`]); the flag says
    /// whether the stream is over.
    pub fn apply_chunk(&mut self, chunk: &Json) -> (r: (Vec<StreamEvent>, bool))
        ensures
            final(self)@ == spec_chunk(old(self)@, chunk@).0,
            events_match(r.0@, spec_chunk(old(self)@, chunk@).1),
            r.1 == spec_chunk(old(self)@, chunk@).2,
    {
        let ghost st = self@;
        let mut out: Vec<StreamEvent> = Vec::new();
        self.absorb_header(chunk, &mut out);
        let ghost ev1 = spec_header(st, chunk@).1;
        let ghost st4 = self@;
        let choice = match get(chunk, "choices") {
            Some(c) => at(c, 0),
            None => None,
        };
        let choice = match choice {
            Some(c) => c,
            None => {
                return (out, false);
            },
        };
        self.absorb_choice(choice, &mut out, Ghost(ev1));
        let ghost evs = ev1 + spec_choice(st4, choice@).1;
        match get_str(choice, "finish_reason") {
            Some(fr) => {
                self.finish(fr, &mut out, Ghost(evs));
                assert(evs + spec_finish(spec_choice(st4, choice@).0, fr@).1 =~= ev1 + spec_choice(
                    st4,
                    choice@,
                ).1 + spec_finish(spec_choice(st4, choice@).0, fr@).1);
                (out, true)
            },
            None => (out, false),
        }
    }

    /// Takes in one input of the transport (see [`spec_step`]); the flag
    /// says whether the stream is over.
    pub fn process_sse_input(&mut self, input: SseInput) -> (r: (Vec<StreamEvent>, bool))
        ensures
            final(self)@ == spec_step(old(self)@, input).0,
            events_match(r.0@, spec_step(old(self)@, input).1),
            r.1 == spec_step(old(self)@, input).2,
    {
        match input {
            SseInput::TransportError(e) => {
                let mut m = to_chars("[transport] ");
                crate::text::extend(&mut m, &to_chars(e.as_str()));
                let mut out: Vec<StreamEvent> = Vec::new();
                let ghost none: Seq<StreamEventV> = seq![];
                push_event(
                    &mut out,
                    StreamEvent::Error(from_chars(&m)),
                    Ghost(StreamEventV::Error("[transport] "@ + e@)),
                    Ghost(none),
                );
                assert(none.push(StreamEventV::Error("[transport] "@ + e@)) =~= seq![
                    StreamEventV::Error("[transport] "@ + e@),
                ]);
                (out, true)
            },
            SseInput::IdleTimeout => {
                let mut out: Vec<StreamEvent> = Vec::new();
                let ghost none: Seq<StreamEventV> = seq![];
                push_event(
                    &mut out,
                    StreamEvent::Error("[idle] timeout waiting for SSE".to_owned()),
                    Ghost(StreamEventV::Error("[idle] timeout waiting for SSE"@)),
                    Ghost(none),
                );
                assert(none.push(StreamEventV::Error("[idle] timeout waiting for SSE"@)) =~= seq![
                    StreamEventV::Error("[idle] timeout waiting for SSE"@),
                ]);
                (out, true)
            },
            SseInput::Closed => (self.flush_and_complete(), true),
            SseInput::Data(raw) => {
                let data = trim_vec(&to_chars(raw.as_str()));
                if data.len() == 0 {
                    (Vec::new(), false)
                } else if eq_lit(&data, "[DONE]") || eq_lit(&data, "DONE") {
                    (self.flush_and_complete(), true)
                } else {
                    let text = from_chars(&data);
                    match parse_json(text.as_str()) {
                        Some(chunk) => self.apply_chunk(&chunk),
                        None => (Vec::new(), false),
                    }
                }
            },
        }
    }
}


/// An event that ends the stream for its consumer.
/// The reasoning carried on a choice's final `message` is forwarded: a
/// non-empty string `s` under `message.reasoning` makes `ReasoningDelta(s)`
/// the last event of the choice, and `s` is appended to the pending
/// reasoning text (after whatever the choice's `delta` carried).
pub proof fn lemma_choice_message_reasoning(st: StreamModel, choice: JsonV, s: Seq<char>)
    requires
        oget(vget(choice, "message"@), "reasoning"@) == Some(JsonV::Str(s)),
        s.len() > 0,
    ensures
        ({
            let (st1, evs) = spec_choice(st, choice);
            &&& evs.len() > 0
            &&& evs.last() == StreamEventV::ReasoningDelta(s)
            &&& st1.reasoning_text.len() >= st.reasoning_text.len() + s.len()
            &&& st1.reasoning_text.take(st.reasoning_text.len() as int) == st.reasoning_text
            &&& st1.reasoning_text.skip(st1.reasoning_text.len() - s.len()) == s
            &&& oget(vget(choice, "delta"@), "reasoning"@) is None ==> st1.reasoning_text
                == st.reasoning_text + s
        }),
{
    let (st1, evs) = spec_choice(st, choice);
    let rt = st1.reasoning_text;
    assert(rt.take(st.reasoning_text.len() as int) =~= st.reasoning_text);
    assert(rt.skip(rt.len() - s.len()) =~= s);
}

/// A chunk whose only choice has no delta, carries its reasoning `s` (not
/// empty) on the final message and finishes with `stop` ends the stream
/// with `ReasoningDelta(s)` among its events, then the finished reasoning
/// (the pending text followed by `s`) and `Completed` ending the turn.
pub proof fn lemma_chunk_final_message_reasoning(
    st: StreamModel,
    chunk: JsonV,
    cs: Seq<JsonV>,
    s: Seq<char>,
)
    requires
        vget(chunk, "choices"@) == Some(JsonV::Array(cs)),
        cs.len() > 0,
        vget(cs[0], "delta"@) is None,
        oget(vget(cs[0], "message"@), "reasoning"@) == Some(JsonV::Str(s)),
        s.len() > 0,
        ostr(vget(cs[0], "finish_reason"@)) == Some(seq!['s', 't', 'o', 'p']),
    ensures
        ({
            let (st1, evs, over) = spec_chunk(st, chunk);
            &&& over
            &&& evs.contains(StreamEventV::ReasoningDelta(s))
            &&& evs.len() >= 3
            &&& evs[evs.len() - 2] matches StreamEventV::ReasoningDone { text, .. } && text
                == st.reasoning_text + s
            &&& evs.last() matches StreamEventV::Completed { end_turn, .. } && end_turn == Some(
                true,
            )
            &&& st1.reasoning_text.len() == 0
        }),
{
    reveal_strlit("stop");
    reveal_strlit("tool_calls");
    assert("stop"@ =~= seq!['s', 't', 'o', 'p']);
    let (st4, ev1) = spec_header(st, chunk);
    let choice = cs[0];
    let (st9, evc) = spec_choice(st4, choice);
    assert(evc =~= seq![StreamEventV::ReasoningDelta(s)]);
    assert(st9.reasoning_text =~= st.reasoning_text + s);
    let (st10, fin) = spec_finish(st9, "stop"@);
    let (_, evs, _) = spec_chunk(st, chunk);
    assert(evs == ev1 + evc + fin);
    assert(evs[ev1.len() as int] == StreamEventV::ReasoningDelta(s));
}

/// A choice's `delta` is forwarded as it comes: its non-empty `content` is
/// the choice's first event, a `TextDelta`, and is appended to the
/// assistant text; its non-empty string `reasoning` is forwarded as a
/// `ReasoningDelta` and appended to the reasoning text (before any
/// reasoning of the final message).
pub proof fn lemma_choice_delta(st: StreamModel, choice: JsonV, c: Seq<char>, r: Seq<char>)
    ensures
        ({
            let (st1, evs) = spec_choice(st, choice);
            &&& (ostr(oget(vget(choice, "delta"@), "content"@)) == Some(c) && c.len() > 0) ==> {
                &&& evs.len() > 0
                &&& evs[0] == StreamEventV::TextDelta(c)
                &&& st1.assistant_text == st.assistant_text + c
            }
            &&& (ostr(oget(vget(choice, "delta"@), "content"@)) is None) ==> st1.assistant_text
                == st.assistant_text
            &&& (oget(vget(choice, "delta"@), "reasoning"@) == Some(JsonV::Str(r)) && r.len() > 0)
                ==> {
                &&& evs.contains(StreamEventV::ReasoningDelta(r))
                &&& st1.reasoning_text.take((st.reasoning_text.len() + r.len()) as int) == st.reasoning_text
                    + r
                &&& oget(vget(choice, "message"@), "reasoning"@) is None ==> st1.reasoning_text
                    == st.reasoning_text + r
            }
        }),
{
    let (st1, evs) = spec_choice(st, choice);
    if oget(vget(choice, "delta"@), "reasoning"@) == Some(JsonV::Str(r)) && r.len() > 0 {
        let st5 = match ostr(vget(choice, "item_id"@)) {
            Some(i) => StreamModel { item_id: Some(i), ..st },
            None => st,
        };
        let content = ostr(oget(vget(choice, "delta"@), "content"@));
        let k: int = match content {
            Some(c) => if c.len() > 0 { 1 } else { 0 },
            None => 0,
        };
        assert(evs[k] == StreamEventV::ReasoningDelta(r));
        assert(st1.reasoning_text.take((st.reasoning_text.len() + r.len()) as int) =~= st.reasoning_text + r);
    }
}

/// A tool-call fragment in a choice's `delta` makes the call active and
/// appends its `function.arguments` to the arguments gathered so far; the
/// first name and call id seen are kept.
pub proof fn lemma_choice_tool_call_fragment(
    st: StreamModel,
    choice: JsonV,
    tcs: Seq<JsonV>,
    f: JsonV,
    frag: Seq<char>,
)
    requires
        oget(vget(choice, "delta"@), "tool_calls"@) == Some(JsonV::Array(tcs)),
        tcs.len() > 0,
        vget(tcs[0], "function"@) == Some(f),
        ostr(vget(f, "arguments"@)) == Some(frag),
    ensures
        ({
            let (st1, _) = spec_choice(st, choice);
            &&& st1.fn_active
            &&& st1.fn_arguments == st.fn_arguments + frag
            &&& st.fn_name is Some ==> st1.fn_name == st.fn_name
            &&& st.fn_call_id is Some ==> st1.fn_call_id == st.fn_call_id
        }),
{
}

/// A `tool_calls` finish with a call in progress sends the call, with the
/// name and call id first seen and the argument fragments joined, as the
/// event right before `Completed` (which does not end the turn); the call
/// is then cleared.
pub proof fn lemma_finish_tool_call(st: StreamModel)
    requires
        st.fn_active,
    ensures
        ({
            let (st1, evs) = spec_finish(st, seq!['t', 'o', 'o', 'l', '_', 'c', 'a', 'l', 'l', 's']);
            &&& evs.len() >= 2
            &&& evs[evs.len() - 2] matches StreamEventV::FunctionCallDone {
                name,
                arguments,
                call_id,
                ..
            } && name == or_empty(st.fn_name) && arguments == st.fn_arguments && call_id
                == or_empty(st.fn_call_id)
            &&& evs.last() matches StreamEventV::Completed { end_turn, .. } && end_turn == Some(
                false,
            )
            &&& st1.fn_arguments.len() == 0
            &&& st1.fn_name is None
            &&& st1.fn_call_id is None
        }),
{
    reveal_strlit("tool_calls");
    reveal_strlit("stop");
    assert("tool_calls"@ =~= seq!['t', 'o', 'o', 'l', '_', 'c', 'a', 'l', 'l', 's']);
}

pub open spec fn is_terminal(e: StreamEventV) -> bool {
    e is Completed || e is Error
}

/// Every step ends the stream exactly when its last event is `Completed`
/// or `Error`, and no other event of the step is one of those: a consumer
/// that stops at the first terminal event has seen all of them.
pub proof fn lemma_step_ends_with_terminal_event(st: StreamModel, input: SseInput)
    ensures
        ({
            let (_, evs, over) = spec_step(st, input);
            &&& over <==> (evs.len() > 0 && is_terminal(evs.last()))
            &&& forall|i: int| 0 <= i < evs.len() - 1 ==> !is_terminal(#[trigger] evs[i])
        }),
{
    match input {
        SseInput::Data(raw) => {
            let data = trim(raw@);
            if data.len() == 0 {
            } else if data == "[DONE]"@ || data == "DONE"@ {
                lemma_flush_terminal(st);
            } else {
                match json_parse(data) {
                    Some(chunk) => lemma_chunk_terminal(st, chunk),
                    None => {},
                }
            }
        },
        SseInput::Closed => lemma_flush_terminal(st),
        _ => {},
    }
}

proof fn lemma_flush_terminal(st: StreamModel)
    ensures
        flush_events(st).len() > 0,
        is_terminal(flush_events(st).last()),
        forall|i: int| 0 <= i < flush_events(st).len() - 1 ==> !is_terminal(#[trigger] flush_events(st)[i]),
{
}

proof fn lemma_chunk_terminal(st: StreamModel, chunk: JsonV)
    ensures
        ({
            let (_, evs, over) = spec_chunk(st, chunk);
            &&& over <==> (evs.len() > 0 && is_terminal(evs.last()))
            &&& forall|i: int| 0 <= i < evs.len() - 1 ==> !is_terminal(#[trigger] evs[i])
        }),
{
    let (st4, ev1) = spec_header(st, chunk);
    let choice = match vget(chunk, "choices"@) {
        Some(c) => vat(c, 0),
        None => None,
    };
    assert(forall|i: int| 0 <= i < ev1.len() ==> !is_terminal(#[trigger] ev1[i]));
    match choice {
        None => {},
        Some(choice) => {
            let (st9, evs) = spec_choice(st4, choice);
            assert(forall|i: int| 0 <= i < evs.len() ==> !is_terminal(#[trigger] evs[i]));
            let pre = ev1 + evs;
            assert(forall|i: int| 0 <= i < pre.len() ==> !is_terminal(#[trigger] pre[i])) by {
                assert forall|i: int| 0 <= i < pre.len() implies !is_terminal(#[trigger] pre[i]) by {
                    if i < ev1.len() {
                        assert(pre[i] == ev1[i]);
                    } else {
                        assert(pre[i] == evs[i - ev1.len()]);
                    }
                }
            }
            match ostr(vget(choice, "finish_reason"@)) {
                None => {},
                Some(fr) => {
                    let (st10, fin) = spec_finish(st9, fr);
                    let (_, ev5) = finish_events(st9, fr);
                    assert(forall|i: int| 0 <= i < ev5.len() ==> !is_terminal(#[trigger] ev5[i]));
                    let all = pre + fin;
                    assert forall|i: int| 0 <= i < all.len() - 1 implies !is_terminal(#[trigger] all[i]) by {
                        if i < pre.len() {
                            assert(all[i] == pre[i]);
                        } else {
                            assert(all[i] == fin[i - pre.len()]);
                            assert(fin[i - pre.len()] == ev5[i - pre.len()]);
                        }
                    }
                    assert(all.last() == fin.last());
                    assert(ev1 + evs + fin == all);
                },
            }
        },
    }
}


// ---------------------------------------------------------------------------
// A whole stream
// ---------------------------------------------------------------------------

/// Feeding inputs one step at a time (see [`spec_step`]) until a step ends
/// the stream: the state after, and every event sent.
pub open spec fn spec_run(st: StreamModel, inputs: Seq<SseInput>) -> (StreamModel, Seq<StreamEventV>)
    decreases inputs.len(),
{
    if inputs.len() == 0 {
        (st, seq![])
    } else {
        let (st1, evs, over) = spec_step(st, inputs[0]);
        if over {
            (st1, evs)
        } else {
            let (st2, rest) = spec_run(st1, inputs.drop_first());
            (st2, evs + rest)
        }
    }
}

/// Over a whole stream, at most one terminal event is sent, and nothing
/// after it: `Completed` or `Error` can only be the last event.
pub proof fn lemma_run_one_terminal_event(st: StreamModel, inputs: Seq<SseInput>)
    ensures
        forall|i: int| 0 <= i < spec_run(st, inputs).1.len() - 1 ==> !is_terminal(#[trigger] spec_run(st, inputs).1[i]),
    decreases inputs.len(),
{
    if inputs.len() > 0 {
        let (st1, evs, over) = spec_step(st, inputs[0]);
        lemma_step_ends_with_terminal_event(st, inputs[0]);
        if !over {
            lemma_run_one_terminal_event(st1, inputs.drop_first());
            let rest = spec_run(st1, inputs.drop_first()).1;
            let all = evs + rest;
            assert(all == spec_run(st, inputs).1);
            assert forall|i: int| 0 <= i < all.len() - 1 implies !is_terminal(#[trigger] all[i]) by {
                if i < evs.len() {
                    assert(all[i] == evs[i]);
                    if i == evs.len() - 1 {
                        assert(evs.last() == evs[i]);
                    }
                } else {
                    assert(all[i] == rest[i - evs.len()]);
                }
            }
        }
    }
}

/// The number of `Created` events.
pub open spec fn count_created(s: Seq<StreamEventV>) -> nat
    decreases s.len(),
{
    if s.len() == 0 {
        0
    } else {
        count_created(s.drop_last()) + if s.last() is Created {
            1nat
        } else {
            0nat
        }
    }
}

proof fn lemma_count_created_add(a: Seq<StreamEventV>, b: Seq<StreamEventV>)
    ensures
        count_created(a + b) == count_created(a) + count_created(b),
    decreases b.len(),
{
    if b.len() == 0 {
        assert(a + b =~= a);
    } else {
        lemma_count_created_add(a, b.drop_last());
        assert((a + b).drop_last() =~= a + b.drop_last());
        assert((a + b).last() == b.last());
    }
}

proof fn lemma_no_created(s: Seq<StreamEventV>)
    requires
        forall|i: int| 0 <= i < s.len() ==> !(#[trigger] s[i] is Created),
    ensures
        count_created(s) == 0,
    decreases s.len(),
{
    if s.len() > 0 {
        assert(s.last() == s[s.len() - 1]);
        assert forall|i: int| 0 <= i < s.drop_last().len() implies !(#[trigger] s.drop_last()[i] is Created) by {
            assert(s.drop_last()[i] == s[i]);
        }
        lemma_no_created(s.drop_last());
    }
}

proof fn lemma_choice_created(st: StreamModel, choice: JsonV)
    ensures
        spec_choice(st, choice).0.created_emitted == st.created_emitted,
        count_created(spec_choice(st, choice).1) == 0,
{
    let (st9, evs) = spec_choice(st, choice);
    lemma_no_created(evs);
}

proof fn lemma_finish_created(st: StreamModel, fr: Seq<char>)
    ensures
        spec_finish(st, fr).0.created_emitted == st.created_emitted,
        count_created(spec_finish(st, fr).1) == 0,
{
    let (st10, fin) = spec_finish(st, fr);
    let (_, ev5) = finish_events(st, fr);
    assert forall|i: int| 0 <= i < fin.len() implies !(#[trigger] fin[i] is Created) by {
        if i < ev5.len() {
            assert(fin[i] == ev5[i]);
        }
    }
    lemma_no_created(fin);
}

proof fn lemma_header_created(st: StreamModel, chunk: JsonV)
    ensures
        count_created(spec_header(st, chunk).1) <= 1,
        count_created(spec_header(st, chunk).1) == 1 ==> !st.created_emitted,
        (st.created_emitted || count_created(spec_header(st, chunk).1) == 1) ==> spec_header(st, chunk).0.created_emitted,
{
    let (st4, ev1) = spec_header(st, chunk);
    assert(count_created(Seq::<StreamEventV>::empty()) == 0);
    if ev1.len() > 0 {
        assert(ev1 =~= seq![StreamEventV::Created]);
        assert(ev1.drop_last() =~= Seq::<StreamEventV>::empty());
        assert(count_created(ev1) == 1);
    } else {
        assert(ev1 =~= Seq::<StreamEventV>::empty());
    }
}

#[verifier::rlimit(40)]
proof fn lemma_chunk_created(st: StreamModel, chunk: JsonV)
    ensures
        count_created(spec_chunk(st, chunk).1) <= 1,
        count_created(spec_chunk(st, chunk).1) == 1 ==> !st.created_emitted,
        (st.created_emitted || count_created(spec_chunk(st, chunk).1) == 1) ==> spec_chunk(st, chunk).0.created_emitted,
{
    let (st4, ev1) = spec_header(st, chunk);
    lemma_header_created(st, chunk);
    let choice = match vget(chunk, "choices"@) {
        Some(c) => vat(c, 0),
        None => None,
    };
    match choice {
        None => {},
        Some(choice) => {
            let (st9, evs) = spec_choice(st4, choice);
            lemma_choice_created(st4, choice);
            lemma_count_created_add(ev1, evs);
            match ostr(vget(choice, "finish_reason"@)) {
                None => {},
                Some(fr) => {
                    let (st10, fin) = spec_finish(st9, fr);
                    lemma_finish_created(st9, fr);
                    lemma_count_created_add(ev1 + evs, fin);
                },
            }
        },
    }
}

/// One step sends `Created` at most once, only before it was sent, and
/// remembers that it was.
proof fn lemma_step_created(st: StreamModel, input: SseInput)
    ensures
        count_created(spec_step(st, input).1) <= 1,
        count_created(spec_step(st, input).1) == 1 ==> !st.created_emitted,
        (st.created_emitted || count_created(spec_step(st, input).1) == 1) ==> spec_step(st, input).0.created_emitted,
{
    lemma_no_created(flush_events(st));
    assert(count_created(seq![StreamEventV::Error("[idle] timeout waiting for SSE"@)]) == 0) by {
        lemma_no_created(seq![StreamEventV::Error("[idle] timeout waiting for SSE"@)]);
    }
    assert(count_created(Seq::<StreamEventV>::empty()) == 0);
    match input {
        SseInput::TransportError(e) => {
            lemma_no_created(seq![StreamEventV::Error("[transport] "@ + e@)]);
        },
        SseInput::Data(raw) => {
            let data = trim(raw@);
            if data.len() > 0 && !(data == "[DONE]"@ || data == "DONE"@) {
                match json_parse(data) {
                    Some(chunk) => lemma_chunk_created(st, chunk),
                    None => {},
                }
            }
        },
        _ => {},
    }
}

/// Over a whole stream, `Created` is sent at most once, and not at all
/// once it was sent before.
pub proof fn lemma_run_created_once(st: StreamModel, inputs: Seq<SseInput>)
    ensures
        count_created(spec_run(st, inputs).1) <= (if st.created_emitted { 0nat } else { 1nat }),
    decreases inputs.len(),
{
    if inputs.len() > 0 {
        let (st1, evs, over) = spec_step(st, inputs[0]);
        lemma_step_created(st, inputs[0]);
        if !over {
            lemma_run_created_once(st1, inputs.drop_first());
            lemma_count_created_add(evs, spec_run(st1, inputs.drop_first()).1);
        }
    } else {
        assert(count_created(Seq::<StreamEventV>::empty()) == 0);
    }
}


/// Walking the events with the text of the `TextDelta`s since the last
/// finished message: each `MessageDone` must carry exactly that text, which
/// then starts again empty. The text left at the end, or none when a
/// finished message does not match.
pub open spec fn message_texts(acc: Seq<char>, evs: Seq<StreamEventV>) -> Option<Seq<char>>
    decreases evs.len(),
{
    if evs.len() == 0 {
        Some(acc)
    } else {
        match evs[0] {
            StreamEventV::TextDelta(t) => message_texts(acc + t, evs.drop_first()),
            StreamEventV::MessageDone { id, text } => if text == acc {
                message_texts(seq![], evs.drop_first())
            } else {
                None
            },
            _ => message_texts(acc, evs.drop_first()),
        }
    }
}

proof fn lemma_message_texts_add(acc: Seq<char>, a: Seq<StreamEventV>, b: Seq<StreamEventV>)
    ensures
        message_texts(acc, a + b) == match message_texts(acc, a) {
            Some(m) => message_texts(m, b),
            None => None,
        },
    decreases a.len(),
{
    if a.len() == 0 {
        assert(a + b =~= b);
    } else {
        assert((a + b)[0] == a[0]);
        assert((a + b).drop_first() =~= a.drop_first() + b);
        match a[0] {
            StreamEventV::TextDelta(t) => lemma_message_texts_add(acc + t, a.drop_first(), b),
            StreamEventV::MessageDone { id, text } => if text == acc {
                lemma_message_texts_add(seq![], a.drop_first(), b);
            },
            _ => lemma_message_texts_add(acc, a.drop_first(), b),
        }
    }
}

/// The same walk for the reasoning: `ReasoningDelta`s add up to what the
/// next `ReasoningDone` carries.
pub open spec fn reasoning_texts(acc: Seq<char>, evs: Seq<StreamEventV>) -> Option<Seq<char>>
    decreases evs.len(),
{
    if evs.len() == 0 {
        Some(acc)
    } else {
        match evs[0] {
            StreamEventV::ReasoningDelta(t) => reasoning_texts(acc + t, evs.drop_first()),
            StreamEventV::ReasoningDone { id, text } => if text == acc {
                reasoning_texts(seq![], evs.drop_first())
            } else {
                None
            },
            _ => reasoning_texts(acc, evs.drop_first()),
        }
    }
}

proof fn lemma_reasoning_texts_add(acc: Seq<char>, a: Seq<StreamEventV>, b: Seq<StreamEventV>)
    ensures
        reasoning_texts(acc, a + b) == match reasoning_texts(acc, a) {
            Some(m) => reasoning_texts(m, b),
            None => None,
        },
    decreases a.len(),
{
    if a.len() == 0 {
        assert(a + b =~= b);
    } else {
        assert((a + b)[0] == a[0]);
        assert((a + b).drop_first() =~= a.drop_first() + b);
        match a[0] {
            StreamEventV::ReasoningDelta(t) => lemma_reasoning_texts_add(acc + t, a.drop_first(), b),
            StreamEventV::ReasoningDone { id, text } => if text == acc {
                lemma_reasoning_texts_add(seq![], a.drop_first(), b);
            },
            _ => lemma_reasoning_texts_add(acc, a.drop_first(), b),
        }
    }
}

/// What one step does to the two walks: it takes each from the state's
/// pending text to the text pending after it.
pub open spec fn step_texts_ok(st: StreamModel, st1: StreamModel, evs: Seq<StreamEventV>) -> bool {
    &&& message_texts(st.assistant_text, evs) == Some(st1.assistant_text)
    &&& reasoning_texts(st.reasoning_text, evs) == Some(st1.reasoning_text)
}

proof fn lemma_texts_chain(st: StreamModel, st1: StreamModel, st2: StreamModel, a: Seq<StreamEventV>, b: Seq<StreamEventV>)
    requires
        step_texts_ok(st, st1, a),
        step_texts_ok(st1, st2, b),
    ensures
        step_texts_ok(st, st2, a + b),
{
    lemma_message_texts_add(st.assistant_text, a, b);
    lemma_reasoning_texts_add(st.reasoning_text, a, b);
}

proof fn lemma_texts_single(st: StreamModel, e: StreamEventV)
    requires
        !(e is TextDelta || e is MessageDone || e is ReasoningDelta || e is ReasoningDone),
    ensures
        step_texts_ok(st, st, seq![e]),
{
    reveal_with_fuel(message_texts, 2);
    reveal_with_fuel(reasoning_texts, 2);
    assert(seq![e].drop_first() =~= Seq::<StreamEventV>::empty());
}

proof fn lemma_texts_empty(st: StreamModel)
    ensures
        step_texts_ok(st, st, Seq::<StreamEventV>::empty()),
{
}

proof fn lemma_flush_texts(st: StreamModel)
    ensures
        step_texts_ok(st, flushed(st), flush_events(st)),
{
    reveal_with_fuel(message_texts, 2);
    reveal_with_fuel(reasoning_texts, 2);
    let m = if st.assistant_text.len() > 0 {
        seq![StreamEventV::MessageDone { id: item_id(st.item_id), text: st.assistant_text }]
    } else {
        seq![]
    };
    let r = if st.reasoning_text.len() > 0 {
        seq![StreamEventV::ReasoningDone { id: item_id(st.item_id), text: st.reasoning_text }]
    } else {
        seq![]
    };
    let c = seq![StreamEventV::Completed { response_id: or_empty(st.response_id), end_turn: None }];
    let s1 = StreamModel { assistant_text: seq![], ..st };
    let s2 = flushed(st);
    if st.assistant_text.len() > 0 {
        assert(m.drop_first() =~= Seq::<StreamEventV>::empty());
        assert(step_texts_ok(st, s1, m));
    } else {
        assert(st.assistant_text =~= Seq::<char>::empty());
        assert(s1 == st);
        assert(step_texts_ok(st, s1, m));
    }
    if st.reasoning_text.len() > 0 {
        assert(r.drop_first() =~= Seq::<StreamEventV>::empty());
        assert(step_texts_ok(s1, s2, r));
    } else {
        assert(st.reasoning_text =~= Seq::<char>::empty());
        assert(s1 == s2);
        assert(step_texts_ok(s1, s2, r));
    }
    lemma_texts_single(s2, c[0]);
    assert(c == seq![c[0]]);
    lemma_texts_chain(st, s1, s2, m, r);
    lemma_texts_chain(st, s2, s2, m + r, c);
}

proof fn lemma_header_texts(st: StreamModel, chunk: JsonV)
    ensures
        step_texts_ok(st, spec_header(st, chunk).0, spec_header(st, chunk).1),
{
    let (st4, ev1) = spec_header(st, chunk);
    if ev1.len() > 0 {
        assert(ev1 == seq![StreamEventV::Created]);
        lemma_texts_single(st, StreamEventV::Created);
    }
}

#[verifier::rlimit(40)]
proof fn lemma_choice_texts(st4: StreamModel, choice: JsonV)
    ensures
        step_texts_ok(st4, spec_choice(st4, choice).0, spec_choice(st4, choice).1),
{
    reveal_with_fuel(message_texts, 2);
    reveal_with_fuel(reasoning_texts, 2);
    let st5 = match ostr(vget(choice, "item_id"@)) {
        Some(i) => StreamModel { item_id: Some(i), ..st4 },
        None => st4,
    };
    let delta = vget(choice, "delta"@);
    let content = ostr(oget(delta, "content"@));
    let (st6, ev2) = match content {
        Some(c) if c.len() > 0 => (
            StreamModel { assistant_text: st5.assistant_text + c, ..st5 },
            seq![StreamEventV::TextDelta(c)],
        ),
        _ => (st5, seq![]),
    };
    assert(step_texts_ok(st4, st6, ev2)) by {
        if ev2.len() > 0 {
            assert(ev2.drop_first() =~= Seq::<StreamEventV>::empty());
        }
    }
    let rd = match oget(delta, "reasoning"@) {
        Some(v) => spec_reasoning_text_delta(v),
        None => None,
    };
    let (st7, ev3) = match rd {
        Some(r) => (
            StreamModel { reasoning_text: st6.reasoning_text + r, ..st6 },
            seq![StreamEventV::ReasoningDelta(r)],
        ),
        None => (st6, seq![]),
    };
    assert(step_texts_ok(st6, st7, ev3)) by {
        if ev3.len() > 0 {
            assert(ev3.drop_first() =~= Seq::<StreamEventV>::empty());
        }
    }
    let mr = match oget(vget(choice, "message"@), "reasoning"@) {
        Some(v) => spec_reasoning_text_from_value(v),
        None => None,
    };
    let (st8, ev4) = match mr {
        Some(s) if s.len() > 0 => (
            StreamModel { reasoning_text: st7.reasoning_text + s, ..st7 },
            seq![StreamEventV::ReasoningDelta(s)],
        ),
        _ => (st7, seq![]),
    };
    assert(step_texts_ok(st7, st8, ev4)) by {
        if ev4.len() > 0 {
            assert(ev4.drop_first() =~= Seq::<StreamEventV>::empty());
        }
    }
    let st9 = spec_choice(st4, choice).0;
    assert(st9.assistant_text == st8.assistant_text && st9.reasoning_text == st8.reasoning_text);
    lemma_texts_chain(st4, st6, st7, ev2, ev3);
    lemma_texts_chain(st4, st7, st8, ev2 + ev3, ev4);
    assert(spec_choice(st4, choice).1 == ev2 + ev3 + ev4);
}

#[verifier::rlimit(40)]
proof fn lemma_finish_texts(st9: StreamModel, fr: Seq<char>)
    ensures
        step_texts_ok(st9, spec_finish(st9, fr).0, spec_finish(st9, fr).1),
{
    reveal_with_fuel(message_texts, 2);
    reveal_with_fuel(reasoning_texts, 2);
    let rid = item_id(st9.item_id);
    let (st10, ev5) = finish_events(st9, fr);
    assert(step_texts_ok(st9, st10, ev5)) by {
        if fr == "tool_calls"@ && st9.fn_active {
            let r = if st9.reasoning_text.len() > 0 {
                seq![StreamEventV::ReasoningDone { id: rid, text: st9.reasoning_text }]
            } else {
                seq![]
            };
            let f = seq![
                StreamEventV::FunctionCallDone {
                    id: rid,
                    name: or_empty(st9.fn_name),
                    arguments: st9.fn_arguments,
                    call_id: or_empty(st9.fn_call_id),
                },
            ];
            let sa = StreamModel { reasoning_text: seq![], ..st9 };
            if st9.reasoning_text.len() > 0 {
                assert(r.drop_first() =~= Seq::<StreamEventV>::empty());
            } else {
                assert(st9.reasoning_text =~= Seq::<char>::empty());
            }
            assert(step_texts_ok(st9, sa, r));
            lemma_texts_single(st10, f[0]);
            assert(f == seq![f[0]]);
            assert(sa.assistant_text == st10.assistant_text && sa.reasoning_text == st10.reasoning_text);
            assert(step_texts_ok(sa, st10, f));
            lemma_texts_chain(st9, sa, st10, r, f);
            assert(ev5 == r + f);
        } else if fr == "stop"@ {
            let m = if st9.assistant_text.len() > 0 {
                seq![StreamEventV::MessageDone { id: rid, text: st9.assistant_text }]
            } else {
                seq![]
            };
            let r = if st9.reasoning_text.len() > 0 {
                seq![StreamEventV::ReasoningDone { id: rid, text: st9.reasoning_text }]
            } else {
                seq![]
            };
            let s1 = StreamModel { assistant_text: seq![], ..st9 };
            if st9.assistant_text.len() > 0 {
                assert(m.drop_first() =~= Seq::<StreamEventV>::empty());
            } else {
                assert(st9.assistant_text =~= Seq::<char>::empty());
                assert(s1 == st9);
            }
            assert(step_texts_ok(st9, s1, m));
            if st9.reasoning_text.len() > 0 {
                assert(r.drop_first() =~= Seq::<StreamEventV>::empty());
            } else {
                assert(st9.reasoning_text =~= Seq::<char>::empty());
                assert(s1 == st10);
            }
            assert(step_texts_ok(s1, st10, r));
            lemma_texts_chain(st9, s1, st10, m, r);
        } else {
        }
    }
    let c = seq![StreamEventV::Completed { response_id: or_empty(st10.response_id), end_turn: Some(fr == "stop"@) }];
    lemma_texts_single(st10, c[0]);
    assert(c == seq![c[0]]);
    lemma_texts_chain(st9, st10, st10, ev5, c);
}

#[verifier::rlimit(40)]
proof fn lemma_chunk_texts(st: StreamModel, chunk: JsonV)
    ensures
        step_texts_ok(st, spec_chunk(st, chunk).0, spec_chunk(st, chunk).1),
{
    let (st4, ev1) = spec_header(st, chunk);
    lemma_header_texts(st, chunk);
    let choice = match vget(chunk, "choices"@) {
        Some(c) => vat(c, 0),
        None => None,
    };
    match choice {
        None => {},
        Some(choice) => {
            let (st9, evs) = spec_choice(st4, choice);
            lemma_choice_texts(st4, choice);
            lemma_texts_chain(st, st4, st9, ev1, evs);
            match ostr(vget(choice, "finish_reason"@)) {
                None => {},
                Some(fr) => {
                    let (st10, fin) = spec_finish(st9, fr);
                    lemma_finish_texts(st9, fr);
                    lemma_texts_chain(st, st9, st10, ev1 + evs, fin);
                },
            }
        },
    }
}

proof fn lemma_step_texts(st: StreamModel, input: SseInput)
    ensures
        step_texts_ok(st, spec_step(st, input).0, spec_step(st, input).1),
{
    match input {
        SseInput::TransportError(e) => lemma_texts_single(st, StreamEventV::Error("[transport] "@ + e@)),
        SseInput::IdleTimeout => lemma_texts_single(st, StreamEventV::Error("[idle] timeout waiting for SSE"@)),
        SseInput::Closed => lemma_flush_texts(st),
        SseInput::Data(raw) => {
            let data = trim(raw@);
            if data.len() == 0 {
            } else if data == "[DONE]"@ || data == "DONE"@ {
                lemma_flush_texts(st);
            } else {
                match json_parse(data) {
                    Some(chunk) => lemma_chunk_texts(st, chunk),
                    None => {},
                }
            }
        },
    }
}

/// Over a whole stream, a finished assistant message carries exactly the
/// `TextDelta`s sent since the previous one, joined in order, and finished
/// reasoning exactly the `ReasoningDelta`s since the previous one (from the
/// start, the state's pending texts come first).
pub proof fn lemma_run_items_join_deltas(st: StreamModel, inputs: Seq<SseInput>)
    ensures
        message_texts(st.assistant_text, spec_run(st, inputs).1) == Some(spec_run(st, inputs).0.assistant_text),
        reasoning_texts(st.reasoning_text, spec_run(st, inputs).1) == Some(spec_run(st, inputs).0.reasoning_text),
    decreases inputs.len(),
{
    if inputs.len() > 0 {
        let (st1, evs, over) = spec_step(st, inputs[0]);
        lemma_step_texts(st, inputs[0]);
        if !over {
            lemma_run_items_join_deltas(st1, inputs.drop_first());
            let (st2, rest) = spec_run(st1, inputs.drop_first());
            lemma_texts_chain(st, st1, st2, evs, rest);
        }
    }
}

} // verus!
