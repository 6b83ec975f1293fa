//! The tool-augmented streaming conversation engine.
//!
//! An [`LLM`] session owns an append-only history of role-tagged turns and
//! the active tool registry. Starting an exchange appends the request turn
//! and yields the [`Request`] to hand to the inference collaborator plus a
//! fresh [`TurnStream`]; the caller pulls the collaborator's incremental
//! chunks and feeds each one in, dispatching the returned [`StreamChunk`]
//! events in order; finishing the exchange appends one assistant turn whose
//! content is exactly the concatenation of all text fragments, and returns
//! the tool calls collected along the way. If the stream fails, the caller
//! simply drops the [`TurnStream`]: the request turn stays in history and
//! no assistant turn is appended, so the session remains consistent.
//!
//! Only the first choice of a chunk, and only the first tool-call delta of
//! that choice, are processed; this mirrors the collaborator protocol's
//! documented limits rather than guessing at multi-choice behavior.

use vstd::prelude::*;

verus! {

use vstd::string::StringExecFns;
use crate::json::{encode_tool_result, spec_tool_result_json};

/// The role of one turn in the conversation history.
#[derive(Clone, Copy, PartialEq, Eq, Structural, Debug)]
pub enum Role {
    System,
    User,
    Assistant,
    ToolResult,
}

/// One role-tagged message of the persisted conversation history.
#[derive(Debug, PartialEq)]
pub struct Turn {
    pub role: Role,
    pub content: String,
}

impl Clone for Turn {
    fn clone(&self) -> (res: Self)
        ensures
            res == *self,
    {
        Turn { role: self.role, content: self.content.clone() }
    }
}

/// A callable capability offered to the model: a name, a description, and a
/// string-keyed mapping of JSON-schema fragments describing the parameters.
#[derive(Debug, PartialEq)]
pub struct Tool {
    pub name: String,
    pub description: String,
    pub parameters: Vec<(String, String)>,
}

/// The mathematical content of a tool definition.
#[verifier::ext_equal]
pub struct ToolView {
    pub name: Seq<char>,
    pub description: Seq<char>,
    pub parameters: Seq<(Seq<char>, Seq<char>)>,
}

impl View for Tool {
    type V = ToolView;

    open spec fn view(&self) -> ToolView {
        ToolView {
            name: self.name@,
            description: self.description@,
            parameters: self.parameters.deep_view(),
        }
    }
}

impl DeepView for Tool {
    type V = ToolView;

    open spec fn deep_view(&self) -> ToolView {
        self.view()
    }
}

impl Clone for Tool {
    fn clone(&self) -> (res: Self)
        ensures
            res@ == self@,
    {
        let mut parameters: Vec<(String, String)> = Vec::new();
        let mut i: usize = 0;
        while i < self.parameters.len()
            invariant
                i <= self.parameters@.len(),
                parameters@ == self.parameters@.take(i as int),
            decreases self.parameters@.len() - i,
        {
            let p = &self.parameters[i];
            parameters.push((p.0.clone(), p.1.clone()));
            proof {
                assert(parameters@ =~= self.parameters@.take(i + 1));
            }
            i = i + 1;
        }
        proof {
            assert(self.parameters@.take(self.parameters@.len() as int) =~= self.parameters@);
        }
        let res = Tool {
            name: self.name.clone(),
            description: self.description.clone(),
            parameters,
        };
        proof {
            assert(res.parameters.deep_view() =~= self.parameters.deep_view());
            assert(res@ =~= self@);
        }
        res
    }
}

/// Builds a tool definition. Pure: no validation of the parameter schema's
/// internal shape is attempted.
pub fn create_tool(name: String, description: String, parameters: Vec<(String, String)>) -> (t:
    Tool)
    ensures
        t == (Tool { name, description, parameters }),
{
    Tool { name, description, parameters }
}

/// A completed tool call decoded from the response stream. The identifier
/// is assigned by the inference collaborator; the arguments are raw JSON
/// text that this engine never parses or validates.
#[derive(Debug, PartialEq)]
pub struct ToolCallInfo {
    pub id: String,
    pub name: String,
    pub arguments: String,
}

impl Clone for ToolCallInfo {
    fn clone(&self) -> (res: Self)
        ensures
            res == *self,
    {
        ToolCallInfo {
            id: self.id.clone(),
            name: self.name.clone(),
            arguments: self.arguments.clone(),
        }
    }
}

/// One event of a streamed turn, in emission order: a plain text fragment
/// or a tool call.
#[derive(Debug, PartialEq)]
pub enum StreamChunk {
    /// Regular text content.
    Text(String),
    /// A tool call request from the model.
    ToolCall(ToolCallInfo),
}

/// One tool-call delta as the inference collaborator reports it.
#[derive(Debug, PartialEq)]
pub struct ToolCallDelta {
    pub id: String,
    pub name: String,
    pub arguments: String,
}

/// The delta carried by one choice of one incremental response chunk.
#[derive(Debug, PartialEq)]
pub struct ChoiceDelta {
    pub content: Option<String>,
    pub tool_calls: Option<Vec<ToolCallDelta>>,
}

/// One incremental response chunk from the inference collaborator.
#[derive(Debug, PartialEq)]
pub struct ResponseChunk {
    pub choices: Vec<ChoiceDelta>,
}

/// The tool-choice directive sent with a request.
#[derive(Clone, Copy, PartialEq, Eq, Structural, Debug)]
pub enum ToolChoice {
    /// No tools are offered.
    NoTools,
    /// The model decides when to call a tool.
    Auto,
}

/// Everything the inference collaborator needs for one streamed turn: the
/// full ordered history, the tool schema list, and the tool-choice mode.
#[derive(Debug)]
pub struct Request {
    pub messages: Vec<Turn>,
    pub tools: Vec<Tool>,
    pub tool_choice: ToolChoice,
}

/// The text fragments of a sequence of stream events, concatenated in
/// emission order.
pub open spec fn spec_text_of(events: Seq<StreamChunk>) -> Seq<char>
    decreases events.len(),
{
    if events.len() == 0 {
        Seq::empty()
    } else {
        spec_text_of(events.drop_last()) + (match events.last() {
            StreamChunk::Text(t) => t@,
            StreamChunk::ToolCall(_) => Seq::empty(),
        })
    }
}

/// The tool calls of a sequence of stream events, in emission order.
pub open spec fn spec_calls_of(events: Seq<StreamChunk>) -> Seq<ToolCallInfo>
    decreases events.len(),
{
    if events.len() == 0 {
        Seq::empty()
    } else {
        spec_calls_of(events.drop_last()) + (match events.last() {
            StreamChunk::Text(_) => Seq::empty(),
            StreamChunk::ToolCall(c) => seq![c],
        })
    }
}

/// What a single event contributes as text and as a tool call.
pub proof fn lemma_event_singleton(e: StreamChunk)
    ensures
        spec_text_of(seq![e]) == (match e {
            StreamChunk::Text(t) => t@,
            StreamChunk::ToolCall(_) => Seq::<char>::empty(),
        }),
        spec_calls_of(seq![e]) == (match e {
            StreamChunk::Text(_) => Seq::<ToolCallInfo>::empty(),
            StreamChunk::ToolCall(c) => seq![c],
        }),
{
    reveal_with_fuel(spec_text_of, 2);
    reveal_with_fuel(spec_calls_of, 2);
    assert(seq![e].drop_last() =~= Seq::<StreamChunk>::empty());
    assert(seq![e].last() == e);
    assert(spec_text_of(seq![e]) =~= (match e {
        StreamChunk::Text(t) => t@,
        StreamChunk::ToolCall(_) => Seq::<char>::empty(),
    }));
    assert(spec_calls_of(seq![e]) =~= (match e {
        StreamChunk::Text(_) => Seq::<ToolCallInfo>::empty(),
        StreamChunk::ToolCall(c) => seq![c],
    }));
}

/// Concatenating event logs concatenates their texts.
pub proof fn lemma_text_of_concat(a: Seq<StreamChunk>, b: Seq<StreamChunk>)
    ensures
        spec_text_of(a + b) == spec_text_of(a) + spec_text_of(b),
    decreases b.len(),
{
    if b.len() == 0 {
        assert(a + b =~= a);
        assert(spec_text_of(a) + spec_text_of(b) =~= spec_text_of(a));
    } else {
        lemma_text_of_concat(a, b.drop_last());
        assert((a + b).drop_last() =~= a + b.drop_last());
        assert((a + b).last() == b.last());
        assert(spec_text_of(a) + spec_text_of(b) =~= spec_text_of(a) + spec_text_of(
            b.drop_last(),
        ) + (match b.last() {
            StreamChunk::Text(t) => t@,
            StreamChunk::ToolCall(_) => Seq::empty(),
        }));
    }
}

/// Concatenating event logs concatenates their tool-call lists.
pub proof fn lemma_calls_of_concat(a: Seq<StreamChunk>, b: Seq<StreamChunk>)
    ensures
        spec_calls_of(a + b) == spec_calls_of(a) + spec_calls_of(b),
    decreases b.len(),
{
    if b.len() == 0 {
        assert(a + b =~= a);
        assert(spec_calls_of(a) + spec_calls_of(b) =~= spec_calls_of(a));
    } else {
        lemma_calls_of_concat(a, b.drop_last());
        assert((a + b).drop_last() =~= a + b.drop_last());
        assert((a + b).last() == b.last());
        assert(spec_calls_of(a) + spec_calls_of(b) =~= spec_calls_of(a) + spec_calls_of(
            b.drop_last(),
        ) + (match b.last() {
            StreamChunk::Text(_) => Seq::empty(),
            StreamChunk::ToolCall(c) => seq![c],
        }));
    }
}

/// The stream events one response chunk yields: the text fragment of the
/// first choice, if any, followed by the first tool-call delta of that
/// choice, if any. Chunks without choices yield nothing.
pub open spec fn spec_chunk_events(chunk: ResponseChunk) -> Seq<StreamChunk> {
    if chunk.choices@.len() == 0 {
        Seq::empty()
    } else {
        let c = chunk.choices@[0];
        (match c.content {
            Some(t) => seq![StreamChunk::Text(t)],
            None => Seq::empty(),
        }) + (match c.tool_calls {
            Some(ds) => if ds@.len() > 0 {
                seq![
                    StreamChunk::ToolCall(
                        ToolCallInfo {
                            id: ds@[0].id,
                            name: ds@[0].name,
                            arguments: ds@[0].arguments,
                        },
                    ),
                ]
            } else {
                Seq::empty()
            },
            None => Seq::empty(),
        })
    }
}

/// The in-flight state of one streamed turn: the text accumulator, the tool
/// calls collected so far, and (as ghost state) the full event log.
pub struct TurnStream {
    acc: String,
    calls: Vec<ToolCallInfo>,
    events: Ghost<Seq<StreamChunk>>,
}

impl TurnStream {
    /// The event log so far, in emission order.
    pub closed spec fn events(&self) -> Seq<StreamChunk> {
        self.events@
    }

    /// The accumulated text so far.
    pub closed spec fn acc(&self) -> Seq<char> {
        self.acc@
    }

    /// The tool calls collected so far.
    pub closed spec fn calls(&self) -> Seq<ToolCallInfo> {
        self.calls@
    }

    /// The accumulator always holds exactly the concatenated text fragments
    /// of the events emitted so far, and the collected calls are exactly
    /// the tool-call events, in order.
    pub open spec fn wf(&self) -> bool {
        self.acc() == spec_text_of(self.events()) && self.calls() == spec_calls_of(self.events())
    }

    fn new() -> (s: Self)
        ensures
            s.events() == Seq::<StreamChunk>::empty(),
            s.acc() == Seq::<char>::empty(),
            s.calls() == Seq::<ToolCallInfo>::empty(),
            s.wf(),
    {
        let s = TurnStream { acc: String::new(), calls: Vec::new(), events: Ghost(Seq::empty()) };
        proof {
            assert(s.acc() =~= spec_text_of(s.events()));
            assert(s.calls() =~= spec_calls_of(s.events()));
        }
        s
    }

    /// Processes one incremental chunk: accumulates the text fragment of
    /// the chunk's first choice, collects its first tool-call delta, and
    /// returns the corresponding events in emission order for the caller
    /// to dispatch before pulling the next chunk.
    pub fn feed(&mut self, chunk: ResponseChunk) -> (events: Vec<StreamChunk>)
        ensures
            events@ == spec_chunk_events(chunk),
            final(self).events() == old(self).events() + events@,
            final(self).acc() == old(self).acc() + spec_text_of(events@),
            final(self).calls() == old(self).calls() + spec_calls_of(events@),
            old(self).wf() ==> final(self).wf(),
    {
        let ghost old_events = self.events@;
        let ghost old_acc = self.acc@;
        let ghost old_calls = self.calls@;
        let mut events: Vec<StreamChunk> = Vec::new();
        if chunk.choices.len() > 0 {
            let choice = &chunk.choices[0];
            if let Some(t) = &choice.content {
                self.acc.append(t.as_str());
                events.push(StreamChunk::Text(t.clone()));
            }
            if let Some(ds) = &choice.tool_calls {
                if ds.len() > 0 {
                    let d = &ds[0];
                    let info = ToolCallInfo {
                        id: d.id.clone(),
                        name: d.name.clone(),
                        arguments: d.arguments.clone(),
                    };
                    self.calls.push(info.clone());
                    events.push(StreamChunk::ToolCall(info));
                }
            }
        }
        self.events = Ghost(old_events + events@);
        proof {
            assert(events@ =~= spec_chunk_events(chunk));
            if events@.len() == 0 {
                assert(spec_text_of(events@) == Seq::<char>::empty());
                assert(spec_calls_of(events@) == Seq::<ToolCallInfo>::empty());
            } else if events@.len() == 1 {
                assert(events@ =~= seq![events@[0]]);
                lemma_event_singleton(events@[0]);
            } else {
                assert(events@ =~= seq![events@[0]] + seq![events@[1]]);
                lemma_event_singleton(events@[0]);
                lemma_event_singleton(events@[1]);
                lemma_text_of_concat(seq![events@[0]], seq![events@[1]]);
                lemma_calls_of_concat(seq![events@[0]], seq![events@[1]]);
            }
            assert(self.acc@ =~= old_acc + spec_text_of(events@));
            assert(self.calls@ =~= old_calls + spec_calls_of(events@));
            if old_acc == spec_text_of(old_events) && old_calls == spec_calls_of(old_events) {
                lemma_text_of_concat(old_events, events@);
                lemma_calls_of_concat(old_events, events@);
            }
        }
        events
    }
}

impl LLM {
    /// A fresh session: empty history, no tools registered.
    pub fn new() -> (r: LLM)
        ensures
            r.history@ == Seq::<Turn>::empty(),
            r.tools@ == Seq::<Tool>::empty(),
    {
        let r = LLM { history: Vec::new(), tools: Vec::new() };
        proof {
            assert(r.history@ =~= Seq::<Turn>::empty());
            assert(r.tools@ =~= Seq::<Tool>::empty());
        }
        r
    }

    /// Registers one more tool. Entries are kept in registration order and
    /// never deduplicated: registering the same name twice leaves both
    /// entries in place (caller error, by design, not a silent merge).
    pub fn add_tool(&mut self, tool: Tool)
        ensures
            final(self).tools@ == old(self).tools@.push(tool),
            final(self).history@ == old(self).history@,
    {
        self.tools.push(tool);
    }

    /// Replaces the whole tool set. Affects only requests built afterwards.
    pub fn set_tools(&mut self, tools: Vec<Tool>)
        ensures
            final(self).tools@ == tools@,
            final(self).history@ == old(self).history@,
    {
        self.tools = tools;
    }

    /// Appends a system turn. Call it before the first user turn if it is
    /// to precede that turn in context; nothing here enforces the order.
    pub fn set_system_prompt(&mut self, prompt: String)
        ensures
            final(self).history@ == old(self).history@.push(
                (Turn { role: Role::System, content: prompt }),
            ),
            final(self).tools@ == old(self).tools@,
    {
        self.history.push(Turn { role: Role::System, content: prompt });
    }

    /// The tools currently configured for this session.
    pub fn tools(&self) -> (r: &Vec<Tool>)
        ensures
            r@ == self.tools@,
    {
        &self.tools
    }

    /// The conversation history so far, in order.
    pub fn history(&self) -> (r: &Vec<Turn>)
        ensures
            r@ == self.history@,
    {
        &self.history
    }

    /// The one internal routine both exchange entry points share: appends
    /// the given request turn, builds the request from the full ordered
    /// history (with the tool schemas and the automatic tool choice
    /// directive exactly when the registry is non-empty), and hands back a
    /// fresh stream state.
    fn begin_exchange(&mut self, turn: Turn) -> (r: (Request, TurnStream))
        ensures
            final(self).history@ == old(self).history@.push(turn),
            final(self).tools@ == old(self).tools@,
            r.0.messages@ == final(self).history@,
            old(self).tools@.len() > 0 ==> r.0.tools.deep_view() == old(self).tools.deep_view()
                && r.0.tool_choice == ToolChoice::Auto,
            old(self).tools@.len() == 0 ==> r.0.tools@.len() == 0 && r.0.tool_choice
                == ToolChoice::NoTools,
            r.1.events() == Seq::<StreamChunk>::empty(),
            r.1.acc() == Seq::<char>::empty(),
            r.1.calls() == Seq::<ToolCallInfo>::empty(),
            r.1.wf(),
    {
        self.history.push(turn);
        let messages = clone_turns(&self.history);
        let (tools, tool_choice) = if self.tools.len() > 0 {
            (clone_tools(&self.tools), ToolChoice::Auto)
        } else {
            let no_tools: Vec<Tool> = Vec::new();
            (no_tools, ToolChoice::NoTools)
        };
        (Request { messages, tools, tool_choice }, TurnStream::new())
    }

    /// Starts a user exchange: appends the user turn with this prompt and
    /// returns the request to stream plus the stream state to feed. The
    /// user turn stays in history even if the stream later fails; no turn
    /// is ever rolled back.
    pub fn stream_completion(&mut self, prompt: String) -> (r: (Request, TurnStream))
        ensures
            final(self).history@ == old(self).history@.push(
                (Turn { role: Role::User, content: prompt }),
            ),
            final(self).tools@ == old(self).tools@,
            r.0.messages@ == final(self).history@,
            old(self).tools@.len() > 0 ==> r.0.tools.deep_view() == old(self).tools.deep_view()
                && r.0.tool_choice == ToolChoice::Auto,
            old(self).tools@.len() == 0 ==> r.0.tools@.len() == 0 && r.0.tool_choice
                == ToolChoice::NoTools,
            r.1.events() == Seq::<StreamChunk>::empty(),
            r.1.wf(),
    {
        self.begin_exchange(Turn { role: Role::User, content: prompt })
    }

    /// Splices a tool result back into the conversation and starts the
    /// follow-up exchange: appends one tool-result turn whose content is
    /// the serialized `{"tool_call_id": ..., "content": ...}` object, then
    /// proceeds exactly as `stream_completion` does, so a tool result can
    /// itself trigger further tool calls.
    pub fn add_tool_result(&mut self, tool_call_id: String, result: String) -> (r: (
        Request,
        TurnStream,
    ))
        ensures
            final(self).history@.len() == old(self).history@.len() + 1,
            final(self).history@ == old(self).history@.push(final(self).history@.last()),
            final(self).history@.last().role == Role::ToolResult,
            final(self).history@.last().content@ == spec_tool_result_json(
                tool_call_id@,
                result@,
            ),
            final(self).tools@ == old(self).tools@,
            r.0.messages@ == final(self).history@,
            old(self).tools@.len() > 0 ==> r.0.tools.deep_view() == old(self).tools.deep_view()
                && r.0.tool_choice == ToolChoice::Auto,
            old(self).tools@.len() == 0 ==> r.0.tools@.len() == 0 && r.0.tool_choice
                == ToolChoice::NoTools,
            r.1.events() == Seq::<StreamChunk>::empty(),
            r.1.wf(),
    {
        let content = encode_tool_result(tool_call_id.as_str(), result.as_str());
        self.begin_exchange(Turn { role: Role::ToolResult, content })
    }

    /// Ends a streamed exchange: appends one assistant turn holding the
    /// full accumulated text (even if empty) and returns the tool calls
    /// collected from the stream, in emission order. The appended content
    /// is exactly the concatenation of all text fragments the stream
    /// emitted.
    pub fn finish_exchange(&mut self, stream: TurnStream) -> (calls: Vec<ToolCallInfo>)
        ensures
            final(self).history@ == old(self).history@.push(final(self).history@.last()),
            final(self).history@.len() == old(self).history@.len() + 1,
            final(self).history@.last().role == Role::Assistant,
            final(self).history@.last().content@ == stream.acc(),
            final(self).tools@ == old(self).tools@,
            calls@ == stream.calls(),
            stream.wf() ==> final(self).history@.last().content@ == spec_text_of(stream.events())
                && calls@ == spec_calls_of(stream.events()),
    {
        let TurnStream { acc, calls, events: _ } = stream;
        self.history.push(Turn { role: Role::Assistant, content: acc });
        calls
    }
}

/// An owned conversation session: the ordered, append-only turn history
/// and the active tool registry. The inference collaborator itself stays
/// outside; the session only builds requests for it and consumes its
/// chunks.
pub struct LLM {
    pub history: Vec<Turn>,
    pub tools: Vec<Tool>,
}

fn clone_turns(v: &Vec<Turn>) -> (r: Vec<Turn>)
    ensures
        r@ == v@,
{
    let mut r: Vec<Turn> = Vec::new();
    let mut i: usize = 0;
    while i < v.len()
        invariant
            i <= v@.len(),
            r@ == v@.take(i as int),
        decreases v@.len() - i,
    {
        r.push(v[i].clone());
        proof {
            assert(r@ =~= v@.take(i + 1));
        }
        i = i + 1;
    }
    proof {
        assert(v@.take(v@.len() as int) =~= v@);
    }
    r
}

fn clone_tools(v: &Vec<Tool>) -> (r: Vec<Tool>)
    ensures
        r.deep_view() == v.deep_view(),
{
    let mut r: Vec<Tool> = Vec::new();
    let mut i: usize = 0;
    while i < v.len()
        invariant
            i <= v@.len(),
            r.deep_view() == v.deep_view().take(i as int),
        decreases v@.len() - i,
    {
        let ghost r0 = r.deep_view();
        r.push(v[i].clone());
        proof {
            assert(r0.len() == i);
            assert(r.deep_view() =~= v.deep_view().take(i + 1));
        }
        i = i + 1;
    }
    proof {
        assert(v.deep_view().take(v@.len() as int) =~= v.deep_view());
    }
    r
}

/// The history produced by starting from `h` and completing a sequence of
/// exchanges, each contributing its request turn and its assistant reply.
pub open spec fn spec_history_after_exchanges(h: Seq<Turn>, exchanges: Seq<(Turn, Turn)>) -> Seq<
    Turn,
>
    decreases exchanges.len(),
{
    if exchanges.len() == 0 {
        h
    } else {
        spec_history_after_exchanges(h, exchanges.drop_last()).push(
            exchanges.last().0,
        ).push(exchanges.last().1)
    }
}

/// Law: every completed exchange appends exactly two turns — one request
/// turn, one assistant turn — so after any number of completed exchanges
/// the history length is its old length plus twice that number, whatever
/// the streams carried. (`stream_completion` and `add_tool_result` each
/// push one request turn, and `finish_exchange` pushes one assistant turn:
/// a completed call is one step of `spec_history_after_exchanges`, as
/// `lemma_history_step` states.)
pub proof fn lemma_history_growth(h: Seq<Turn>, exchanges: Seq<(Turn, Turn)>)
    ensures
        spec_history_after_exchanges(h, exchanges).len() == h.len() + 2 * exchanges.len(),
    decreases exchanges.len(),
{
    if exchanges.len() == 0 {
    } else {
        lemma_history_growth(h, exchanges.drop_last());
    }
}

/// One more completed exchange extends the history by its two turns.
pub proof fn lemma_history_step(h: Seq<Turn>, exchanges: Seq<(Turn, Turn)>, p: (Turn, Turn))
    ensures
        spec_history_after_exchanges(h, exchanges.push(p)) == spec_history_after_exchanges(
            h,
            exchanges,
        ).push(p.0).push(p.1),
{
    assert(exchanges.push(p).drop_last() =~= exchanges);
    assert(exchanges.push(p).last() == p);
}

} // verus!
