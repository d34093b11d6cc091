//! The prompt stream engine: what each update of a running prompt becomes for
//! the caller, and how permission requests are answered.
use vstd::prelude::*;

use crate::message::{
    build_action_required_message, is_action_required, object_arguments, object_part, response_body,
    tool_response_body, Message, MessageContent, Role,
};
use crate::permission::{
    decision_for_mode, decision_for_permission, map_permission_response,
    permission_decision_from_confirmation, permission_decision_from_mode, selected_option,
    GooseMode, PermissionConfirmation, PermissionDecision, PermissionMapping, ToolCallStatus,
};
use crate::registry::Registry;
use crate::rejected::{completion_is_error, tool_call_is_error, RejectedSet};
use crate::schema::{
    ContentBlock, PermissionOutcome, PermissionRequest, SessionUpdate, StopReason, ToolCallContent,
};

verus! {

/// An update of a running prompt, in the order the agent sent it.
#[derive(Debug)]
pub enum AcpUpdate {
    Text(String),
    Thought(String),
    ToolCallStart { id: String, title: String, raw_input: Option<serde_json::Value> },
    ToolCallComplete { id: String, status: ToolCallStatus, content: Vec<ToolCallContent> },
    PermissionRequest(PermissionRequest),
    Complete(StopReason),
    Error(String),
}

/// What of an update the engine's state depends on.
pub enum UpdateKind {
    Chunk,
    Start(Seq<char>),
    Finish(Seq<char>, ToolCallStatus),
    Permission,
    Done,
}

impl AcpUpdate {
    pub open spec fn kind(self) -> UpdateKind {
        match self {
            AcpUpdate::Text(_) | AcpUpdate::Thought(_) => UpdateKind::Chunk,
            AcpUpdate::ToolCallStart { id, .. } => UpdateKind::Start(id@),
            AcpUpdate::ToolCallComplete { id, status, .. } => UpdateKind::Finish(id@, status),
            AcpUpdate::PermissionRequest(_) => UpdateKind::Permission,
            AcpUpdate::Complete(_) | AcpUpdate::Error(_) => UpdateKind::Done,
        }
    }
}

/// The content of a `session/update` notification as an update of the running
/// prompt: text and thought chunks that hold text, tool calls, and tool-call
/// updates that end the call; nothing for the rest.
pub open spec fn routes_to(u: SessionUpdate, r: Option<AcpUpdate>) -> bool {
    match u {
        SessionUpdate::AgentMessageChunk(ContentBlock::Text(t)) => match r {
            Some(AcpUpdate::Text(x)) => x@ == t@,
            _ => false,
        },
        SessionUpdate::AgentThoughtChunk(ContentBlock::Text(t)) => match r {
            Some(AcpUpdate::Thought(x)) => x@ == t@,
            _ => false,
        },
        SessionUpdate::ToolCall { id, title, raw_input } => match r {
            Some(AcpUpdate::ToolCallStart { id: i, title: t, raw_input: v }) => i@ == id@ && t@
                == title@ && v == raw_input,
            _ => false,
        },
        SessionUpdate::ToolCallUpdate { id, status, content } => match status {
            Some(s) if s.spec_is_terminal() => match r {
                Some(AcpUpdate::ToolCallComplete { id: i, status: s2, content: c }) => {
                    &&& i@ == id@
                    &&& s2 == s
                    &&& c@ == match content {
                        Some(c0) => c0@,
                        None => Seq::empty(),
                    }
                },
                _ => false,
            },
            _ => r.is_none(),
        },
        _ => r.is_none(),
    }
}

/// Routes a `session/update` notification into the running prompt's updates.
pub fn route_session_update(update: SessionUpdate) -> (r: Option<AcpUpdate>)
    ensures
        routes_to(update, r),
{
    match update {
        SessionUpdate::AgentMessageChunk(ContentBlock::Text(t)) => Some(AcpUpdate::Text(t)),
        SessionUpdate::AgentThoughtChunk(ContentBlock::Text(t)) => Some(AcpUpdate::Thought(t)),
        SessionUpdate::ToolCall { id, title, raw_input } => Some(
            AcpUpdate::ToolCallStart { id, title, raw_input },
        ),
        SessionUpdate::ToolCallUpdate { id, status, content } => match status {
            Some(s) => {
                if s.is_terminal() {
                    let content = match content {
                        Some(c) => c,
                        None => Vec::new(),
                    };
                    Some(AcpUpdate::ToolCallComplete { id, status: s, content })
                } else {
                    None
                }
            },
            None => None,
        },
        _ => None,
    }
}

/// What the caller does with one update.
#[derive(Debug)]
pub enum StreamStep {
    /// Hand the message on.
    Emit(Message),
    /// Answer the agent's permission request at once.
    Reply { request: PermissionRequest, outcome: PermissionOutcome },
    /// Show the message to the user, wait for the answer to the request, and
    /// pass it to `resolve`.
    Ask { request: PermissionRequest, message: Message },
    /// Nothing to hand on.
    Skip,
    /// The prompt ended.
    End,
    /// The prompt failed with this message.
    Fail(String),
}

/// The engine's state: whether the prompt has ended, the tool calls started
/// and not yet ended, and those whose end has been handed on.
pub struct EngineState {
    pub finished: bool,
    pub open: Set<Seq<char>>,
    pub completed: Set<Seq<char>>,
}

/// Whether an update hands on the end of a tool call, and of which.
pub open spec fn surfaces(s: EngineState, u: UpdateKind) -> Option<Seq<char>> {
    match u {
        UpdateKind::Finish(id, status) => if !s.finished && status.spec_is_terminal()
            && !s.completed.contains(id) {
            Some(id)
        } else {
            None
        },
        _ => None,
    }
}

/// The state after an update.
pub open spec fn next_state(s: EngineState, u: UpdateKind) -> EngineState {
    if s.finished {
        s
    } else {
        match u {
            UpdateKind::Start(id) => EngineState { open: s.open.insert(id), ..s },
            UpdateKind::Finish(id, _) => if surfaces(s, u) is Some {
                EngineState { open: s.open.remove(id), completed: s.completed.insert(id), ..s }
            } else {
                s
            },
            UpdateKind::Done => EngineState { finished: true, ..s },
            _ => s,
        }
    }
}

pub open spec fn is_assistant_text(m: Message, t: Seq<char>) -> bool {
    &&& m.role == Role::Assistant
    &&& m.agent_visible && m.user_visible
    &&& m.content@.len() == 1
    &&& m.content@[0] matches MessageContent::Text(x) && x@ == t
}

pub open spec fn is_assistant_thought(m: Message, t: Seq<char>) -> bool {
    &&& m.role == Role::Assistant
    &&& !m.agent_visible && m.user_visible
    &&& m.content@.len() == 1
    &&& m.content@[0] matches MessageContent::Thinking(x) && x@ == t
}

pub open spec fn is_tool_request(
    m: Message,
    id: Seq<char>,
    title: Seq<char>,
    raw_input: Option<serde_json::Value>,
) -> bool {
    &&& m.role == Role::Assistant
    &&& m.agent_visible && m.user_visible
    &&& m.content@.len() == 1
    &&& match m.content@[0] {
        MessageContent::ToolRequest { id: i, name, arguments } => i@ == id && name@ == title
            && arguments == object_part(raw_input),
        _ => false,
    }
}

pub open spec fn is_tool_response(
    m: Message,
    id: Seq<char>,
    is_error: bool,
    body: Seq<Seq<char>>,
) -> bool {
    &&& m.role == Role::Assistant
    &&& m.agent_visible && m.user_visible
    &&& m.content@.len() == 1
    &&& match m.content@[0] {
        MessageContent::ToolResponse { id: i, is_error: e, content } => i@ == id && e == is_error
            && content@.map_values(|s: String| s@) == body,
        _ => false,
    }
}

/// The engine of one prompt.
pub struct PromptStream {
    goose_mode: GooseMode,
    mapping: PermissionMapping,
    finished: bool,
    open: Registry<()>,
    completed: Registry<()>,
}

impl PromptStream {
    pub closed spec fn view(&self) -> EngineState {
        EngineState {
            finished: self.finished,
            open: self.open@.dom(),
            completed: self.completed@.dom(),
        }
    }

    pub closed spec fn wf(&self) -> bool {
        self.open.wf() && self.completed.wf()
    }

    pub closed spec fn mode(&self) -> GooseMode {
        self.goose_mode
    }

    pub closed spec fn mapping(&self) -> PermissionMapping {
        self.mapping
    }

    /// The engine of a new prompt under a mode and a mapping.
    pub fn new(goose_mode: GooseMode, mapping: PermissionMapping) -> (r: Self)
        ensures
            r.wf(),
            r.mode() == goose_mode,
            r.mapping() == mapping,
            !r@.finished,
            r@.open == Set::<Seq<char>>::empty(),
            r@.completed == Set::<Seq<char>>::empty(),
    {
        let r = PromptStream {
            goose_mode,
            mapping,
            finished: false,
            open: Registry::new(),
            completed: Registry::new(),
        };
        assert(r@.open =~= Set::<Seq<char>>::empty());
        assert(r@.completed =~= Set::<Seq<char>>::empty());
        r
    }

    /// Whether the prompt has ended.
    pub fn is_finished(&self) -> (r: bool)
        ensures
            r == self@.finished,
    {
        self.finished
    }

    /// Takes one update of the prompt and says what the caller does with it.
    /// Text becomes an assistant message, thought one that the agent does not
    /// see, a tool call's start a tool request, its end a tool response whose
    /// error flag consumes the call's rejection mark; a permission request is
    /// answered at once where the mode decides, else put to the user; the end
    /// of the prompt ends the stream, and after it nothing is handed on.
    pub fn handle(&mut self, rejected: &mut RejectedSet, update: AcpUpdate) -> (r: StreamStep)
        requires
            old(self).wf(),
            old(rejected).wf(),
        ensures
            final(self).wf(),
            final(rejected).wf(),
            final(self).mode() == old(self).mode(),
            final(self).mapping() == old(self).mapping(),
            final(self)@ == next_state(old(self)@, update.kind()),
            old(self)@.finished ==> r is Skip && final(rejected)@ == old(rejected)@,
            !old(self)@.finished ==> match update {
                AcpUpdate::Text(t) => r matches StreamStep::Emit(m) && is_assistant_text(m, t@)
                    && final(rejected)@ == old(rejected)@,
                AcpUpdate::Thought(t) => r matches StreamStep::Emit(m) && is_assistant_thought(
                    m,
                    t@,
                ) && final(rejected)@ == old(rejected)@,
                AcpUpdate::ToolCallStart { id, title, raw_input } => r matches StreamStep::Emit(m)
                    && is_tool_request(m, id@, title@, raw_input) && final(rejected)@ == old(rejected)@,
                AcpUpdate::ToolCallComplete { id, status, content } => if surfaces(
                    old(self)@,
                    update.kind(),
                ) is Some {
                    &&& r matches StreamStep::Emit(m) && is_tool_response(
                        m,
                        id@,
                        completion_is_error(
                            status,
                            old(rejected)@.contains(id@),
                            old(self).mapping().rejected_tool_status,
                        ),
                        response_body(content@),
                    )
                    &&& final(rejected)@ == old(rejected)@.remove(id@)
                } else {
                    r is Skip && final(rejected)@ == old(rejected)@
                },
                AcpUpdate::PermissionRequest(req) => match decision_for_mode(old(self).mode()) {
                    Some(d) => r matches StreamStep::Reply { request, outcome } && request == req
                        && outcome.view_id() == selected_option(
                        req.options@,
                        old(self).mapping(),
                        d,
                    ) && final(rejected)@ == if d.is_rejecting() {
                        old(rejected)@.insert(req.tool_call_id@)
                    } else {
                        old(rejected)@
                    },
                    None => r matches StreamStep::Ask { request, message } && request == req
                        && is_action_required(message, req) && final(rejected)@ == old(rejected)@,
                },
                AcpUpdate::Complete(_) => r is End && final(rejected)@ == old(rejected)@,
                AcpUpdate::Error(e) => r matches StreamStep::Fail(x) && x@ == e@ && final(rejected)@ == old(rejected)@,
            },
    {
        if self.finished {
            return StreamStep::Skip;
        }
        match update {
            AcpUpdate::Text(t) => StreamStep::Emit(
                Message {
                    role: Role::Assistant,
                    agent_visible: true,
                    user_visible: true,
                    content: vec![MessageContent::Text(t)],
                },
            ),
            AcpUpdate::Thought(t) => StreamStep::Emit(
                Message {
                    role: Role::Assistant,
                    agent_visible: false,
                    user_visible: true,
                    content: vec![MessageContent::Thinking(t)],
                },
            ),
            AcpUpdate::ToolCallStart { id, title, raw_input } => {
                let arguments = object_arguments(&raw_input);
                let ghost k = id@;
                let _ = self.open.insert_new(id.clone(), ());
                assert(self@.open =~= old(self)@.open.insert(k));
                StreamStep::Emit(
                    Message {
                        role: Role::Assistant,
                        agent_visible: true,
                        user_visible: true,
                        content: vec![MessageContent::ToolRequest { id, name: title, arguments }],
                    },
                )
            },
            AcpUpdate::ToolCallComplete { id, status, content } => {
                if !status.is_terminal() || self.completed.contains(id.as_str()) {
                    return StreamStep::Skip;
                }
                let body = tool_response_body(&content);
                let is_error = tool_call_is_error(rejected, &self.mapping, id.as_str(), status);
                let _ = self.open.remove(id.as_str());
                let ghost k = id@;
                let _ = self.completed.insert_new(id.clone(), ());
                assert(self@.open =~= old(self)@.open.remove(k));
                assert(self@.completed =~= old(self)@.completed.insert(k));
                StreamStep::Emit(
                    Message {
                        role: Role::Assistant,
                        agent_visible: true,
                        user_visible: true,
                        content: vec![MessageContent::ToolResponse { id, is_error, content: body }],
                    },
                )
            },
            AcpUpdate::PermissionRequest(request) => {
                match permission_decision_from_mode(self.goose_mode) {
                    Some(decision) => {
                        let outcome = permission_response(
                            &self.mapping,
                            rejected,
                            &request,
                            decision,
                        );
                        StreamStep::Reply { request, outcome }
                    },
                    None => {
                        let message = build_action_required_message(&request);
                        StreamStep::Ask { request, message }
                    },
                }
            },
            AcpUpdate::Complete(_) => {
                self.finished = true;
                StreamStep::End
            },
            AcpUpdate::Error(e) => {
                self.finished = true;
                StreamStep::Fail(e)
            },
        }
    }

    /// The answer to a permission request that was put to the user, once the
    /// user answered; no answer (the question was dropped) counts as cancel.
    pub fn resolve(
        &self,
        rejected: &mut RejectedSet,
        request: &PermissionRequest,
        confirmation: Option<PermissionConfirmation>,
    ) -> (r: PermissionOutcome)
        requires
            old(rejected).wf(),
        ensures
            final(rejected).wf(),
            ({
                let d = match confirmation {
                    Some(c) => decision_for_permission(c.permission),
                    None => PermissionDecision::Cancel,
                };
                &&& r.view_id() == selected_option(request.options@, self.mapping(), d)
                &&& final(rejected)@ == if d.is_rejecting() {
                    old(rejected)@.insert(request.tool_call_id@)
                } else {
                    old(rejected)@
                }
            }),
    {
        let decision = match confirmation {
            Some(c) => permission_decision_from_confirmation(&c),
            None => PermissionDecision::Cancel,
        };
        permission_response(&self.mapping, rejected, request, decision)
    }
}

/// The answer to a permission request under a decision; a rejecting decision
/// marks the tool call as rejected.
pub fn permission_response(
    mapping: &PermissionMapping,
    rejected_tool_calls: &mut RejectedSet,
    request: &PermissionRequest,
    decision: PermissionDecision,
) -> (r: PermissionOutcome)
    requires
        old(rejected_tool_calls).wf(),
    ensures
        final(rejected_tool_calls).wf(),
        r.view_id() == selected_option(request.options@, *mapping, decision),
        final(rejected_tool_calls)@ == if decision.is_rejecting() {
            old(rejected_tool_calls)@.insert(request.tool_call_id@)
        } else {
            old(rejected_tool_calls)@
        },
{
    if decision.should_record_rejection() {
        rejected_tool_calls.record(request.tool_call_id.clone());
    }
    map_permission_response(mapping, request, decision)
}

/// The tool calls whose end is handed on, in order, over a run of updates.
pub open spec fn surfaced_ids(s: EngineState, us: Seq<UpdateKind>) -> Seq<Seq<char>>
    decreases us.len(),
{
    if us.len() == 0 {
        Seq::empty()
    } else {
        let rest = surfaced_ids(next_state(s, us[0]), us.drop_first());
        match surfaces(s, us[0]) {
            Some(id) => seq![id] + rest,
            None => rest,
        }
    }
}

/// Over any run of updates, the end of a tool call is handed on at most once,
/// never for a call whose end was handed on before, and not at all once the
/// prompt has ended.
pub proof fn lemma_completion_at_most_once(s: EngineState, us: Seq<UpdateKind>)
    ensures
        surfaced_ids(s, us).no_duplicates(),
        forall|i: int|
            0 <= i < surfaced_ids(s, us).len() ==> !s.completed.contains(
                #[trigger] surfaced_ids(s, us)[i],
            ),
        s.finished ==> surfaced_ids(s, us).len() == 0,
    decreases us.len(),
{
    if us.len() > 0 {
        let n = next_state(s, us[0]);
        lemma_completion_at_most_once(n, us.drop_first());
        let rest = surfaced_ids(n, us.drop_first());
        assert(s.completed.subset_of(n.completed));
        if let Some(id) = surfaces(s, us[0]) {
            assert(n.completed.contains(id));
            let all = seq![id] + rest;
            assert forall|i: int| 0 <= i < all.len() implies !s.completed.contains(
                #[trigger] all[i],
            ) by {
                if i > 0 {
                    assert(all[i] == rest[i - 1]);
                }
            }
            assert forall|i: int, j: int|
                0 <= i < all.len() && 0 <= j < all.len() && i != j implies all[i] != all[j] by {
                if i > 0 && j > 0 {
                    assert(all[i] == rest[i - 1]);
                    assert(all[j] == rest[j - 1]);
                } else if i == 0 {
                    assert(all[j] == rest[j - 1]);
                    assert(!n.completed.contains(rest[j - 1]));
                } else {
                    assert(all[i] == rest[i - 1]);
                    assert(!n.completed.contains(rest[i - 1]));
                }
            }
        }
    }
}

/// A started tool call is open, and stays open until its end is handed on;
/// handing on its end closes it and marks it as ended.
pub proof fn lemma_open_until_completed(s: EngineState, u: UpdateKind, id: Seq<char>)
    ensures
        !s.finished && u == UpdateKind::Start(id) ==> next_state(s, u).open.contains(id),
        s.open.contains(id) && surfaces(s, u) != Some(id) ==> next_state(s, u).open.contains(id),
        surfaces(s, u) == Some(id) ==> !next_state(s, u).open.contains(id) && next_state(
            s,
            u,
        ).completed.contains(id),
{
}

/// The state after a run of updates.
pub open spec fn state_after(s: EngineState, us: Seq<UpdateKind>) -> EngineState
    decreases us.len(),
{
    if us.len() == 0 {
        s
    } else {
        state_after(next_state(s, us[0]), us.drop_first())
    }
}

/// Whether an update reports that the tool call ended.
pub open spec fn ends_call(u: UpdateKind, id: Seq<char>) -> bool {
    match u {
        UpdateKind::Finish(x, status) => x == id && status.spec_is_terminal(),
        _ => false,
    }
}

/// Before the prompt ends, the engine has not finished.
proof fn lemma_running_until_done(s: EngineState, us: Seq<UpdateKind>, i: int)
    requires
        !s.finished,
        0 <= i <= us.len(),
        forall|k: int| 0 <= k < i ==> !(#[trigger] us[k] is Done),
    ensures
        !state_after(s, us.take(i)).finished,
    decreases i,
{
    if i > 0 {
        assert(!(us[0] is Done));
        let n = next_state(s, us[0]);
        assert(us.take(i).drop_first() =~= us.drop_first().take(i - 1));
        assert forall|k: int| 0 <= k < i - 1 implies !(#[trigger] us.drop_first()[k] is Done) by {
            assert(us.drop_first()[k] == us[k + 1]);
        }
        lemma_running_until_done(n, us.drop_first(), i - 1);
    }
}

/// An update that ends a call, arriving before the prompt ends and before any
/// other update that ends the same call, is handed on.
proof fn lemma_end_surfaced(s: EngineState, us: Seq<UpdateKind>, j: int, id: Seq<char>)
    requires
        !s.finished,
        !s.completed.contains(id),
        0 <= j < us.len(),
        ends_call(us[j], id),
        forall|k: int| 0 <= k < j ==> !(#[trigger] us[k] is Done) && !ends_call(us[k], id),
    ensures
        surfaced_ids(s, us).contains(id),
    decreases j,
{
    let n = next_state(s, us[0]);
    let rest = surfaced_ids(n, us.drop_first());
    if j == 0 {
        assert(surfaces(s, us[0]) == Some(id));
        assert(surfaced_ids(s, us) == seq![id] + rest);
        assert((seq![id] + rest)[0] == id);
    } else {
        assert(!(us[0] is Done) && !ends_call(us[0], id));
        assert(!n.finished);
        assert(!n.completed.contains(id));
        assert forall|k: int| 0 <= k < j - 1 implies !(#[trigger] us.drop_first()[k] is Done)
            && !ends_call(us.drop_first()[k], id) by {
            assert(us.drop_first()[k] == us[k + 1]);
        }
        lemma_end_surfaced(n, us.drop_first(), j - 1, id);
        let r = choose|x: int| 0 <= x < rest.len() && rest[x] == id;
        match surfaces(s, us[0]) {
            Some(x) => {
                assert((seq![x] + rest)[r + 1] == id);
            },
            None => {},
        }
    }
}

/// A tool call that starts and later ends, with the prompt running until its
/// end arrives, is handed on as a tool request (the engine still runs at its
/// start) and its end exactly once, in a run from a fresh engine.
pub proof fn lemma_started_call_completes_once(
    s: EngineState,
    us: Seq<UpdateKind>,
    i: int,
    j: int,
    id: Seq<char>,
)
    requires
        !s.finished,
        s.completed == Set::<Seq<char>>::empty(),
        0 <= i < j < us.len(),
        us[i] == UpdateKind::Start(id),
        ends_call(us[j], id),
        forall|k: int| 0 <= k < j ==> !(#[trigger] us[k] is Done) && !ends_call(us[k], id),
    ensures
        !state_after(s, us.take(i)).finished,
        surfaced_ids(s, us).contains(id),
        surfaced_ids(s, us).no_duplicates(),
{
    lemma_running_until_done(s, us, i);
    lemma_end_surfaced(s, us, j, id);
    lemma_completion_at_most_once(s, us);
}

} // verus!
