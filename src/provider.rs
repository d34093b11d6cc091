//! The provider's own bookkeeping around prompts: which sessions it knows, how
//! a whole reply is gathered, and how the HTTP endpoints answer.
use vstd::prelude::*;

use crate::message::{Message, MessageContent, Role};
use crate::registry::{inserted_new, Registry};

verus! {

/// An error that a prompt reports to its caller.
#[derive(Clone, Debug)]
pub enum ProviderError {
    RequestFailed(String),
}

impl ProviderError {
    pub open spec fn message_view(self) -> Seq<char> {
        match self {
            ProviderError::RequestFailed(m) => m@,
        }
    }

    pub fn message(&self) -> (r: String)
        ensures
            r@ == self.message_view(),
    {
        match self {
            ProviderError::RequestFailed(m) => m.clone(),
        }
    }
}

/// The id of a session that the provider created; a missing id, or one it
/// did not create, is refused, since sessions are not resumed.
pub fn ensure_session<'a, V>(sessions: &Registry<V>, session_id: Option<&'a str>) -> (r: Result<
    &'a str,
    ProviderError,
>)
    requires
        sessions.wf(),
    ensures
        match session_id {
            None => r matches Err(e) && e.message_view() == "ACP session_id is required"@,
            Some(id) => if sessions@.contains_key(id@) {
                r == Ok::<&'a str, ProviderError>(id)
            } else {
                r matches Err(e) && e.message_view() == "ACP session '"@ + id@
                    + "' not found; resume is not supported"@
            },
        },
{
    match session_id {
        None => Err(ProviderError::RequestFailed(String::from_str("ACP session_id is required"))),
        Some(id) => {
            if sessions.contains(id) {
                Ok(id)
            } else {
                let mut m = String::from_str("ACP session '");
                m.append(id);
                m.append("' not found; resume is not supported");
                Err(ProviderError::RequestFailed(m))
            }
        },
    }
}

/// All the pieces of a run of messages, in order.
pub open spec fn all_content(messages: Seq<Message>) -> Seq<MessageContent>
    decreases messages.len(),
{
    if messages.len() == 0 {
        Seq::empty()
    } else {
        messages[0].content@ + all_content(messages.drop_first())
    }
}

/// Gathers the messages of a prompt's stream into one assistant message; a
/// stream that handed on nothing fails.
pub fn collect_reply(messages: Vec<Message>) -> (r: Result<Message, ProviderError>)
    ensures
        all_content(messages@).len() == 0 ==> (r matches Err(e) && e.message_view()
            == "No response received from ACP agent"@),
        all_content(messages@).len() > 0 ==> (r matches Ok(m) && m.role == Role::Assistant
            && m.agent_visible && m.user_visible && m.content@ == all_content(messages@)),
{
    let mut rest = messages;
    let mut content: Vec<MessageContent> = Vec::new();
    while rest.len() > 0
        invariant
            content@ + all_content(rest@) == all_content(messages@),
        decreases rest.len(),
    {
        let ghost before = rest@;
        let mut m = rest.remove(0);
        assert(before.drop_first() =~= rest@);
        let ghost c = content@;
        content.append(&mut m.content);
        assert(c + before[0].content@ + all_content(rest@) =~= c + (before[0].content@
            + all_content(rest@)));
    }
    assert(content@ + Seq::<MessageContent>::empty() =~= content@);
    if content.len() == 0 {
        return Err(
            ProviderError::RequestFailed(String::from_str("No response received from ACP agent")),
        );
    }
    Ok(Message { role: Role::Assistant, agent_visible: true, user_visible: true, content })
}

/// The status with which the HTTP endpoint answers a posted message: not found
/// for an unknown session, accepted where the message was queued for the
/// agent, an internal error where the agent's queue is closed.
pub fn post_message_status(session_known: bool, queued: bool) -> (r: u16)
    ensures
        !session_known ==> r == 404,
        session_known && queued ==> r == 202,
        session_known && !queued ==> r == 500,
{
    if !session_known {
        404
    } else if queued {
        202
    } else {
        500
    }
}

/// A session that `insert_new` put in the table stays known to
/// `ensure_session`, whatever sessions `insert_new` adds after it, so prompts
/// on it are not refused as unknown.
pub proof fn lemma_created_session_known<V>(
    sessions: Map<Seq<char>, V>,
    id: Seq<char>,
    v: V,
    later: Seq<(Seq<char>, V)>,
)
    ensures
        later.fold_left(
            inserted_new(sessions, id, v),
            |m: Map<Seq<char>, V>, e: (Seq<char>, V)| inserted_new(m, e.0, e.1),
        ).contains_key(id),
    decreases later.len(),
{
    let f = |m: Map<Seq<char>, V>, e: (Seq<char>, V)| inserted_new(m, e.0, e.1);
    if later.len() > 0 {
        lemma_created_session_known(sessions, id, v, later.drop_last());
        assert(later.fold_left(inserted_new(sessions, id, v), f) == f(
            later.drop_last().fold_left(inserted_new(sessions, id, v), f),
            later.last(),
        ));
    }
}

/// A session that `insert_new` created, and that `remove` took out when its
/// event stream closed, is no longer in the table, and every other session is
/// as it was.
pub proof fn lemma_closed_stream_removes_session<V>(sessions: Map<Seq<char>, V>, id: Seq<char>, v: V)
    requires
        !sessions.contains_key(id),
    ensures
        !inserted_new(sessions, id, v).remove(id).contains_key(id),
        inserted_new(sessions, id, v).remove(id) == sessions,
{
    assert(inserted_new(sessions, id, v).remove(id) =~= sessions);
}

} // verus!
