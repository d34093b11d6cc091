//! Session creation: checking the requested mode against what the agent
//! offers, and the errors that creation reports.
use vstd::prelude::*;

use crate::text::{join, join_strings, str_eq};

verus! {

/// The modes that an agent advertises for a new session.
#[derive(Clone, Debug)]
pub struct SessionModeState {
    pub current_mode_id: String,
    pub available_modes: Vec<String>,
}

/// Why a session could not be created.
#[derive(Clone, Debug)]
pub enum SessionError {
    /// The agent refused `session/new`.
    NewSessionFailed(String),
    /// A mode was requested and the agent advertised none.
    ModesNotAdvertised,
    /// The requested mode is not among those offered.
    ModeNotOffered { requested: String, available: Vec<String> },
    /// The agent refused `session/set_mode`.
    SetModeRejected(String),
}

pub open spec fn views(v: Seq<String>) -> Seq<Seq<char>> {
    v.map_values(|s: String| s@)
}

impl SessionError {
    pub open spec fn message_view(self) -> Seq<char> {
        match self {
            SessionError::NewSessionFailed(e) => "ACP session/new failed: "@ + e@,
            SessionError::ModesNotAdvertised => "ACP agent did not advertise SessionModeState"@,
            SessionError::ModeNotOffered { requested, available } => "Requested mode '"@
                + requested@ + "' not offered by agent. Available modes: "@ + join(
                views(available@),
                ", "@,
            ),
            SessionError::SetModeRejected(e) => "ACP agent rejected session/set_mode: "@ + e@,
        }
    }

    /// The error as a sentence; an unoffered mode names the modes offered.
    pub fn message(&self) -> (r: String)
        ensures
            r@ == self.message_view(),
    {
        match self {
            SessionError::NewSessionFailed(e) => {
                let mut s = String::from_str("ACP session/new failed: ");
                s.append(e.as_str());
                s
            },
            SessionError::ModesNotAdvertised => String::from_str(
                "ACP agent did not advertise SessionModeState",
            ),
            SessionError::ModeNotOffered { requested, available } => {
                let mut s = String::from_str("Requested mode '");
                s.append(requested.as_str());
                s.append("' not offered by agent. Available modes: ");
                let list = join_strings(available, ", ");
                s.append(list.as_str());
                s
            },
            SessionError::SetModeRejected(e) => {
                let mut s = String::from_str("ACP agent rejected session/set_mode: ");
                s.append(e.as_str());
                s
            },
        }
    }
}

/// What remains to be done for a new session's mode.
#[derive(Clone, Debug)]
pub enum ModeStep {
    /// Nothing: no mode was requested, or the session is already in it.
    Ready,
    /// Ask the agent to switch the session to this mode.
    SetMode(String),
}

fn contains_str(v: &Vec<String>, s: &String) -> (r: bool)
    ensures
        r == views(v@).contains(s@),
{
    let mut i: usize = 0;
    while i < v.len()
        invariant
            i <= v.len(),
            forall|j: int| 0 <= j < i ==> v@[j]@ != s@,
        decreases v.len() - i,
    {
        if str_eq(v[i].as_str(), s.as_str()) {
            assert(views(v@)[i as int] == s@);
            return true;
        }
        i = i + 1;
    }
    assert forall|j: int| 0 <= j < views(v@).len() implies views(v@)[j] != s@ by {
        assert(views(v@)[j] == v@[j]@);
    }
    false
}

/// Checks a requested mode against the modes that the agent advertised for a
/// new session: no request, or the current mode, needs nothing; an offered
/// mode is switched to; a request where no modes are advertised, or for a mode
/// not offered, fails, the latter naming the modes offered.
pub fn plan_session_mode(requested: &Option<String>, modes: &Option<SessionModeState>) -> (r:
    Result<ModeStep, SessionError>)
    ensures
        match requested {
            None => r matches Ok(ModeStep::Ready),
            Some(m) => match modes {
                None => r matches Err(SessionError::ModesNotAdvertised),
                Some(ms) => if ms.current_mode_id@ == m@ {
                    r matches Ok(ModeStep::Ready)
                } else if views(ms.available_modes@).contains(m@) {
                    r matches Ok(ModeStep::SetMode(x)) && x@ == m@
                } else {
                    r matches Err(SessionError::ModeNotOffered { requested: q, available: a })
                        && q@ == m@ && views(a@) == views(ms.available_modes@)
                },
            },
        },
{
    match requested {
        None => Ok(ModeStep::Ready),
        Some(m) => match modes {
            None => Err(SessionError::ModesNotAdvertised),
            Some(ms) => {
                if str_eq(ms.current_mode_id.as_str(), m.as_str()) {
                    Ok(ModeStep::Ready)
                } else if contains_str(&ms.available_modes, m) {
                    Ok(ModeStep::SetMode(m.clone()))
                } else {
                    let available = copy_strings(&ms.available_modes);
                    Err(SessionError::ModeNotOffered { requested: m.clone(), available })
                }
            },
        },
    }
}

fn copy_strings(v: &Vec<String>) -> (r: Vec<String>)
    ensures
        views(r@) == views(v@),
{
    let mut out: Vec<String> = Vec::new();
    let mut i: usize = 0;
    while i < v.len()
        invariant
            i <= v.len(),
            views(out@) == views(v@.take(i as int)),
        decreases v.len() - i,
    {
        let ghost before = out@;
        let c = v[i].clone();
        out.push(c);
        assert(views(out@) =~= views(before).push(c@));
        assert(views(v@.take(i + 1)) =~= views(v@.take(i as int)).push(v@[i as int]@));
        i = i + 1;
    }
    assert(v@.take(v.len() as int) =~= v@);
    out
}

/// A requested mode that the agent does not offer fails session creation with
/// a message that ends with the offered modes, joined by commas.
pub proof fn lemma_unoffered_mode_names_offered(requested: String, available: Vec<String>)
    ensures
        ({
            let msg = (SessionError::ModeNotOffered { requested, available }).message_view();
            let list = join(views(available@), ", "@);
            msg.len() >= list.len() && msg.subrange(msg.len() - list.len(), msg.len() as int)
                == list
        }),
{
    let e = SessionError::ModeNotOffered { requested, available };
    let list = join(views(available@), ", "@);
    let head = "Requested mode '"@ + requested@ + "' not offered by agent. Available modes: "@;
    assert(e.message_view() == head + list);
    assert((head + list).subrange(head.len() as int, (head + list).len() as int) =~= list);
}

} // verus!
