//! Permission modes, decisions and the reply sent back to the agent.
use vstd::prelude::*;

use crate::schema::{PermissionOption, PermissionOptionKind, PermissionOutcome, PermissionRequest};

verus! {

/// The session-level policy that decides whether permissions are asked for.
#[derive(Clone, Copy, Debug, PartialEq, Eq, Structural)]
pub enum GooseMode {
    Auto,
    Approve,
    SmartApprove,
    Chat,
}

/// What the user answered to a permission question.
#[derive(Clone, Copy, Debug, PartialEq, Eq, Structural)]
pub enum Permission {
    AlwaysAllow,
    AllowOnce,
    Cancel,
    DenyOnce,
    AlwaysDeny,
}

/// Who the user's answer applies to.
#[derive(Clone, Copy, Debug, PartialEq, Eq, Structural)]
pub enum PrincipalType {
    Extension,
    Tool,
}

/// A user's answer to a permission question.
#[derive(Clone, Copy, Debug, PartialEq, Eq, Structural)]
pub struct PermissionConfirmation {
    pub principal_type: PrincipalType,
    pub permission: Permission,
}

/// The decision taken on a permission request of the agent.
#[derive(Clone, Copy, Debug, PartialEq, Eq, Structural)]
pub enum PermissionDecision {
    AllowAlways,
    AllowOnce,
    RejectAlways,
    RejectOnce,
    Cancel,
}

/// The status an agent reports for a tool call.
#[derive(Clone, Copy, Debug, PartialEq, Eq, Structural)]
pub enum ToolCallStatus {
    Pending,
    InProgress,
    Completed,
    Failed,
}

impl ToolCallStatus {
    pub open spec fn spec_is_terminal(self) -> bool {
        self == ToolCallStatus::Completed || self == ToolCallStatus::Failed
    }

    /// Completed and Failed end a tool call's lifecycle.
    pub fn is_terminal(&self) -> (r: bool)
        ensures
            r == self.spec_is_terminal(),
    {
        match self {
            ToolCallStatus::Completed | ToolCallStatus::Failed => true,
            _ => false,
        }
    }
}

impl PermissionDecision {
    pub open spec fn is_rejecting(self) -> bool {
        match self {
            PermissionDecision::RejectAlways
            | PermissionDecision::RejectOnce
            | PermissionDecision::Cancel => true,
            _ => false,
        }
    }

    /// A rejecting decision marks its tool call, so that a later completion of
    /// that call is reported as an error.
    pub fn should_record_rejection(&self) -> (r: bool)
        ensures
            r == self.is_rejecting(),
    {
        match self {
            PermissionDecision::RejectAlways
            | PermissionDecision::RejectOnce
            | PermissionDecision::Cancel => true,
            _ => false,
        }
    }
}

pub open spec fn decision_for_mode(mode: GooseMode) -> Option<PermissionDecision> {
    match mode {
        GooseMode::Auto => Some(PermissionDecision::AllowOnce),
        GooseMode::Chat => Some(PermissionDecision::RejectOnce),
        GooseMode::Approve | GooseMode::SmartApprove => None,
    }
}

/// The decision that a mode takes without asking anyone; `None` where the
/// user must be asked.
pub fn permission_decision_from_mode(goose_mode: GooseMode) -> (r: Option<PermissionDecision>)
    ensures
        r == decision_for_mode(goose_mode),
{
    match goose_mode {
        GooseMode::Auto => Some(PermissionDecision::AllowOnce),
        GooseMode::Chat => Some(PermissionDecision::RejectOnce),
        GooseMode::Approve | GooseMode::SmartApprove => None,
    }
}

pub open spec fn decision_for_permission(p: Permission) -> PermissionDecision {
    match p {
        Permission::AlwaysAllow => PermissionDecision::AllowAlways,
        Permission::AllowOnce => PermissionDecision::AllowOnce,
        Permission::DenyOnce => PermissionDecision::RejectOnce,
        Permission::AlwaysDeny => PermissionDecision::RejectAlways,
        Permission::Cancel => PermissionDecision::Cancel,
    }
}

/// The decision that a user's answer stands for.
pub fn permission_decision_from_confirmation(confirmation: &PermissionConfirmation) -> (r:
    PermissionDecision)
    ensures
        r == decision_for_permission(confirmation.permission),
{
    match confirmation.permission {
        Permission::AlwaysAllow => PermissionDecision::AllowAlways,
        Permission::AllowOnce => PermissionDecision::AllowOnce,
        Permission::DenyOnce => PermissionDecision::RejectOnce,
        Permission::AlwaysDeny => PermissionDecision::RejectAlways,
        Permission::Cancel => PermissionDecision::Cancel,
    }
}

} // verus!

verus! {

/// How decisions become answers to the agent, and how a rejected call that the
/// agent still reports as completed is shown.
#[derive(Clone, Debug)]
pub struct PermissionMapping {
    /// The option to select for an allowing decision where the agent offers no
    /// option of a matching kind.
    pub allow_option_id: Option<String>,
    /// The same for a rejecting decision.
    pub reject_option_id: Option<String>,
    /// The status that the agent reports for a rejected call; a completion
    /// with this status is shown as an error.
    pub rejected_tool_status: ToolCallStatus,
}

impl PermissionMapping {
    /// No configured option ids; rejected calls are expected to fail.
    pub fn default() -> (r: PermissionMapping)
        ensures
            r.allow_option_id.is_none(),
            r.reject_option_id.is_none(),
            r.rejected_tool_status == ToolCallStatus::Failed,
    {
        PermissionMapping {
            allow_option_id: None,
            reject_option_id: None,
            rejected_tool_status: ToolCallStatus::Failed,
        }
    }
}

pub open spec fn opt_string_view(o: Option<String>) -> Option<Seq<char>> {
    match o {
        Some(s) => Some(s@),
        None => None,
    }
}

pub open spec fn or_else(a: Option<Seq<char>>, b: Option<Seq<char>>) -> Option<Seq<char>> {
    if a.is_some() {
        a
    } else {
        b
    }
}

/// The id of the first offered option of the given kind.
pub open spec fn first_of_kind(options: Seq<PermissionOption>, kind: PermissionOptionKind) -> Option<
    Seq<char>,
>
    decreases options.len(),
{
    if options.len() == 0 {
        None
    } else if options[0].kind == kind {
        Some(options[0].option_id@)
    } else {
        first_of_kind(options.drop_first(), kind)
    }
}

/// The option that answers a decision: an offered option of the decision's
/// kind; for an "always" decision, else one of the matching "once" kind; else
/// the configured option id; none for a cancel.
pub open spec fn selected_option(
    options: Seq<PermissionOption>,
    mapping: PermissionMapping,
    decision: PermissionDecision,
) -> Option<Seq<char>> {
    let allow = opt_string_view(mapping.allow_option_id);
    let reject = opt_string_view(mapping.reject_option_id);
    match decision {
        PermissionDecision::AllowAlways => or_else(
            first_of_kind(options, PermissionOptionKind::AllowAlways),
            or_else(first_of_kind(options, PermissionOptionKind::AllowOnce), allow),
        ),
        PermissionDecision::AllowOnce => or_else(
            first_of_kind(options, PermissionOptionKind::AllowOnce),
            allow,
        ),
        PermissionDecision::RejectAlways => or_else(
            first_of_kind(options, PermissionOptionKind::RejectAlways),
            or_else(first_of_kind(options, PermissionOptionKind::RejectOnce), reject),
        ),
        PermissionDecision::RejectOnce => or_else(
            first_of_kind(options, PermissionOptionKind::RejectOnce),
            reject,
        ),
        PermissionDecision::Cancel => None,
    }
}

fn find_option(options: &Vec<PermissionOption>, kind: PermissionOptionKind) -> (r: Option<String>)
    ensures
        opt_string_view(r) == first_of_kind(options@, kind),
{
    let mut i: usize = 0;
    assert(options@.skip(0) =~= options@);
    while i < options.len()
        invariant
            i <= options.len(),
            first_of_kind(options@, kind) == first_of_kind(options@.skip(i as int), kind),
        decreases options.len() - i,
    {
        assert(options@.skip(i as int).drop_first() =~= options@.skip(i + 1));
        if options[i].kind == kind {
            return Some(options[i].option_id.clone());
        }
        i = i + 1;
    }
    None
}

fn copy_option(o: &Option<String>) -> (r: Option<String>)
    ensures
        opt_string_view(r) == opt_string_view(*o),
{
    match o {
        Some(s) => Some(s.clone()),
        None => None,
    }
}

/// The answer that carries a decision back to the agent.
pub fn map_permission_response(
    mapping: &PermissionMapping,
    request: &PermissionRequest,
    decision: PermissionDecision,
) -> (r: PermissionOutcome)
    ensures
        r.view_id() == selected_option(request.options@, *mapping, decision),
{
    let options = &request.options;
    let selected = match decision {
        PermissionDecision::Cancel => None,
        PermissionDecision::AllowAlways => {
            let a = find_option(options, PermissionOptionKind::AllowAlways);
            if a.is_some() {
                a
            } else {
                let b = find_option(options, PermissionOptionKind::AllowOnce);
                if b.is_some() {
                    b
                } else {
                    copy_option(&mapping.allow_option_id)
                }
            }
        },
        PermissionDecision::AllowOnce => {
            let a = find_option(options, PermissionOptionKind::AllowOnce);
            if a.is_some() {
                a
            } else {
                copy_option(&mapping.allow_option_id)
            }
        },
        PermissionDecision::RejectAlways => {
            let a = find_option(options, PermissionOptionKind::RejectAlways);
            if a.is_some() {
                a
            } else {
                let b = find_option(options, PermissionOptionKind::RejectOnce);
                if b.is_some() {
                    b
                } else {
                    copy_option(&mapping.reject_option_id)
                }
            }
        },
        PermissionDecision::RejectOnce => {
            let a = find_option(options, PermissionOptionKind::RejectOnce);
            if a.is_some() {
                a
            } else {
                copy_option(&mapping.reject_option_id)
            }
        },
    };
    match selected {
        Some(id) => PermissionOutcome::Selected(id),
        None => PermissionOutcome::Cancelled,
    }
}

} // verus!
