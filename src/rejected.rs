//! The tool calls whose permission was refused, and how their completion is
//! reported.
use vstd::prelude::*;

use crate::permission::{PermissionMapping, ToolCallStatus};
use crate::registry::Registry;

verus! {

/// Ids of tool calls whose permission request got a rejecting decision and
/// whose completion has not yet arrived.
pub struct RejectedSet {
    ids: Registry<()>,
}

impl RejectedSet {
    pub closed spec fn view(&self) -> Set<Seq<char>> {
        self.ids@.dom()
    }

    pub closed spec fn wf(&self) -> bool {
        self.ids.wf()
    }

    pub fn new() -> (r: Self)
        ensures
            r.wf(),
            r@ == Set::<Seq<char>>::empty(),
    {
        let r = RejectedSet { ids: Registry::new() };
        assert(r@ =~= Set::<Seq<char>>::empty());
        r
    }

    /// Whether the id is held.
    pub fn contains(&self, id: &str) -> (r: bool)
        requires
            self.wf(),
        ensures
            r == self@.contains(id@),
    {
        self.ids.contains(id)
    }

    /// Holds the id; an id already held stays held once.
    pub fn record(&mut self, id: String)
        requires
            old(self).wf(),
        ensures
            final(self).wf(),
            final(self)@ == old(self)@.insert(id@),
    {
        let ghost k = id@;
        let _ = self.ids.insert_new(id, ());
        assert(self@ =~= old(self)@.insert(k));
    }

    /// Takes the id out; says whether it was held.
    pub fn take(&mut self, id: &str) -> (r: bool)
        requires
            old(self).wf(),
        ensures
            final(self).wf(),
            r == old(self)@.contains(id@),
            final(self)@ == old(self)@.remove(id@),
    {
        let r = self.ids.remove(id);
        assert(self@ =~= old(self)@.remove(id@));
        r.is_some()
    }
}

/// Whether a completion is shown as an error: a failure always; a completion
/// only where the call was rejected and rejected calls are expected to
/// complete; any other status never.
pub open spec fn completion_is_error(
    status: ToolCallStatus,
    was_rejected: bool,
    rejected_tool_status: ToolCallStatus,
) -> bool {
    match status {
        ToolCallStatus::Failed => true,
        ToolCallStatus::Completed => was_rejected && rejected_tool_status
            == ToolCallStatus::Completed,
        _ => false,
    }
}

/// Consumes the rejection mark of a tool call whose update arrived, and says
/// whether the call is shown as an error.
pub fn tool_call_is_error(
    rejected_tool_calls: &mut RejectedSet,
    mapping: &PermissionMapping,
    tool_call_id: &str,
    status: ToolCallStatus,
) -> (r: bool)
    requires
        old(rejected_tool_calls).wf(),
    ensures
        final(rejected_tool_calls).wf(),
        final(rejected_tool_calls)@ == old(rejected_tool_calls)@.remove(tool_call_id@),
        r == completion_is_error(
            status,
            old(rejected_tool_calls)@.contains(tool_call_id@),
            mapping.rejected_tool_status,
        ),
{
    let was_rejected = rejected_tool_calls.take(tool_call_id);
    match status {
        ToolCallStatus::Failed => true,
        ToolCallStatus::Completed => was_rejected && mapping.rejected_tool_status
            == ToolCallStatus::Completed,
        _ => false,
    }
}

/// A rejection mark is consumed at most once: once a completion has taken it,
/// a second completion of the same call finds it gone, and a completed call
/// is then shown as an error only if it failed.
pub proof fn lemma_rejection_consumed_once(
    rejected: Set<Seq<char>>,
    id: Seq<char>,
    second: ToolCallStatus,
    rejected_tool_status: ToolCallStatus,
)
    ensures
        !rejected.remove(id).contains(id),
        rejected.remove(id).remove(id) == rejected.remove(id),
        completion_is_error(second, rejected.remove(id).contains(id), rejected_tool_status)
            == (second == ToolCallStatus::Failed),
{
    assert(rejected.remove(id).remove(id) =~= rejected.remove(id));
}

} // verus!
