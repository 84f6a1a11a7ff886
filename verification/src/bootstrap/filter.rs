//! The conversation turns of a session.

use crate::time::Timestamp;
use vstd::prelude::*;

verus! {

/// One call of a tool, with what it was given and what it gave back.
#[derive(Debug, Clone)]
pub struct ToolCallRecord {
    pub tool_name: String,
    pub input: serde_json::Value,
    pub stdout: Option<String>,
    pub stderr: Option<String>,
    pub is_error: bool,
    pub interrupted: bool,
}

/// One exchange: what the user said, what the assistant answered, and the tools
/// it called meanwhile.
#[derive(Debug, Clone)]
pub struct ConversationTurn {
    pub timestamp: Timestamp,
    pub user_text: String,
    pub assistant_text: String,
    pub tool_calls: Vec<ToolCallRecord>,
    pub uuid: String,
}

/// The tool calls of all turns, in order.
pub open spec fn tool_calls(turns: Seq<ConversationTurn>) -> Seq<ToolCallRecord>
    decreases turns.len(),
{
    if turns.len() == 0 {
        Seq::empty()
    } else {
        tool_calls(turns.drop_last()) + turns.last().tool_calls@
    }
}

/// The tool calls of all turns, in order.
pub fn flatten_tool_calls(turns: &[ConversationTurn]) -> (r: Vec<&ToolCallRecord>)
    ensures
        r@.len() == tool_calls(turns@).len(),
        forall|k: int| 0 <= k < r@.len() ==> *#[trigger] r@[k] == tool_calls(turns@)[k],
{
    let mut out: Vec<&ToolCallRecord> = Vec::new();
    let mut i: usize = 0;
    assert(turns@.take(0) =~= Seq::<ConversationTurn>::empty());
    while i < turns.len()
        invariant
            i <= turns@.len(),
            out@.len() == tool_calls(turns@.take(i as int)).len(),
            forall|k: int|
                0 <= k < out@.len() ==> *#[trigger] out@[k] == tool_calls(
                    turns@.take(i as int),
                )[k],
        decreases turns@.len() - i,
    {
        let ghost before = tool_calls(turns@.take(i as int));
        let calls = &turns[i].tool_calls;
        let mut j: usize = 0;
        while j < calls.len()
            invariant
                j <= calls@.len(),
                out@.len() == before.len() + j,
                forall|k: int|
                    0 <= k < out@.len() ==> *#[trigger] out@[k] == (before + calls@)[k],
            decreases calls@.len() - j,
        {
            out.push(&calls[j]);
            j = j + 1;
        }
        assert(turns@.take(i + 1).drop_last() =~= turns@.take(i as int));
        assert(tool_calls(turns@.take(i + 1)) =~= before + calls@);
        i = i + 1;
    }
    assert(turns@.take(turns@.len() as int) =~= turns@);
    out
}

/// The tool calls of turns are those of the earlier turns, followed by those of the
/// later ones; the tool calls of one turn are the ones that it lists.
pub proof fn tool_calls_follow_the_turns(
    earlier: Seq<ConversationTurn>,
    later: Seq<ConversationTurn>,
    turn: ConversationTurn,
)
    ensures
        tool_calls(earlier + later) == tool_calls(earlier) + tool_calls(later),
        tool_calls(seq![turn]) == turn.tool_calls@,
        tool_calls(Seq::<ConversationTurn>::empty()).len() == 0,
    decreases later.len(),
{
    assert(seq![turn].drop_last() =~= Seq::<ConversationTurn>::empty());
    reveal_with_fuel(tool_calls, 2);
    assert(tool_calls(seq![turn]) =~= turn.tool_calls@);
    if later.len() == 0 {
        assert(earlier + later =~= earlier);
        assert(tool_calls(earlier) + tool_calls(later) =~= tool_calls(earlier));
    } else {
        tool_calls_follow_the_turns(earlier, later.drop_last(), turn);
        assert((earlier + later).drop_last() =~= earlier + later.drop_last());
        assert((earlier + later).last() == later.last());
        assert(tool_calls(earlier + later) =~= tool_calls(earlier) + tool_calls(later));
    }
}

/// Every tool call of every turn is listed, and nothing else: the list has a call
/// just when some turn has it.
pub proof fn every_tool_call_is_listed(
    turns: &[ConversationTurn],
    listed: Vec<&ToolCallRecord>,
    call: ToolCallRecord,
)
    requires
        call_ensures(flatten_tool_calls, (turns,), listed),
    ensures
        (exists|k: int| 0 <= k < listed@.len() && *#[trigger] listed@[k] == call) <==> (exists|
            i: int,
            j: int,
        |
            0 <= i < turns@.len() && 0 <= j < turns@[i].tool_calls@.len()
                && #[trigger] turns@[i].tool_calls@[j] == call),
{
    let all = tool_calls(turns@);
    lemma_has_call(turns@, call);
    if exists|k: int| 0 <= k < listed@.len() && *#[trigger] listed@[k] == call {
        let k = choose|k: int| 0 <= k < listed@.len() && *#[trigger] listed@[k] == call;
        assert(all[k] == call);
        assert(all.contains(call));
    }
    if all.contains(call) {
        let k = choose|k: int| 0 <= k < all.len() && all[k] == call;
        assert(*listed@[k] == call);
    }
}

/// A tool call is among those of the turns just when some turn has it.
pub(crate) proof fn lemma_has_call(turns: Seq<ConversationTurn>, call: ToolCallRecord)
    ensures
        tool_calls(turns).contains(call) <==> (exists|i: int, j: int|
            0 <= i < turns.len() && 0 <= j < turns[i].tool_calls@.len()
                && #[trigger] turns[i].tool_calls@[j] == call),
    decreases turns.len(),
{
    if turns.len() > 0 {
        let front = turns.drop_last();
        let before = tool_calls(front);
        let own = turns.last().tool_calls@;
        let all = before + own;
        let n = turns.len() - 1;
        lemma_has_call(front, call);
        if all.contains(call) {
            let k = choose|k: int| 0 <= k < all.len() && all[k] == call;
            if k < before.len() {
                assert(before[k] == call);
                assert(before.contains(call));
                let (i, j) = choose|i: int, j: int|
                    0 <= i < front.len() && 0 <= j < front[i].tool_calls@.len()
                        && #[trigger] front[i].tool_calls@[j] == call;
                assert(turns[i].tool_calls@[j] == call);
            } else {
                assert(turns[n].tool_calls@[k - before.len()] == call);
            }
        }
        if exists|i: int, j: int|
            0 <= i < turns.len() && 0 <= j < turns[i].tool_calls@.len()
                && #[trigger] turns[i].tool_calls@[j] == call {
            let (i, j) = choose|i: int, j: int|
                0 <= i < turns.len() && 0 <= j < turns[i].tool_calls@.len()
                    && #[trigger] turns[i].tool_calls@[j] == call;
            if i < n {
                assert(front[i].tool_calls@[j] == call);
                let k = choose|k: int| 0 <= k < before.len() && before[k] == call;
                assert(all[k] == call);
            } else {
                assert(all[before.len() + j] == call);
            }
        }
    }
}

} // verus!
