//! What holds of the index ranges of a frame's draw calls.
//!
//! The calls of a frame that dispatches cut the indices that its commands
//! consume into consecutive, non-empty ranges, one for each command that has
//! elements, in list order. A command without elements leaves no trace.

use vstd::prelude::*;
use crate::dispatch::{
    calls_before, dispatch_spec, dispatchable_before, elements_before, is_visible, outcome_at,
    total_elements, DispatchError, DrawCall, DrawCommand, Limits,
};
use crate::scissor::{scissor_spec, Viewport};

verus! {

/// The ranges of `calls` are non-empty, the first starts at index 0, each
/// other starts where the one before it ends, and the last ends at `total`.
pub open spec fn is_chain(calls: Seq<DrawCall>, total: nat) -> bool {
    &&& forall|k: int|
        0 <= k < calls.len() ==> (#[trigger] calls[k]).first_index < calls[k].end_index
    &&& calls.len() > 0 ==> calls[0].first_index == 0
    &&& forall|j: int, k: int|
        0 <= j && j + 1 == k && k < calls.len() ==> (#[trigger] calls[j]).end_index
            == (#[trigger] calls[k]).first_index
    &&& if calls.len() == 0 {
        total == 0
    } else {
        calls.last().end_index == total
    }
}

/// Index `e` lies in the range of `call`.
pub open spec fn draws(call: DrawCall, e: int) -> bool {
    call.first_index <= e < call.end_index
}

/// Some call of `calls` draws index `e`.
pub open spec fn drawn_by(calls: Seq<DrawCall>, e: int) -> bool {
    exists|k: int| 0 <= k < calls.len() && draws(#[trigger] calls[k], e)
}

/// The commands with elements among the first `n`, in list order.
pub open spec fn visible_before(commands: Seq<DrawCommand>, n: int) -> Seq<DrawCommand> {
    commands.take(n).filter(|c: DrawCommand| is_visible(c))
}

/// `call` draws `command` from some cursor on: as many indices as the command
/// has elements, with the command's texture and the scissor of its clip
/// rectangle.
pub open spec fn call_draws_command(
    call: DrawCall,
    command: DrawCommand,
    viewport: Viewport,
) -> bool {
    &&& call.end_index - call.first_index == command.elem_count
    &&& call.texture + 1 == command.texture.id
    &&& call.scissor == scissor_spec(command.clip_rect, viewport)
}

/// The calls of the first `n` commands form a chain that ends at the number
/// of indices which those commands consume.
pub proof fn lemma_calls_chain(
    commands: Seq<DrawCommand>,
    n: int,
    limits: Limits,
    viewport: Viewport,
)
    requires
        0 <= n <= commands.len(),
        dispatchable_before(commands, n, limits, viewport),
    ensures
        is_chain(calls_before(commands, n, limits, viewport), elements_before(commands, n)),
        elements_before(commands, n) <= limits.index_capacity,
    decreases n,
{
    if n > 0 {
        lemma_calls_chain(commands, n - 1, limits, viewport);
        assert(outcome_at(commands, n - 1, limits, viewport) is Ok);
        let before = calls_before(commands, n - 1, limits, viewport);
        let calls = calls_before(commands, n, limits, viewport);
        if let Ok(Some(call)) = outcome_at(commands, n - 1, limits, viewport) {
            assert(calls == before.push(call));
            assert forall|j: int, k: int| 0 <= j && j + 1 == k && k < calls.len() implies (
            #[trigger] calls[j]).end_index == (#[trigger] calls[k]).first_index by {
                if k < before.len() {
                    assert(before[j].end_index == before[k].first_index);
                }
            }
            assert forall|k: int| 0 <= k < calls.len() implies (#[trigger] calls[k]).first_index
                < calls[k].end_index by {
                if k < before.len() {
                    assert(before[k].first_index < before[k].end_index);
                }
            }
        }
    }
}

/// In a chain the ranges follow each other: a later call starts no earlier
/// than an earlier call ends.
pub proof fn lemma_chain_ordered(calls: Seq<DrawCall>, total: nat, j: int, k: int)
    requires
        is_chain(calls, total),
        0 <= j < k < calls.len(),
    ensures
        calls[j].end_index <= calls[k].first_index,
    decreases k - j,
{
    if j + 1 < k {
        lemma_chain_ordered(calls, total, j, k - 1);
        assert(calls[k - 1].first_index < calls[k - 1].end_index);
    }
    assert(calls[k - 1].end_index == calls[k].first_index);
}

/// In a chain every range lies below the total.
pub proof fn lemma_chain_bounded(calls: Seq<DrawCall>, total: nat, k: int)
    requires
        is_chain(calls, total),
        0 <= k < calls.len(),
    ensures
        calls[k].end_index <= total,
{
    if k + 1 < calls.len() {
        lemma_chain_ordered(calls, total, k, calls.len() - 1);
        assert(calls[calls.len() - 1].first_index < calls[calls.len() - 1].end_index);
    }
}

/// Finds the call of a chain that draws index `e`, among the calls up to `k`.
proof fn chain_find(calls: Seq<DrawCall>, total: nat, e: int, k: int) -> (found: int)
    requires
        is_chain(calls, total),
        0 <= k < calls.len(),
        0 <= e < calls[k].end_index,
    ensures
        0 <= found <= k,
        draws(calls[found], e),
    decreases k,
{
    if calls[k].first_index <= e {
        k
    } else {
        assert(calls[k - 1].end_index == calls[k].first_index);
        chain_find(calls, total, e, k - 1)
    }
}

/// A chain cuts the indices below its total into disjoint ranges that leave
/// no gap: each index below the total is drawn by exactly one call, and no
/// call draws an index at or above the total.
pub proof fn lemma_chain_partitions(calls: Seq<DrawCall>, total: nat)
    requires
        is_chain(calls, total),
    ensures
        forall|e: int| 0 <= e < total <==> #[trigger] drawn_by(calls, e),
        forall|j: int, k: int, e: int|
            0 <= j < calls.len() && 0 <= k < calls.len() && #[trigger] draws(calls[j], e)
                && #[trigger] draws(calls[k], e) ==> j == k,
        forall|j: int, k: int|
            0 <= j < k < calls.len() ==> (#[trigger] calls[j]).end_index
                <= (#[trigger] calls[k]).first_index,
{
    assert forall|e: int| 0 <= e < total implies #[trigger] drawn_by(calls, e) by {
        let found = chain_find(calls, total, e, calls.len() - 1);
        assert(0 <= found < calls.len() && draws(calls[found], e));
    }
    assert forall|e: int| #[trigger] drawn_by(calls, e) implies 0 <= e < total by {
        let k = choose|k: int| 0 <= k < calls.len() && draws(#[trigger] calls[k], e);
        lemma_chain_bounded(calls, total, k);
    }
    assert forall|j: int, k: int| 0 <= j < k < calls.len() implies (#[trigger] calls[j]).end_index
        <= (#[trigger] calls[k]).first_index by {
        lemma_chain_ordered(calls, total, j, k);
    }
    assert forall|j: int, k: int, e: int|
        0 <= j < calls.len() && 0 <= k < calls.len() && #[trigger] draws(calls[j], e)
            && #[trigger] draws(calls[k], e) implies j == k by {
        if j < k {
            lemma_chain_ordered(calls, total, j, k);
        }
        if k < j {
            lemma_chain_ordered(calls, total, k, j);
        }
    }
}

/// The calls follow the commands: there is one call for each command with
/// elements, in list order, and it draws that command.
pub proof fn lemma_calls_follow_commands(
    commands: Seq<DrawCommand>,
    n: int,
    limits: Limits,
    viewport: Viewport,
)
    requires
        0 <= n <= commands.len(),
        dispatchable_before(commands, n, limits, viewport),
    ensures
        calls_before(commands, n, limits, viewport).len() == visible_before(commands, n).len(),
        forall|k: int|
            0 <= k < visible_before(commands, n).len() ==> call_draws_command(
                #[trigger] calls_before(commands, n, limits, viewport)[k],
                visible_before(commands, n)[k],
                viewport,
            ),
    decreases n,
{
    reveal(Seq::filter);
    if n > 0 {
        lemma_calls_follow_commands(commands, n - 1, limits, viewport);
        assert(outcome_at(commands, n - 1, limits, viewport) is Ok);
        assert(commands.take(n).drop_last() =~= commands.take(n - 1));
        assert(commands.take(n).last() == commands[n - 1]);
    }
}

/// The index ranges of a frame that dispatches are disjoint, follow each
/// other without a gap in the order of the command list, and cover exactly
/// the indices that the commands consume together.
pub proof fn lemma_dispatch_partitions(
    commands: Seq<DrawCommand>,
    limits: Limits,
    viewport: Viewport,
)
    requires
        dispatch_spec(commands, limits, viewport) is Ok,
    ensures
        ({
            let calls = dispatch_spec(commands, limits, viewport)->Ok_0;
            let visible = visible_before(commands, commands.len() as int);
            let total = total_elements(commands);
            &&& is_chain(calls, total)
            &&& total <= limits.index_capacity
            &&& calls.len() == visible.len()
            &&& forall|k: int|
                0 <= k < calls.len() ==> call_draws_command(
                    #[trigger] calls[k],
                    visible[k],
                    viewport,
                )
            &&& forall|j: int, k: int|
                0 <= j < k < calls.len() ==> (#[trigger] calls[j]).end_index
                    <= (#[trigger] calls[k]).first_index
            &&& forall|e: int| 0 <= e < total <==> #[trigger] drawn_by(calls, e)
            &&& forall|j: int, k: int, e: int|
                0 <= j < calls.len() && 0 <= k < calls.len() && #[trigger] draws(calls[j], e)
                    && #[trigger] draws(calls[k], e) ==> j == k
        }),
{
    let n = commands.len() as int;
    let calls = calls_before(commands, n, limits, viewport);
    lemma_calls_chain(commands, n, limits, viewport);
    lemma_calls_follow_commands(commands, n, limits, viewport);
    lemma_chain_partitions(calls, total_elements(commands));
}

/// A command without elements that comes after the first `n` commands adds
/// no call and leaves the index cursor where it is.
pub proof fn lemma_empty_command_step(
    commands: Seq<DrawCommand>,
    n: int,
    limits: Limits,
    viewport: Viewport,
)
    requires
        0 <= n < commands.len(),
        !is_visible(commands[n]),
    ensures
        outcome_at(commands, n, limits, viewport) == Ok::<Option<DrawCall>, DispatchError>(None),
        calls_before(commands, n + 1, limits, viewport) == calls_before(
            commands,
            n,
            limits,
            viewport,
        ),
        elements_before(commands, n + 1) == elements_before(commands, n),
{
}

/// The indices consumed before a position do not depend on the commands
/// from that position on.
proof fn lemma_elements_before_prefix(a: Seq<DrawCommand>, b: Seq<DrawCommand>, n: int)
    requires
        0 <= n <= a.len(),
        n <= b.len(),
        forall|i: int| 0 <= i < n ==> a[i] == b[i],
    ensures
        elements_before(a, n) == elements_before(b, n),
    decreases n,
{
    if n > 0 {
        lemma_elements_before_prefix(a, b, n - 1);
    }
}

/// With a command without elements inserted at position `k`, the commands
/// consume the same indices as without it.
proof fn lemma_elements_before_insert(
    commands: Seq<DrawCommand>,
    k: int,
    command: DrawCommand,
    n: int,
)
    requires
        0 <= k <= commands.len(),
        !is_visible(command),
        k < n <= commands.len() + 1,
    ensures
        elements_before(commands.insert(k, command), n) == elements_before(commands, n - 1),
    decreases n,
{
    let inserted = commands.insert(k, command);
    if n == k + 1 {
        lemma_elements_before_prefix(inserted, commands, k);
        assert(inserted[k] == command);
    } else {
        lemma_elements_before_insert(commands, k, command, n - 1);
        assert(inserted[n - 1] == commands[n - 2]);
    }
}

/// The first `n` commands dispatch exactly when the first `n - 1` do and the
/// command after them does not fail.
proof fn lemma_dispatchable_step(
    commands: Seq<DrawCommand>,
    n: int,
    limits: Limits,
    viewport: Viewport,
)
    requires
        n > 0,
    ensures
        dispatchable_before(commands, n, limits, viewport) <==> dispatchable_before(
            commands,
            n - 1,
            limits,
            viewport,
        ) && outcome_at(commands, n - 1, limits, viewport) is Ok,
{
    if dispatchable_before(commands, n, limits, viewport) {
        assert(outcome_at(commands, n - 1, limits, viewport) is Ok);
    }
}

/// Whether the first `n` commands dispatch, and to which calls, does not
/// depend on the commands from position `n` on.
proof fn lemma_dispatch_prefix(
    a: Seq<DrawCommand>,
    b: Seq<DrawCommand>,
    n: int,
    limits: Limits,
    viewport: Viewport,
)
    requires
        0 <= n <= a.len(),
        n <= b.len(),
        forall|i: int| 0 <= i < n ==> a[i] == b[i],
    ensures
        calls_before(a, n, limits, viewport) == calls_before(b, n, limits, viewport),
        dispatchable_before(a, n, limits, viewport) <==> dispatchable_before(
            b,
            n,
            limits,
            viewport,
        ),
    decreases n,
{
    if n > 0 {
        lemma_dispatch_prefix(a, b, n - 1, limits, viewport);
        lemma_elements_before_prefix(a, b, n - 1);
        assert(outcome_at(a, n - 1, limits, viewport) == outcome_at(b, n - 1, limits, viewport));
        lemma_dispatchable_step(a, n, limits, viewport);
        lemma_dispatchable_step(b, n, limits, viewport);
    }
}

/// A command that follows an inserted command without elements is drawn as
/// it is without the insertion.
proof fn lemma_outcome_after_insert(
    commands: Seq<DrawCommand>,
    k: int,
    command: DrawCommand,
    limits: Limits,
    viewport: Viewport,
    i: int,
)
    requires
        0 <= k <= commands.len(),
        !is_visible(command),
        k < i <= commands.len(),
    ensures
        outcome_at(commands.insert(k, command), i, limits, viewport) is Ok <==> outcome_at(
            commands,
            i - 1,
            limits,
            viewport,
        ) is Ok,
        outcome_at(commands, i - 1, limits, viewport) matches Ok(call) ==> outcome_at(
            commands.insert(k, command),
            i,
            limits,
            viewport,
        ) == Ok::<Option<DrawCall>, DispatchError>(call),
{
    let inserted = commands.insert(k, command);
    assert(inserted[i] == commands[i - 1]);
    if i == k + 1 {
        lemma_elements_before_prefix(inserted, commands, k);
    } else {
        lemma_elements_before_insert(commands, k, command, i);
    }
}

/// With a command without elements inserted at position `k`, the first
/// `n + 1` commands dispatch exactly when the first `n` do without it, and to
/// the same calls.
proof fn lemma_insert_empty_before(
    commands: Seq<DrawCommand>,
    k: int,
    command: DrawCommand,
    limits: Limits,
    viewport: Viewport,
    n: int,
)
    requires
        0 <= k <= n <= commands.len(),
        !is_visible(command),
    ensures
        dispatchable_before(commands.insert(k, command), n + 1, limits, viewport)
            <==> dispatchable_before(commands, n, limits, viewport),
        calls_before(commands.insert(k, command), n + 1, limits, viewport) == calls_before(
            commands,
            n,
            limits,
            viewport,
        ),
    decreases n,
{
    let inserted = commands.insert(k, command);
    lemma_dispatchable_step(inserted, n + 1, limits, viewport);
    if n == k {
        lemma_dispatch_prefix(inserted, commands, k, limits, viewport);
        assert(inserted[k] == command);
        assert(outcome_at(inserted, k, limits, viewport) == Ok::<Option<DrawCall>, DispatchError>(
            None,
        ));
    } else {
        lemma_insert_empty_before(commands, k, command, limits, viewport, n - 1);
        lemma_outcome_after_insert(commands, k, command, limits, viewport, n);
        lemma_dispatchable_step(commands, n, limits, viewport);
    }
}

/// A command without elements leaves no trace: with one inserted anywhere in
/// the list, the commands consume the same indices, and the frame dispatches
/// exactly when it does without it, and to the same calls.
pub proof fn lemma_empty_command_is_skipped(
    commands: Seq<DrawCommand>,
    k: int,
    command: DrawCommand,
    limits: Limits,
    viewport: Viewport,
)
    requires
        0 <= k <= commands.len(),
        !is_visible(command),
    ensures
        total_elements(commands.insert(k, command)) == total_elements(commands),
        dispatch_spec(commands.insert(k, command), limits, viewport) is Ok <==> dispatch_spec(
            commands,
            limits,
            viewport,
        ) is Ok,
        dispatch_spec(commands, limits, viewport) matches Ok(calls) ==> dispatch_spec(
            commands.insert(k, command),
            limits,
            viewport,
        ) == Ok::<Seq<DrawCall>, DispatchError>(calls),
{
    lemma_elements_before_insert(commands, k, command, commands.len() as int + 1);
    lemma_insert_empty_before(commands, k, command, limits, viewport, commands.len() as int);
}

} // verus!
