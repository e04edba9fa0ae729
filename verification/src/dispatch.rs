//! The draw dispatcher: from the frame's ordered command list to its draw
//! calls.
//!
//! All commands of a frame share one vertex buffer and one index buffer. The
//! converter wrote the indices of the commands one after the other, so each
//! command draws the range of indices that follows the range of the command
//! before it. A command without elements draws nothing. A command that names
//! a texture nobody registered, or that reaches past the end of the index
//! buffer, fails the frame.

use vstd::prelude::*;
use crate::ranges::{is_chain, lemma_calls_chain};
use crate::scissor::{scissor, scissor_spec, ClipRect, Scissor, Viewport};
use crate::texture::{resolve_slot, slot_of, TextureHandle};

verus! {

/// One paint operation of the toolkit: a texture, a number of indices and a
/// clip rectangle.
#[derive(Clone, Copy, Debug, PartialEq, Eq)]
pub struct DrawCommand {
    pub texture: TextureHandle,
    pub elem_count: u32,
    pub clip_rect: ClipRect,
}

/// One indexed draw call: the slot of its texture in the registry, counted
/// from zero, the half-open range of indices `first_index..end_index` that it
/// draws, and its scissor rectangle.
#[derive(Clone, Copy, Debug, PartialEq, Eq)]
pub struct DrawCall {
    pub texture: usize,
    pub first_index: usize,
    pub end_index: usize,
    pub scissor: Scissor,
}

/// Why a frame cannot be dispatched. `command` is the position of the
/// offending command in the list.
#[derive(Clone, Copy, Debug, PartialEq, Eq)]
pub enum DispatchError {
    /// The command names a texture that was never registered.
    UnknownTexture { command: usize, handle: TextureHandle },
    /// The command's indices reach past the end of the index buffer. The
    /// converter never writes such a list: it drops what the buffer cannot
    /// hold.
    IndexRangeOutOfBounds { command: usize },
}

/// What the registry and the index buffer offer to a frame.
#[derive(Clone, Copy, Debug, PartialEq, Eq)]
pub struct Limits {
    /// Number of registered textures.
    pub texture_count: usize,
    /// Number of indices that the index buffer holds.
    pub index_capacity: usize,
}

/// The number of indices that the first `n` commands consume together.
pub open spec fn elements_before(commands: Seq<DrawCommand>, n: int) -> nat
    decreases n,
{
    if n <= 0 {
        0
    } else {
        elements_before(commands, n - 1) + commands[n - 1].elem_count as nat
    }
}

/// The number of indices that all commands consume together.
pub open spec fn total_elements(commands: Seq<DrawCommand>) -> nat {
    elements_before(commands, commands.len() as int)
}

/// A command with at least one element: the only kind that is drawn.
pub open spec fn is_visible(command: DrawCommand) -> bool {
    command.elem_count > 0
}

/// The outcome of one command that finds the index cursor at `cursor`:
/// nothing for a command without elements, an error for one that cannot be
/// drawn, and else the call that draws the `elem_count` indices from `cursor`
/// on.
pub open spec fn step_spec(
    cursor: nat,
    position: nat,
    command: DrawCommand,
    limits: Limits,
    viewport: Viewport,
) -> Result<Option<DrawCall>, DispatchError> {
    if !is_visible(command) {
        Ok(None)
    } else if slot_of(command.texture, limits.texture_count as nat) is None {
        Err(DispatchError::UnknownTexture { command: position as usize, handle: command.texture })
    } else if cursor + command.elem_count > limits.index_capacity {
        Err(DispatchError::IndexRangeOutOfBounds { command: position as usize })
    } else {
        Ok(
            Some(
                DrawCall {
                    texture: (command.texture.id - 1) as usize,
                    first_index: cursor as usize,
                    end_index: (cursor + command.elem_count) as usize,
                    scissor: scissor_spec(command.clip_rect, viewport),
                },
            ),
        )
    }
}

/// The outcome of the command at position `i`, given that the commands before
/// it were dispatched.
pub open spec fn outcome_at(
    commands: Seq<DrawCommand>,
    i: int,
    limits: Limits,
    viewport: Viewport,
) -> Result<Option<DrawCall>, DispatchError> {
    step_spec(elements_before(commands, i), i as nat, commands[i], limits, viewport)
}

/// The draw calls of the first `n` commands, in list order, given that none
/// of them fails.
pub open spec fn calls_before(
    commands: Seq<DrawCommand>,
    n: int,
    limits: Limits,
    viewport: Viewport,
) -> Seq<DrawCall>
    decreases n,
{
    if n <= 0 {
        Seq::empty()
    } else {
        match outcome_at(commands, n - 1, limits, viewport) {
            Ok(Some(call)) => calls_before(commands, n - 1, limits, viewport).push(call),
            _ => calls_before(commands, n - 1, limits, viewport),
        }
    }
}

/// None of the first `n` commands fails.
pub open spec fn dispatchable_before(
    commands: Seq<DrawCommand>,
    n: int,
    limits: Limits,
    viewport: Viewport,
) -> bool {
    forall|i: int| 0 <= i < n ==> (#[trigger] outcome_at(commands, i, limits, viewport)) is Ok
}

/// The command at position `i` is the first that fails, and fails with
/// `error`.
pub open spec fn fails_first_at(
    commands: Seq<DrawCommand>,
    i: int,
    error: DispatchError,
    limits: Limits,
    viewport: Viewport,
) -> bool {
    &&& 0 <= i < commands.len()
    &&& dispatchable_before(commands, i, limits, viewport)
    &&& outcome_at(commands, i, limits, viewport) == Err::<Option<DrawCall>, DispatchError>(error)
}

/// Every call names a registered texture and draws a non-empty range of
/// indices that the index buffer holds.
pub open spec fn within_limits(calls: Seq<DrawCall>, limits: Limits) -> bool {
    forall|k: int|
        0 <= k < calls.len() ==> {
            let call = #[trigger] calls[k];
            &&& call.texture < limits.texture_count
            &&& call.first_index < call.end_index <= limits.index_capacity
        }
}

/// Every command with elements names a texture among the first
/// `texture_count` that were registered.
pub open spec fn textures_resolve(commands: Seq<DrawCommand>, texture_count: nat) -> bool {
    forall|i: int|
        0 <= i < commands.len() && is_visible(#[trigger] commands[i]) ==> slot_of(
            commands[i].texture,
            texture_count,
        ) is Some
}

/// The outcome of a frame: the draw calls of all its commands, or the error
/// of the first command that fails.
pub open spec fn dispatch_spec(
    commands: Seq<DrawCommand>,
    limits: Limits,
    viewport: Viewport,
) -> Result<Seq<DrawCall>, DispatchError> {
    if dispatchable_before(commands, commands.len() as int, limits, viewport) {
        Ok(calls_before(commands, commands.len() as int, limits, viewport))
    } else {
        let i = choose|i: int|
            0 <= i < commands.len() && dispatchable_before(commands, i, limits, viewport)
                && (#[trigger] outcome_at(commands, i, limits, viewport)) is Err;
        Err(outcome_at(commands, i, limits, viewport)->Err_0)
    }
}

/// Decides what one command draws.
///
/// `cursor` is the number of indices that the commands before this one have
/// consumed, and `position` the command's place in the list. A command
/// without elements draws nothing and leaves the cursor where it is. Any
/// other command draws the indices from `cursor` to `cursor + elem_count`,
/// and the next command finds the cursor at `end_index`.
pub fn next_call(
    cursor: usize,
    position: usize,
    command: &DrawCommand,
    limits: &Limits,
    viewport: &Viewport,
) -> (outcome: Result<Option<DrawCall>, DispatchError>)
    ensures
        outcome == step_spec(cursor as nat, position as nat, *command, *limits, *viewport),
        !is_visible(*command) ==> outcome == Ok::<Option<DrawCall>, DispatchError>(None),
        outcome matches Ok(Some(call)) ==> {
            &&& call.first_index == cursor
            &&& call.end_index == cursor + command.elem_count
            &&& call.end_index <= limits.index_capacity
            &&& call.texture < limits.texture_count
            &&& call.texture + 1 == command.texture.id
        },
{
    if command.elem_count < 1 {
        return Ok(None);
    }
    let slot: usize = match resolve_slot(command.texture, limits.texture_count) {
        Some(slot) => slot,
        None => {
            return Err(
                DispatchError::UnknownTexture { command: position, handle: command.texture },
            );
        },
    };
    let count: usize = command.elem_count as usize;
    if cursor > limits.index_capacity || count > limits.index_capacity - cursor {
        return Err(DispatchError::IndexRangeOutOfBounds { command: position });
    }
    Ok(
        Some(
            DrawCall {
                texture: slot,
                first_index: cursor,
                end_index: cursor + count,
                scissor: scissor(&command.clip_rect, viewport),
            },
        ),
    )
}

/// Turns the frame's command list into its draw calls, in paint order.
///
/// Succeeds exactly when no command fails, and then returns one call for
/// each command that has elements, in list order, each drawing the indices
/// that follow those of the call before it. Otherwise returns the error of
/// the first command that fails, and no call at all.
pub fn dispatch(commands: &Vec<DrawCommand>, limits: &Limits, viewport: &Viewport) -> (outcome:
    Result<Vec<DrawCall>, DispatchError>)
    ensures
        outcome matches Ok(calls) ==> {
            &&& dispatchable_before(commands@, commands@.len() as int, *limits, *viewport)
            &&& calls@ == calls_before(commands@, commands@.len() as int, *limits, *viewport)
        },
        outcome matches Ok(calls) ==> {
            &&& within_limits(calls@, *limits)
            &&& is_chain(calls@, total_elements(commands@))
        },
        outcome matches Err(error) ==> exists|i: int|
            fails_first_at(commands@, i, error, *limits, *viewport),
        outcome is Ok <==> dispatchable_before(
            commands@,
            commands@.len() as int,
            *limits,
            *viewport,
        ),
        match outcome {
            Ok(calls) => dispatch_spec(commands@, *limits, *viewport) == Ok::<
                Seq<DrawCall>,
                DispatchError,
            >(calls@),
            Err(error) => dispatch_spec(commands@, *limits, *viewport) == Err::<
                Seq<DrawCall>,
                DispatchError,
            >(error),
        },
{
    let mut calls: Vec<DrawCall> = Vec::new();
    let mut cursor: usize = 0;
    let mut i: usize = 0;
    while i < commands.len()
        invariant
            i <= commands@.len(),
            cursor == elements_before(commands@, i as int),
            cursor <= limits.index_capacity,
            calls@ == calls_before(commands@, i as int, *limits, *viewport),
            dispatchable_before(commands@, i as int, *limits, *viewport),
        decreases commands@.len() - i,
    {
        match next_call(cursor, i, &commands[i], limits, viewport) {
            Err(error) => {
                proof {
                    assert(fails_first_at(commands@, i as int, error, *limits, *viewport));
                    lemma_first_failure(commands@, i as int, error, *limits, *viewport);
                }
                return Err(error);
            },
            Ok(None) => {},
            Ok(Some(call)) => {
                cursor = call.end_index;
                calls.push(call);
            },
        }
        i += 1;
    }
    proof {
        lemma_calls_within_limits(commands@, commands@.len() as int, *limits, *viewport);
        lemma_calls_chain(commands@, commands@.len() as int, *limits, *viewport);
    }
    Ok(calls)
}

/// At most one command is the first to fail: where the command at `i` is,
/// the frame's outcome is its error.
pub proof fn lemma_first_failure(
    commands: Seq<DrawCommand>,
    i: int,
    error: DispatchError,
    limits: Limits,
    viewport: Viewport,
)
    requires
        fails_first_at(commands, i, error, limits, viewport),
    ensures
        !dispatchable_before(commands, commands.len() as int, limits, viewport),
        dispatch_spec(commands, limits, viewport) == Err::<Seq<DrawCall>, DispatchError>(error),
        forall|j: int, other: DispatchError|
            fails_first_at(commands, j, other, limits, viewport) ==> j == i && other == error,
{
    assert(outcome_at(commands, i, limits, viewport) is Err);
    let j = choose|j: int|
        0 <= j < commands.len() && dispatchable_before(commands, j, limits, viewport) && (
        #[trigger] outcome_at(commands, j, limits, viewport)) is Err;
    assert(j == i) by {
        if j < i {
            assert(outcome_at(commands, j, limits, viewport) is Ok);
        }
        if i < j {
            assert(outcome_at(commands, i, limits, viewport) is Ok);
        }
    }
    assert forall|k: int, other: DispatchError|
        fails_first_at(commands, k, other, limits, viewport) implies k == i && other == error by {
        if k < i {
            assert(outcome_at(commands, k, limits, viewport) is Ok);
        }
        if i < k {
            assert(outcome_at(commands, i, limits, viewport) is Ok);
        }
    }
}

/// A command with elements that names a texture nobody registered fails the
/// frame, wherever it stands in the list: no call is made for any command.
pub proof fn lemma_unknown_texture_fails(
    commands: Seq<DrawCommand>,
    i: int,
    limits: Limits,
    viewport: Viewport,
)
    requires
        0 <= i < commands.len(),
        is_visible(commands[i]),
        slot_of(commands[i].texture, limits.texture_count as nat) is None,
    ensures
        dispatch_spec(commands, limits, viewport) is Err,
        outcome_at(commands, i, limits, viewport) == Err::<Option<DrawCall>, DispatchError>(
            DispatchError::UnknownTexture { command: i as usize, handle: commands[i].texture },
        ),
{
    assert(outcome_at(commands, i, limits, viewport) is Err);
}

/// Every call of a frame that dispatches names a registered texture and
/// draws indices that the index buffer holds.
pub proof fn lemma_calls_within_limits(
    commands: Seq<DrawCommand>,
    n: int,
    limits: Limits,
    viewport: Viewport,
)
    requires
        0 <= n <= commands.len(),
        dispatchable_before(commands, n, limits, viewport),
    ensures
        within_limits(calls_before(commands, n, limits, viewport), limits),
    decreases n,
{
    if n > 0 {
        lemma_calls_within_limits(commands, n - 1, limits, viewport);
        assert(outcome_at(commands, n - 1, limits, viewport) is Ok);
        let before = calls_before(commands, n - 1, limits, viewport);
        let calls = calls_before(commands, n, limits, viewport);
        assert forall|k: int| 0 <= k < calls.len() implies {
            let call = #[trigger] calls[k];
            &&& call.texture < limits.texture_count
            &&& call.first_index < call.end_index <= limits.index_capacity
        } by {
            if k < before.len() {
                assert(calls[k] == before[k]);
            }
        }
    }
}

/// The first commands of a list consume no more indices than a longer run of
/// its first commands.
pub proof fn lemma_elements_monotone(commands: Seq<DrawCommand>, i: int, n: int)
    requires
        i <= n,
    ensures
        elements_before(commands, i) <= elements_before(commands, n),
    decreases n - i,
{
    if i < n {
        lemma_elements_monotone(commands, i, n - 1);
    }
}

/// Where some of the first `n` commands fails, one of them is the first to
/// fail.
pub proof fn lemma_first_failure_exists(
    commands: Seq<DrawCommand>,
    n: int,
    limits: Limits,
    viewport: Viewport,
)
    requires
        !dispatchable_before(commands, n, limits, viewport),
    ensures
        exists|i: int|
            0 <= i < n && dispatchable_before(commands, i, limits, viewport) && (
            #[trigger] outcome_at(commands, i, limits, viewport)) is Err,
    decreases n,
{
    if n > 0 {
        if dispatchable_before(commands, n - 1, limits, viewport) {
            assert(outcome_at(commands, n - 1, limits, viewport) is Err);
        } else {
            lemma_first_failure_exists(commands, n - 1, limits, viewport);
        }
    }
}

/// Commands whose elements fit the index buffer together can fail a frame
/// only over a texture: the frame dispatches exactly when every command with
/// elements names a registered texture.
pub proof fn lemma_fitting_commands(
    commands: Seq<DrawCommand>,
    limits: Limits,
    viewport: Viewport,
)
    requires
        total_elements(commands) <= limits.index_capacity,
    ensures
        dispatch_spec(commands, limits, viewport) is Ok <==> textures_resolve(
            commands,
            limits.texture_count as nat,
        ),
        dispatch_spec(commands, limits, viewport) matches Err(error)
            ==> error is UnknownTexture,
{
    let n = commands.len() as int;
    assert forall|i: int| 0 <= i < n implies (#[trigger] outcome_at(commands, i, limits, viewport)
        is Ok <==> (is_visible(commands[i]) ==> slot_of(
        commands[i].texture,
        limits.texture_count as nat,
    ) is Some)) && (outcome_at(commands, i, limits, viewport) matches Err(error)
        ==> error is UnknownTexture) by {
        lemma_elements_monotone(commands, i + 1, n);
    }
    if textures_resolve(commands, limits.texture_count as nat) {
        assert forall|i: int| 0 <= i < n implies (#[trigger] outcome_at(
            commands,
            i,
            limits,
            viewport,
        )) is Ok by {
            assert(is_visible(commands[i]) ==> slot_of(
                commands[i].texture,
                limits.texture_count as nat,
            ) is Some);
        }
    }
    if !dispatchable_before(commands, n, limits, viewport) {
        lemma_first_failure_exists(commands, n, limits, viewport);
    }
    if dispatchable_before(commands, n, limits, viewport) {
        assert forall|i: int| 0 <= i < n && is_visible(#[trigger] commands[i]) implies slot_of(
            commands[i].texture,
            limits.texture_count as nat,
        ) is Some by {
            assert(outcome_at(commands, i, limits, viewport) is Ok);
        }
    }
}

} // verus!
