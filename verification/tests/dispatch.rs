use nuklear_backend_glium::dispatch::{
    dispatch, next_call, DispatchError, DrawCall, DrawCommand, Limits,
};
use nuklear_backend_glium::scissor::{scissor, ClipRect, Scissor, Viewport};
use nuklear_backend_glium::texture::TextureHandle;

const TARGET: Viewport = Viewport { width: 200, height: 100 };

fn command(texture: i32, elem_count: u32, clip: (i32, i32, i32, i32)) -> DrawCommand {
    DrawCommand {
        texture: TextureHandle { id: texture },
        elem_count,
        clip_rect: ClipRect { x: clip.0, y: clip.1, w: clip.2, h: clip.3 },
    }
}

fn limits(texture_count: usize, index_capacity: usize) -> Limits {
    Limits { texture_count, index_capacity }
}

#[test]
fn empty_list_has_no_calls() {
    assert_eq!(dispatch(&vec![], &limits(0, 0), &TARGET), Ok(vec![]));
}

#[test]
fn two_commands_of_three_and_six_indices() {
    let commands = vec![command(1, 3, (10, 20, 30, 40)), command(1, 6, (-5, 0, 20, 10))];
    let calls = dispatch(&commands, &limits(1, 300), &TARGET).unwrap();
    assert_eq!(
        calls,
        vec![
            DrawCall {
                texture: 0,
                first_index: 0,
                end_index: 3,
                scissor: Scissor { left: 10, bottom: 40, width: 30, height: 40 },
            },
            DrawCall {
                texture: 0,
                first_index: 3,
                end_index: 9,
                scissor: Scissor { left: 0, bottom: 90, width: 15, height: 10 },
            },
        ]
    );
}

#[test]
fn ranges_follow_each_other_and_cover_all_indices() {
    let counts: [u32; 7] = [3, 0, 12, 6, 0, 0, 300];
    let commands: Vec<DrawCommand> =
        counts.iter().map(|&n| command(2, n, (0, 0, 50, 50))).collect();
    let calls = dispatch(&commands, &limits(2, 400), &TARGET).unwrap();
    let drawn: Vec<u32> = counts.iter().copied().filter(|&n| n > 0).collect();
    assert_eq!(calls.len(), drawn.len());
    let mut cursor = 0;
    for (call, count) in calls.iter().zip(drawn) {
        assert_eq!(call.first_index, cursor);
        assert_eq!(call.end_index, cursor + count as usize);
        assert!(call.first_index < call.end_index);
        cursor = call.end_index;
    }
    assert_eq!(cursor, 321);
}

#[test]
fn calls_keep_the_order_of_the_commands() {
    let commands = vec![
        command(3, 1, (1, 1, 1, 1)),
        command(1, 2, (2, 2, 2, 2)),
        command(2, 3, (3, 3, 3, 3)),
    ];
    let calls = dispatch(&commands, &limits(3, 6), &TARGET).unwrap();
    let textures: Vec<usize> = calls.iter().map(|c| c.texture).collect();
    assert_eq!(textures, vec![2, 0, 1]);
    for (call, command) in calls.iter().zip(&commands) {
        assert_eq!(call.scissor, scissor(&command.clip_rect, &TARGET));
        assert_eq!(call.end_index - call.first_index, command.elem_count as usize);
    }
}

#[test]
fn command_without_elements_is_skipped() {
    let with = vec![
        command(1, 3, (0, 0, 10, 10)),
        command(1, 0, (5, 5, 5, 5)),
        command(1, 6, (0, 0, 20, 20)),
    ];
    let without = vec![with[0], with[2]];
    let expected = dispatch(&without, &limits(1, 9), &TARGET).unwrap();
    assert_eq!(dispatch(&with, &limits(1, 9), &TARGET), Ok(expected.clone()));
    assert_eq!(expected.len(), 2);
    assert_eq!(expected[1].first_index, 3);
    assert_eq!(expected[1].end_index, 9);
}

#[test]
fn command_without_elements_need_not_name_a_texture() {
    let commands = vec![command(0, 0, (0, 0, 1, 1)), command(99, 0, (0, 0, 1, 1))];
    assert_eq!(dispatch(&commands, &limits(0, 0), &TARGET), Ok(vec![]));
}

#[test]
fn only_commands_without_elements() {
    let commands = vec![command(1, 0, (0, 0, 1, 1)); 5];
    assert_eq!(dispatch(&commands, &limits(1, 10), &TARGET), Ok(vec![]));
}

#[test]
fn unregistered_texture_fails_the_frame() {
    let commands = vec![command(1, 3, (0, 0, 10, 10)), command(2, 3, (0, 0, 10, 10))];
    assert_eq!(
        dispatch(&commands, &limits(1, 100), &TARGET),
        Err(DispatchError::UnknownTexture { command: 1, handle: TextureHandle { id: 2 } })
    );
}

#[test]
fn invalid_handle_fails_the_frame() {
    for id in [0, -1, i32::MIN] {
        let commands = vec![command(id, 3, (0, 0, 10, 10))];
        assert_eq!(
            dispatch(&commands, &limits(4, 100), &TARGET),
            Err(DispatchError::UnknownTexture { command: 0, handle: TextureHandle { id } })
        );
    }
}

#[test]
fn empty_registry_resolves_nothing() {
    let commands = vec![command(1, 1, (0, 0, 10, 10))];
    assert_eq!(
        dispatch(&commands, &limits(0, 100), &TARGET),
        Err(DispatchError::UnknownTexture { command: 0, handle: TextureHandle { id: 1 } })
    );
}

#[test]
fn first_failing_command_decides_the_error() {
    let commands = vec![
        command(1, 4, (0, 0, 10, 10)),
        command(1, 4, (0, 0, 10, 10)),
        command(5, 1, (0, 0, 10, 10)),
    ];
    assert_eq!(
        dispatch(&commands, &limits(1, 6), &TARGET),
        Err(DispatchError::IndexRangeOutOfBounds { command: 1 })
    );
    assert_eq!(
        dispatch(&commands, &limits(1, 8), &TARGET),
        Err(DispatchError::UnknownTexture { command: 2, handle: TextureHandle { id: 5 } })
    );
}

#[test]
fn unknown_texture_is_reported_before_a_range_out_of_bounds() {
    let commands = vec![command(2, 50, (0, 0, 10, 10))];
    assert_eq!(
        dispatch(&commands, &limits(1, 10), &TARGET),
        Err(DispatchError::UnknownTexture { command: 0, handle: TextureHandle { id: 2 } })
    );
}

#[test]
fn range_may_end_at_the_capacity_but_not_beyond() {
    let commands = vec![command(1, 3, (0, 0, 10, 10)), command(1, 6, (0, 0, 10, 10))];
    assert!(dispatch(&commands, &limits(1, 9), &TARGET).is_ok());
    assert_eq!(
        dispatch(&commands, &limits(1, 8), &TARGET),
        Err(DispatchError::IndexRangeOutOfBounds { command: 1 })
    );
    assert_eq!(
        dispatch(&commands, &limits(1, 2), &TARGET),
        Err(DispatchError::IndexRangeOutOfBounds { command: 0 })
    );
}

#[test]
fn largest_element_counts_do_not_overflow() {
    let commands = vec![command(1, u32::MAX, (0, 0, 1, 1)); 3];
    assert_eq!(
        dispatch(&commands, &limits(1, usize::MAX), &TARGET).map(|calls| calls.len()),
        if usize::MAX as u128 >= 3 * u32::MAX as u128 {
            Ok(3)
        } else {
            Err(DispatchError::IndexRangeOutOfBounds { command: 1 })
        }
    );
}

#[test]
fn next_call_draws_from_the_cursor_on() {
    let outcome = next_call(12, 4, &command(2, 6, (50, 5, 100, 60)), &limits(2, 18), &TARGET);
    assert_eq!(
        outcome,
        Ok(Some(DrawCall {
            texture: 1,
            first_index: 12,
            end_index: 18,
            scissor: Scissor { left: 50, bottom: 35, width: 100, height: 60 },
        }))
    );
}

#[test]
fn next_call_skips_a_command_without_elements() {
    assert_eq!(next_call(12, 4, &command(2, 0, (0, 0, 1, 1)), &limits(2, 18), &TARGET), Ok(None));
    assert_eq!(next_call(99, 0, &command(7, 0, (0, 0, 1, 1)), &limits(0, 0), &TARGET), Ok(None));
}

#[test]
fn next_call_reports_the_position_of_the_command() {
    assert_eq!(
        next_call(0, 7, &command(3, 1, (0, 0, 1, 1)), &limits(2, 18), &TARGET),
        Err(DispatchError::UnknownTexture { command: 7, handle: TextureHandle { id: 3 } })
    );
    assert_eq!(
        next_call(12, 7, &command(2, 7, (0, 0, 1, 1)), &limits(2, 18), &TARGET),
        Err(DispatchError::IndexRangeOutOfBounds { command: 7 })
    );
    assert_eq!(
        next_call(19, 7, &command(2, 1, (0, 0, 1, 1)), &limits(2, 18), &TARGET),
        Err(DispatchError::IndexRangeOutOfBounds { command: 7 })
    );
}
