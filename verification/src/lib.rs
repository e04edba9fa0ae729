//! Frame planning for a GPU renderer of the Nuklear toolkit.
//!
//! Each frame the toolkit turns its widgets into vertex records, indices and
//! an ordered list of draw commands. This crate keeps the texture table and
//! the staging buffers that the toolkit fills, and turns the draw commands
//! into draw calls: for each command the texture it names, the range of
//! indices it draws and the scissor rectangle it is clipped to. Submitting
//! the calls to the GPU is left to the caller.
//!
//! - [`texture`]: handles and the registry that issues and resolves them.
//! - [`scissor`]: from the toolkit's clip rectangles to scissor rectangles.
//! - [`dispatch`]: from draw commands to draw calls.
//! - [`ranges`]: what holds of the index ranges of the calls of a frame.
//! - [`layout`]: the vertex record and its description for the toolkit.
//! - [`toolkit`]: the calls into the toolkit, which are trusted.
//! - [`drawer`]: the registry, the staging buffers and the frame as a whole.

pub mod dispatch;
pub mod drawer;
pub mod layout;
pub mod ranges;
pub mod scissor;
pub mod texture;
pub mod toolkit;

pub use dispatch::{dispatch, next_call, DispatchError, DrawCall, DrawCommand, Limits};
pub use drawer::{new_command_buffer, Drawer, FramePlan};
pub use scissor::{scissor, ClipRect, Scissor, Viewport};
pub use texture::{Texture, TextureHandle, TextureRegistry};
