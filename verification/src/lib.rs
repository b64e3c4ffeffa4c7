//! A minimal 2D rendering and game-loop core.
//!
//! A host implements the [`Game`] hooks; the crate keeps the resource cache
//! and input state ([`Context`]), composes per-frame transforms and draw
//! commands ([`Canvas`]), and paces the fixed-timestep simulation clock
//! ([`game::FrameClock`]). Window, GPU and event plumbing live outside the
//! crate: a frontend executes the draw commands a [`Canvas`] hands back.

pub mod fx;
pub mod game;
pub mod render;
pub mod trig;
pub mod utils;

pub use fx::Fx;
pub use game::{Context, FrameClock, Game, GameConfig, KeyCode};
pub use render::{Camera, Canvas, CanvasCommand, DrawCall, Model, ModelRenderBuilder, Viewport};
pub use utils::{Mat4, Rectangle};
