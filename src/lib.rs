//! Screen-watching encounter counter: color-run detection, encounter
//! tracking, sprite animation and overlay compositing, with their contracts.

pub mod color;
pub mod detect;
pub mod tracker;
pub mod animator;
pub mod clock;
pub mod compose;
pub mod store;
pub mod window;
pub mod tick;
