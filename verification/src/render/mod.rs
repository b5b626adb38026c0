//! The renderer: turns scene + camera + config into pixels.
mod config;
pub mod cpu;
pub mod framebuffer;

pub use config::RenderConfig;
pub use framebuffer::Framebuffer;
