//! A small multi-window application framework.
//!
//! The framework owns a set of windows that are known by small integers, runs
//! the per-frame lifecycle (cleanup, frame start, user code, frame end) and
//! puts window teardown off until a frame boundary. What draws and what talks
//! to the windowing system stands behind two interfaces: [`RHI`] for a whole
//! backend, and [`glfwvulkan_agent::Toolkit`] for the native layer under the
//! backend that this crate provides.

pub mod error;
pub mod framework;
pub mod glfwvulkan_agent;
pub mod interfaces;

pub use error::Error;
pub use framework::AurenFoxFramework;
pub use glfwvulkan_agent::GLFWVulkanAgent;
pub use interfaces::RHI;
