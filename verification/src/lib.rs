//! A verified core for a frame-perfect desktop session engine: layout epochs,
//! frame scheduling, page-flip gating, output presentation, notification chrome,
//! physical input intake and the byte-level request encoders used by the
//! session's protocol authorities.

pub mod args;
pub mod num;
pub mod text;
pub mod wm;
pub mod protocol;
pub mod runtime;
pub mod scene;
pub mod session;
pub mod session_config;
pub mod surface_set;
pub mod chrome;
pub mod compat;
pub mod cpu_scene;
pub mod driver;
pub mod engine;
pub mod evidence;
pub mod frame;
pub mod frame_plan;
pub mod geometry_laws;
pub mod input;
pub mod input_proof;
pub mod laws;
pub mod live_layout;
pub mod live_session;
pub mod notification;
pub mod output;
pub mod page_flip;
pub mod presentation;
pub mod probe;
pub mod wayland_config;
pub mod wayland_session;
pub mod x11;
