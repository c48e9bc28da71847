//! Lighting control for Razer keyboards and laptops: the wire packet codec,
//! the retrying command exchange, device discovery rules and the per-key
//! effect matrix, with their behaviour stated in contracts and proved.

pub mod chroma;
pub mod device;
pub mod dispatch;
pub mod effects;
pub mod endpoint;
pub mod hw;
pub mod keyboard;
pub mod razer;
