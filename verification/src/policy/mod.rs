pub mod keep;

pub use keep::{KeepPolicy, ProtectionDecision};
