pub mod audit;
pub mod cleaner;
pub mod cli;
pub mod config;
pub mod glob;
pub mod metrics;
pub mod order;
pub mod plan;
pub mod policy;
pub mod recommend;
pub mod scanner;
pub mod stats;
pub mod text;
pub mod trash;
pub mod tui;
pub mod utils;

pub use cleaner::Cleaner;
pub use config::Config;
pub use scanner::{ProjectInfo, ProjectType, Scanner};
pub use stats::Statistics;
