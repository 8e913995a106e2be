pub mod dispatch;
pub mod handler;
pub mod laws;
pub mod loggable;
pub mod registry;

pub use dispatch::log_any;
pub use dispatch::push_log_any;
pub use dispatch::push_log_impl;
pub use handler::LogFn;
pub use loggable::Erased;
pub use loggable::Loggable;
pub use registry::CatchAllRegistry;
pub use registry::TypedRegistry;
