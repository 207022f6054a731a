pub mod buffer;
pub mod controls;
pub mod device;
pub mod format;
pub mod queue;
pub mod queue_view;
pub mod request;
