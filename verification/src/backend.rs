pub mod v4l2;
