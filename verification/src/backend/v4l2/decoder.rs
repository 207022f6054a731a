pub mod stateless;
pub mod view;
