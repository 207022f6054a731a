pub mod stateless;
