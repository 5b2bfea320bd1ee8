pub mod lifecycle;
pub mod session;
