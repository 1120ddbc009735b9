pub mod command;
pub mod replies;
