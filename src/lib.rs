pub mod broadcast;
pub mod echo;
pub mod envelope;
pub mod id;
pub mod server;
pub mod standalone;

pub use envelope::{frame, unframe, Body, Message};
pub use server::{Action, Event, Failure, Node, Server};
