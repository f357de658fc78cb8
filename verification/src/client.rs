//! The client's side of the protocol: the message records, and what a
//! caller, a provider and a start-up barrier make of the frames they read.

pub mod connector;
pub mod error;
pub mod message;
pub mod shared_object;
pub mod socket;
pub mod wait_for_objects;
