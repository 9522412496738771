pub mod adapter;
pub mod auth;
pub mod event;
pub mod handler;
pub mod message;
pub mod parse;
pub mod primitives;
pub mod progress;
pub mod registry;
pub mod resolver;
pub mod strutil;
pub mod token;
