//! The rules of a one-shot content generator, verified with Verus.
//!
//! A run picks a prompt template, resolves its placeholders with values drawn
//! from fill-in catalogs, asks a completion provider for an answer of a fixed
//! shape, masks profanity in the answer, and publishes it as a status or as
//! captions on an image. This crate holds what a run decides and computes;
//! reading files, talking to the network and drawing pixels are left to the
//! caller, who hands over plain values and takes plain values back.

pub mod catalog;
pub mod completion;
pub mod error;
pub mod json;
pub mod moderation;
pub mod pipeline;
pub mod prompt;
pub mod publish;
pub mod random;
pub mod render;
pub mod resolution;
pub mod schema;
pub mod template;
pub mod text;
