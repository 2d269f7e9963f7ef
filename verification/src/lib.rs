//! A verified decoder for the JVM class-file format, together with a few
//! small verified containers and state machines that share the crate.
//!
//! The decoder turns a byte sequence laid out as a class file into a
//! structured value: a constant pool with indexed lookup and recursive
//! resolution to display text, access-flag label decoding, and a full
//! structural parse (header, pool, flags, interfaces, fields, methods and
//! nested attributes). Every step is specified against the raw bytes.

pub mod error;
pub mod reader;
pub mod decimal;
pub mod cpool;
pub mod flag;
pub mod classfile;
pub mod cli;
pub mod basic_stack;
pub mod stack;
pub mod persistent_stack;
pub mod vector;
pub mod turnstile;
pub mod regex;
pub mod sketch;
pub mod ring;
