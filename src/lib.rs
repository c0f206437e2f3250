//! A closed catalogue of human-language tags, the generator that builds it
//! from an HTML table, and adapters to neighbouring identifier systems.

pub mod text;
pub mod tag;
pub mod catalogue;
pub mod codegen;
pub mod emit;
pub mod whatlang_adapter;
pub mod error;
pub mod lingua;
pub mod locale;
