//! The two backends: what each of them is asked, and in which words.

pub mod database;
pub mod document;
pub mod json;
pub mod mongodb;
pub mod postgres;
