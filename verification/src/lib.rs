//! Candidate identification for TypeScript test files of Hardhat projects.
//!
//! Given the syntax tree of a test file, the library finds, inside every
//! `it("message", () => { ... })` test case, the statements and method-call
//! suffixes that can be removed, and reports each as a source span together
//! with the message of the test case that contains it.
pub mod span;
pub mod source_map;
pub mod ast;
pub mod calls;
pub mod ignore;
pub mod test_case;
pub mod descent;
pub mod located;
pub mod trace;
pub mod bounds;
pub mod visitor;
pub mod laws;
pub mod stdout;
pub mod framework;
pub mod adapter;
