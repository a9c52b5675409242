//! A small Lisp evaluated in continuation-passing style on an explicit
//! work loop: values, their printed form, the machine and top-level bindings.

pub mod shared;
pub mod syntax;
pub mod value;
pub mod printer;
pub mod machine;
pub mod direct;
pub mod adequacy;
pub mod protocol;
pub mod engine;
pub mod scope;
pub mod laws;
