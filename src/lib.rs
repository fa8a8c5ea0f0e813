//! A dashboard of the build processes that the accounts of a build group run:
//! which processes each account has, which output path its build produces,
//! and the text of one screen, fitted to the terminal.
pub mod display;
pub mod frame;
pub mod resolver;
pub mod sampler;
pub mod text;
