//! A small managed-language runtime: class model and linking, lazy
//! constant-pool resolution, frames and an operand-stack interpreter,
//! method dispatch and exception-table driven unwinding.
pub mod access;
pub mod class;
pub mod class_file;
pub mod class_loader;
pub mod class_path;
pub mod constant_pool;
pub mod dispatch;
pub mod heap;
pub mod init;
pub mod instructions;
pub mod instrument;
pub mod interpreter;
pub mod invoke;
pub mod invoke_support;
pub mod jvm;
pub mod linker;
pub mod native;
pub mod slots;
pub mod strings;
pub mod thread;
pub mod unwind;
