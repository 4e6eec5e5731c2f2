//! Execution core of a small dynamic-language runtime: the value and object
//! model, the promise engine with its job queue, and the bookkeeping of the
//! asynchronous dispatch layer (readiness tokens, pending operations, timers).
//!
//! Objects live in an arena (`object::Heap`) and are named by index; a
//! prototype is always older than the object that has it, so chains end.
//! `collector` marks what a root set reaches and releases the rest.
//! Compiled bodies run in an embedder-supplied `engine::Interpreter`; the
//! engine decides everything around them: binding, the three execution
//! disciplines, promise resolution and job ordering. Blocking work leaves
//! the engine as `reactor::Request`s and comes back through `fs::handle`
//! and `fs::fire_timer`, which the run loop calls between job-queue drains.
pub mod text;
pub mod key;
pub mod value;
pub mod table;
pub mod object;
pub mod agent;
pub mod ops;
pub mod promise;
pub mod engine;
pub mod intrinsics;
pub mod timers;
pub mod reactor;
pub mod fs;
pub mod builtins;
pub mod laws;
pub mod inspect;
pub mod collector;
