//! The plan for launching a task: which program to run and with which
//! arguments. The library only decides the plan; actually spawning the
//! process is left to the caller.

use vstd::prelude::*;

verus! {

/// A fully decided command line: a program and its arguments, in order.
pub struct CommandPlan {
    pub program: String,
    pub args: Vec<String>,
}

} // verus!
