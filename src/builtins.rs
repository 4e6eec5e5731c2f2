//! The builtin modules, by name.
use vstd::prelude::*;
use crate::agent::Agent;
use crate::engine::step;
use crate::value::Value;

verus! {

/// Every builtin module, as name and module pairs.
pub fn create(agent: &mut Agent) -> (m: Vec<(String, Vec<(String, Value)>)>)
    requires
        old(agent).wf(),
    ensures
        step(&*old(agent), &*final(agent)),
        m@.len() == 2,
{
    let mut m: Vec<(String, Vec<(String, Value)>)> = Vec::new();
    let timers = crate::timers::create(agent);
    m.push(("timers".to_owned(), timers));
    let fs = crate::fs::create(agent);
    m.push(("fs".to_owned(), fs));
    m
}

} // verus!
