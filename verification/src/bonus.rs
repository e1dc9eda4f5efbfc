//! The dispatching server: two strategies instead of one.
//!
//! This server keeps the cooperative scheduler for the IO-intensive task
//! type and offloads every other in-range task to the bounded worker pool,
//! so CPU-bound work cannot starve the scheduler that serves connections.
use crate::server::Plan;
use crate::server::ServerTrait;
use crate::server::Strategy;
use crate::server::route;
use vstd::prelude::*;

verus! {

/// The pool-dispatching server.
pub struct Server {
    /// How many task types the engine accepts.
    pub total_task_types: u64,
    /// The reserved IO-intensive task-type code.
    pub io_task_type: u8,
}

impl ServerTrait for Server {
    open spec fn total_types(&self) -> u64 {
        self.total_task_types
    }

    open spec fn strategy_spec(&self, task_type: u8) -> Strategy {
        if task_type == self.io_task_type {
            Strategy::Cooperative
        } else {
            Strategy::Pool
        }
    }

    fn plan_request(&self, line: &Vec<u8>) -> (p: Option<Plan>) {
        match route(line, self.total_task_types) {
            Some(req) => {
                let strategy = if req.task_type == self.io_task_type {
                    Strategy::Cooperative
                } else {
                    Strategy::Pool
                };
                Some(Plan { request: req, strategy })
            },
            None => None,
        }
    }
}

} // verus!
