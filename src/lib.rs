//! Running commands under the identity of a trusted system service: enabling
//! the rights that this needs, acquiring the service's identity, keeping the
//! credential for reuse, and launching a child under a copy of it; and the
//! profile records and actions that ask for such launches. Each exchange with
//! the operating system is a step of a state machine: the caller performs the
//! action a step returns and hands the result back as the next event.
use vstd::prelude::*;

pub mod acquire;
pub mod actions;
pub mod args;
pub mod cache;
pub mod config;
pub mod env;
pub mod launch;
pub mod privilege;
pub mod tasklist;
pub mod text;

verus! {

} // verus!
