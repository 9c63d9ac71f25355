//! A fair queue lock after Mellor-Crummey and Scott.
//!
//! Every party that wants the lock brings a slot of its own and appends it to
//! a queue by swapping the lock's tail word. It then waits on a flag that only
//! its predecessor writes, and on release it clears the flag of its successor.
//!
//! * [`protocol`]: what a party does next, as a function of where it stands
//!   and of what its last access to the queue returned;
//! * [`model`]: the queue memory shared by any number of slots, and the moves
//!   that change it;
//! * [`inductive`]: the proof that every move keeps the model's invariant;
//! * [`laws`]: what follows for every interleaving: the lock is exclusive and
//!   first come, first served;
//! * [`progress`]: nobody waits for ever: a waiting slot holds the lock after
//!   a number of helpful moves that its place in the queue bounds;
//! * [`counter`]: a counter behind the lock, of which no increment is lost;
//! * [`queue`]: the queue memory as an owned value that is advanced one move
//!   at a time;
//! * [`mutex`]: the lock around a payload, for a party that owns it;
//! * `pause`: what a party does between two looks at a word it waits for.
use vstd::prelude::*;

mod pause;
pub mod protocol;
pub mod model;
pub mod inductive;
pub mod laws;
pub mod progress;
pub mod queue;
pub mod counter;
pub mod mutex;

pub use mutex::{Mutex, MutexGuard, Slot};
