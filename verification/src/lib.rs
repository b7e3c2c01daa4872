//! Decision logic of a small line-routed server with a fixed pool of workers.
//!
//! Every function here is pure bookkeeping over plain values: which response a
//! request line gets, what goes on the wire, when the accept loop stops, and
//! which worker may take which job. Sockets, files and threads stay with the
//! program that drives these functions.

pub mod decimal;
pub mod response;
pub mod pool;
pub mod queue;
pub mod router;
pub mod shutdown;
