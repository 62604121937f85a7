//! A threshold-gated parallel map: given a finite sequence of inputs and a
//! pure transformation, decide whether to process the items sequentially or
//! to fan them out across concurrent workers, then gather the results back
//! in the original input order.

pub mod chunks;
pub mod collatz;
pub mod dispatch;
pub mod laws;
pub mod model;
pub mod rayon_fanout;
pub mod sequential;
pub mod threads;
