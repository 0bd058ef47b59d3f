//! The plain values persisted per service (the ring of already-notified
//! message ids and the staleness bookkeeping), and when they are saved.

pub mod model;
pub mod worker;

pub use model::{first_over_capacity, SeenRing, StalenessStats, SEEN_RING_CAPACITY};
pub use worker::{worker_step, WorkerFlags, WorkerStep};
