pub mod active;
pub mod bits;
pub mod passive;
pub mod established;
pub mod rto;
pub mod tcptypes;
pub mod page;
pub mod rng;
pub mod scheduler;
pub mod slab;
pub mod socket;
pub mod task;

pub use page::WakerPage;
pub use scheduler::Scheduler;
pub use task::CoTask;
pub use task::TaskStatus;
