pub mod commitment_lock;
pub mod demo;
pub mod funding_lock;
pub mod funding_lock_err;
pub mod xudt_data;
