pub mod clients;
pub mod fixed_number;
pub mod processor;
pub mod transactions;
