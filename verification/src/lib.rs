pub mod config;
pub mod controller;
pub mod policy;
pub mod sensor;
