pub mod control;
pub mod coordinator;
pub mod generator;
pub mod log;
pub mod observer;
pub mod orchestrator;
pub mod swarm;
pub mod text;
