//! Usage tracking: the entities of the usage database, the period, streak and
//! alert computations over them, and the decision logic of the tracking engine.
pub mod entities;
pub mod infused;
pub mod periods;
pub mod alerts;
pub mod tags;
pub mod id_list;
pub mod usages;
pub mod table;
pub mod repo_sql;
pub mod time_system;
pub mod platform;
pub mod engine;
