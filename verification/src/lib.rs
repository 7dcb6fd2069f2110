//! Multi-tenant inventory and order tracking for a garment supply chain.
//!
//! Every record belongs to exactly one user, directly or through a boss or a
//! staff member, and every operation is scoped to the user who asks: what is
//! another user's is not there.
//!
//! The repositories ([`boss::BossService`] and its like) keep their records
//! in a [`database::Database`], a store in memory. Its mathematical model is
//! [`database::DbState`]; each operation is specified as a function of that
//! model, and [`laws`] proves what relates the operations to one another.
//!
//! A service that keeps its records in another store takes from this crate
//! what is decided: the statements to put to its store ([`plan`]), which
//! are proved to mean what the repositories do; what an update changes; what
//! a batch earns; who a token belongs to ([`jwt`]); and what a login is
//! granted ([`account`]).

pub mod account;
pub mod boss;
pub mod clothing;
pub mod database;
pub mod entity;
pub mod error;
pub mod jwt;
pub mod laws;
pub mod plan;
pub mod procurement;
pub mod production;
pub mod query;
pub mod shipment;
pub mod staff;
pub mod table;
pub mod text;
pub mod user;
pub mod utils;
