//! The decisions of a signing device: what a keypress may authorise, what a
//! coordinator may ask for, what is written before it is acknowledged, and what
//! a backup quiz shows.
//!
//! Nothing in this crate touches a register, a panel, a flash cell or a curve
//! point. Each of those is done by the program around the library, which hands
//! in what came of it as a plain value and carries out the action it gets back.

pub mod keypad;
pub mod messages;
pub mod consent;
pub mod flow;
pub mod text;
pub mod draws;
pub mod quiz;
pub mod digest;
pub mod names;
pub mod outbox;
pub mod fault;
pub mod screens;
pub mod session;
pub mod run;
pub mod desk;
pub mod ceremony;
pub mod boot;
pub mod startup;
pub mod arena;
