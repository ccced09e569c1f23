//! Sessions of coding agents, carried from one agent to another.
//!
//! A session of any agent is brought into one canonical form ([`model`]), and
//! from there into the form of another agent. Two agents are known here:
//! [`hermes`], which keeps its sessions in an SQLite database, and [`qoder`],
//! which keeps a transcript file for each.
//!
//! The library decides and computes: which place is meant ([`place`]), what is
//! stored of a session, what session is read from what was stored. Looking at
//! files and databases is left to the caller, who hands in what was found and
//! carries out what was decided. Where the caller has to do something and look
//! how it turned out, the library says what is to be done next.

pub mod fresh;
pub mod hermes;
pub mod json;
pub mod model;
pub mod place;
pub mod qoder;
pub mod text;
