//! What the functions of the library promise to those who call them. Each law speaks of calls and
//! of what came of them, in terms of what went in and what came out.

pub mod bluetooth;
pub mod channel;
pub mod files;
pub mod flows;
pub mod names;
pub mod negotiation;
pub mod pieces;
pub mod surroundings;
pub mod telling;
pub mod window;
