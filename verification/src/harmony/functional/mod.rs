//! Functional harmony: diatonic seventh-chord tables, SATB voicing in the
//! style of Bach chorales, and the indexing of chorale transition tables.

pub mod chord_table;
pub mod markov;
pub mod voicer_bach;
