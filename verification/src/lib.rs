//! A chess engine built around a verified search core: a mailbox board with
//! reversible make/undo, a pseudolegal move generator specified move for
//! move, a legality filter, material evaluation, Zobrist hashing, ordering
//! heuristics, and an iterative-deepening negamax driver.
pub mod board;
pub mod communication;
pub mod evaluation;
pub mod move_ordering;
pub mod movegen;
pub mod pieces;
pub mod pv_table;
pub mod search;
pub mod zobrist;
