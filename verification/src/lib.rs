//! Rules of chess for two players: the board, the moves that each piece may
//! make, what a move does to the board, and the endings of a game (mate,
//! stalemate and the draws).

pub mod game;
