//! PIIramid: a dungeon duel game in which monsters are beaten by writing the
//! right algorithm. This crate holds the game's rules: the duel language's
//! lexer and parser, the cost and combat rules of a turn, the bestiary, the
//! inventory, the map format and the code editor's text model.

pub mod grade;
pub mod inventory;
pub mod monsters;
pub mod numtext;
pub mod progression;
pub mod script;
pub mod text;
pub mod ui;
pub mod world;
