//! A typing-speed practice game: a player reproduces a target line character
//! by character, and the session validates each keystroke, tracks timing, and
//! scores the round. The race session in [`race`] is the heart of it; [`db`]
//! provides target texts and their normalization, [`words`] the whitespace
//! tokenizer they share, and [`ui`] the game state a front end drives.

pub mod db;
pub mod race;
pub mod ui;
pub mod words;
