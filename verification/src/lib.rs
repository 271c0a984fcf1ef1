pub mod board;
pub mod canvas;
pub mod demo;
pub mod editor;
pub mod gui;
pub mod laws;
pub mod mesh;
pub mod path;
pub mod plot;
pub mod seqs;
pub mod text;
