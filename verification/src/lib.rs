pub mod action;
pub mod cursor;
pub mod editor;
pub mod input;
pub mod text;
