pub mod text;
pub mod rope;
pub mod strutil;
pub mod commands;
pub mod mode;
pub mod model;
pub mod editor;
pub mod ops;
pub mod help;
pub mod listing;
pub mod cmdline;
pub mod keys;
pub mod command;
pub mod render;
pub mod highlight;
pub mod screen;
pub mod laws;
pub mod aliases;
pub mod edit_laws;
