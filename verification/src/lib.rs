//! A modal, vi-like text-editing engine: a cursor-and-line text buffer over a
//! rope, cursor motions, delimiter text objects, range operators, a chord
//! dispatcher and a linear undo log.

pub mod text;
pub mod rope;
pub mod chars;

pub mod buffer;
pub mod buffer_update;
pub mod buffer_line;
pub mod buffer_char;
pub mod buffer_edit;

pub mod undo;
pub mod register;
pub mod mode;
pub mod state;

pub mod motion;
pub mod text_object;
pub mod operator;
pub mod commands;

pub mod named;
pub mod keymap;
pub mod action;
pub mod keys;
pub mod laws;
pub mod substitution;

pub mod status_bar;
pub mod meta_command;
pub mod utility;

pub mod view_box;
pub mod view;
pub mod view_command;
pub mod status_line;
pub mod tutorial;
