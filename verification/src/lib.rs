pub mod command;
pub mod focus;
pub mod geometry;
pub mod layout;
pub mod seq_search;
pub mod widget;
pub mod component;
pub mod input;
pub mod event;
pub mod bindings;
pub mod builder;
pub mod ui;
pub mod app;
pub mod log;
