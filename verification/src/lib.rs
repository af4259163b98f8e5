//! Verified core of the Ice Commander file manager: the decisions and text
//! transformations behind its panels, hotkeys, shares, peers and transfers.

pub mod settings;
pub mod text;
pub mod terminal;
pub mod hotkeys;
pub mod network;
pub mod shares;
pub mod naming;
pub mod connections;
pub mod folders;
pub mod peers;
pub mod drives;
pub mod transfers;
pub mod console;
pub mod boot;
pub mod runtime;
pub mod api;
pub mod markup;
pub mod startup;
pub mod davserver;
pub mod window_keys;
pub mod selector;
pub mod account;
pub mod tabs;
pub mod panel;
pub mod layout;
pub mod main_window;
pub mod settings_dialog;
pub mod wizard;
pub mod help;
pub mod terminal_session;
pub mod pdf_view;
