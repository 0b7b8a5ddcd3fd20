pub mod text;
pub mod strmap;
pub mod placeholder;
pub mod env;
pub mod json;
pub mod items;
pub mod http;
pub mod tree;
pub mod keys;
pub mod sidebar;
pub mod capture;
pub mod highlight;
pub mod history;
pub mod clock;
pub mod oauth;
pub mod widgets;
pub mod editor;
pub mod editor_io;
pub mod panes;
pub mod modals;
pub mod env_editor;
pub mod config;
pub mod app_state;
pub mod reopen;
