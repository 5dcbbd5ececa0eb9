pub mod lifecycle;
pub mod menu;
pub mod script_host;
