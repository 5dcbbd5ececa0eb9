//! Verified core of the bDS desktop user interface: navigation, tabs,
//! sidebar filters, style selection, menu editing and text helpers.

pub mod text;
pub mod sorting;
pub mod views;
pub mod state;
pub mod tasks;
pub mod components;
pub mod platform;
pub mod i18n;
