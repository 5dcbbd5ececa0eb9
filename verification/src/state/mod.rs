pub mod navigation;
pub mod sidebar_filter;
pub mod tabs;
pub mod toast;
pub mod sidebar_search;
