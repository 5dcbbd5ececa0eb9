pub mod chat_surfaces;
pub mod chat_view;
pub mod dashboard;
pub mod documentation;
pub mod git;
pub mod import_editor;
pub mod language_drafts;
pub mod media_editor;
pub mod menu_editor;
pub mod menu_pages;
pub mod menu_tree;
pub mod modal;
pub mod post_editor;
pub mod settings_view;
pub mod sidebar;
pub mod site_validation;
pub mod style_view;
