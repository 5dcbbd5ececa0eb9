pub mod native_edit;
pub mod webview;
