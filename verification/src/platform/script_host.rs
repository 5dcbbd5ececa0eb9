//! The desktop capabilities that scripts may call: which request a call
//! names, and the checks on its string arguments.

use vstd::prelude::*;
use crate::platform::menu::{script_action, MenuAction};
use crate::text::{copy_str, decimal, push_str, str_eq, u64_to_decimal};

verus! {

/// A desktop request made by a script.
#[derive(Debug, Clone)]
pub enum HostRequest {
    /// Copy the text to the clipboard.
    CopyToClipboard(String),
    /// Report the title bar's insets.
    TitleBarMetrics,
    /// The renderer is ready.
    NotifyRendererReady,
    /// Open the folder or file with the system.
    OpenFolder(String),
    /// Ask for a folder, with an optional dialog title.
    SelectFolder(Option<String>),
    /// Set (or clear) the post the preview follows.
    SetPreviewPostTarget(Option<String>),
    /// Reveal the item in the file manager.
    ShowItemInFolder(String),
    /// Run a menu action; unknown action names do nothing.
    TriggerMenuAction(Option<MenuAction>),
}

/// The string argument at `index`: present and a string.
pub open spec fn arg_at(args: Seq<Option<String>>, index: int) -> Option<String> {
    if 0 <= index < args.len() { args[index] } else { None }
}

/// The error for a missing or non-string argument at `index`.
pub open spec fn argument_error(index: nat) -> Seq<char> {
    "argument "@ + decimal(index + 1) + " must be a string"@
}

/// The request a script call makes: the capability named by `method`, with
/// `args` holding each argument's text when it is a string. A required
/// string argument that is missing gives its error; an unknown capability
/// is refused.
pub open spec fn host_call_spec(method: Seq<char>, args: Seq<Option<String>>) -> Result<HostRequest, Seq<char>> {
    let first = arg_at(args, 0);
    if method == "copy_to_clipboard"@ {
        match first {
            Some(s) => Ok(HostRequest::CopyToClipboard(s)),
            None => Err(argument_error(0)),
        }
    } else if method == "get_title_bar_metrics"@ {
        Ok(HostRequest::TitleBarMetrics)
    } else if method == "notify_renderer_ready"@ {
        Ok(HostRequest::NotifyRendererReady)
    } else if method == "open_folder"@ {
        match first {
            Some(s) => Ok(HostRequest::OpenFolder(s)),
            None => Err(argument_error(0)),
        }
    } else if method == "select_folder"@ {
        Ok(HostRequest::SelectFolder(first))
    } else if method == "set_preview_post_target"@ {
        Ok(HostRequest::SetPreviewPostTarget(first))
    } else if method == "show_item_in_folder"@ {
        match first {
            Some(s) => Ok(HostRequest::ShowItemInFolder(s)),
            None => Err(argument_error(0)),
        }
    } else if method == "trigger_menu_action"@ {
        match first {
            Some(s) => Ok(HostRequest::TriggerMenuAction(script_action(s@))),
            None => Err(argument_error(0)),
        }
    } else {
        Err("unknown desktop shell capability: "@ + method)
    }
}

/// The string argument at `index`, copied.
fn string_arg(args: &[Option<String>], index: usize) -> (res: Option<String>)
    ensures
        match arg_at(args@, index as int) {
            Some(s) => res matches Some(r) && r@ == s@,
            None => res is None,
        },
{
    if index < args.len() {
        match &args[index] {
            Some(s) => Some(copy_str(s.as_str())),
            None => None,
        }
    } else {
        None
    }
}

/// The error for a missing or non-string argument at `index`.
fn argument_error_text(index: usize) -> (res: String)
    requires
        index < usize::MAX,
    ensures
        res@ == argument_error(index as nat),
{
    let mut s = copy_str("argument ");
    let n = u64_to_decimal(index as u64 + 1);
    push_str(&mut s, n.as_str());
    push_str(&mut s, " must be a string");
    s
}

/// The request value's text content, for comparing requests.
pub open spec fn request_view(r: HostRequest) -> (int, Option<Seq<char>>, Option<MenuAction>) {
    match r {
        HostRequest::CopyToClipboard(s) => (0, Some(s@), None),
        HostRequest::TitleBarMetrics => (1, None, None),
        HostRequest::NotifyRendererReady => (2, None, None),
        HostRequest::OpenFolder(s) => (3, Some(s@), None),
        HostRequest::SelectFolder(t) => (4, match t { Some(x) => Some(x@), None => None }, None),
        HostRequest::SetPreviewPostTarget(t) => (5, match t { Some(x) => Some(x@), None => None }, None),
        HostRequest::ShowItemInFolder(s) => (6, Some(s@), None),
        HostRequest::TriggerMenuAction(a) => (7, None, a),
    }
}

/// The request a script call makes, or why it is refused.
pub fn decode_host_call(method: &str, args: &[Option<String>]) -> (res: Result<HostRequest, String>)
    ensures
        match (res, host_call_spec(method@, args@)) {
            (Ok(r), Ok(s)) => request_view(r) == request_view(s),
            (Err(e), Err(s)) => e@ == s,
            _ => false,
        },
{
    let first = string_arg(args, 0);
    if str_eq(method, "copy_to_clipboard") {
        match first {
            Some(s) => Ok(HostRequest::CopyToClipboard(s)),
            None => Err(argument_error_text(0)),
        }
    } else if str_eq(method, "get_title_bar_metrics") {
        Ok(HostRequest::TitleBarMetrics)
    } else if str_eq(method, "notify_renderer_ready") {
        Ok(HostRequest::NotifyRendererReady)
    } else if str_eq(method, "open_folder") {
        match first {
            Some(s) => Ok(HostRequest::OpenFolder(s)),
            None => Err(argument_error_text(0)),
        }
    } else if str_eq(method, "select_folder") {
        Ok(HostRequest::SelectFolder(first))
    } else if str_eq(method, "set_preview_post_target") {
        Ok(HostRequest::SetPreviewPostTarget(first))
    } else if str_eq(method, "show_item_in_folder") {
        match first {
            Some(s) => Ok(HostRequest::ShowItemInFolder(s)),
            None => Err(argument_error_text(0)),
        }
    } else if str_eq(method, "trigger_menu_action") {
        match first {
            Some(s) => Ok(HostRequest::TriggerMenuAction(MenuAction::from_script_name(s.as_str()))),
            None => Err(argument_error_text(0)),
        }
    } else {
        let mut e = copy_str("unknown desktop shell capability: ");
        push_str(&mut e, method);
        Err(e)
    }
}

} // verus!
