//! Activity-bar navigation: which sidebar list is shown, and whether.

use vstd::prelude::*;

verus! {

/// Which list the sidebar is currently showing.
#[derive(Debug, Clone, Copy, PartialEq, Eq, Structural)]
pub enum SidebarView {
    Posts,
    Pages,
    Media,
    Scripts,
    Templates,
    Tags,
    Chat,
    Import,
    Git,
    Settings,
}

/// The `activity.*` i18n key of each sidebar view.
pub open spec fn sidebar_view_key(view: SidebarView) -> &'static str {
    match view {
        SidebarView::Posts => "activity.posts",
        SidebarView::Pages => "activity.pages",
        SidebarView::Media => "activity.media",
        SidebarView::Scripts => "activity.scripts",
        SidebarView::Templates => "activity.templates",
        SidebarView::Tags => "activity.tags",
        SidebarView::Chat => "activity.aiAssistant",
        SidebarView::Import => "activity.import",
        SidebarView::Git => "activity.sourceControl",
        SidebarView::Settings => "common.settings",
    }
}

impl SidebarView {
    /// Returns the `activity.*` i18n key for this sidebar view.
    pub fn i18n_key(&self) -> (res: &'static str)
        ensures
            res == sidebar_view_key(*self),
    {
        match self {
            SidebarView::Posts => "activity.posts",
            SidebarView::Pages => "activity.pages",
            SidebarView::Media => "activity.media",
            SidebarView::Scripts => "activity.scripts",
            SidebarView::Templates => "activity.templates",
            SidebarView::Tags => "activity.tags",
            SidebarView::Chat => "activity.aiAssistant",
            SidebarView::Import => "activity.import",
            SidebarView::Git => "activity.sourceControl",
            SidebarView::Settings => "common.settings",
        }
    }

    /// The text a view displays as: its i18n key.
    pub fn to_display_string(&self) -> (res: String)
        ensures
            res@ == sidebar_view_key(*self)@,
    {
        crate::text::copy_str(self.i18n_key())
    }
}

/// Which tab is selected in the bottom panel.
#[derive(Debug, Clone, Copy, PartialEq, Eq, Structural)]
pub enum PanelTab {
    Tasks,
    Output,
    PostLinks,
    GitLog,
}

/// A single line of output shown in the panel.
#[derive(Debug, Clone)]
pub struct OutputEntry {
    pub timestamp: i64,
    pub text: String,
}

/// The next `(view, sidebar_visible)` after a click on an activity icon:
/// the same icon toggles the sidebar, another icon switches to its view and
/// shows the sidebar.
pub open spec fn activity_click(current: SidebarView, visible: bool, clicked: SidebarView) -> (SidebarView, bool) {
    if clicked == current {
        (current, !visible)
    } else {
        (clicked, true)
    }
}

/// The next `(view, sidebar_visible)` after a click on an activity icon.
pub fn handle_activity_click(
    current_view: SidebarView,
    sidebar_visible: bool,
    clicked: SidebarView,
) -> (res: (SidebarView, bool))
    ensures
        res == activity_click(current_view, sidebar_visible, clicked),
{
    if clicked == current_view {
        (current_view, !sidebar_visible)
    } else {
        (clicked, true)
    }
}

/// Law: clicking the same icon twice gives back the sidebar as it was.
pub proof fn law_double_click_restores(view: SidebarView, visible: bool)
    ensures
        ({
            let first = activity_click(view, visible, view);
            activity_click(first.0, first.1, view) == (view, visible)
        }),
{
}

/// Law: a click always leaves the clicked view current, and the sidebar
/// is hidden afterwards only when the click was on the current view while
/// it was shown.
pub proof fn law_click_shows_clicked(current: SidebarView, visible: bool, clicked: SidebarView)
    ensures
        activity_click(current, visible, clicked).0 == clicked,
        !activity_click(current, visible, clicked).1 <==> (clicked == current && visible),
{
}

} // verus!
