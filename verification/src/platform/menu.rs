//! Actions of the native menu bar: their script names, label keys and
//! when they are enabled.

use vstd::prelude::*;
use crate::state::tabs::TabType;
use crate::text::str_eq;

verus! {

/// Every custom menu item that the application handles.
#[derive(Debug, Clone, Copy, PartialEq, Eq, Structural)]
pub enum MenuAction {
    NewPost,
    ImportMedia,
    Save,
    OpenInBrowser,
    OpenDataFolder,
    Find,
    Replace,
    EditPreferences,
    ViewPosts,
    ViewMedia,
    ToggleSidebar,
    TogglePanel,
    PublishSelected,
    PreviewPost,
    EditMenu,
    RebuildDatabase,
    ReindexText,
    RebuildEmbeddingIndex,
    FindDuplicates,
    MetadataDiff,
    RegenerateCalendar,
    ValidateTranslations,
    FillMissingTranslations,
    GenerateSitemap,
    ValidateSite,
    UploadSite,
    About,
    OpenDocumentation,
    ViewOnGitHub,
    ReportIssue,
}

/// Every action, in declaration order.
pub open spec fn all_actions_spec() -> Seq<MenuAction> {
    seq![
        MenuAction::NewPost,
        MenuAction::ImportMedia,
        MenuAction::Save,
        MenuAction::OpenInBrowser,
        MenuAction::OpenDataFolder,
        MenuAction::Find,
        MenuAction::Replace,
        MenuAction::EditPreferences,
        MenuAction::ViewPosts,
        MenuAction::ViewMedia,
        MenuAction::ToggleSidebar,
        MenuAction::TogglePanel,
        MenuAction::PublishSelected,
        MenuAction::PreviewPost,
        MenuAction::EditMenu,
        MenuAction::RebuildDatabase,
        MenuAction::ReindexText,
        MenuAction::RebuildEmbeddingIndex,
        MenuAction::FindDuplicates,
        MenuAction::MetadataDiff,
        MenuAction::RegenerateCalendar,
        MenuAction::ValidateTranslations,
        MenuAction::FillMissingTranslations,
        MenuAction::GenerateSitemap,
        MenuAction::ValidateSite,
        MenuAction::UploadSite,
        MenuAction::About,
        MenuAction::OpenDocumentation,
        MenuAction::ViewOnGitHub,
        MenuAction::ReportIssue,
    ]
}

/// The action a script name stands for.
pub open spec fn script_action(name: Seq<char>) -> Option<MenuAction> {
    if name == "new_post"@ {
        Some(MenuAction::NewPost)
    } else if name == "import_media"@ {
        Some(MenuAction::ImportMedia)
    } else if name == "save"@ {
        Some(MenuAction::Save)
    } else if name == "open_in_browser"@ {
        Some(MenuAction::OpenInBrowser)
    } else if name == "open_data_folder"@ {
        Some(MenuAction::OpenDataFolder)
    } else if name == "find"@ {
        Some(MenuAction::Find)
    } else if name == "replace"@ {
        Some(MenuAction::Replace)
    } else if name == "edit_preferences"@ {
        Some(MenuAction::EditPreferences)
    } else if name == "view_posts"@ {
        Some(MenuAction::ViewPosts)
    } else if name == "view_media"@ {
        Some(MenuAction::ViewMedia)
    } else if name == "toggle_sidebar"@ {
        Some(MenuAction::ToggleSidebar)
    } else if name == "toggle_panel"@ {
        Some(MenuAction::TogglePanel)
    } else if name == "publish_selected"@ {
        Some(MenuAction::PublishSelected)
    } else if name == "preview_post"@ {
        Some(MenuAction::PreviewPost)
    } else if name == "edit_menu"@ {
        Some(MenuAction::EditMenu)
    } else if name == "rebuild_database"@ {
        Some(MenuAction::RebuildDatabase)
    } else if name == "reindex_text"@ {
        Some(MenuAction::ReindexText)
    } else if name == "rebuild_embedding_index"@ {
        Some(MenuAction::RebuildEmbeddingIndex)
    } else if name == "find_duplicates"@ {
        Some(MenuAction::FindDuplicates)
    } else if name == "metadata_diff"@ {
        Some(MenuAction::MetadataDiff)
    } else if name == "regenerate_calendar"@ {
        Some(MenuAction::RegenerateCalendar)
    } else if name == "validate_translations"@ {
        Some(MenuAction::ValidateTranslations)
    } else if name == "fill_missing_translations"@ {
        Some(MenuAction::FillMissingTranslations)
    } else if name == "generate_sitemap"@ || name == "force_render_site"@ {
        Some(MenuAction::GenerateSitemap)
    } else if name == "validate_site"@ {
        Some(MenuAction::ValidateSite)
    } else if name == "upload_site"@ {
        Some(MenuAction::UploadSite)
    } else if name == "about"@ {
        Some(MenuAction::About)
    } else if name == "open_documentation"@ {
        Some(MenuAction::OpenDocumentation)
    } else if name == "view_on_github"@ {
        Some(MenuAction::ViewOnGitHub)
    } else if name == "report_issue"@ {
        Some(MenuAction::ReportIssue)
    } else {
        None
    }
}

/// The i18n key of each action's label.
pub open spec fn action_key(a: MenuAction) -> &'static str {
    match a {
        MenuAction::NewPost => "menu.item.newPost",
        MenuAction::ImportMedia => "menu.item.importMedia",
        MenuAction::Save => "menu.item.save",
        MenuAction::OpenInBrowser => "menu.item.openInBrowser",
        MenuAction::OpenDataFolder => "menu.item.openDataFolder",
        MenuAction::Find => "menu.item.find",
        MenuAction::Replace => "menu.item.replace",
        MenuAction::EditPreferences => "menu.item.editPreferences",
        MenuAction::ViewPosts => "menu.item.viewPosts",
        MenuAction::ViewMedia => "menu.item.viewMedia",
        MenuAction::ToggleSidebar => "menu.item.toggleSidebar",
        MenuAction::TogglePanel => "menu.item.togglePanel",
        MenuAction::PublishSelected => "menu.item.publishSelected",
        MenuAction::PreviewPost => "menu.item.previewPost",
        MenuAction::EditMenu => "menu.item.editMenu",
        MenuAction::RebuildDatabase => "menu.item.rebuildDatabase",
        MenuAction::ReindexText => "menu.item.reindexText",
        MenuAction::RebuildEmbeddingIndex => "menu.item.rebuildEmbeddingIndex",
        MenuAction::FindDuplicates => "menu.item.findDuplicates",
        MenuAction::MetadataDiff => "menu.item.metadataDiff",
        MenuAction::RegenerateCalendar => "menu.item.regenerateCalendar",
        MenuAction::ValidateTranslations => "menu.item.validateTranslations",
        MenuAction::FillMissingTranslations => "menu.item.fillMissingTranslations",
        MenuAction::GenerateSitemap => "menu.item.generateSitemap",
        MenuAction::ValidateSite => "menu.item.validateSite",
        MenuAction::UploadSite => "menu.item.uploadSite",
        MenuAction::About => "menu.item.about",
        MenuAction::OpenDocumentation => "menu.item.openDocumentation",
        MenuAction::ViewOnGitHub => "menu.item.viewOnGitHub",
        MenuAction::ReportIssue => "menu.item.reportIssue",
    }
}

impl MenuAction {
    /// Every action, in declaration order.
    pub fn all() -> (res: Vec<MenuAction>)
        ensures
            res@ == all_actions_spec(),
    {
        let mut v: Vec<MenuAction> = Vec::new();
        v.push(MenuAction::NewPost);
        v.push(MenuAction::ImportMedia);
        v.push(MenuAction::Save);
        v.push(MenuAction::OpenInBrowser);
        v.push(MenuAction::OpenDataFolder);
        v.push(MenuAction::Find);
        v.push(MenuAction::Replace);
        v.push(MenuAction::EditPreferences);
        v.push(MenuAction::ViewPosts);
        v.push(MenuAction::ViewMedia);
        v.push(MenuAction::ToggleSidebar);
        v.push(MenuAction::TogglePanel);
        v.push(MenuAction::PublishSelected);
        v.push(MenuAction::PreviewPost);
        v.push(MenuAction::EditMenu);
        v.push(MenuAction::RebuildDatabase);
        v.push(MenuAction::ReindexText);
        v.push(MenuAction::RebuildEmbeddingIndex);
        v.push(MenuAction::FindDuplicates);
        v.push(MenuAction::MetadataDiff);
        v.push(MenuAction::RegenerateCalendar);
        v.push(MenuAction::ValidateTranslations);
        v.push(MenuAction::FillMissingTranslations);
        v.push(MenuAction::GenerateSitemap);
        v.push(MenuAction::ValidateSite);
        v.push(MenuAction::UploadSite);
        v.push(MenuAction::About);
        v.push(MenuAction::OpenDocumentation);
        v.push(MenuAction::ViewOnGitHub);
        v.push(MenuAction::ReportIssue);
        assert(v@ =~= all_actions_spec());
        v
    }

    /// The action that a script names (`new_post`, `save`, ...).
    pub fn from_script_name(name: &str) -> (res: Option<Self>)
        ensures
            res == script_action(name@),
    {
        if str_eq(name, "new_post") {
            Some(MenuAction::NewPost)
        } else if str_eq(name, "import_media") {
            Some(MenuAction::ImportMedia)
        } else if str_eq(name, "save") {
            Some(MenuAction::Save)
        } else if str_eq(name, "open_in_browser") {
            Some(MenuAction::OpenInBrowser)
        } else if str_eq(name, "open_data_folder") {
            Some(MenuAction::OpenDataFolder)
        } else if str_eq(name, "find") {
            Some(MenuAction::Find)
        } else if str_eq(name, "replace") {
            Some(MenuAction::Replace)
        } else if str_eq(name, "edit_preferences") {
            Some(MenuAction::EditPreferences)
        } else if str_eq(name, "view_posts") {
            Some(MenuAction::ViewPosts)
        } else if str_eq(name, "view_media") {
            Some(MenuAction::ViewMedia)
        } else if str_eq(name, "toggle_sidebar") {
            Some(MenuAction::ToggleSidebar)
        } else if str_eq(name, "toggle_panel") {
            Some(MenuAction::TogglePanel)
        } else if str_eq(name, "publish_selected") {
            Some(MenuAction::PublishSelected)
        } else if str_eq(name, "preview_post") {
            Some(MenuAction::PreviewPost)
        } else if str_eq(name, "edit_menu") {
            Some(MenuAction::EditMenu)
        } else if str_eq(name, "rebuild_database") {
            Some(MenuAction::RebuildDatabase)
        } else if str_eq(name, "reindex_text") {
            Some(MenuAction::ReindexText)
        } else if str_eq(name, "rebuild_embedding_index") {
            Some(MenuAction::RebuildEmbeddingIndex)
        } else if str_eq(name, "find_duplicates") {
            Some(MenuAction::FindDuplicates)
        } else if str_eq(name, "metadata_diff") {
            Some(MenuAction::MetadataDiff)
        } else if str_eq(name, "regenerate_calendar") {
            Some(MenuAction::RegenerateCalendar)
        } else if str_eq(name, "validate_translations") {
            Some(MenuAction::ValidateTranslations)
        } else if str_eq(name, "fill_missing_translations") {
            Some(MenuAction::FillMissingTranslations)
        } else if str_eq(name, "generate_sitemap") || str_eq(name, "force_render_site") {
            Some(MenuAction::GenerateSitemap)
        } else if str_eq(name, "validate_site") {
            Some(MenuAction::ValidateSite)
        } else if str_eq(name, "upload_site") {
            Some(MenuAction::UploadSite)
        } else if str_eq(name, "about") {
            Some(MenuAction::About)
        } else if str_eq(name, "open_documentation") {
            Some(MenuAction::OpenDocumentation)
        } else if str_eq(name, "view_on_github") {
            Some(MenuAction::ViewOnGitHub)
        } else if str_eq(name, "report_issue") {
            Some(MenuAction::ReportIssue)
        } else {
            None
        }
    }

    /// The i18n key of this action's label.
    pub fn i18n_key(self) -> (res: &'static str)
        ensures
            res == action_key(self),
    {
        match self {
            MenuAction::NewPost => "menu.item.newPost",
            MenuAction::ImportMedia => "menu.item.importMedia",
            MenuAction::Save => "menu.item.save",
            MenuAction::OpenInBrowser => "menu.item.openInBrowser",
            MenuAction::OpenDataFolder => "menu.item.openDataFolder",
            MenuAction::Find => "menu.item.find",
            MenuAction::Replace => "menu.item.replace",
            MenuAction::EditPreferences => "menu.item.editPreferences",
            MenuAction::ViewPosts => "menu.item.viewPosts",
            MenuAction::ViewMedia => "menu.item.viewMedia",
            MenuAction::ToggleSidebar => "menu.item.toggleSidebar",
            MenuAction::TogglePanel => "menu.item.togglePanel",
            MenuAction::PublishSelected => "menu.item.publishSelected",
            MenuAction::PreviewPost => "menu.item.previewPost",
            MenuAction::EditMenu => "menu.item.editMenu",
            MenuAction::RebuildDatabase => "menu.item.rebuildDatabase",
            MenuAction::ReindexText => "menu.item.reindexText",
            MenuAction::RebuildEmbeddingIndex => "menu.item.rebuildEmbeddingIndex",
            MenuAction::FindDuplicates => "menu.item.findDuplicates",
            MenuAction::MetadataDiff => "menu.item.metadataDiff",
            MenuAction::RegenerateCalendar => "menu.item.regenerateCalendar",
            MenuAction::ValidateTranslations => "menu.item.validateTranslations",
            MenuAction::FillMissingTranslations => "menu.item.fillMissingTranslations",
            MenuAction::GenerateSitemap => "menu.item.generateSitemap",
            MenuAction::ValidateSite => "menu.item.validateSite",
            MenuAction::UploadSite => "menu.item.uploadSite",
            MenuAction::About => "menu.item.about",
            MenuAction::OpenDocumentation => "menu.item.openDocumentation",
            MenuAction::ViewOnGitHub => "menu.item.viewOnGitHub",
            MenuAction::ReportIssue => "menu.item.reportIssue",
        }
    }
}

/// Actions that stay disabled while interactions are blocked.
pub open spec fn blocked_while_busy(a: MenuAction) -> bool {
    match a {
        MenuAction::EditPreferences | MenuAction::ViewPosts | MenuAction::ViewMedia
        | MenuAction::ToggleSidebar | MenuAction::TogglePanel | MenuAction::About
        | MenuAction::OpenDocumentation | MenuAction::ViewOnGitHub | MenuAction::ReportIssue => false,
        _ => true,
    }
}

/// Actions that need an open project and nothing more.
pub open spec fn needs_project_only(a: MenuAction) -> bool {
    match a {
        MenuAction::NewPost | MenuAction::ImportMedia | MenuAction::OpenDataFolder
        | MenuAction::EditMenu | MenuAction::RebuildDatabase | MenuAction::ReindexText
        | MenuAction::RebuildEmbeddingIndex | MenuAction::FindDuplicates | MenuAction::MetadataDiff
        | MenuAction::RegenerateCalendar | MenuAction::ValidateTranslations
        | MenuAction::FillMissingTranslations | MenuAction::GenerateSitemap
        | MenuAction::ValidateSite => true,
        _ => false,
    }
}

/// Whether a menu action is enabled. While interactions are blocked only
/// navigation and help stay enabled; otherwise saving needs a savable tab,
/// find and replace a text editor, post actions a project and a post tab,
/// upload a project while online, and project actions a project.
pub open spec fn action_enabled_spec(
    action: MenuAction,
    has_project: bool,
    active_tab: Option<TabType>,
    offline: bool,
    interactions_enabled: bool,
) -> bool {
    if !interactions_enabled {
        !blocked_while_busy(action)
    } else {
        let post_tab = active_tab == Some(TabType::Post);
        let savable_tab = active_tab == Some(TabType::Post) || active_tab == Some(TabType::Media)
            || active_tab == Some(TabType::Templates) || active_tab == Some(TabType::Scripts);
        let text_editor = active_tab == Some(TabType::Post) || active_tab == Some(TabType::Templates)
            || active_tab == Some(TabType::Scripts);
        match action {
            MenuAction::Save => savable_tab,
            MenuAction::Find | MenuAction::Replace => text_editor,
            MenuAction::OpenInBrowser | MenuAction::PublishSelected | MenuAction::PreviewPost => has_project && post_tab,
            MenuAction::UploadSite => has_project && !offline,
            _ => if needs_project_only(action) { has_project } else { true },
        }
    }
}

/// Whether a menu action is enabled in the given application state.
pub fn action_enabled(
    action: MenuAction,
    has_project: bool,
    active_tab: Option<TabType>,
    offline: bool,
    interactions_enabled: bool,
) -> (res: bool)
    ensures
        res == action_enabled_spec(action, has_project, active_tab, offline, interactions_enabled),
{
    if !interactions_enabled {
        return match action {
            MenuAction::EditPreferences | MenuAction::ViewPosts | MenuAction::ViewMedia
            | MenuAction::ToggleSidebar | MenuAction::TogglePanel | MenuAction::About
            | MenuAction::OpenDocumentation | MenuAction::ViewOnGitHub | MenuAction::ReportIssue => true,
            _ => false,
        };
    }
    let post_tab = active_tab == Some(TabType::Post);
    let savable_tab = active_tab == Some(TabType::Post) || active_tab == Some(TabType::Media)
        || active_tab == Some(TabType::Templates) || active_tab == Some(TabType::Scripts);
    let text_editor = active_tab == Some(TabType::Post) || active_tab == Some(TabType::Templates)
        || active_tab == Some(TabType::Scripts);
    match action {
        MenuAction::Save => savable_tab,
        MenuAction::Find | MenuAction::Replace => text_editor,
        MenuAction::OpenInBrowser | MenuAction::PublishSelected | MenuAction::PreviewPost => has_project && post_tab,
        MenuAction::UploadSite => has_project && !offline,
        MenuAction::NewPost | MenuAction::ImportMedia | MenuAction::OpenDataFolder
        | MenuAction::EditMenu | MenuAction::RebuildDatabase | MenuAction::ReindexText
        | MenuAction::RebuildEmbeddingIndex | MenuAction::FindDuplicates | MenuAction::MetadataDiff
        | MenuAction::RegenerateCalendar | MenuAction::ValidateTranslations
        | MenuAction::FillMissingTranslations | MenuAction::GenerateSitemap
        | MenuAction::ValidateSite => has_project,
        _ => true,
    }
}

/// Law: without a project only the actions that need none are enabled, and
/// blocking interactions never enables an action that needs a project.
pub proof fn law_project_actions_need_project(action: MenuAction, active_tab: Option<TabType>, offline: bool, interactions_enabled: bool)
    ensures
        needs_project_only(action) ==> !action_enabled_spec(action, false, active_tab, offline, interactions_enabled),
        action == MenuAction::UploadSite ==> !action_enabled_spec(action, false, active_tab, offline, interactions_enabled),
{
}

/// Law: navigation and help actions are always enabled.
pub proof fn law_navigation_always_enabled(action: MenuAction, has_project: bool, active_tab: Option<TabType>, offline: bool, interactions_enabled: bool)
    ensures
        !blocked_while_busy(action) ==> action_enabled_spec(action, has_project, active_tab, offline, interactions_enabled),
{
}


/// A digest of a key that tells every action's key apart: its length and
/// two of its characters.
pub open spec fn key_digest(s: Seq<char>) -> (nat, char, Option<char>) {
    (s.len(), s[10], if s.len() > 14 { Some(s[14]) } else { None })
}

/// Law: every action has an i18n key of its own.
pub proof fn law_i18n_keys_unique(a: MenuAction, b: MenuAction)
    requires
        a != b,
    ensures
        action_key(a)@ != action_key(b)@,
{
    reveal_strlit("menu.item.newPost");
    reveal_strlit("menu.item.importMedia");
    reveal_strlit("menu.item.save");
    reveal_strlit("menu.item.openInBrowser");
    reveal_strlit("menu.item.openDataFolder");
    reveal_strlit("menu.item.find");
    reveal_strlit("menu.item.replace");
    reveal_strlit("menu.item.editPreferences");
    reveal_strlit("menu.item.viewPosts");
    reveal_strlit("menu.item.viewMedia");
    reveal_strlit("menu.item.toggleSidebar");
    reveal_strlit("menu.item.togglePanel");
    reveal_strlit("menu.item.publishSelected");
    reveal_strlit("menu.item.previewPost");
    reveal_strlit("menu.item.editMenu");
    reveal_strlit("menu.item.rebuildDatabase");
    reveal_strlit("menu.item.reindexText");
    reveal_strlit("menu.item.rebuildEmbeddingIndex");
    reveal_strlit("menu.item.findDuplicates");
    reveal_strlit("menu.item.metadataDiff");
    reveal_strlit("menu.item.regenerateCalendar");
    reveal_strlit("menu.item.validateTranslations");
    reveal_strlit("menu.item.fillMissingTranslations");
    reveal_strlit("menu.item.generateSitemap");
    reveal_strlit("menu.item.validateSite");
    reveal_strlit("menu.item.uploadSite");
    reveal_strlit("menu.item.about");
    reveal_strlit("menu.item.openDocumentation");
    reveal_strlit("menu.item.viewOnGitHub");
    reveal_strlit("menu.item.reportIssue");
    assert(key_digest(action_key(a)@) != key_digest(action_key(b)@));
}

// ---------------------------------------------------------------------------
// Menu bar layout
// ---------------------------------------------------------------------------

/// A key of a menu shortcut.
#[derive(Debug, Clone, Copy, PartialEq, Eq, Structural)]
pub enum MenuKey {
    B,
    F,
    H,
    I,
    J,
    L,
    N,
    P,
    R,
    S,
    U,
    V,
    Comma,
    Digit1,
    Digit2,
}

/// A menu shortcut: the platform's command key (Cmd on macOS, Ctrl
/// elsewhere), with Shift when `shift` holds, and `key`.
#[derive(Debug, Clone, Copy, PartialEq, Eq)]
pub struct Shortcut {
    pub shift: bool,
    pub key: MenuKey,
}

/// An item that the platform provides with its own label and behaviour.
#[derive(Debug, Clone, Copy, PartialEq, Eq, Structural)]
pub enum StandardItem {
    About,
    Services,
    Hide,
    HideOthers,
    ShowAll,
    Quit,
    CloseWindow,
    Undo,
    Redo,
    Cut,
    Copy,
    Paste,
    SelectAll,
    Fullscreen,
}

/// An entry of a menu group.
#[derive(Debug, Clone, Copy, PartialEq, Eq)]
pub enum MenuEntry {
    /// An application action, labelled by its i18n key, with its shortcut.
    Action(MenuAction, Option<Shortcut>),
    /// An item the platform provides.
    Standard(StandardItem),
    Separator,
}

/// A menu of the menu bar: its title (an i18n key when `translated`, else
/// shown as it is) and its entries.
#[derive(Debug, Clone)]
pub struct MenuGroup {
    pub title: &'static str,
    pub translated: bool,
    pub entries: Vec<MenuEntry>,
}

/// An action without shortcut.
pub open spec fn plain(a: MenuAction) -> MenuEntry {
    MenuEntry::Action(a, None)
}

/// An action with the command key and `key`.
pub open spec fn cmd(a: MenuAction, key: MenuKey) -> MenuEntry {
    MenuEntry::Action(a, Some(Shortcut { shift: false, key }))
}

/// An action with the command key, Shift and `key`.
pub open spec fn cmd_shift(a: MenuAction, key: MenuKey) -> MenuEntry {
    MenuEntry::Action(a, Some(Shortcut { shift: true, key }))
}

/// A platform item.
pub open spec fn std_item(i: StandardItem) -> MenuEntry {
    MenuEntry::Standard(i)
}

/// The menu bar: the application menu, then File, Edit, View, Blog and Help.
pub open spec fn menu_layout_spec() -> Seq<(&'static str, bool, Seq<MenuEntry>)> {
    seq![
        ("bDS", false, seq![
            std_item(StandardItem::About),
            MenuEntry::Separator,
            std_item(StandardItem::Services),
            MenuEntry::Separator,
            std_item(StandardItem::Hide),
            std_item(StandardItem::HideOthers),
            std_item(StandardItem::ShowAll),
            MenuEntry::Separator,
            std_item(StandardItem::Quit),
        ]),
        ("menu.group.file", true, seq![
            cmd(MenuAction::NewPost, MenuKey::N),
            cmd(MenuAction::ImportMedia, MenuKey::I),
            cmd(MenuAction::Save, MenuKey::S),
            MenuEntry::Separator,
            plain(MenuAction::OpenInBrowser),
            plain(MenuAction::OpenDataFolder),
            MenuEntry::Separator,
            std_item(StandardItem::CloseWindow),
        ]),
        ("menu.group.edit", true, seq![
            std_item(StandardItem::Undo),
            std_item(StandardItem::Redo),
            MenuEntry::Separator,
            std_item(StandardItem::Cut),
            std_item(StandardItem::Copy),
            std_item(StandardItem::Paste),
            std_item(StandardItem::SelectAll),
            MenuEntry::Separator,
            cmd(MenuAction::Find, MenuKey::F),
            cmd(MenuAction::Replace, MenuKey::H),
            MenuEntry::Separator,
            cmd(MenuAction::EditPreferences, MenuKey::Comma),
        ]),
        ("menu.group.view", true, seq![
            cmd(MenuAction::ViewPosts, MenuKey::Digit1),
            cmd(MenuAction::ViewMedia, MenuKey::Digit2),
            MenuEntry::Separator,
            cmd(MenuAction::ToggleSidebar, MenuKey::B),
            cmd(MenuAction::TogglePanel, MenuKey::J),
            MenuEntry::Separator,
            std_item(StandardItem::Fullscreen),
        ]),
        ("menu.group.blog", true, seq![
            cmd_shift(MenuAction::PublishSelected, MenuKey::P),
            cmd_shift(MenuAction::PreviewPost, MenuKey::V),
            MenuEntry::Separator,
            plain(MenuAction::EditMenu),
            MenuEntry::Separator,
            plain(MenuAction::RebuildDatabase),
            plain(MenuAction::ReindexText),
            plain(MenuAction::RebuildEmbeddingIndex),
            plain(MenuAction::FindDuplicates),
            plain(MenuAction::MetadataDiff),
            MenuEntry::Separator,
            plain(MenuAction::RegenerateCalendar),
            plain(MenuAction::ValidateTranslations),
            plain(MenuAction::FillMissingTranslations),
            MenuEntry::Separator,
            cmd(MenuAction::GenerateSitemap, MenuKey::R),
            cmd_shift(MenuAction::ValidateSite, MenuKey::L),
            cmd_shift(MenuAction::UploadSite, MenuKey::U),
        ]),
        ("menu.group.help", true, seq![
            plain(MenuAction::About),
            MenuEntry::Separator,
            plain(MenuAction::OpenDocumentation),
            plain(MenuAction::ViewOnGitHub),
            plain(MenuAction::ReportIssue),
        ]),
    ]
}

/// A group as its title, whether the title is translated, and its entries.
pub open spec fn group_view(g: MenuGroup) -> (&'static str, bool, Seq<MenuEntry>) {
    (g.title, g.translated, g.entries@)
}

/// The actions of `entries`, in order.
pub open spec fn entry_actions(entries: Seq<MenuEntry>) -> Seq<MenuAction>
    decreases entries.len(),
{
    if entries.len() == 0 {
        Seq::empty()
    } else {
        let rest = entry_actions(entries.drop_last());
        match entries.last() {
            MenuEntry::Action(a, _) => rest.push(a),
            _ => rest,
        }
    }
}

/// The actions of all groups, in order.
pub open spec fn layout_actions(groups: Seq<(&'static str, bool, Seq<MenuEntry>)>) -> Seq<MenuAction>
    decreases groups.len(),
{
    if groups.len() == 0 {
        Seq::empty()
    } else {
        layout_actions(groups.drop_last()) + entry_actions(groups.last().2)
    }
}

fn shortcut(a: MenuAction, shift: bool, key: MenuKey) -> (e: MenuEntry)
    ensures
        e == MenuEntry::Action(a, Some(Shortcut { shift, key })),
{
    MenuEntry::Action(a, Some(Shortcut { shift, key }))
}

/// The menu bar's layout: which menus, in what order, with which actions,
/// platform items, separators and shortcuts.
pub fn menu_layout() -> (groups: Vec<MenuGroup>)
    ensures
        groups@.map_values(|g: MenuGroup| group_view(g)) == menu_layout_spec(),
{
    let app = vec![
        MenuEntry::Standard(StandardItem::About),
        MenuEntry::Separator,
        MenuEntry::Standard(StandardItem::Services),
        MenuEntry::Separator,
        MenuEntry::Standard(StandardItem::Hide),
        MenuEntry::Standard(StandardItem::HideOthers),
        MenuEntry::Standard(StandardItem::ShowAll),
        MenuEntry::Separator,
        MenuEntry::Standard(StandardItem::Quit),
    ];
    let file = vec![
        shortcut(MenuAction::NewPost, false, MenuKey::N),
        shortcut(MenuAction::ImportMedia, false, MenuKey::I),
        shortcut(MenuAction::Save, false, MenuKey::S),
        MenuEntry::Separator,
        MenuEntry::Action(MenuAction::OpenInBrowser, None),
        MenuEntry::Action(MenuAction::OpenDataFolder, None),
        MenuEntry::Separator,
        MenuEntry::Standard(StandardItem::CloseWindow),
    ];
    let edit = vec![
        MenuEntry::Standard(StandardItem::Undo),
        MenuEntry::Standard(StandardItem::Redo),
        MenuEntry::Separator,
        MenuEntry::Standard(StandardItem::Cut),
        MenuEntry::Standard(StandardItem::Copy),
        MenuEntry::Standard(StandardItem::Paste),
        MenuEntry::Standard(StandardItem::SelectAll),
        MenuEntry::Separator,
        shortcut(MenuAction::Find, false, MenuKey::F),
        shortcut(MenuAction::Replace, false, MenuKey::H),
        MenuEntry::Separator,
        shortcut(MenuAction::EditPreferences, false, MenuKey::Comma),
    ];
    let view = vec![
        shortcut(MenuAction::ViewPosts, false, MenuKey::Digit1),
        shortcut(MenuAction::ViewMedia, false, MenuKey::Digit2),
        MenuEntry::Separator,
        shortcut(MenuAction::ToggleSidebar, false, MenuKey::B),
        shortcut(MenuAction::TogglePanel, false, MenuKey::J),
        MenuEntry::Separator,
        MenuEntry::Standard(StandardItem::Fullscreen),
    ];
    let blog = vec![
        shortcut(MenuAction::PublishSelected, true, MenuKey::P),
        shortcut(MenuAction::PreviewPost, true, MenuKey::V),
        MenuEntry::Separator,
        MenuEntry::Action(MenuAction::EditMenu, None),
        MenuEntry::Separator,
        MenuEntry::Action(MenuAction::RebuildDatabase, None),
        MenuEntry::Action(MenuAction::ReindexText, None),
        MenuEntry::Action(MenuAction::RebuildEmbeddingIndex, None),
        MenuEntry::Action(MenuAction::FindDuplicates, None),
        MenuEntry::Action(MenuAction::MetadataDiff, None),
        MenuEntry::Separator,
        MenuEntry::Action(MenuAction::RegenerateCalendar, None),
        MenuEntry::Action(MenuAction::ValidateTranslations, None),
        MenuEntry::Action(MenuAction::FillMissingTranslations, None),
        MenuEntry::Separator,
        shortcut(MenuAction::GenerateSitemap, false, MenuKey::R),
        shortcut(MenuAction::ValidateSite, true, MenuKey::L),
        shortcut(MenuAction::UploadSite, true, MenuKey::U),
    ];
    let help = vec![
        MenuEntry::Action(MenuAction::About, None),
        MenuEntry::Separator,
        MenuEntry::Action(MenuAction::OpenDocumentation, None),
        MenuEntry::Action(MenuAction::ViewOnGitHub, None),
        MenuEntry::Action(MenuAction::ReportIssue, None),
    ];
    let groups = vec![
        MenuGroup { title: "bDS", translated: false, entries: app },
        MenuGroup { title: "menu.group.file", translated: true, entries: file },
        MenuGroup { title: "menu.group.edit", translated: true, entries: edit },
        MenuGroup { title: "menu.group.view", translated: true, entries: view },
        MenuGroup { title: "menu.group.blog", translated: true, entries: blog },
        MenuGroup { title: "menu.group.help", translated: true, entries: help },
    ];
    assert(groups@.map_values(|g: MenuGroup| group_view(g)) =~= menu_layout_spec());
    groups
}

/// Law: the menu bar lists every action exactly once, in declaration
/// order, so each menu item maps to one action and back.
pub proof fn law_layout_lists_every_action_once()
    ensures
        layout_actions(menu_layout_spec()) == all_actions_spec(),
{
    let l = menu_layout_spec();
    reveal_with_fuel(layout_actions, 7);
    reveal_with_fuel(entry_actions, 19);
    assert(entry_actions(l[0].2) =~= Seq::<MenuAction>::empty());
    assert(entry_actions(l[1].2) =~= seq![
        MenuAction::NewPost, MenuAction::ImportMedia, MenuAction::Save, MenuAction::OpenInBrowser,
        MenuAction::OpenDataFolder,
    ]);
    assert(entry_actions(l[2].2) =~= seq![MenuAction::Find, MenuAction::Replace, MenuAction::EditPreferences]);
    assert(entry_actions(l[3].2) =~= seq![
        MenuAction::ViewPosts, MenuAction::ViewMedia, MenuAction::ToggleSidebar, MenuAction::TogglePanel,
    ]);
    assert(entry_actions(l[4].2) =~= seq![
        MenuAction::PublishSelected, MenuAction::PreviewPost, MenuAction::EditMenu, MenuAction::RebuildDatabase,
        MenuAction::ReindexText, MenuAction::RebuildEmbeddingIndex, MenuAction::FindDuplicates,
        MenuAction::MetadataDiff, MenuAction::RegenerateCalendar, MenuAction::ValidateTranslations,
        MenuAction::FillMissingTranslations, MenuAction::GenerateSitemap, MenuAction::ValidateSite,
        MenuAction::UploadSite,
    ]);
    assert(entry_actions(l[5].2) =~= seq![
        MenuAction::About, MenuAction::OpenDocumentation, MenuAction::ViewOnGitHub, MenuAction::ReportIssue,
    ]);
    assert(l.drop_last().drop_last().drop_last().drop_last().drop_last().drop_last() =~= Seq::<(&'static str, bool, Seq<MenuEntry>)>::empty());
    assert(layout_actions(l) =~= all_actions_spec());
}

} // verus!
