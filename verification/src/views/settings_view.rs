//! Settings view: sections and the protected categories.

use vstd::prelude::*;
use crate::text::{copy_str, strs_view};

verus! {

/// A model the AI settings can choose.
#[derive(Debug, Clone)]
pub struct AiModelOption {
    pub id: String,
    pub label: String,
    pub supports_tools: bool,
    pub supports_vision: bool,
}

/// The AI settings as shown.
#[derive(Debug, Clone)]
pub struct AiModeViewState {
    pub endpoint_url: String,
    pub chat_model: String,
    pub title_model: String,
    pub image_model: String,
    pub api_key_input: String,
    pub api_key_configured: bool,
    pub model_options: Vec<AiModelOption>,
    pub chat_supports_tools: bool,
    pub image_supports_vision: bool,
}

/// Collapsible sections of the settings view.
#[derive(Debug, Clone, Copy, PartialEq, Eq, Structural)]
pub enum SettingsSection {
    Project,
    Editor,
    Content,
    AI,
    Technology,
    Publishing,
    Data,
    MCP,
}

/// A category row of the content settings.
#[derive(Debug, Clone)]
pub struct SettingsCategoryRow {
    pub name: String,
    pub title: String,
    pub render_in_lists: bool,
    pub show_title: bool,
    pub post_template_slug: String,
    pub list_template_slug: String,
    pub is_protected: bool,
}

/// The categories every project has, which cannot be removed.
pub open spec fn protected_categories() -> Seq<&'static str> {
    seq!["article", "aside", "page", "picture"]
}

/// The row of a protected category with default settings.
fn protected_row(name: &'static str) -> (row: SettingsCategoryRow)
    ensures
        row.name@ == name@,
        row.title@ == name@,
        row.render_in_lists,
        row.show_title,
        row.post_template_slug@.len() == 0,
        row.list_template_slug@.len() == 0,
        row.is_protected,
{
    SettingsCategoryRow {
        name: copy_str(name),
        title: copy_str(name),
        render_in_lists: true,
        show_title: true,
        post_template_slug: String::new(),
        list_template_slug: String::new(),
        is_protected: true,
    }
}

/// One row per protected category, in order, with default settings.
pub fn default_category_rows() -> (rows: Vec<SettingsCategoryRow>)
    ensures
        rows@.len() == 4,
        forall|i: int| 0 <= i < 4 ==> {
            &&& (#[trigger] rows@[i]).name@ == protected_categories()[i]@
            &&& rows@[i].title@ == protected_categories()[i]@
            &&& rows@[i].render_in_lists
            &&& rows@[i].show_title
            &&& rows@[i].post_template_slug@.len() == 0
            &&& rows@[i].list_template_slug@.len() == 0
            &&& rows@[i].is_protected
        },
{
    let mut rows: Vec<SettingsCategoryRow> = Vec::new();
    rows.push(protected_row("article"));
    rows.push(protected_row("aside"));
    rows.push(protected_row("page"));
    rows.push(protected_row("picture"));
    rows
}

/// The sections in display order.
pub open spec fn all_sections() -> Seq<SettingsSection> {
    seq![
        SettingsSection::Project,
        SettingsSection::Editor,
        SettingsSection::Content,
        SettingsSection::AI,
        SettingsSection::Technology,
        SettingsSection::Publishing,
        SettingsSection::Data,
        SettingsSection::MCP,
    ]
}

/// The navigation i18n key of each section.
pub open spec fn section_key(s: SettingsSection) -> &'static str {
    match s {
        SettingsSection::Project => "settings.nav.project",
        SettingsSection::Editor => "settings.nav.editor",
        SettingsSection::Content => "settings.nav.content",
        SettingsSection::AI => "settings.nav.ai",
        SettingsSection::Technology => "settings.nav.technology",
        SettingsSection::Publishing => "settings.nav.publishing",
        SettingsSection::Data => "settings.nav.data",
        SettingsSection::MCP => "settings.nav.mcp",
    }
}

impl SettingsSection {
    /// The sections in display order.
    pub fn all() -> (res: Vec<SettingsSection>)
        ensures
            res@ == all_sections(),
    {
        let mut v: Vec<SettingsSection> = Vec::new();
        v.push(SettingsSection::Project);
        v.push(SettingsSection::Editor);
        v.push(SettingsSection::Content);
        v.push(SettingsSection::AI);
        v.push(SettingsSection::Technology);
        v.push(SettingsSection::Publishing);
        v.push(SettingsSection::Data);
        v.push(SettingsSection::MCP);
        assert(v@ =~= all_sections());
        v
    }

    /// The navigation i18n key of this section.
    pub fn i18n_key(&self) -> (res: &'static str)
        ensures
            res == section_key(*self),
    {
        match self {
            SettingsSection::Project => "settings.nav.project",
            SettingsSection::Editor => "settings.nav.editor",
            SettingsSection::Content => "settings.nav.content",
            SettingsSection::AI => "settings.nav.ai",
            SettingsSection::Technology => "settings.nav.technology",
            SettingsSection::Publishing => "settings.nav.publishing",
            SettingsSection::Data => "settings.nav.data",
            SettingsSection::MCP => "settings.nav.mcp",
        }
    }
}

impl AiModeViewState {
    /// No endpoint, models or key, and no capabilities.
    pub open spec fn is_blank(&self) -> bool {
        &&& self.endpoint_url@.len() == 0
        &&& self.chat_model@.len() == 0
        &&& self.title_model@.len() == 0
        &&& self.image_model@.len() == 0
        &&& self.api_key_input@.len() == 0
        &&& !self.api_key_configured
        &&& self.model_options@.len() == 0
        &&& !self.chat_supports_tools
        &&& !self.image_supports_vision
    }
}

impl Default for AiModeViewState {
    fn default() -> (s: Self)
        ensures
            s.is_blank(),
    {
        AiModeViewState {
            endpoint_url: String::new(),
            chat_model: String::new(),
            title_model: String::new(),
            image_model: String::new(),
            api_key_input: String::new(),
            api_key_configured: false,
            model_options: Vec::new(),
            chat_supports_tools: false,
            image_supports_vision: false,
        }
    }
}

/// State of the settings view. The texts of the description and system
/// prompt editors are held as strings; the MCP proposals and agent rows,
/// which come from the engine, are kept beside it.
#[derive(Debug, Clone)]
pub struct SettingsViewState {
    pub search_query: String,
    pub collapsed: Vec<SettingsSection>,
    pub active_section: Option<SettingsSection>,
    pub project_name: String,
    pub project_description: String,
    pub data_path: String,
    pub public_url: String,
    pub main_language: String,
    pub blog_languages: Vec<String>,
    pub available_languages: Vec<String>,
    pub default_author: String,
    pub max_posts_per_page: String,
    pub image_import_concurrency: String,
    pub blogmark_category: String,
    pub default_mode: String,
    pub diff_view_style: String,
    pub wrap_long_lines: bool,
    pub hide_unchanged_regions: bool,
    pub categories: Vec<SettingsCategoryRow>,
    pub new_category_name: String,
    pub template_options: Vec<String>,
    pub ssh_mode: String,
    pub ssh_host: String,
    pub ssh_username: String,
    pub ssh_remote_path: String,
    pub online_ai: AiModeViewState,
    pub airplane_ai: AiModeViewState,
    pub system_prompt: String,
    pub semantic_similarity_enabled: bool,
    pub mcp_enabled: bool,
    pub mcp_running: bool,
    pub mcp_endpoint: String,
}

/// The languages a project can start with.
pub open spec fn default_available_languages() -> Seq<Seq<char>> {
    seq!["en"@, "de"@, "fr"@, "it"@, "es"@]
}

/// The sections in display order with `active` moved to the front.
pub open spec fn ordered_spec(active: Option<SettingsSection>) -> Seq<SettingsSection> {
    match active {
        Some(a) => {
            let i = section_index(a);
            seq![a] + all_sections().remove(i)
        },
        None => all_sections(),
    }
}

/// The sections of `s` other than `x`, in order.
pub open spec fn sections_without(s: Seq<SettingsSection>, x: SettingsSection) -> Seq<SettingsSection>
    decreases s.len(),
{
    if s.len() == 0 {
        s
    } else {
        let r = sections_without(s.drop_last(), x);
        if s.last() == x { r } else { r.push(s.last()) }
    }
}

/// Leaving one section out of the display order removes it at its position.
proof fn lemma_sections_without(x: SettingsSection)
    ensures
        sections_without(all_sections(), x) == all_sections().remove(section_index(x)),
{
    reveal_with_fuel(sections_without, 9);
    assert(sections_without(all_sections(), x) =~= all_sections().remove(section_index(x)));
}

/// The position of a section in display order.
pub open spec fn section_index(s: SettingsSection) -> int {
    match s {
        SettingsSection::Project => 0,
        SettingsSection::Editor => 1,
        SettingsSection::Content => 2,
        SettingsSection::AI => 3,
        SettingsSection::Technology => 4,
        SettingsSection::Publishing => 5,
        SettingsSection::Data => 6,
        SettingsSection::MCP => 7,
    }
}

impl Default for SettingsViewState {
    fn default() -> (s: Self)
        ensures
            s.search_query@.len() == 0,
            s.collapsed@.len() == 0,
            s.active_section is None,
            s.project_name@.len() == 0,
            s.project_description@.len() == 0,
            s.data_path@.len() == 0,
            s.public_url@.len() == 0,
            s.main_language@ == "en"@,
            strs_view(s.blog_languages@) == seq!["en"@],
            strs_view(s.available_languages@) == default_available_languages(),
            s.default_author@.len() == 0,
            s.max_posts_per_page@ == "50"@,
            s.image_import_concurrency@ == "4"@,
            s.blogmark_category@.len() == 0,
            s.default_mode@ == "markdown"@,
            s.diff_view_style@ == "inline"@,
            s.wrap_long_lines,
            !s.hide_unchanged_regions,
            s.categories@.len() == 4,
            forall|i: int| 0 <= i < 4 ==> {
                &&& (#[trigger] s.categories@[i]).name@ == protected_categories()[i]@
                &&& s.categories@[i].title@ == protected_categories()[i]@
                &&& s.categories@[i].render_in_lists
                &&& s.categories@[i].show_title
                &&& s.categories@[i].post_template_slug@.len() == 0
                &&& s.categories@[i].list_template_slug@.len() == 0
                &&& s.categories@[i].is_protected
            },
            s.new_category_name@.len() == 0,
            s.template_options@.len() == 0,
            s.ssh_mode@ == "rsync"@,
            s.ssh_host@.len() == 0,
            s.ssh_username@.len() == 0,
            s.ssh_remote_path@.len() == 0,
            s.online_ai.is_blank(),
            s.airplane_ai.is_blank(),
            s.system_prompt@.len() == 0,
            !s.semantic_similarity_enabled,
            !s.mcp_enabled,
            !s.mcp_running,
            s.mcp_endpoint@.len() == 0,
    {
        let mut blog: Vec<String> = Vec::new();
        blog.push(copy_str("en"));
        assert(strs_view(blog@) =~= seq!["en"@]);
        let mut available: Vec<String> = Vec::new();
        available.push(copy_str("en"));
        available.push(copy_str("de"));
        available.push(copy_str("fr"));
        available.push(copy_str("it"));
        available.push(copy_str("es"));
        assert(strs_view(available@) =~= default_available_languages());
        SettingsViewState {
            search_query: String::new(),
            collapsed: Vec::new(),
            active_section: None,
            project_name: String::new(),
            project_description: String::new(),
            data_path: String::new(),
            public_url: String::new(),
            main_language: copy_str("en"),
            blog_languages: blog,
            available_languages: available,
            default_author: String::new(),
            max_posts_per_page: copy_str("50"),
            image_import_concurrency: copy_str("4"),
            blogmark_category: String::new(),
            default_mode: copy_str("markdown"),
            diff_view_style: copy_str("inline"),
            wrap_long_lines: true,
            hide_unchanged_regions: false,
            categories: default_category_rows(),
            new_category_name: String::new(),
            template_options: Vec::new(),
            ssh_mode: copy_str("rsync"),
            ssh_host: String::new(),
            ssh_username: String::new(),
            ssh_remote_path: String::new(),
            online_ai: AiModeViewState::default(),
            airplane_ai: AiModeViewState::default(),
            system_prompt: String::new(),
            semantic_similarity_enabled: false,
            mcp_enabled: false,
            mcp_running: false,
            mcp_endpoint: String::new(),
        }
    }
}

impl SettingsViewState {
    /// Opens `section` alone: every other section is collapsed, the search
    /// is cleared and `section` becomes the active one.
    pub fn focus_section(&mut self, section: SettingsSection)
        ensures
            final(self).collapsed@ == all_sections().remove(section_index(section)),
            final(self).search_query@.len() == 0,
            final(self).active_section == Some(section),
            *final(self) == (SettingsViewState {
                collapsed: final(self).collapsed,
                search_query: final(self).search_query,
                active_section: final(self).active_section,
                ..*old(self)
            }),
    {
        let all = SettingsSection::all();
        let mut collapsed: Vec<SettingsSection> = Vec::new();
        let mut i: usize = 0;
        while i < all.len()
            invariant
                all@ == all_sections(),
                i <= all@.len(),
                collapsed@ == sections_without(all_sections().take(i as int), section),
            decreases all@.len() - i,
        {
            proof {
                assert(all_sections().take(i + 1).drop_last() =~= all_sections().take(i as int));
            }
            if all[i] != section {
                collapsed.push(all[i]);
            }
            i = i + 1;
        }
        assert(all_sections().take(8) =~= all_sections());
        proof {
            lemma_sections_without(section);
        }
        self.collapsed = collapsed;
        self.search_query = String::new();
        self.active_section = Some(section);
    }

    /// The sections in display order, the active one moved to the front.
    pub fn ordered_sections(&self) -> (res: Vec<SettingsSection>)
        ensures
            res@ == ordered_spec(self.active_section),
    {
        let mut sections = SettingsSection::all();
        match self.active_section {
            Some(active) => {
                let mut i: usize = 0;
                while i < sections.len() && sections[i] != active
                    invariant
                        sections@ == all_sections(),
                        i <= sections@.len(),
                        forall|k: int| 0 <= k < i ==> sections@[k] != active,
                    decreases sections@.len() - i,
                {
                    i = i + 1;
                }
                assert(i == section_index(active));
                let focused = sections.remove(i);
                sections.insert(0, focused);
                assert(sections@ =~= seq![active] + all_sections().remove(i as int));
            },
            None => {},
        }
        sections
    }
}

/// Law: the ordered sections list every section once, the active one first.
pub proof fn law_ordered_sections_permute(active: Option<SettingsSection>)
    ensures
        ordered_spec(active).len() == all_sections().len(),
        active matches Some(a) ==> ordered_spec(active)[0] == a,
        forall|s: SettingsSection| ordered_spec(active).contains(s),
{
    match active {
        Some(a) => {
            assert forall|s: SettingsSection| ordered_spec(active).contains(s) by {
                if s == a {
                    assert(ordered_spec(active)[0] == s);
                } else {
                    let i = section_index(s);
                    let j = section_index(a);
                    let k = if i < j { i + 1 } else { i };
                    assert(ordered_spec(active)[k] == s);
                }
            }
        },
        None => {
            assert forall|s: SettingsSection| ordered_spec(active).contains(s) by {
                assert(all_sections()[section_index(s)] == s);
            }
        },
    }
}

/// Law: every section is listed exactly once.
pub proof fn law_sections_listed_once(s: SettingsSection)
    ensures
        exists|i: int| 0 <= i < all_sections().len() && all_sections()[i] == s,
        forall|i: int, j: int|
            0 <= i < j < all_sections().len() ==> all_sections()[i] != all_sections()[j],
{
    match s {
        SettingsSection::Project => assert(all_sections()[0] == s),
        SettingsSection::Editor => assert(all_sections()[1] == s),
        SettingsSection::Content => assert(all_sections()[2] == s),
        SettingsSection::AI => assert(all_sections()[3] == s),
        SettingsSection::Technology => assert(all_sections()[4] == s),
        SettingsSection::Publishing => assert(all_sections()[5] == s),
        SettingsSection::Data => assert(all_sections()[6] == s),
        SettingsSection::MCP => assert(all_sections()[7] == s),
    }
}

} // verus!
