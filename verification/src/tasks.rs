//! Background task helpers.

use vstd::prelude::*;
use crate::text::{take_seq, trim_seq, trim_to_chars};
use crate::views::sidebar::{truncate_with, truncated};
use crate::views::site_validation::SiteValidationState;

verus! {

/// Longest task URL shown in full in a progress message.
pub const TASK_URL_MAX_CHARS: usize = 60;

/// A task URL kept on one line: cut to 59 characters and ended with `…`
/// when longer than 60.
pub fn shorten_task_url(url: &str) -> (res: String)
    ensures
        res@ == truncated(url@, 60, 59, "\u{2026}"@),
{
    truncate_with(url, TASK_URL_MAX_CHARS, TASK_URL_MAX_CHARS - 1, "\u{2026}")
}

/// Law: a shortened URL never has more than 60 characters.
pub proof fn law_short_url_fits(url: Seq<char>)
    ensures
        truncated(url, 60, 59, "\u{2026}"@).len() <= 60,
{
    reveal_strlit("\u{2026}");
}

// ---------------------------------------------------------------------------
// Site generation
// ---------------------------------------------------------------------------

/// How a site generation was asked for.
#[derive(Debug, Clone, Copy, PartialEq, Eq, Structural)]
pub enum SiteGenerationKind {
    /// Every page whose sources changed.
    Full,
    /// Every page, changed or not.
    Forced,
    /// The fixes of a site validation report.
    Validation,
}

/// A generation that applies a validation report is a validation run;
/// otherwise it is forced when asked, else full.
pub open spec fn generation_kind(has_validation: bool, force: bool) -> SiteGenerationKind {
    if has_validation {
        SiteGenerationKind::Validation
    } else if force {
        SiteGenerationKind::Forced
    } else {
        SiteGenerationKind::Full
    }
}

/// The i18n key naming the task group of each kind of generation.
pub open spec fn group_name_key_of(kind: SiteGenerationKind) -> &'static str {
    match kind {
        SiteGenerationKind::Full => "engine.renderSiteGroup",
        SiteGenerationKind::Forced => "engine.forceRenderSiteGroup",
        SiteGenerationKind::Validation => "engine.applyValidationGroup",
    }
}

impl SiteGenerationKind {
    /// The kind of a generation asked for with or without a validation
    /// report, forced or not.
    pub fn of_request(has_validation: bool, force: bool) -> (kind: Self)
        ensures
            kind == generation_kind(has_validation, force),
    {
        if has_validation {
            SiteGenerationKind::Validation
        } else if force {
            SiteGenerationKind::Forced
        } else {
            SiteGenerationKind::Full
        }
    }

    /// The i18n key of the name of this generation's task group.
    pub fn group_name_key(&self) -> (key: &'static str)
        ensures
            key == group_name_key_of(*self),
    {
        match self {
            SiteGenerationKind::Full => "engine.renderSiteGroup",
            SiteGenerationKind::Forced => "engine.forceRenderSiteGroup",
            SiteGenerationKind::Validation => "engine.applyValidationGroup",
        }
    }
}

/// A section of the generated site; each is rendered by a task of its own.
#[derive(Debug, Clone, Copy, PartialEq, Eq, Structural)]
pub enum GenerationSection {
    Core,
    Single,
    Category,
    Tag,
    Date,
}

/// The i18n key of the task label of each section.
pub open spec fn section_label_key_of(section: GenerationSection) -> &'static str {
    match section {
        GenerationSection::Core => "engine.renderSiteCore",
        GenerationSection::Single => "engine.renderSinglePosts",
        GenerationSection::Category => "engine.renderCategoryArchives",
        GenerationSection::Tag => "engine.renderTagArchives",
        GenerationSection::Date => "engine.renderDateArchives",
    }
}

/// The sections in the order in which their tasks are queued.
pub open spec fn all_sections() -> Seq<GenerationSection> {
    seq![
        GenerationSection::Core,
        GenerationSection::Single,
        GenerationSection::Category,
        GenerationSection::Tag,
        GenerationSection::Date,
    ]
}

/// `[section]` when `chosen` holds it, else nothing.
pub open spec fn if_chosen(chosen: Seq<GenerationSection>, section: GenerationSection) -> Seq<GenerationSection> {
    if chosen.contains(section) {
        seq![section]
    } else {
        Seq::empty()
    }
}

/// The sections of `chosen`, each once, in queueing order.
pub open spec fn in_queue_order(chosen: Seq<GenerationSection>) -> Seq<GenerationSection> {
    if_chosen(chosen, GenerationSection::Core) + if_chosen(chosen, GenerationSection::Single)
        + if_chosen(chosen, GenerationSection::Category) + if_chosen(chosen, GenerationSection::Tag)
        + if_chosen(chosen, GenerationSection::Date)
}

impl GenerationSection {
    /// Every section, in queueing order.
    pub fn all() -> (v: Vec<Self>)
        ensures
            v@ == all_sections(),
    {
        vec![
            GenerationSection::Core,
            GenerationSection::Single,
            GenerationSection::Category,
            GenerationSection::Tag,
            GenerationSection::Date,
        ]
    }

    /// The i18n key of this section's task label.
    pub fn label_key(&self) -> (key: &'static str)
        ensures
            key == section_label_key_of(*self),
    {
        match self {
            GenerationSection::Core => "engine.renderSiteCore",
            GenerationSection::Single => "engine.renderSinglePosts",
            GenerationSection::Category => "engine.renderCategoryArchives",
            GenerationSection::Tag => "engine.renderTagArchives",
            GenerationSection::Date => "engine.renderDateArchives",
        }
    }
}

/// Whether `sections` holds `section`.
pub fn holds_section(sections: &[GenerationSection], section: GenerationSection) -> (res: bool)
    ensures
        res == sections@.contains(section),
{
    let mut i: usize = 0;
    while i < sections.len()
        invariant
            i <= sections.len(),
            forall|j: int| 0 <= j < i ==> sections@[j] != section,
        decreases sections.len() - i,
    {
        if sections[i] == section {
            return true;
        }
        i = i + 1;
    }
    false
}

/// The sections that have a page estimate, each once, in queueing order:
/// the render tasks of a prepared generation.
pub fn sections_to_render(estimated: &[GenerationSection]) -> (res: Vec<GenerationSection>)
    ensures
        res@ == in_queue_order(estimated@),
{
    let mut res: Vec<GenerationSection> = Vec::new();
    let all = GenerationSection::all();
    let mut i: usize = 0;
    while i < all.len()
        invariant
            all@ == all_sections(),
            i <= all.len(),
            res@ == (if i >= 1 { if_chosen(estimated@, GenerationSection::Core) } else { Seq::empty() })
                + (if i >= 2 { if_chosen(estimated@, GenerationSection::Single) } else { Seq::empty() })
                + (if i >= 3 { if_chosen(estimated@, GenerationSection::Category) } else { Seq::empty() })
                + (if i >= 4 { if_chosen(estimated@, GenerationSection::Tag) } else { Seq::empty() })
                + (if i >= 5 { if_chosen(estimated@, GenerationSection::Date) } else { Seq::empty() }),
        decreases all.len() - i,
    {
        let section = all[i];
        if holds_section(estimated, section) {
            res.push(section);
        }
        i = i + 1;
    }
    res
}

/// Whether a generation must also regenerate the calendar: only a
/// validation run, and only when it renders the core or the date archives.
pub fn calendar_needed(kind: SiteGenerationKind, sections: &[GenerationSection]) -> (res: bool)
    ensures
        res == (kind == SiteGenerationKind::Validation && (sections@.contains(GenerationSection::Core)
            || sections@.contains(GenerationSection::Date))),
{
    kind == SiteGenerationKind::Validation && (holds_section(sections, GenerationSection::Core)
        || holds_section(sections, GenerationSection::Date))
}

/// Why a site generation was refused before any task started.
#[derive(Debug, Clone, PartialEq, Eq)]
pub enum GenerationRefusal {
    /// No project is open: `engine.generateSiteNoProject`.
    NoProject,
    /// The project's metadata could not be read; the reader's error text.
    Metadata(String),
    /// The project has no public URL: `engine.publicUrlRequired`.
    PublicUrlRequired,
}

impl GenerationRefusal {
    /// The i18n key of the notice shown for this refusal; none when the
    /// notice is the metadata reader's own error text.
    pub fn notice_key(&self) -> (key: Option<&'static str>)
        ensures
            key == (match self {
                GenerationRefusal::NoProject => Some("engine.generateSiteNoProject"),
                GenerationRefusal::Metadata(_) => None,
                GenerationRefusal::PublicUrlRequired => Some("engine.publicUrlRequired"),
            }),
    {
        match self {
            GenerationRefusal::NoProject => Some("engine.generateSiteNoProject"),
            GenerationRefusal::Metadata(_) => None,
            GenerationRefusal::PublicUrlRequired => Some("engine.publicUrlRequired"),
        }
    }
}

/// A public URL is usable when, trimmed, it is not empty.
pub open spec fn public_url_set(public_url: Option<Seq<char>>) -> bool {
    match public_url {
        Some(url) => trim_seq(url).len() > 0,
        None => false,
    }
}

/// The first check of a generation request: a data directory and an
/// active project must both be there.
pub fn check_project_open(has_data_dir: bool, has_project: bool) -> (res: Result<(), GenerationRefusal>)
    ensures
        res is Ok <==> (has_data_dir && has_project),
        res is Err ==> res == Err::<(), GenerationRefusal>(GenerationRefusal::NoProject),
{
    if has_data_dir && has_project {
        Ok(())
    } else {
        Err(GenerationRefusal::NoProject)
    }
}

/// The second check, on what reading the project's metadata gave: the
/// read must have succeeded and the public URL must be set.
pub fn check_project_metadata(metadata: &Result<Option<String>, String>) -> (res: Result<(), GenerationRefusal>)
    ensures
        match metadata {
            Err(error) => res == Err::<(), GenerationRefusal>(GenerationRefusal::Metadata(*error)),
            Ok(url) => if public_url_set(match url { Some(u) => Some(u@), None => None }) {
                res is Ok
            } else {
                res == Err::<(), GenerationRefusal>(GenerationRefusal::PublicUrlRequired)
            },
        },
{
    match metadata {
        Err(error) => Err(GenerationRefusal::Metadata(error.clone())),
        Ok(url) => {
            let usable = match url {
                Some(u) => trim_to_chars(u.as_str()).len() > 0,
                None => false,
            };
            if usable {
                Ok(())
            } else {
                Err(GenerationRefusal::PublicUrlRequired)
            }
        },
    }
}

impl SiteValidationState {
    /// What a refused generation does to the validation tab: a refused
    /// validation run stops applying, and a metadata error is shown there
    /// too; other kinds leave the tab as it was.
    pub fn on_generation_refused(&mut self, kind: SiteGenerationKind, refusal: &GenerationRefusal)
        ensures
            kind != SiteGenerationKind::Validation ==> *final(self) == *old(self),
            kind == SiteGenerationKind::Validation ==> {
                &&& !final(self).is_applying
                &&& final(self).has_run == old(self).has_run
                &&& final(self).is_running == old(self).is_running
                &&& final(self).missing_files == old(self).missing_files
                &&& final(self).extra_files == old(self).extra_files
                &&& final(self).stale_files == old(self).stale_files
                &&& final(self).error_message == (match refusal {
                    GenerationRefusal::Metadata(error) => Some(*error),
                    _ => old(self).error_message,
                })
            },
    {
        if kind == SiteGenerationKind::Validation {
            self.is_applying = false;
            match refusal {
                GenerationRefusal::Metadata(error) => {
                    self.error_message = Some(error.clone());
                },
                _ => {},
            }
        }
    }

    /// What cancelling a generation does to the validation tab: a cancelled
    /// validation run stops applying; nothing else changes.
    pub fn on_generation_cancelled(&mut self, kind: SiteGenerationKind)
        ensures
            final(self).is_applying == (old(self).is_applying && kind != SiteGenerationKind::Validation),
            final(self).has_run == old(self).has_run,
            final(self).is_running == old(self).is_running,
            final(self).missing_files == old(self).missing_files,
            final(self).extra_files == old(self).extra_files,
            final(self).stale_files == old(self).stale_files,
            final(self).error_message == old(self).error_message,
    {
        if kind == SiteGenerationKind::Validation {
            self.is_applying = false;
        }
    }
}

/// Whether a section's render task starts out complete: when it has no
/// page to render.
pub fn starts_complete(page_work: usize) -> (res: bool)
    ensures
        res == (page_work == 0),
{
    page_work == 0
}

/// Whether a failed task is reported as cancelled: it failed after a
/// cancellation was requested.
pub fn failed_after_cancellation(cancellation_requested: bool, failed: bool) -> (res: bool)
    ensures
        res == (cancellation_requested && failed),
{
    cancellation_requested && failed
}

// ---------------------------------------------------------------------------
// Search index rebuild
// ---------------------------------------------------------------------------

/// What a request to rebuild the search index leads to.
#[derive(Debug, Clone, Copy, PartialEq, Eq, Structural)]
pub enum RebuildStep {
    /// No database is open or a rebuild already runs: nothing happens.
    Ignore,
    /// Other tasks are pending or running: the repair modal stays open and
    /// a warning asks to wait for them (`searchIndexRepair.waitForTasks`).
    WaitForTasks,
    /// The rebuild starts, behind the blocking progress modal.
    Start,
}

/// The step a rebuild request takes, from whether a database is open,
/// whether a rebuild runs and how many tasks are running and pending.
pub fn rebuild_step(has_db: bool, rebuild_running: bool, running: usize, pending: usize) -> (step: RebuildStep)
    ensures
        step == (if !has_db || rebuild_running {
            RebuildStep::Ignore
        } else if running > 0 || pending > 0 {
            RebuildStep::WaitForTasks
        } else {
            RebuildStep::Start
        }),
{
    if !has_db || rebuild_running {
        RebuildStep::Ignore
    } else if running > 0 || pending > 0 {
        RebuildStep::WaitForTasks
    } else {
        RebuildStep::Start
    }
}

// ---------------------------------------------------------------------------
// Task snapshots
// ---------------------------------------------------------------------------

/// Where a background task stands.
#[derive(Debug, Clone, PartialEq, Eq)]
pub enum TaskStatus {
    Pending,
    Running,
    Completed,
    /// The task failed with this error text.
    Failed(String),
    Cancelled,
}

/// Whether the task list offers to cancel a task: it is pending or
/// running, and no cancellation was requested yet.
pub fn is_cancellable(status: &TaskStatus, cancellation_requested: bool) -> (res: bool)
    ensures
        res == ((*status is Pending || *status is Running) && !cancellation_requested),
{
    match status {
        TaskStatus::Pending | TaskStatus::Running => !cancellation_requested,
        _ => false,
    }
}

/// The i18n key of a task's status label; a running task whose
/// cancellation was requested shows as cancelling. The failed label takes
/// the error text as its `error` parameter.
pub fn status_label_key(status: &TaskStatus, cancellation_requested: bool) -> (key: &'static str)
    ensures
        key == (match *status {
            TaskStatus::Pending => "tasks.statusPending",
            TaskStatus::Running => if cancellation_requested {
                "tasks.statusCancelling"
            } else {
                "tasks.statusRunning"
            },
            TaskStatus::Completed => "tasks.statusCompleted",
            TaskStatus::Failed(_) => "tasks.statusFailed",
            TaskStatus::Cancelled => "tasks.statusCancelled",
        }),
{
    match status {
        TaskStatus::Pending => "tasks.statusPending",
        TaskStatus::Running => if cancellation_requested {
            "tasks.statusCancelling"
        } else {
            "tasks.statusRunning"
        },
        TaskStatus::Completed => "tasks.statusCompleted",
        TaskStatus::Failed(_) => "tasks.statusFailed",
        TaskStatus::Cancelled => "tasks.statusCancelled",
    }
}

} // verus!
