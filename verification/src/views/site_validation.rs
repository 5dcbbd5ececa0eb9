//! The site validation tab: a comparison of the generated site with what
//! it should hold, and whether its fixes can be applied.

use vstd::prelude::*;

verus! {

/// State of the site validation tab.
#[derive(Debug, Clone)]
pub struct SiteValidationState {
    pub has_run: bool,
    pub is_running: bool,
    pub is_applying: bool,
    pub missing_files: Vec<String>,
    pub extra_files: Vec<String>,
    pub stale_files: Vec<String>,
    pub error_message: Option<String>,
}

/// What the tab shows below its buttons.
#[derive(Debug, Clone, Copy, PartialEq, Eq, Structural)]
pub enum SiteValidationBody {
    /// A validation is running.
    Running,
    /// The last validation failed with `error_message`.
    Error,
    /// No validation has run yet.
    Idle,
    /// The site matches.
    Clean,
    /// The lists of missing, extra and stale files that are not empty.
    Issues,
}

impl SiteValidationState {
    /// Some file is missing, extra or stale.
    pub open spec fn issues(&self) -> bool {
        self.missing_files@.len() > 0 || self.extra_files@.len() > 0 || self.stale_files@.len() > 0
    }

    /// Whether the last validation found files to fix.
    pub fn has_issues(&self) -> (res: bool)
        ensures
            res == self.issues(),
    {
        self.missing_files.len() > 0 || self.extra_files.len() > 0 || self.stale_files.len() > 0
    }

    /// Whether the fixes can be applied: not while applying or running,
    /// not after an error, and only when there are issues.
    pub fn can_apply(&self) -> (res: bool)
        ensures
            res == (!self.is_applying && !self.is_running && self.error_message is None && self.issues()),
    {
        !self.is_applying && !self.is_running && self.error_message.is_none() && self.has_issues()
    }

    /// Whether a validation can be started: not while one runs.
    pub fn can_run(&self) -> (res: bool)
        ensures
            res == !self.is_running,
    {
        !self.is_running
    }

    /// What the tab shows: the running notice, the error, the idle hint,
    /// the clean notice or the issues, in that order of precedence.
    pub fn body(&self) -> (res: SiteValidationBody)
        ensures
            res == (if self.is_running {
                SiteValidationBody::Running
            } else if self.error_message is Some {
                SiteValidationBody::Error
            } else if !self.has_run {
                SiteValidationBody::Idle
            } else if !self.issues() {
                SiteValidationBody::Clean
            } else {
                SiteValidationBody::Issues
            }),
    {
        if self.is_running {
            SiteValidationBody::Running
        } else if self.error_message.is_some() {
            SiteValidationBody::Error
        } else if !self.has_run {
            SiteValidationBody::Idle
        } else if !self.has_issues() {
            SiteValidationBody::Clean
        } else {
            SiteValidationBody::Issues
        }
    }
}

impl Default for SiteValidationState {
    fn default() -> (s: Self)
        ensures
            !s.has_run,
            !s.is_running,
            !s.is_applying,
            s.missing_files@.len() == 0,
            s.extra_files@.len() == 0,
            s.stale_files@.len() == 0,
            s.error_message is None,
    {
        SiteValidationState {
            has_run: false,
            is_running: false,
            is_applying: false,
            missing_files: Vec::new(),
            extra_files: Vec::new(),
            stale_files: Vec::new(),
            error_message: None,
        }
    }
}

} // verus!
