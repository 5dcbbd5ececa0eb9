use bds_ui::views::site_validation::{SiteValidationBody, SiteValidationState};

#[test]
fn fresh_validation_is_idle_and_cannot_apply() {
    let s = SiteValidationState::default();
    assert_eq!(s.body(), SiteValidationBody::Idle);
    assert!(!s.can_apply());
    assert!(s.can_run());
}

#[test]
fn issues_can_be_applied_unless_busy_or_failed() {
    let mut s = SiteValidationState { has_run: true, ..SiteValidationState::default() };
    assert_eq!(s.body(), SiteValidationBody::Clean);
    s.stale_files.push("index.html".into());
    assert_eq!(s.body(), SiteValidationBody::Issues);
    assert!(s.can_apply());
    s.is_applying = true;
    assert!(!s.can_apply());
    s.is_applying = false;
    s.error_message = Some("boom".into());
    assert_eq!(s.body(), SiteValidationBody::Error);
    assert!(!s.can_apply());
    s.is_running = true;
    assert_eq!(s.body(), SiteValidationBody::Running);
    assert!(!s.can_run());
}
