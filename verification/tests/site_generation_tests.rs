use bds_ui::tasks::{
    calendar_needed, check_project_metadata, check_project_open, failed_after_cancellation,
    rebuild_step, sections_to_render, starts_complete, GenerationRefusal, GenerationSection,
    RebuildStep, SiteGenerationKind,
};
use bds_ui::views::site_validation::SiteValidationState;

#[test]
fn generation_kind_prefers_validation_then_force() {
    assert_eq!(SiteGenerationKind::of_request(true, true), SiteGenerationKind::Validation);
    assert_eq!(SiteGenerationKind::of_request(true, false), SiteGenerationKind::Validation);
    assert_eq!(SiteGenerationKind::of_request(false, true), SiteGenerationKind::Forced);
    assert_eq!(SiteGenerationKind::of_request(false, false), SiteGenerationKind::Full);
}

#[test]
fn generation_group_and_section_keys() {
    assert_eq!(SiteGenerationKind::Full.group_name_key(), "engine.renderSiteGroup");
    assert_eq!(SiteGenerationKind::Forced.group_name_key(), "engine.forceRenderSiteGroup");
    assert_eq!(SiteGenerationKind::Validation.group_name_key(), "engine.applyValidationGroup");
    assert_eq!(GenerationSection::Core.label_key(), "engine.renderSiteCore");
    assert_eq!(GenerationSection::Date.label_key(), "engine.renderDateArchives");
}

#[test]
fn sections_are_rendered_once_in_queue_order() {
    let estimated = [
        GenerationSection::Date,
        GenerationSection::Core,
        GenerationSection::Tag,
        GenerationSection::Date,
    ];
    assert_eq!(
        sections_to_render(&estimated),
        vec![GenerationSection::Core, GenerationSection::Tag, GenerationSection::Date]
    );
    assert_eq!(sections_to_render(&[]), Vec::<GenerationSection>::new());
    assert_eq!(sections_to_render(&GenerationSection::all()), GenerationSection::all());
}

#[test]
fn calendar_only_for_validation_of_core_or_dates() {
    let core = [GenerationSection::Core];
    let dates = [GenerationSection::Single, GenerationSection::Date];
    let tags = [GenerationSection::Tag, GenerationSection::Category];
    assert!(calendar_needed(SiteGenerationKind::Validation, &core));
    assert!(calendar_needed(SiteGenerationKind::Validation, &dates));
    assert!(!calendar_needed(SiteGenerationKind::Validation, &tags));
    assert!(!calendar_needed(SiteGenerationKind::Full, &core));
    assert!(!calendar_needed(SiteGenerationKind::Forced, &dates));
}

#[test]
fn generation_requests_need_a_project_and_a_public_url() {
    assert_eq!(check_project_open(true, true), Ok(()));
    assert_eq!(check_project_open(false, true), Err(GenerationRefusal::NoProject));
    assert_eq!(check_project_open(true, false), Err(GenerationRefusal::NoProject));
    assert_eq!(
        check_project_metadata(&Err("bad json".to_string())),
        Err(GenerationRefusal::Metadata("bad json".to_string()))
    );
    assert_eq!(check_project_metadata(&Ok(None)), Err(GenerationRefusal::PublicUrlRequired));
    assert_eq!(
        check_project_metadata(&Ok(Some("  \t ".to_string()))),
        Err(GenerationRefusal::PublicUrlRequired)
    );
    assert_eq!(check_project_metadata(&Ok(Some(" https://example.com ".to_string()))), Ok(()));
    assert_eq!(GenerationRefusal::NoProject.notice_key(), Some("engine.generateSiteNoProject"));
    assert_eq!(GenerationRefusal::PublicUrlRequired.notice_key(), Some("engine.publicUrlRequired"));
    assert_eq!(GenerationRefusal::Metadata("x".to_string()).notice_key(), None);
}

#[test]
fn refused_validation_stops_applying() {
    let mut state = SiteValidationState::default();
    state.is_applying = true;
    state.on_generation_refused(SiteGenerationKind::Full, &GenerationRefusal::NoProject);
    assert!(state.is_applying);
    state.on_generation_refused(
        SiteGenerationKind::Validation,
        &GenerationRefusal::Metadata("unreadable".to_string()),
    );
    assert!(!state.is_applying);
    assert_eq!(state.error_message.as_deref(), Some("unreadable"));

    let mut state = SiteValidationState::default();
    state.is_applying = true;
    state.on_generation_refused(SiteGenerationKind::Validation, &GenerationRefusal::PublicUrlRequired);
    assert!(!state.is_applying);
    assert_eq!(state.error_message, None);
}

#[test]
fn cancelled_validation_stops_applying() {
    let mut state = SiteValidationState::default();
    state.is_applying = true;
    state.on_generation_cancelled(SiteGenerationKind::Forced);
    assert!(state.is_applying);
    state.on_generation_cancelled(SiteGenerationKind::Validation);
    assert!(!state.is_applying);
}

#[test]
fn task_progress_decisions() {
    assert!(starts_complete(0));
    assert!(!starts_complete(3));
    assert!(failed_after_cancellation(true, true));
    assert!(!failed_after_cancellation(true, false));
    assert!(!failed_after_cancellation(false, true));
}

#[test]
fn search_index_rebuild_waits_for_other_tasks() {
    assert_eq!(rebuild_step(false, false, 0, 0), RebuildStep::Ignore);
    assert_eq!(rebuild_step(true, true, 0, 0), RebuildStep::Ignore);
    assert_eq!(rebuild_step(true, false, 1, 0), RebuildStep::WaitForTasks);
    assert_eq!(rebuild_step(true, false, 0, 4), RebuildStep::WaitForTasks);
    assert_eq!(rebuild_step(true, false, 0, 0), RebuildStep::Start);
}

use bds_ui::tasks::{is_cancellable, status_label_key, TaskStatus};

#[test]
fn only_pending_or_running_tasks_without_a_request_can_be_cancelled() {
    assert!(is_cancellable(&TaskStatus::Pending, false));
    assert!(is_cancellable(&TaskStatus::Running, false));
    assert!(!is_cancellable(&TaskStatus::Running, true));
    assert!(!is_cancellable(&TaskStatus::Completed, false));
    assert!(!is_cancellable(&TaskStatus::Failed("x".into()), false));
    assert!(!is_cancellable(&TaskStatus::Cancelled, false));
}

#[test]
fn task_status_labels() {
    assert_eq!(status_label_key(&TaskStatus::Pending, false), "tasks.statusPending");
    assert_eq!(status_label_key(&TaskStatus::Running, false), "tasks.statusRunning");
    assert_eq!(status_label_key(&TaskStatus::Running, true), "tasks.statusCancelling");
    assert_eq!(status_label_key(&TaskStatus::Completed, true), "tasks.statusCompleted");
    assert_eq!(status_label_key(&TaskStatus::Failed("e".into()), false), "tasks.statusFailed");
    assert_eq!(status_label_key(&TaskStatus::Cancelled, false), "tasks.statusCancelled");
}
