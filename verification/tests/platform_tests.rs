use bds_ui::components::native_edit::{command_queue, pop_command, queue_command, EditCommand};
use bds_ui::platform::lifecycle::{
    drain_lifecycle, four_char_code, lifecycle_channel, poll_lifecycle, LifecycleEvent,
    LifecycleMessage,
};
use bds_ui::platform::menu::{action_enabled, MenuAction};
use bds_ui::state::tabs::TabType;
use bds_ui::tasks::shorten_task_url;

#[test]
fn task_urls_stay_single_line_without_splitting_unicode() {
    assert_eq!(shorten_task_url("/short"), "/short");
    let shortened = shorten_task_url(&format!("/{}", "ä".repeat(80)));
    assert_eq!(shortened.chars().count(), 60);
    assert!(shortened.ends_with('…'));
}

#[test]
fn task_url_of_exactly_sixty_chars_is_kept() {
    let url = format!("/{}", "b".repeat(59));
    assert_eq!(shorten_task_url(&url), url);
    let longer = format!("/{}", "b".repeat(60));
    let short = shorten_task_url(&longer);
    assert_eq!(short, format!("/{}…", "b".repeat(58)));
}

#[test]
fn command_queue_preserves_edit_order() {
    let mut queue = command_queue();
    queue_command(&mut queue, EditCommand::Copy);
    queue_command(&mut queue, EditCommand::Paste);

    assert_eq!(pop_command(&mut queue), Some(EditCommand::Copy));
    assert_eq!(pop_command(&mut queue), Some(EditCommand::Paste));
    assert_eq!(pop_command(&mut queue), None);
}

#[test]
fn drains_cold_start_events_in_arrival_order() {
    let mut channel = lifecycle_channel();
    channel.send(LifecycleEvent::UrlOpen("ruds://new-post?title=One".into()));
    channel.send(LifecycleEvent::UrlOpen("ruds://new-post?title=Two".into()));

    let messages = drain_lifecycle(&mut channel);
    assert!(matches!(
        &messages[..],
        [LifecycleMessage::UrlOpenRequested(one), LifecycleMessage::UrlOpenRequested(two)]
            if one.ends_with("One") && two.ends_with("Two")
    ));
    assert!(poll_lifecycle(&mut channel).is_none());
}

#[test]
fn file_open_events_become_file_open_requests() {
    let mut channel = lifecycle_channel();
    channel.send(LifecycleEvent::FileOpen("/tmp/a.md".into()));
    assert!(matches!(
        poll_lifecycle(&mut channel),
        Some(LifecycleMessage::FileOpenRequested(path)) if path == "/tmp/a.md"
    ));
    assert!(drain_lifecycle(&mut channel).is_empty());
}

#[test]
fn four_char_codes_are_big_endian() {
    assert_eq!(four_char_code(*b"----"), 0x2d2d2d2d);
    assert_eq!(four_char_code(*b"GURL"), 0x4755524c);
}

#[test]
fn all_actions_have_unique_i18n_keys() {
    let mut seen = std::collections::HashSet::new();
    for action in MenuAction::all() {
        let key = action.i18n_key();
        assert!(seen.insert(key), "duplicate i18n key: {key}");
    }
}

#[test]
fn every_action_is_listed_once_and_round_trips_its_script_name() {
    let all = MenuAction::all();
    assert_eq!(all.len(), 30);
    assert_eq!(MenuAction::from_script_name("new_post"), Some(MenuAction::NewPost));
    assert_eq!(MenuAction::from_script_name("no_such_action"), None);
}

#[test]
fn enabled_state_follows_application_rules() {
    assert!(action_enabled(MenuAction::Save, true, Some(TabType::Media), false, true));
    assert!(!action_enabled(MenuAction::Find, true, Some(TabType::Media), false, true));
    assert!(action_enabled(MenuAction::FillMissingTranslations, true, None, true, true));
    assert!(!action_enabled(MenuAction::UploadSite, true, None, true, true));
    assert!(!action_enabled(MenuAction::ReindexText, true, None, false, false));
    assert!(action_enabled(MenuAction::About, true, None, false, false));
}

#[test]
fn actions_that_need_a_project_are_disabled_without_one() {
    assert!(!action_enabled(MenuAction::PreviewPost, false, Some(TabType::Post), false, true));
    assert!(action_enabled(MenuAction::PreviewPost, true, Some(TabType::Post), false, true));
    assert!(action_enabled(MenuAction::Save, false, Some(TabType::Post), false, true));
    assert!(!action_enabled(MenuAction::Save, true, None, false, true));
    assert!(action_enabled(MenuAction::About, false, None, false, true));
}

use bds_ui::platform::script_host::{decode_host_call, HostRequest};

#[test]
fn desktop_handler_queues_supported_menu_actions() {
    let request = decode_host_call("trigger_menu_action", &[Some("new_post".to_string())]).unwrap();
    assert!(matches!(request, HostRequest::TriggerMenuAction(Some(MenuAction::NewPost))));
    let unknown = decode_host_call("trigger_menu_action", &[Some("nope".to_string())]).unwrap();
    assert!(matches!(unknown, HostRequest::TriggerMenuAction(None)));
}

#[test]
fn host_calls_check_their_string_arguments() {
    assert_eq!(decode_host_call("copy_to_clipboard", &[]).unwrap_err(), "argument 1 must be a string");
    assert_eq!(decode_host_call("open_folder", &[None]).unwrap_err(), "argument 1 must be a string");
    assert!(matches!(
        decode_host_call("copy_to_clipboard", &[Some("x".into())]),
        Ok(HostRequest::CopyToClipboard(text)) if text == "x"
    ));
    assert!(matches!(decode_host_call("select_folder", &[]), Ok(HostRequest::SelectFolder(None))));
    assert!(matches!(decode_host_call("notify_renderer_ready", &[]), Ok(HostRequest::NotifyRendererReady)));
    assert_eq!(
        decode_host_call("format_disk", &[]).unwrap_err(),
        "unknown desktop shell capability: format_disk"
    );
}

use bds_ui::platform::menu::{menu_layout, MenuEntry, MenuKey, StandardItem};

#[test]
fn menu_bar_lists_every_action_once_with_its_shortcut() {
    let layout = menu_layout();
    let titles: Vec<&str> = layout.iter().map(|g| g.title).collect();
    assert_eq!(
        titles,
        vec!["bDS", "menu.group.file", "menu.group.edit", "menu.group.view", "menu.group.blog", "menu.group.help"]
    );
    assert!(!layout[0].translated && layout[1].translated);
    let actions: Vec<MenuAction> = layout
        .iter()
        .flat_map(|g| g.entries.iter())
        .filter_map(|e| match e {
            MenuEntry::Action(a, _) => Some(*a),
            _ => None,
        })
        .collect();
    assert_eq!(actions, MenuAction::all());
    assert!(matches!(
        layout[4].entries[0],
        MenuEntry::Action(MenuAction::PublishSelected, Some(s)) if s.shift && s.key == MenuKey::P
    ));
    assert_eq!(layout[0].entries.last(), Some(&MenuEntry::Standard(StandardItem::Quit)));
}
