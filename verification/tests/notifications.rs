//! Notifications: the listing, browsing and what is done with them.

use tiny_dfr::notification_manager::REFRESH;
use tiny_dfr::NotificationManager;

const LISTING: &[u8] = br#"[
  {"id": 7, "app_name": "mail", "summary": "New", "body": "Hello", "actions": {"open": "Open", "arch": "Archive"}},
  {"id": 9, "app_name": "", "summary": "Low battery", "actions": {}},
  {"app_name": "no id"}
]"#;

fn listed() -> NotificationManager {
    NotificationManager::new(0, Some(LISTING.to_vec()), Some(b"default\ndo-not-disturb\n".to_vec()))
}

#[test]
fn navigation_requires_multiple_notifications() {
    assert!(!NotificationManager::with_count(0).can_navigate());
    assert!(!NotificationManager::with_count(1).can_navigate());
    assert!(NotificationManager::with_count(2).can_navigate());
}

#[test]
fn next_and_previous_clamp_to_available_notifications() {
    let mut mgr = NotificationManager::with_count(2);
    assert_eq!(mgr.current_text(), "app: summary 0");
    mgr.next();
    assert_eq!(mgr.current_text(), "app: summary 1");
    mgr.next();
    assert_eq!(mgr.current_text(), "app: summary 1");
    mgr.previous();
    assert_eq!(mgr.current_text(), "app: summary 0");
    mgr.previous();
    assert_eq!(mgr.current_text(), "app: summary 0");
}

#[test]
fn a_listing_is_read_and_entries_without_a_number_are_left_out() {
    let mgr = listed();
    assert_eq!(mgr.count_text(), "2");
    assert_eq!(mgr.current_text(), "mail: New: Hello");
    assert!(mgr.dnd_enabled());
    assert_eq!(mgr.dnd_text(), "DnD on");
    let labels: Vec<&str> = mgr.current_actions().iter().map(|a| a.label.as_str()).collect();
    assert_eq!(labels, ["Archive", "Open"]);
}

#[test]
fn what_is_no_listing_has_no_notifications() {
    let mgr = NotificationManager::new(0, Some(b"{}".to_vec()), None);
    assert_eq!(mgr.count_text(), "0");
    assert_eq!(mgr.current_text(), "No notifications");
    assert_eq!(mgr.dnd_text(), "DnD off");
    assert!(mgr.current_actions().is_empty());
    assert_eq!(NotificationManager::new(0, None, None).count_text(), "0");
    assert_eq!(NotificationManager::new(0, Some(b"[".to_vec()), None).count_text(), "0");
}

#[test]
fn a_listing_is_read_again_after_its_time() {
    let mut mgr = listed();
    mgr.next();
    assert!(!mgr.refresh_due(REFRESH - 1));
    assert!(!mgr.refresh(REFRESH - 1, None, None));
    assert_eq!(mgr.current_text(), "Low battery");
    assert!(mgr.refresh_due(REFRESH));
    let one = br#"[{"id": 1, "summary": "only"}]"#;
    assert!(mgr.refresh(REFRESH, Some(one.to_vec()), None));
    assert_eq!(mgr.current_text(), "only");
    assert!(!mgr.refresh(2 * REFRESH, Some(one.to_vec()), None));
}

#[test]
fn actions_name_the_notification_and_the_key() {
    let mgr = listed();
    let args = |v: Vec<&str>| Some(v.into_iter().map(str::to_string).collect::<Vec<_>>());
    assert_eq!(mgr.invoke_current(), args(vec!["invoke", "-n", "7"]));
    assert_eq!(mgr.invoke_action(0), args(vec!["invoke", "-n", "7", "arch"]));
    assert_eq!(mgr.invoke_action(1), args(vec!["invoke", "-n", "7", "open"]));
    assert_eq!(mgr.invoke_action(2), None);
    assert_eq!(mgr.dismiss_current(), args(vec!["dismiss", "-n", "7"]));
    assert_eq!(mgr.toggle_dnd(), vec!["mode", "-t", "do-not-disturb"]);

    let none = NotificationManager::with_count(0);
    assert_eq!(none.invoke_current(), None);
    assert_eq!(none.dismiss_current(), None);
}

#[test]
fn labels_become_keys_in_lower_case() {
    let mgr = NotificationManager::with_actions(&["Reply", "ÄB"]);
    let keys: Vec<String> = (0..2).map(|i| mgr.invoke_action(i).unwrap()[3].clone()).collect();
    assert_eq!(keys, ["reply", "äb"]);
}
