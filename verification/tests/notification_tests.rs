use app_builder::notification::{
    default_action, parse_action, DispatchOutcome, NotificationItem, NotificationManager, ScheduleAction,
    ScheduleRequest,
};
use app_builder::registry::ScheduledNotification;

fn now_ms() -> i64 {
    chrono::Utc::now().timestamp_millis()
}

fn item(id: Option<&str>, kind: Option<&str>, run_at: i64, msg: &str) -> NotificationItem {
    NotificationItem {
        id: id.map(|s| s.to_string()),
        kind: kind.map(|s| s.to_string()),
        run_at: Some(run_at),
        data: Some(msg_json(msg)),
    }
}

fn msg_json(msg: &str) -> String {
    let mut obj = serde_json::Map::new();
    obj.insert("msg".to_string(), serde_json::Value::String(msg.to_string()));
    serde_json::Value::Object(obj).to_string()
}

fn msg_of(n: &ScheduledNotification) -> String {
    let v: serde_json::Value = serde_json::from_str(&n.data).unwrap();
    v["msg"].as_str().unwrap().to_string()
}

#[test]
fn test_notification_scheduler() {
    let mut manager = NotificationManager::new(None, "scheduled_notifications.json".to_string(), false, 3, 60);
    let now = now_ms();

    // 1. Add
    let req = ScheduleRequest {
        action: "add".to_string(),
        key: "campaign_1".to_string(),
        items: vec![item(Some("item_1"), None, now + 5_000, "hello 1"), item(Some("item_2"), None, now + 10_000, "hello 2")],
    };
    let out = manager.process_request(req);
    assert_eq!(out.result.unwrap(), vec!["item_1".to_string(), "item_2".to_string()]);
    {
        let active = &manager.active_notifications;
        assert!(active.contains_group("campaign_1"));
        assert_eq!(active.group_len("campaign_1"), 2);
        assert_eq!(active.get("campaign_1", "item_1").unwrap().kind, "default");
        assert_eq!(active.get("campaign_1", "item_2").unwrap().kind, "default");
    }
    let saved = manager.save_to_disk();
    assert_eq!(saved.len(), 2);

    // 2. Update: item_1 changes, item_2 stays
    let req = ScheduleRequest {
        action: "update".to_string(),
        key: "campaign_1".to_string(),
        items: vec![item(Some("item_1"), Some("custom_type"), now + 20_000, "hello 1 updated")],
    };
    let out = manager.process_request(req);
    assert_eq!(out.result.unwrap(), vec!["item_1".to_string()]);
    {
        let active = &manager.active_notifications;
        assert_eq!(active.group_len("campaign_1"), 2);
        assert_eq!(msg_of(active.get("campaign_1", "item_1").unwrap()), "hello 1 updated");
        assert_eq!(active.get("campaign_1", "item_1").unwrap().kind, "custom_type");
        assert_eq!(msg_of(active.get("campaign_1", "item_2").unwrap()), "hello 2");
        assert_eq!(active.get("campaign_1", "item_2").unwrap().kind, "default");
    }

    // 3. Update force: item_1 updated, item_3 added, item_2 dropped
    let req = ScheduleRequest {
        action: "update_force".to_string(),
        key: "campaign_1".to_string(),
        items: vec![
            item(Some("item_1"), None, now + 30_000, "hello 1 updated force"),
            item(Some("item_3"), None, now + 40_000, "hello 3"),
        ],
    };
    let out = manager.process_request(req);
    assert_eq!(out.result.unwrap(), vec!["item_1".to_string(), "item_3".to_string()]);
    assert_eq!(out.cancelled.len(), 1);
    assert_eq!(out.cancelled[0].id, "item_2");
    {
        let active = &manager.active_notifications;
        assert_eq!(active.group_len("campaign_1"), 2);
        assert!(active.get("campaign_1", "item_1").is_some());
        assert!(active.get("campaign_1", "item_2").is_none());
        assert!(active.get("campaign_1", "item_3").is_some());
    }

    // 4. Delete
    let req = ScheduleRequest { action: "delete".to_string(), key: "campaign_1".to_string(), items: vec![] };
    let out = manager.process_request(req);
    assert_eq!(out.result.unwrap(), vec!["Cancelled all notifications under key campaign_1".to_string()]);
    assert!(!manager.active_notifications.contains_group("campaign_1"));
}

#[test]
fn test_notification_retry() {
    let mut manager = NotificationManager::new(
        Some("http://invalid-url-for-test.test".to_string()),
        "scheduled_notifications.json".to_string(),
        true,
        3,
        5,
    );
    let item = ScheduledNotification {
        id: "retry_item".to_string(),
        key: "campaign_retry".to_string(),
        kind: "default".to_string(),
        run_at: now_ms() - 5_000,
        data: msg_json("test retry"),
        attempts: 0,
    };
    manager.schedule(item.clone());
    // Delivery to the invalid URL fails.
    let outcome = manager.dispatch(item, false).unwrap();
    assert!(matches!(outcome, DispatchOutcome::Retry { .. }));
    let active = &manager.active_notifications;
    assert!(active.contains_group("campaign_retry"), "Should still have the group since it failed and is retrying");
    let n = active.get("campaign_retry", "retry_item").expect("Should still have the item");
    assert_eq!(n.attempts, 1);
    assert!(n.run_at > now_ms());
}

fn note(key: &str, id: &str, attempts: u32) -> ScheduledNotification {
    ScheduledNotification {
        id: id.to_string(),
        key: key.to_string(),
        kind: "default".to_string(),
        run_at: 1_000,
        data: "{}".to_string(),
        attempts,
    }
}

#[test]
fn dispatch_at_retries_then_gives_up() {
    let mut m = NotificationManager::new(Some("http://x".to_string()), "p".to_string(), true, 3, 60);
    m.schedule(note("g", "a", 0));
    match m.dispatch_at(note("g", "a", 0), false, 10_000) {
        DispatchOutcome::Retry { item } => {
            assert_eq!(item.attempts, 1);
            assert_eq!(item.run_at, 70_000);
        }
        _ => panic!("expected a retry"),
    }
    assert_eq!(m.active_notifications.get("g", "a").unwrap().attempts, 1);
    match m.dispatch_at(note("g", "a", 1), false, 70_000) {
        DispatchOutcome::Retry { item } => assert_eq!(item.attempts, 2),
        _ => panic!("expected a retry"),
    }
    match m.dispatch_at(note("g", "a", 2), false, 130_000) {
        DispatchOutcome::GaveUp { removed } => assert!(removed),
        _ => panic!("expected to give up"),
    }
    assert!(!m.active_notifications.contains_group("g"));
}

#[test]
fn dispatch_at_deletes_on_success_or_when_not_waiting() {
    let mut m = NotificationManager::new(None, "p".to_string(), true, 3, 60);
    m.schedule(note("g", "a", 0));
    assert!(matches!(m.dispatch_at(note("g", "a", 0), true, 0), DispatchOutcome::Deleted { removed: true }));
    assert_eq!(m.active_notifications.len(), 0);

    let mut m = NotificationManager::new(None, "p".to_string(), false, 3, 60);
    m.schedule(note("g", "a", 0));
    assert!(matches!(m.dispatch_at(note("g", "a", 0), false, 0), DispatchOutcome::Deleted { removed: true }));
    assert!(matches!(m.dispatch_at(note("g", "a", 0), false, 0), DispatchOutcome::Deleted { removed: false }));
}

#[test]
fn request_with_blank_key_is_refused() {
    let mut m = NotificationManager::new(None, "p".to_string(), false, 3, 60);
    let out = m.process_request(ScheduleRequest { action: "add".to_string(), key: "  \t".to_string(), items: vec![] });
    assert_eq!(out.result.unwrap_err(), "Group key is required");
}

#[test]
fn request_with_unknown_action_is_refused() {
    let mut m = NotificationManager::new(None, "p".to_string(), false, 3, 60);
    let out = m.process_request(ScheduleRequest { action: "Frobnicate".to_string(), key: "k".to_string(), items: vec![] });
    assert_eq!(out.result.unwrap_err(), "Unknown action: frobnicate");
}

#[test]
fn action_is_case_insensitive_and_key_is_trimmed() {
    let mut m = NotificationManager::new(None, "p".to_string(), false, 3, 60);
    let out = m.process_request(ScheduleRequest {
        action: "ADD".to_string(),
        key: "  group ".to_string(),
        items: vec![item(Some("x"), None, 5, "m")],
    });
    assert_eq!(out.result.unwrap(), vec!["x".to_string()]);
    assert!(m.active_notifications.get("group", "x").is_some());
}

#[test]
fn add_without_id_gets_a_uuid() {
    let mut m = NotificationManager::new(None, "p".to_string(), false, 3, 60);
    let out = m.process_request(ScheduleRequest {
        action: "add".to_string(),
        key: "k".to_string(),
        items: vec![item(None, None, 5, "m")],
    });
    let ids = out.result.unwrap();
    assert_eq!(ids.len(), 1);
    assert_eq!(ids[0].len(), 36);
    assert!(uuid::Uuid::parse_str(&ids[0]).is_ok());
    let chars: Vec<char> = ids[0].chars().collect();
    assert_eq!(chars[14], '4');
    assert!(matches!(chars[19], '8' | '9' | 'a' | 'b'));
}

#[test]
fn add_stops_at_first_refused_item() {
    let mut m = NotificationManager::new(None, "p".to_string(), false, 3, 60);
    let mut bad = item(Some("b"), None, 5, "m");
    bad.run_at = None;
    let out = m.process_request(ScheduleRequest {
        action: "add".to_string(),
        key: "k".to_string(),
        items: vec![item(Some("a"), None, 5, "m"), bad, item(Some("c"), None, 5, "m")],
    });
    assert_eq!(out.result.unwrap_err(), "run_at is required for add");
    assert_eq!(out.scheduled.len(), 1);
    assert!(m.active_notifications.get("k", "a").is_some());
    assert!(m.active_notifications.get("k", "c").is_none());
}

#[test]
fn update_requires_id_and_data() {
    let mut m = NotificationManager::new(None, "p".to_string(), false, 3, 60);
    let out = m.process_request(ScheduleRequest {
        action: "update".to_string(),
        key: "k".to_string(),
        items: vec![item(None, None, 5, "m")],
    });
    assert_eq!(out.result.unwrap_err(), "id is required for update");
    let mut no_data = item(Some("a"), None, 5, "m");
    no_data.data = None;
    let out = m.process_request(ScheduleRequest { action: "update".to_string(), key: "k".to_string(), items: vec![no_data] });
    assert_eq!(out.result.unwrap_err(), "data is required for update");
}

#[test]
fn update_force_with_refused_item_changes_nothing() {
    let mut m = NotificationManager::new(None, "p".to_string(), false, 3, 60);
    m.schedule(note("k", "old", 0));
    let mut bad = item(Some("b"), None, 5, "m");
    bad.data = None;
    let out = m.process_request(ScheduleRequest {
        action: "update_force".to_string(),
        key: "k".to_string(),
        items: vec![item(Some("a"), None, 5, "m"), bad],
    });
    assert_eq!(out.result.unwrap_err(), "data is required for update_force");
    assert!(out.scheduled.is_empty() && out.cancelled.is_empty());
    assert!(m.active_notifications.get("k", "old").is_some());
    assert!(m.active_notifications.get("k", "a").is_none());
}

#[test]
fn cancel_reports_whether_slot_was_filled() {
    let mut m = NotificationManager::new(None, "p".to_string(), false, 3, 60);
    m.schedule(note("k", "a", 0));
    m.schedule(note("k", "b", 0));
    m.schedule(note("other", "a", 0));
    assert!(m.cancel("k".to_string(), "a".to_string()));
    assert!(!m.cancel("k".to_string(), "a".to_string()));
    assert_eq!(m.active_notifications.group_len("k"), 1);
    assert!(m.active_notifications.get("other", "a").is_some());
    let removed = m.cancel_group("k".to_string());
    assert_eq!(removed.len(), 1);
    assert_eq!(removed[0].id, "b");
    assert!(!m.active_notifications.contains_group("k"));
    assert!(m.active_notifications.contains_group("other"));
}

#[test]
fn schedule_replaces_same_slot() {
    let mut m = NotificationManager::new(None, "p".to_string(), false, 3, 60);
    assert!(!m.schedule(note("k", "a", 0)));
    assert!(m.schedule(note("k", "a", 2)));
    assert_eq!(m.active_notifications.len(), 1);
    assert_eq!(m.active_notifications.get("k", "a").unwrap().attempts, 2);
}

#[test]
fn saved_list_restores_the_same_notifications() {
    let mut m = NotificationManager::new(None, "p".to_string(), false, 3, 60);
    m.schedule(note("k", "a", 0));
    m.schedule(note("k", "b", 1));
    m.schedule(note("j", "a", 2));
    let saved = m.save_to_disk();
    let mut fresh = NotificationManager::new(None, "p".to_string(), false, 3, 60);
    fresh.load_and_reschedule(saved);
    let again = fresh.save_to_disk();
    let ids: Vec<(String, String, u32)> = again.iter().map(|n| (n.key.clone(), n.id.clone(), n.attempts)).collect();
    assert_eq!(
        ids,
        vec![("k".to_string(), "a".to_string(), 0), ("k".to_string(), "b".to_string(), 1), ("j".to_string(), "a".to_string(), 2)]
    );
}

#[test]
fn actions_parse() {
    assert_eq!(default_action(), "add");
    assert_eq!(parse_action("add"), Some(ScheduleAction::Add));
    assert_eq!(parse_action("update"), Some(ScheduleAction::Update));
    assert_eq!(parse_action("update_force"), Some(ScheduleAction::UpdateForce));
    assert_eq!(parse_action("delete"), Some(ScheduleAction::Delete));
    assert_eq!(parse_action("Delete"), None);
}

#[test]
fn scheduling_the_same_notification_twice_changes_nothing_more() {
    let mut m = NotificationManager::new(None, "p".to_string(), false, 3, 60);
    m.schedule(note("k", "a", 0));
    m.schedule(note("j", "b", 0));
    let once: Vec<(String, String)> = m.save_to_disk().iter().map(|n| (n.key.clone(), n.id.clone())).collect();
    m.schedule(note("j", "b", 0));
    let twice: Vec<(String, String)> = m.save_to_disk().iter().map(|n| (n.key.clone(), n.id.clone())).collect();
    assert_eq!(once, twice);
}

#[test]
fn without_callback_a_dispatch_counts_as_delivered() {
    let mut m = NotificationManager::new(None, "p".to_string(), true, 3, 60);
    m.schedule(note("g", "a", 0));
    assert!(matches!(m.dispatch_at(note("g", "a", 0), false, 0), DispatchOutcome::Deleted { removed: true }));
    assert_eq!(m.active_notifications.len(), 0);
    m.schedule(note("g", "b", 0));
    assert!(matches!(m.dispatch(note("g", "b", 0), false), Some(DispatchOutcome::Deleted { removed: true })));
    assert!(matches!(m.dispatch(note("g", "b", 0), false), Some(DispatchOutcome::Deleted { removed: false })));
}

#[test]
fn giving_up_reports_whether_the_slot_was_filled() {
    let mut m = NotificationManager::new(Some("http://x".to_string()), "p".to_string(), true, 1, 60);
    m.schedule(note("g", "a", 0));
    assert!(matches!(m.dispatch(note("g", "a", 0), false), Some(DispatchOutcome::GaveUp { removed: true })));
    assert!(matches!(m.dispatch(note("g", "a", 0), false), Some(DispatchOutcome::GaveUp { removed: false })));
}
