use hearth::payload::PresenceStatus;
use hearth::presence::{PresenceTracker, TypingTracker, AWAY_AFTER, PRESENCE_TTL, TYPING_TTL};

#[test]
fn typing_appears_and_clears() {
    let mut tracker = TypingTracker::new();
    assert!(tracker.active_typists("c1").is_empty());
    tracker.set_typing("c1", "bob", true);
    assert_eq!(tracker.active_typists("c1"), vec!["bob".to_string()]);
    tracker.set_typing("c1", "bob", false);
    assert!(tracker.active_typists("c1").is_empty());
}

#[test]
fn entries_expire() {
    let mut tracker = TypingTracker::with_ttl(1_000_000);
    tracker.set_typing_at("c1", "bob", true, 10);
    assert_eq!(tracker.active_typists_at("c1", 1_000_010), vec!["bob".to_string()]);
    assert!(tracker.active_typists_at("c1", 5_000_000).is_empty());
}

#[test]
fn typing_lasts_six_seconds_and_is_renewed() {
    let mut tracker = TypingTracker::new();
    tracker.set_typing_at("c1", "bob", true, 0);
    tracker.set_typing_at("c1", "ada", true, 0);
    tracker.set_typing_at("c2", "cara", true, 0);
    assert_eq!(tracker.active_typists_at("c1", TYPING_TTL), vec!["ada".to_string(), "bob".to_string()]);
    tracker.set_typing_at("c1", "bob", true, TYPING_TTL);
    assert_eq!(tracker.active_typists_at("c1", TYPING_TTL + 1), vec!["bob".to_string()]);
}

#[test]
fn presence_effective_and_expiry() {
    let mut tracker = PresenceTracker::new();
    assert_eq!(tracker.effective(true), PresenceStatus::Online);
    assert_eq!(tracker.effective(false), PresenceStatus::Offline);
    assert!(!tracker.set_manual(PresenceStatus::Offline));
    assert!(tracker.set_manual(PresenceStatus::Dnd));
    assert_eq!(tracker.effective(true), PresenceStatus::Dnd);

    tracker.peer_update("bob", PresenceStatus::Online);
    let peer = tracker.peer_status("bob");
    assert!(peer.fresh);
    assert_eq!(peer.status, PresenceStatus::Online);
    let ghost = tracker.peer_status("ghost");
    assert!(!ghost.fresh);
    assert_eq!(ghost.status, PresenceStatus::Offline);
    tracker.peer_update("mallory", PresenceStatus::Offline);
    assert!(!tracker.peer_status("mallory").fresh);
}

#[test]
fn idle_users_become_away_unless_dnd() {
    let mut tracker = PresenceTracker::new();
    assert!(tracker.set_manual_at(PresenceStatus::Online, 1_000));
    assert_eq!(tracker.effective_at(true, 1_000 + AWAY_AFTER), PresenceStatus::Online);
    assert_eq!(tracker.effective_at(true, 1_001 + AWAY_AFTER), PresenceStatus::Away);
    assert!(tracker.set_manual_at(PresenceStatus::Dnd, 2_000));
    assert_eq!(tracker.effective_at(true, 2_001 + AWAY_AFTER), PresenceStatus::Dnd);
    assert_eq!(tracker.manual(), PresenceStatus::Dnd);
}

#[test]
fn old_heartbeats_read_as_offline() {
    let mut tracker = PresenceTracker::new();
    tracker.peer_update_at("bob", PresenceStatus::Away, 5);
    tracker.peer_update_at("ada", PresenceStatus::Dnd, 5 + PRESENCE_TTL);
    assert!(tracker.peer_status_at("bob", 5 + PRESENCE_TTL).fresh);
    let stale = tracker.peer_status_at("bob", 6 + PRESENCE_TTL);
    assert!(!stale.fresh);
    assert_eq!(stale.status, PresenceStatus::Offline);
    let list = tracker.list_at(6 + PRESENCE_TTL);
    assert_eq!(list.len(), 2);
    assert_eq!(list[0].username, "ada");
    assert_eq!(list[0].status, PresenceStatus::Dnd);
    assert_eq!(list[1].username, "bob");
    tracker.prune_at(6 + 2 * PRESENCE_TTL);
    assert_eq!(tracker.list_at(6 + 2 * PRESENCE_TTL).len(), 1);
    tracker.peer_forget("ada");
    assert!(tracker.list().is_empty());
    tracker.activity();
    tracker.prune();
}

#[test]
fn presence_labels_parse() {
    assert_eq!(PresenceStatus::parse("dnd"), Some(PresenceStatus::Dnd));
    assert_eq!(PresenceStatus::parse("Do Not Disturb"), Some(PresenceStatus::Dnd));
    assert_eq!(PresenceStatus::parse("away"), Some(PresenceStatus::Away));
    assert_eq!(PresenceStatus::parse("offline"), None);
    assert_eq!(PresenceStatus::Online.label(), "online");
}

#[test]
fn disconnect_clears_user_everywhere() {
    let mut tracker = TypingTracker::new();
    tracker.set_typing("c1", "bob", true);
    tracker.set_typing("c2", "bob", true);
    tracker.clear_user("bob");
    assert!(tracker.active_typists("c1").is_empty());
    assert!(tracker.active_typists("c2").is_empty());
}

#[test]
fn trackers_start_empty() {
    let mut typing = TypingTracker::default();
    typing.set_typing_at("c1", "bob", true, 0);
    assert_eq!(typing.active_typists_at("c1", TYPING_TTL), vec!["bob".to_string()]);
    assert!(typing.active_typists_at("c1", TYPING_TTL + 1).is_empty());
    let presence = PresenceTracker::default();
    assert_eq!(presence.manual(), PresenceStatus::Online);
    assert!(presence.list().is_empty());
}

#[test]
fn typists_are_those_who_last_typed() {
    let mut tracker = TypingTracker::new();
    tracker.set_typing_at("c1", "cara", true, 0);
    tracker.set_typing_at("c1", "bob", true, 10);
    tracker.set_typing_at("c1", "ada", true, 10);
    tracker.set_typing_at("c2", "bob", false, 11);
    tracker.set_typing_at("c1", "ada", false, 12);
    tracker.set_typing_at("c1", "bob", true, 13);
    assert_eq!(tracker.active_typists_at("c1", TYPING_TTL), vec!["bob", "cara"]);
    assert_eq!(tracker.active_typists_at("c1", TYPING_TTL + 13), vec!["bob"]);
    tracker.set_typing_at("c1", "cara", true, TYPING_TTL + 14);
    tracker.clear_user("bob");
    assert_eq!(tracker.active_typists_at("c1", TYPING_TTL + 15), vec!["cara"]);
    assert!(tracker.active_typists_at("c1", 2 * TYPING_TTL + 15).is_empty());
}

#[test]
fn the_last_heartbeat_is_shown_and_pruning_hides_nothing() {
    let mut tracker = PresenceTracker::new();
    tracker.peer_update_at("cara", PresenceStatus::Online, 1);
    tracker.peer_update_at("bob", PresenceStatus::Online, 1);
    tracker.peer_update_at("bob", PresenceStatus::Dnd, 2 * PRESENCE_TTL);
    tracker.peer_update_at("bob", PresenceStatus::Offline, 2 * PRESENCE_TTL + 1);
    let now = 2 * PRESENCE_TTL + 2;
    let names = |list: Vec<hearth::presence::PeerPresence>| -> Vec<String> {
        list.into_iter().map(|p| p.username).collect()
    };
    assert_eq!(names(tracker.list_at(now)), vec!["bob", "cara"]);
    let shown = tracker.peer_status_at("bob", now);
    assert!(shown.fresh);
    assert_eq!(shown.status, PresenceStatus::Dnd);
    assert!(!tracker.peer_status_at("cara", now).fresh);
    tracker.prune_at(now);
    assert_eq!(names(tracker.list_at(now)), vec!["bob"]);
    assert_eq!(tracker.peer_status_at("bob", now).status, PresenceStatus::Dnd);
    let gone = tracker.peer_status_at("cara", now);
    assert!(!gone.fresh);
    assert_eq!(gone.status, PresenceStatus::Offline);
    tracker.peer_forget("bob");
    assert!(!tracker.peer_status_at("bob", now).fresh);
}
