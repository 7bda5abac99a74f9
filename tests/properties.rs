use status_message::analytics::AnalyticsManager;
use status_message::history::StatusRecord;
use status_message::notifications::NotificationManager;
use status_message::social::SocialConnections;
use status_message::text::{fold_case, matches_folded};
use status_message::{StatusError, StatusMessage, NANOS_PER_HOUR};

fn s(x: &str) -> String {
    x.to_string()
}

#[test]
fn post_is_read_back_and_ends_history() {
    let mut c = StatusMessage::new();
    c.set_status(&s("carol"), 5, s("first"), Some(true), None).unwrap();
    c.set_status(&s("carol"), 9, s("second"), Some(true), None).unwrap();
    assert_eq!(Some(s("second")), c.get_status(1_000_000, s("carol")));
    let h = c.get_status_history(1_000_000, s("carol"));
    assert_eq!(2, h.len());
    assert_eq!(
        StatusRecord { message: s("second"), timestamp: 9, expires_at: None },
        h[1]
    );
}

#[test]
fn empty_message_is_rejected_and_changes_nothing() {
    let mut c = StatusMessage::new();
    c.set_status(&s("bob"), 0, s("kept"), Some(true), None).unwrap();
    assert_eq!(Err(StatusError::InvalidArgument), c.set_status(&s("bob"), 1, s(""), Some(false), Some(3)));
    assert_eq!(Some(s("kept")), c.get_status(1, s("bob")));
    assert_eq!(1, c.get_status_count(s("bob")));
    assert_eq!(1, c.get_public_statuses(1).len());
}

#[test]
fn one_hour_status_expires() {
    let mut c = StatusMessage::new();
    let now: u64 = 1_000;
    c.set_status(&s("bob"), now, s("brief"), Some(true), Some(1)).unwrap();
    assert_eq!(Some(s("brief")), c.get_status(now, s("bob")));
    assert_eq!(Some(s("brief")), c.get_status(now + NANOS_PER_HOUR, s("bob")));
    let later = now + NANOS_PER_HOUR + 1;
    assert_eq!(None, c.get_status(later, s("bob")));
    assert!(c.get_public_statuses(later).is_empty());
    assert!(c.get_status_history(later, s("bob")).is_empty());
    assert_eq!(1, c.get_status_count(s("bob")));
}

#[test]
fn zero_hours_means_no_expiry() {
    let mut c = StatusMessage::new();
    c.set_status(&s("bob"), 0, s("forever"), None, Some(0)).unwrap();
    assert_eq!(Some(s("forever")), c.get_status(u64::MAX, s("bob")));
    assert_eq!(1, c.get_public_statuses(0).len());
}

#[test]
fn sweep_evicts_expired_and_notifies() {
    let mut c = StatusMessage::new();
    c.set_status(&s("bob"), 0, s("short"), Some(true), Some(1)).unwrap();
    c.set_status(&s("ann"), 0, s("long"), Some(true), Some(5)).unwrap();
    c.cleanup_expired_statuses(2 * NANOS_PER_HOUR);
    assert_eq!(None, c.get_status(0, s("bob")));
    assert_eq!(Some(s("long")), c.get_status(0, s("ann")));
    assert_eq!(vec![s("Your status has expired")], c.get_notifications(&s("bob")));
    assert!(c.get_notifications(&s("ann")).is_empty());
    let listed = c.get_public_statuses(0);
    assert_eq!(vec![(s("ann"), s("long"))], listed);
    c.cleanup_expired_statuses(2 * NANOS_PER_HOUR);
    assert_eq!(1, c.get_notifications(&s("bob")).len());
    assert_eq!(1, c.get_status_count(s("bob")));
}

#[test]
fn private_post_leaves_public_index() {
    let mut c = StatusMessage::new();
    c.set_status(&s("bob"), 0, s("Public status"), Some(true), None).unwrap();
    c.set_status(&s("bob"), 0, s("Private status"), Some(false), None).unwrap();
    assert!(c.get_public_statuses(0).is_empty());
    assert_eq!(Some(s("Private status")), c.get_status(0, s("bob")));
}

#[test]
fn self_follow_fails() {
    let mut c = StatusMessage::new();
    assert_eq!(Err(StatusError::InvalidArgument), c.follow(&s("bob"), s("bob")));
    assert!(c.get_followers(s("bob")).is_empty());
    assert!(c.get_notifications(&s("bob")).is_empty());
}

#[test]
fn follow_then_unfollow_restores_followers() {
    let mut c = StatusMessage::new();
    c.follow(&s("ann"), s("bob")).unwrap();
    let before = c.get_followers(s("bob"));
    c.follow(&s("cid"), s("bob")).unwrap();
    c.unfollow(&s("cid"), s("bob"));
    assert_eq!(before, c.get_followers(s("bob")));
    c.unfollow(&s("zed"), s("bob"));
    assert_eq!(before, c.get_followers(s("bob")));
}

#[test]
fn repeated_follow_notifies_each_time() {
    let mut c = StatusMessage::new();
    c.follow(&s("ann"), s("bob")).unwrap();
    c.follow(&s("ann"), s("bob")).unwrap();
    assert_eq!(vec![s("ann")], c.get_followers(s("bob")));
    assert_eq!(
        vec![s("ann started following you"), s("ann started following you")],
        c.get_notifications(&s("bob"))
    );
    assert_eq!(vec![s("bob")], c.get_following(&s("ann")));
    assert!(c.get_following(&s("bob")).is_empty());
}

#[test]
fn first_reaction_wins() {
    let mut c = StatusMessage::new();
    c.add_reaction(&s("ann"), 3, s("bob"), s("like"));
    c.add_reaction(&s("ann"), 4, s("bob"), s("love"));
    c.add_reaction(&s("cid"), 5, s("bob"), s("like"));
    let r = c.get_reactions(s("bob"));
    assert_eq!(2, r.len());
    assert_eq!("ann", r[0].account_id);
    assert_eq!("like", r[0].reaction_type);
    assert_eq!(3, r[0].timestamp);
    assert_eq!(
        vec![s("ann reacted to your status"), s("cid reacted to your status")],
        c.get_notifications(&s("bob"))
    );
    assert_eq!(vec![(s("like"), 2)], c.get_reaction_counts(s("bob")));
}

#[test]
fn reaction_counts_by_kind() {
    let mut c = StatusMessage::new();
    c.add_reaction(&s("a"), 0, s("t"), s("like"));
    c.add_reaction(&s("b"), 0, s("t"), s("laugh"));
    c.add_reaction(&s("c"), 0, s("t"), s("like"));
    assert_eq!(vec![(s("like"), 2), (s("laugh"), 1)], c.get_reaction_counts(s("t")));
    assert!(c.get_reaction_counts(s("nobody")).is_empty());
}

#[test]
fn notifications_window_and_clear() {
    let mut c = StatusMessage::new();
    let mut i: u32 = 0;
    while i < 12 {
        c.add_notification(&s("bob"), format!("n{}", i));
        i += 1;
    }
    let got = c.get_notifications(&s("bob"));
    assert_eq!(10, got.len());
    assert_eq!("n2", got[0]);
    assert_eq!("n11", got[9]);
    c.clear_notifications(&s("bob"));
    assert!(c.get_notifications(&s("bob")).is_empty());
}

#[test]
fn history_window_is_last_ten() {
    let mut c = StatusMessage::new();
    let mut i: u32 = 0;
    while i < 12 {
        c.set_status(&s("bob"), i as u64, format!("m{}", i), Some(true), None).unwrap();
        i += 1;
    }
    let h = c.get_status_history(0, s("bob"));
    assert_eq!(10, h.len());
    assert_eq!("m2", h[0].message);
    assert_eq!("m11", h[9].message);
    assert_eq!(12, c.get_status_count(s("bob")));
}

#[test]
fn history_drops_records_past_their_own_expiry() {
    let mut c = StatusMessage::new();
    c.set_status(&s("bob"), 0, s("old"), Some(true), Some(1)).unwrap();
    c.set_status(&s("bob"), 0, s("new"), Some(true), None).unwrap();
    let later = 2 * NANOS_PER_HOUR;
    assert_eq!(Some(s("new")), c.get_status(later, s("bob")));
    let h = c.get_status_history(later, s("bob"));
    assert_eq!(1, h.len());
    assert_eq!("new", h[0].message);
}

#[test]
fn follower_is_told_of_new_posts() {
    let mut c = StatusMessage::new();
    c.set_status(&s("bob"), 0, s("hello"), Some(true), None).unwrap();
    c.follow(&s("alice"), s("bob")).unwrap();
    c.set_status(&s("bob"), 1, s("world"), Some(true), None).unwrap();
    let got = c.get_notifications(&s("alice"));
    assert!(got.contains(&s("bob posted a new status")));
    assert!(!got.contains(&s("bob started following you")));
    let h = c.get_status_history(1, s("bob"));
    assert_eq!(2, h.len());
    assert_eq!("world", h[1].message);
}

#[test]
fn private_post_tells_no_follower() {
    let mut c = StatusMessage::new();
    c.follow(&s("alice"), s("bob")).unwrap();
    c.set_status(&s("bob"), 1, s("quiet"), Some(false), None).unwrap();
    assert!(c.get_notifications(&s("alice")).is_empty());
}

#[test]
fn search_ignores_case() {
    let mut c = StatusMessage::new();
    c.set_status(&s("bob"), 0, s("Rust programming"), Some(true), None).unwrap();
    c.set_status(&s("ann"), 0, s("hello"), Some(true), None).unwrap();
    let found = c.search_status(0, s("RUST"));
    assert_eq!(vec![(s("bob"), s("Rust programming"))], found);
    assert!(c.search_status(0, s("xyz")).is_empty());
}

#[test]
fn folded_matching() {
    assert_eq!("rust programming", fold_case(&s("Rust PROGRAMMING")));
    assert!(matches_folded(&s("gram"), &s("rust programming")));
    assert!(!matches_folded(&s("Gram"), &s("rust programming")));
    assert!(matches_folded(&s(""), &s("abc")));
}

#[test]
fn dashboard_counts() {
    let mut c = StatusMessage::new();
    c.set_status(&s("bob"), 0, s("a"), Some(true), None).unwrap();
    c.set_status(&s("bob"), 0, s("b"), Some(true), None).unwrap();
    c.follow(&s("ann"), s("bob")).unwrap();
    c.view_status(s("bob"));
    c.view_status(s("bob"));
    c.view_status(s("bob"));
    assert_eq!((2, 1, 3), c.get_dashboard_stats(s("bob")));
    assert_eq!((0, 0, 0), c.get_dashboard_stats(s("nobody")));
}

#[test]
fn profile_is_replaced_whole() {
    let mut c = StatusMessage::new();
    assert_eq!(None, c.get_profile(s("bob")));
    c.set_profile(&s("bob"), s("B"), s("first"));
    c.set_profile(&s("bob"), s("Bee"), s(""));
    let p = c.get_profile(s("bob")).unwrap();
    assert_eq!("Bee", p.name);
    assert_eq!("", p.bio);
    assert!(p.is_public);
}

#[test]
fn record_expiry_is_strict() {
    let r = StatusRecord::new(s("x"), 7, Some(10));
    assert_eq!(7, r.timestamp);
    assert!(!r.is_expired(10));
    assert!(r.is_expired(11));
    assert!(!StatusRecord::new(s("y"), 0, None).is_expired(u64::MAX));
}

#[test]
fn analytics_manager_counts() {
    let mut m = AnalyticsManager::new();
    assert_eq!(0, m.get_view_count());
    m.increment_view();
    m.increment_view();
    assert_eq!(2, m.get_view_count());
}

#[test]
fn notification_manager_keeps_last() {
    let mut m = NotificationManager::new("bob");
    m.add_notification(s("a"));
    m.add_notification(s("b"));
    m.add_notification(s("c"));
    assert_eq!(vec![s("b"), s("c")], m.get_notifications(2));
    assert_eq!(3, m.get_notifications(10).len());
    m.clear_notifications();
    assert!(m.get_notifications(10).is_empty());
}

#[test]
fn social_connections_are_a_set() {
    let mut f = SocialConnections::new("bob");
    f.follow(&s("ann"));
    f.follow(&s("ann"));
    f.follow(&s("cid"));
    assert_eq!(vec![s("ann"), s("cid")], f.get_followers());
    f.unfollow(&s("ann"));
    assert_eq!(vec![s("cid")], f.get_followers());
}
