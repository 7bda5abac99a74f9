use status_message::StatusMessage;

fn bob() -> String {
    "bob_near".to_string()
}

fn alice() -> String {
    "alice_near".to_string()
}

#[test]
fn set_get_message() {
    let mut contract = StatusMessage::default();
    contract.set_status(&bob(), 0, "hello".to_string(), Some(true), None).unwrap();
    assert_eq!("hello".to_string(), contract.get_status(0, "bob_near".to_string()).unwrap());
}

#[test]
fn get_nonexistent_message() {
    let contract = StatusMessage::default();
    assert_eq!(None, contract.get_status(0, "francis.near".to_string()));
}

#[test]
fn set_multiple_messages_and_check_history() {
    let mut contract = StatusMessage::default();
    contract.set_status(&bob(), 0, "hello".to_string(), Some(true), None).unwrap();
    contract.set_status(&bob(), 0, "world".to_string(), Some(true), None).unwrap();
    contract.set_status(&bob(), 0, "test".to_string(), Some(true), None).unwrap();

    let history = contract.get_status_history(0, "bob_near".to_string());
    assert_eq!(3, history.len());
    assert_eq!("test".to_string(), contract.get_status(0, "bob_near".to_string()).unwrap());
}

#[test]
fn delete_status() {
    let mut contract = StatusMessage::default();
    contract.set_status(&bob(), 0, "hello".to_string(), Some(true), None).unwrap();
    assert_eq!("hello".to_string(), contract.get_status(0, "bob_near".to_string()).unwrap());

    contract.delete_status(&bob());
    assert_eq!(None, contract.get_status(0, "bob_near".to_string()));
}

#[test]
fn get_status_count() {
    let mut contract = StatusMessage::default();
    contract.set_status(&bob(), 0, "hello".to_string(), Some(true), None).unwrap();
    contract.set_status(&bob(), 0, "world".to_string(), Some(true), None).unwrap();

    assert_eq!(2, contract.get_status_count("bob_near".to_string()));
}

#[test]
fn set_profile() {
    let mut contract = StatusMessage::default();
    contract.set_profile(&bob(), "Alice".to_string(), "Blockchain enthusiast".to_string());

    let profile = contract.get_profile("bob_near".to_string()).unwrap();
    assert_eq!("Alice", profile.name);
    assert_eq!("Blockchain enthusiast", profile.bio);
}

#[test]
fn follow_unfollow() {
    let mut contract = StatusMessage::default();

    contract.follow(&alice(), "bob_near".to_string()).unwrap();
    let followers = contract.get_followers("bob_near".to_string());
    assert_eq!(1, followers.len());
    assert_eq!("alice_near", followers[0]);

    contract.unfollow(&alice(), "bob_near".to_string());
    let followers = contract.get_followers("bob_near".to_string());
    assert_eq!(0, followers.len());
}

#[test]
fn search_status() {
    let mut contract = StatusMessage::default();
    contract.set_status(&bob(), 0, "Hello world".to_string(), Some(true), None).unwrap();
    contract.set_status(&bob(), 0, "Rust programming".to_string(), Some(true), None).unwrap();

    let results = contract.search_status(0, "rust".to_string());
    assert_eq!(1, results.len());
    assert_eq!("Rust programming", results[0].1);
}

#[test]
fn add_reaction() {
    let mut contract = StatusMessage::default();
    contract.set_status(&bob(), 0, "Hello world".to_string(), Some(true), None).unwrap();

    contract.add_reaction(&alice(), 0, "bob_near".to_string(), "like".to_string());
    let reactions = contract.get_reactions("bob_near".to_string());
    assert_eq!(1, reactions.len());
    assert_eq!("alice_near", reactions[0].account_id);
    assert_eq!("like", reactions[0].reaction_type);
}

#[test]
fn notifications() {
    let mut contract = StatusMessage::default();

    contract.add_notification(&bob(), "Test notification".to_string());
    let notifications = contract.get_notifications(&bob());
    assert_eq!(1, notifications.len());
    assert_eq!("Test notification", notifications[0]);
}

#[test]
fn analytics() {
    let mut contract = StatusMessage::default();

    contract.view_status("bob_near".to_string());
    contract.view_status("bob_near".to_string());
    let views = contract.get_view_count("bob_near".to_string());
    assert_eq!(2, views);
}

#[test]
fn status_expiration() {
    let mut contract = StatusMessage::default();

    contract.set_status(&bob(), 0, "Temporary status".to_string(), Some(true), Some(1)).unwrap();

    assert_eq!("Temporary status", contract.get_status(0, "bob_near".to_string()).unwrap());

    let history = contract.get_status_history(0, "bob_near".to_string());
    assert_eq!(1, history.len());
}
