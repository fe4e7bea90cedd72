use estilla_stats::bot_error::BotError;
use estilla_stats::identity::{
    current_name, escape_display_name, name_history_status, name_history_url, profile_lookup_status,
    profile_url, usernames_from_lookups, CONCURRENT_REQUESTS,
};

#[test]
fn identity_requests() {
    assert_eq!(profile_url("Elzapat"), "https://api.mojang.com/users/profiles/minecraft/Elzapat");
    assert_eq!(
        name_history_url("bb1784e4-58ee-4074-9ae2-48684656aa59"),
        "https://api.mojang.com/user/profiles/bb1784e4-58ee-4074-9ae2-48684656aa59/names"
    );
    assert_eq!(CONCURRENT_REQUESTS, 10);
}

#[test]
fn unknown_handle_is_not_found() {
    match profile_lookup_status(204) {
        Err(BotError::NotFound(m)) => assert_eq!(m, "Error: This username doesn't exist"),
        other => panic!("unexpected {:?}", other),
    }
    assert!(profile_lookup_status(200).is_ok());
}

#[test]
fn name_history_needs_status_ok() {
    assert!(matches!(name_history_status(404), Err(BotError::NotFound(_))));
    assert!(name_history_status(200).is_ok());
}

#[test]
fn current_name_is_the_latest() {
    let history = vec!["First".to_string(), "Second".to_string(), "Elzapat".to_string()];
    assert_eq!(current_name(&history).unwrap(), "Elzapat");
    assert!(matches!(current_name(&vec![]), Err(BotError::Decode(_))));
}

#[test]
fn special_characters_are_escaped() {
    assert_eq!(escape_display_name("a@b\\c"), "a\\@b\\\\c");
    assert_eq!(escape_display_name("Plain_Name"), "Plain_Name");
}

#[test]
fn one_failed_lookup_spoils_no_other() {
    let lookups: Vec<Result<Vec<String>, String>> = vec![
        Ok(vec!["Alice".to_string()]),
        Err("error sending request".to_string()),
        Ok(vec!["Old".to_string(), "Bob".to_string()]),
        Ok(vec!["Carol".to_string()]),
    ];
    let names = usernames_from_lookups(&lookups);
    assert_eq!(names.len(), 4);
    assert_eq!(names, vec!["Alice", "error sending request", "Bob", "Carol"]);
    assert_eq!(names.iter().filter(|n| n.as_str() == "error sending request").count(), 1);
}

#[test]
fn empty_history_becomes_a_placeholder() {
    let names = usernames_from_lookups(&vec![Ok(vec![]), Ok(vec!["x@y".to_string()])]);
    assert_eq!(names, vec!["Error: This player has no name history", "x\\@y"]);
}
