use estilla_stats::bot_error::BotError;
use estilla_stats::stat::{
    hyphenated_key, parse_stat_args, remove_quotes, single_stat_result, stat_embed_fields,
    stat_request_url, CommandOption, Stat,
};

fn option(name: &str, text: &str) -> CommandOption {
    CommandOption { name: name.to_string(), text: Some(text.to_string()), integer: None }
}

#[test]
fn stat_arguments() {
    let args = parse_stat_args(&vec![
        option("player", "\"Elzapat\""),
        option("stat-type", "\"mined\""),
        option("stat-name", "\"diamond ore\""),
    ])
    .unwrap();
    assert_eq!(args.player, "Elzapat");
    assert_eq!(args.stat_type, "mined");
    assert_eq!(args.stat_name, "diamond ore");
    assert!(parse_stat_args(&vec![option("player", "\"Elzapat\""), option("stat-type", "\"mined\"")]).is_none());
    assert_eq!(remove_quotes("\"a\"b\""), "ab");
}

#[test]
fn keys_are_hyphenated_once() {
    assert_eq!(
        hyphenated_key("bb1784e458ee40749ae248684656aa59".to_string()).unwrap(),
        "bb1784e4-58ee-4074-9ae2-48684656aa59"
    );
    assert_eq!(
        hyphenated_key("bb1784e4-58ee-4074-9ae2-48684656aa59".to_string()).unwrap(),
        "bb1784e4-58ee-4074-9ae2-48684656aa59"
    );
    assert!(matches!(hyphenated_key("abc".to_string()), Err(BotError::Validation(_))));
}

#[test]
fn single_stat_request() {
    assert_eq!(
        stat_request_url("bb1784e458ee40749ae248684656aa59".to_string(), "Mined", "diamond ore").unwrap(),
        "http://estillacraft.net/stats?uuid=bb1784e4-58ee-4074-9ae2-48684656aa59&stat_type=minecraft:mined&stat_name=minecraft:diamond_ore"
    );
    assert!(stat_request_url("short".to_string(), "mined", "stone").is_err());
}

#[test]
fn single_stat_outcomes() {
    let ok = single_stat_result(vec![Stat { success: true, uuid: "k".to_string(), username: String::new(), value: 7 }]).unwrap();
    assert_eq!(ok.value, 7);
    match single_stat_result(vec![Stat { success: false, uuid: "Unknown stat".to_string(), username: String::new(), value: 0 }]) {
        Err(BotError::Error(m)) => assert_eq!(m, "Unknown stat"),
        other => panic!("unexpected {:?}", other),
    }
    assert!(matches!(single_stat_result(vec![]), Err(BotError::Decode(_))));
}

#[test]
fn stat_embed_contents() {
    let embed = stat_embed_fields(1234567, "Elzapat", "bb17", "mined", "diamond ore");
    assert_eq!(embed.title, "Elzapat");
    assert_eq!(embed.thumbnail, "https://crafatar.com/avatars/bb17");
    assert_eq!(embed.field_name, "Diamond ores mined");
    assert_eq!(embed.field_value, "1,234,567");
}

#[test]
fn error_messages() {
    assert_eq!(BotError::Transport("timed out".to_string()).message(), "timed out");
    assert_eq!(BotError::Validation("bad".to_string()).message(), "bad");
}
