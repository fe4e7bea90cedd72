use estilla_stats::identity::{name_history_urls, usernames_from_lookups};
use estilla_stats::leaderboard::{
    attach_usernames, clamp_limit, create_leaderboard_message, leaderboard_embed_field, leaderboard_url,
    parse_leaderboard_args, rank_stats, sort_stats, stat_uuids, top_succeeded, EMBED_FIELD_LIMIT,
};
use estilla_stats::stat::{CommandOption, Stat};

fn stat(uuid: &str, value: u64, success: bool) -> Stat {
    Stat { success, uuid: uuid.to_string(), username: String::new(), value }
}

fn named(uuid: &str, username: &str, value: u64) -> Stat {
    Stat { success: true, uuid: uuid.to_string(), username: username.to_string(), value }
}

fn option(name: &str, text: Option<&str>, integer: Option<i64>) -> CommandOption {
    CommandOption { name: name.to_string(), text: text.map(|t| t.to_string()), integer }
}

#[test]
fn limits_are_clamped() {
    assert_eq!(clamp_limit(None), 10);
    assert_eq!(clamp_limit(Some(0)), 1);
    assert_eq!(clamp_limit(Some(1)), 1);
    assert_eq!(clamp_limit(Some(7)), 7);
    assert_eq!(clamp_limit(Some(25)), 25);
    assert_eq!(clamp_limit(Some(26)), 25);
    assert_eq!(clamp_limit(Some(i64::MAX)), 25);
    assert_eq!(clamp_limit(Some(-4)), 25);
}

#[test]
fn ranking_is_stable_and_descending() {
    let sorted = sort_stats(vec![stat("a", 5, true), stat("b", 9, true), stat("c", 9, true), stat("d", 1, true)]);
    let order: Vec<(String, u64)> = sorted.iter().map(|s| (s.uuid.clone(), s.value)).collect();
    assert_eq!(
        order,
        vec![("b".to_string(), 9), ("c".to_string(), 9), ("a".to_string(), 5), ("d".to_string(), 1)]
    );
}

#[test]
fn ranking_of_nothing_is_nothing() {
    assert!(sort_stats(vec![]).is_empty());
    assert!(rank_stats(vec![], 10).is_empty());
}

#[test]
fn failed_entries_are_dropped_after_the_cut() {
    let ranked = rank_stats(
        vec![stat("a", 10, true), stat("b", 30, false), stat("c", 20, true), stat("d", 5, true)],
        2,
    );
    let uuids: Vec<String> = ranked.iter().map(|s| s.uuid.clone()).collect();
    assert_eq!(uuids, vec!["c".to_string()]);
    let kept = top_succeeded(vec![stat("x", 3, false), stat("y", 2, true)], 25);
    assert_eq!(kept.len(), 1);
    assert_eq!(kept[0].uuid, "y");
}

#[test]
fn usernames_are_attached_by_position() {
    let stats = vec![stat("a", 3, true), stat("b", 2, true)];
    let uuids = stat_uuids(&stats);
    assert_eq!(uuids, vec!["a".to_string(), "b".to_string()]);
    let named = attach_usernames(stats, vec!["Alice".to_string(), "Bob".to_string()]);
    assert_eq!(named[0].username, "Alice");
    assert_eq!(named[0].value, 3);
    assert_eq!(named[1].username, "Bob");
    assert_eq!(named[1].uuid, "b");
}

#[test]
fn leaderboard_request() {
    assert_eq!(
        leaderboard_url("mined", "Diamond Ore"),
        "http://estillacraft.net/api/v1/stats?uuid=all&stat_type=minecraft:mined&stat_name=minecraft:diamond_ore"
    );
}

#[test]
fn message_table_layout() {
    let message = create_leaderboard_message(
        vec![named("b", "Bob", 1500), named("a", "Alice", 200)],
        "mined",
        "diamond ore",
    );
    assert_eq!(
        message,
        "```\n Diamond ores mined  \n\nRank  Username  Stat \n1     Bob       1,500\n2     Alice     200  \n```"
    );
}

#[test]
fn empty_leaderboard_keeps_its_shape() {
    let message = create_leaderboard_message(vec![], "mined", "diamond ore");
    assert_eq!(
        message,
        "```\n Diamond ores mined \n\nRank  Username  Stat\n\u{200b} \u{200b}         \u{200b}       \n```"
    );
}

#[test]
fn wide_names_widen_the_column() {
    let message = create_leaderboard_message(vec![named("a", "Extraordinary", 3)], "custom", "jump");
    assert_eq!(
        message,
        "```\n          Jump           \n\nRank  Username       Stat\n1     Extraordinary  3   \n```"
    );
}

#[test]
fn play_time_leaderboard_shows_durations() {
    let message = create_leaderboard_message(vec![named("a", "Al", 20 * 3661)], "custom", "play time");
    assert_eq!(
        message,
        "```\n       Play time        \n\nRank  Username  Stat    \n1     Al        1h 1m 1s\n```"
    );
}

#[test]
fn embed_field_wraps_the_table() {
    let field = leaderboard_embed_field(&vec![named("b", "Bob", 1500), named("a", "Alice", 200)], "mined", "diamond ore");
    assert_eq!(
        field,
        "```ARM\n Diamond ores mined  \n\nRank  Username  Stat \n1     Bob       1,500\n2     Alice     200  \n```"
    );
}

#[test]
fn embed_field_drops_bottom_rows_to_fit() {
    let entries: Vec<Stat> = (0..100u64)
        .map(|i| named(&format!("k{}", i), &format!("player_number_{:03}", i), 1_000_000 - i))
        .collect();
    let field = leaderboard_embed_field(&entries, "mined", "stone");
    assert!(field.chars().count() <= EMBED_FIELD_LIMIT);
    assert!(field.starts_with("```ARM\n"));
    assert!(field.ends_with("```"));
    let body = &field[..field.len() - 3];
    let rows: Vec<&str> = body.lines().skip(4).collect();
    assert!(rows.len() > 10 && rows.len() < 100);
    for (i, row) in rows.iter().enumerate() {
        assert!(row.starts_with(&format!("{:<5} player_number_{:03}", i + 1, i)));
    }
}

#[test]
fn end_to_end_top_three() {
    let limit = clamp_limit(Some(3));
    let fetched: Vec<Stat> = vec![
        stat("u1", 100, true),
        stat("u2", 50, true),
        stat("u3", 200, true),
        stat("u4", 10, true),
        stat("u5", 5, true),
    ];
    let ranked = rank_stats(fetched, limit);
    let values: Vec<u64> = ranked.iter().map(|s| s.value).collect();
    assert_eq!(values, vec![200, 100, 50]);
    let uuids = stat_uuids(&ranked);
    let urls = name_history_urls(&uuids);
    assert_eq!(urls[0], "https://api.mojang.com/user/profiles/u3/names");
    let lookups: Vec<Result<Vec<String>, String>> = uuids
        .iter()
        .map(|u| Ok(vec!["old".to_string(), format!("Player{}", u)]))
        .collect();
    let names = usernames_from_lookups(&lookups);
    let board = attach_usernames(ranked, names);
    assert_eq!(board[0].username, "Playeru3");
    assert_eq!(board[2].username, "Playeru2");
    let message = create_leaderboard_message(board, "mined", "diamond ore");
    let lines: Vec<&str> = message.trim_end_matches("```").lines().collect();
    // fence, title, blank line, header, then the data rows
    assert_eq!(lines.len(), 4 + 3);
    assert!(lines[3].starts_with("Rank"));
    assert!(lines[4].starts_with("1     Playeru3"));
    assert!(lines[6].starts_with("3     Playeru2"));
}

#[test]
fn leaderboard_arguments() {
    let args = parse_leaderboard_args(&vec![
        option("stat-type", Some("\"mined\""), None),
        option("stat-name", Some("\"diamond ore\""), None),
        option("limit", Some("5"), Some(5)),
    ])
    .unwrap();
    assert_eq!(args.stat_type, "mined");
    assert_eq!(args.stat_name, "diamond ore");
    assert_eq!(args.limit, Some(5));
    let without_limit = parse_leaderboard_args(&vec![
        option("stat-type", Some("\"used\""), None),
        option("stat-name", Some("\"bow\""), None),
    ])
    .unwrap();
    assert_eq!(without_limit.limit, None);
}

#[test]
fn leaderboard_arguments_are_searched_in_order() {
    assert!(parse_leaderboard_args(&vec![
        option("stat-name", Some("\"bow\""), None),
        option("stat-type", Some("\"used\""), None),
    ])
    .is_none());
    assert!(parse_leaderboard_args(&vec![option("stat-type", Some("\"used\""), None)]).is_none());
}
