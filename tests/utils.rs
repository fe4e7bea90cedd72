use estilla_stats::bot_error::BotError;
use estilla_stats::utils::{
    format_stat_number, format_stat_value, longest_length_in_string_vec, make_ascii_titlecase,
    make_stat_title, minecraft_ticks_to_formatted_time, name_to_minecraft_id, untrim_uuid,
};

#[test]
fn uuid_untrimming() {
    assert_eq!(
        untrim_uuid("bb1784e458ee40749ae248684656aa59".to_string()).unwrap(),
        "bb1784e4-58ee-4074-9ae2-48684656aa59"
    )
}

#[test]
fn getting_longest_len_in_string_vec() {
    assert_eq!(
        5,
        longest_length_in_string_vec(&vec![
            "12".to_string(),
            "123".to_string(),
            "01234".to_string(),
            "123".to_string()
        ])
    );
}

#[test]
fn longest_length_of_nothing_is_one() {
    assert_eq!(1, longest_length_in_string_vec(&vec![]));
    assert_eq!(1, longest_length_in_string_vec(&vec!["".to_string()]));
}

#[test]
fn longest_length_counts_bytes() {
    assert_eq!(5, longest_length_in_string_vec(&vec!["é".to_string(), "ab".to_string(), "ééa".to_string()]));
}

#[test]
fn untrimming_refuses_wrong_lengths() {
    assert!(matches!(untrim_uuid("bb1784e458ee4074".to_string()), Err(BotError::Validation(_))));
    assert!(matches!(untrim_uuid("".to_string()), Err(BotError::Validation(_))));
    assert!(matches!(
        untrim_uuid("bb1784e458ee40749ae248684656aa59ff".to_string()),
        Err(BotError::Validation(_))
    ));
}

#[test]
fn untrimming_is_reversible() {
    let key = "0123456789abcdef0123456789abcdef";
    let hyphenated = untrim_uuid(key.to_string()).unwrap();
    assert_eq!(hyphenated.len(), 36);
    assert_eq!(hyphenated.replace("-", ""), key);
}

#[test]
fn canonical_stat_identifiers() {
    assert_eq!(name_to_minecraft_id("Diamond Ore".to_string()), "minecraft:diamond_ore");
    assert_eq!(
        name_to_minecraft_id("minecraft:diamond_ore".to_string()),
        "minecraft:minecraft:diamond_ore"
    );
    assert_eq!(name_to_minecraft_id("KILLED BY".to_string()), "minecraft:killed_by");
    assert_eq!(name_to_minecraft_id("".to_string()), "minecraft:");
}

#[test]
fn titlecase_only_touches_a_lower_case_first_letter() {
    assert_eq!(make_ascii_titlecase("diamond ore"), "Diamond ore");
    assert_eq!(make_ascii_titlecase("Zombie"), "Zombie");
    assert_eq!(make_ascii_titlecase("éclair"), "éclair");
    assert_eq!(make_ascii_titlecase(""), "");
}

#[test]
fn stat_titles() {
    assert_eq!(make_stat_title("mined", "diamond ore"), "Diamond ores mined");
    assert_eq!(make_stat_title("killed by", "zombie"), "Killed by zombies");
    assert_eq!(make_stat_title("custom", "play time"), "Play time");
    assert_eq!(make_stat_title("broken", "shears"), "Shears broken");
    assert_eq!(make_stat_title("used", ""), "S used");
}

#[test]
fn durations_leave_out_leading_zero_units() {
    assert_eq!(minecraft_ticks_to_formatted_time(0), "0s");
    assert_eq!(minecraft_ticks_to_formatted_time(19), "0s");
    assert_eq!(minecraft_ticks_to_formatted_time(20 * 3661), "1h 1m 1s");
    assert_eq!(minecraft_ticks_to_formatted_time(20 * 61), "1m 1s");
    assert_eq!(minecraft_ticks_to_formatted_time(20 * 3600), "1h 0m 0s");
}

#[test]
fn durations_roll_over_into_days() {
    assert_eq!(minecraft_ticks_to_formatted_time(20 * 86400), "1d 0h 0m 0s");
    assert_eq!(minecraft_ticks_to_formatted_time(20 * (2 * 86400 + 23 * 3600 + 59 * 60 + 59)), "2d 23h 59m 59s");
    assert_eq!(minecraft_ticks_to_formatted_time(20 * 60 - 1), "59s");
    assert_eq!(
        minecraft_ticks_to_formatted_time(u64::MAX),
        "10675199116730d 1h 33m 0s"
    );
}

#[test]
fn numbers_are_grouped_by_thousands() {
    assert_eq!(format_stat_number(0), "0");
    assert_eq!(format_stat_number(999), "999");
    assert_eq!(format_stat_number(1000), "1,000");
    assert_eq!(format_stat_number(1234567), "1,234,567");
    assert_eq!(format_stat_number(u64::MAX), "18,446,744,073,709,551,615");
}

#[test]
fn play_time_is_shown_as_a_duration() {
    assert_eq!(format_stat_value(20 * 3661, "play time"), "1h 1m 1s");
    assert_eq!(format_stat_value(20 * 3661, "diamond ore"), "73,220");
}
