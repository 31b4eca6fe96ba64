//! Tests of the command routing, form pre-fill choice, composed texts,
//! and the decimal helpers.

use oss_bot::decimal::{i16_to_string, parse_i16};
use oss_bot::present::{
    choose_initial_option, find_block, loading_message_text, post_username, route_command, Block,
    CommandAction,
};

#[test]
fn route_stats_text() {
    let action = route_command("/woss", &Some("stats".to_string()));
    assert_eq!(action, CommandAction::ShowStats);
}

#[test]
fn route_other_text_shows_form() {
    let action = route_command("/woss", &Some("Germany 4".to_string()));
    assert_eq!(action, CommandAction::ShowForm);
}

#[test]
fn route_no_text_shows_usage() {
    let action = route_command("/woss", &None);
    assert_eq!(action, CommandAction::ShowUsage);
}

#[test]
fn route_unknown_command() {
    let action = route_command("/other", &Some("stats".to_string()));
    assert_eq!(action, CommandAction::UnknownCommand);
}

#[test]
fn find_block_picks_first_match() {
    let blocks = vec![
        Block::Header { block_id: None },
        Block::RichText,
        Block::Input { block_id: Some("country".to_string()) },
        Block::Input { block_id: Some("url".to_string()) },
    ];
    assert_eq!(find_block(&blocks, "country"), Some(2));
    assert_eq!(find_block(&blocks, "url"), Some(3));
    assert_eq!(find_block(&blocks, "missing"), None);
}

#[test]
fn choose_initial_option_matches_remembered_country() {
    let options = vec!["Sweden".to_string(), "Germany".to_string()];
    assert_eq!(
        choose_initial_option(&options, &Some("Germany".to_string())),
        Some(1)
    );
}

#[test]
fn choose_initial_option_ignores_unknown_country() {
    let options = vec!["Sweden".to_string(), "Germany".to_string()];
    assert_eq!(choose_initial_option(&options, &Some("Atlantis".to_string())), None);
    assert_eq!(choose_initial_option(&options, &None), None);
}

#[test]
fn loading_message_wraps_a_phrase() {
    let phrases = vec!["reticulating splines".to_string()];
    assert_eq!(
        loading_message_text(&phrases),
        "Please wait... reticulating splines..."
    );
}

#[test]
fn loading_message_with_no_phrases() {
    let phrases: Vec<String> = Vec::new();
    assert_eq!(loading_message_text(&phrases), "Please wait... ...");
}

#[test]
fn loading_message_picks_one_of_the_phrases() {
    let phrases = vec!["a".to_string(), "b".to_string(), "c".to_string()];
    let text = loading_message_text(&phrases);
    assert!(
        text == "Please wait... a..."
            || text == "Please wait... b..."
            || text == "Please wait... c..."
    );
}

#[test]
fn post_username_appends_tag() {
    assert_eq!(post_username("alice"), "alice via Wizard of OSS");
}

#[test]
fn hours_render_as_decimal() {
    assert_eq!(i16_to_string(0), "0");
    assert_eq!(i16_to_string(7), "7");
    assert_eq!(i16_to_string(-7), "-7");
    assert_eq!(i16_to_string(32767), "32767");
    assert_eq!(i16_to_string(-32768), "-32768");
}

#[test]
fn hours_parse_the_decimal_grammar() {
    assert_eq!(parse_i16("0"), Some(0));
    assert_eq!(parse_i16("+7"), Some(7));
    assert_eq!(parse_i16("-7"), Some(-7));
    assert_eq!(parse_i16("007"), Some(7));
    assert_eq!(parse_i16("-0"), Some(0));
    assert_eq!(parse_i16("32767"), Some(32767));
    assert_eq!(parse_i16("-32768"), Some(-32768));
    assert_eq!(parse_i16("32768"), None);
    assert_eq!(parse_i16("-32769"), None);
    assert_eq!(parse_i16("99999999999999999999"), None);
    assert_eq!(parse_i16(""), None);
    assert_eq!(parse_i16("-"), None);
    assert_eq!(parse_i16("+"), None);
    assert_eq!(parse_i16("12a"), None);
    assert_eq!(parse_i16(" 5"), None);
}
