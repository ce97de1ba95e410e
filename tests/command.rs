use group_search::command::{decide, same_text, starts_with, toggle_reply, Command};
use group_search::consent::Config;

fn on() -> Config {
    Config { group_id: -1, user_id: 2, allow: 1 }
}

fn off() -> Config {
    Config { group_id: -1, user_id: 2, allow: 0 }
}

#[test]
fn search_command_takes_the_trimmed_rest() {
    match decide("/q  喵 喵 ", &off()) {
        Command::Search(q) => assert_eq!(q, "喵 喵"),
        _ => panic!("expected a search"),
    }
}

#[test]
fn toggle_command_is_exact() {
    assert!(matches!(decide("/toggle_my_searchability", &on()), Command::Toggle));
    assert!(matches!(decide("/toggle_my_searchability x", &on()), Command::Ignore));
    assert!(matches!(decide("/q", &on()), Command::Ignore));
    assert!(matches!(decide("/start", &on()), Command::Ignore));
}

#[test]
fn plain_text_is_archived_only_when_allowed() {
    assert!(matches!(decide("喵喵喵", &on()), Command::Archive));
    assert!(matches!(decide("喵喵喵", &off()), Command::Ignore));
}

#[test]
fn toggle_reply_states_the_new_switch() {
    assert_eq!(toggle_reply(&on()), "您的消息记录 已启用");
    assert_eq!(toggle_reply(&off()), "您的消息记录 已禁用");
    assert_eq!(toggle_reply(&on().toggled()), "您的消息记录 已禁用");
}

#[test]
fn prefixes_and_equality() {
    assert!(starts_with("/q abc", "/q "));
    assert!(!starts_with("/q", "/q "));
    assert!(starts_with("x", ""));
    assert!(same_text("喵", "喵"));
    assert!(!same_text("喵喵", "喵"));
}
