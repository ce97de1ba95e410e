use group_search::consent::Config;

#[test]
fn unknown_pair_allows() {
    let c = Config::get_or_default(None, -100, 7);
    assert_eq!(c, Config { group_id: -100, user_id: 7, allow: 1 });
    assert!(c.is_allowed());
}

#[test]
fn stored_switch_wins_over_default() {
    let stored = Config { group_id: -100, user_id: 7, allow: 0 };
    let c = Config::get_or_default(Some(stored), -100, 7);
    assert_eq!(c, stored);
    assert!(!c.is_allowed());
}

#[test]
fn setting_twice_is_setting_once() {
    let c = Config { group_id: 1, user_id: 2, allow: 1 };
    assert_eq!(c.with_allow(false).with_allow(false), c.with_allow(false));
    assert_eq!(c.with_allow(true).with_allow(true), c.with_allow(true));
    assert_eq!(c.with_allow(false).allow, 0);
}

#[test]
fn toggling_alternates() {
    let c = Config { group_id: 1, user_id: 2, allow: 1 };
    let once = c.toggled();
    assert!(!once.is_allowed());
    let twice = once.toggled();
    assert!(twice.is_allowed());
    assert_eq!(twice, c);
    let odd = Config { group_id: 1, user_id: 2, allow: 5 };
    assert_eq!(odd.toggled().allow, 0);
}
