use group_search::tokenizer::{join_with, keep_nonblank, match_expr_of, projection_of, Tokenizer};

fn words(ws: &[&str]) -> Vec<String> {
    ws.iter().map(|w| w.to_string()).collect()
}

#[test]
fn blank_tokens_are_dropped_in_order() {
    assert_eq!(keep_nonblank(words(&["喵", " ", "", "汪", "\t\n", "a b"])), words(&["喵", "汪", "a b"]));
}

#[test]
fn tokens_join_with_single_separators() {
    assert_eq!(join_with(&words(&["a", "b", "c"]), ' '), "a b c");
    assert_eq!(join_with(&words(&["solo"]), '\n'), "solo");
    assert_eq!(join_with(&Vec::new(), ' '), "");
}

#[test]
fn projection_drops_blanks_then_joins() {
    assert_eq!(projection_of(words(&["你", " ", "说得", "对", "  "])), "你 说得 对");
    assert_eq!(projection_of(words(&[" "])), "");
}

#[test]
fn query_of_only_blank_words_matches_nothing() {
    assert_eq!(match_expr_of(words(&[" ", "\u{3000}"])), None);
    assert_eq!(match_expr_of(Vec::new()), None);
    assert_eq!(match_expr_of(words(&["喵", " "])), Some("喵".to_string()));
}

#[test]
fn query_segmentation_splits_words() {
    let tokenizer = Tokenizer::new();
    let tokens = tokenizer.segment_for_query("我爱北京天安门");
    assert!(tokens.len() > 1);
    assert_eq!(tokens.concat(), "我爱北京天安门");
    assert!(tokens.iter().any(|t| t == "北京"));
    assert_eq!(tokenizer.match_expr("我爱北京天安门"), Some(tokens.join(" ")));
}

#[test]
fn index_segmentation_is_at_least_as_fine_as_query() {
    let tokenizer = Tokenizer::new();
    let index = tokenizer.segment_for_index("我爱北京天安门");
    let query = tokenizer.segment_for_query("我爱北京天安门");
    assert!(index.len() >= query.len());
    for t in &query {
        assert!(index.contains(t));
    }
    assert_eq!(tokenizer.index_text("我爱北京天安门"), index.join(" "));
}

#[test]
fn blank_query_has_no_match_expression() {
    let tokenizer = Tokenizer::new();
    assert_eq!(tokenizer.match_expr("   "), None);
    assert_eq!(tokenizer.match_expr(""), None);
    assert!(tokenizer.segment_for_query(" \n ").is_empty());
}

#[test]
fn single_character_query() {
    let tokenizer = Tokenizer::new();
    assert_eq!(tokenizer.match_expr("喵"), Some("喵".to_string()));
    assert_eq!(tokenizer.match_expr(" 你 "), Some("你".to_string()));
}

fn index_holds(tokenizer: &Tokenizer, text: &str, token: &str) -> bool {
    tokenizer.index_text(text).split(' ').any(|t| t == token)
}

#[test]
fn single_character_queries_find_exactly_their_text() {
    let tokenizer = Tokenizer::new();
    let texts = ["喵喵喵", "汪汪汪", "你说得对", "啦啦啦"];
    for (query, expected) in [("喵", "喵喵喵"), ("汪", "汪汪汪"), ("啦", "啦啦啦"), ("你", "你说得对")] {
        let expr = tokenizer.match_expr(query).unwrap();
        let found: Vec<&str> =
            texts.iter().copied().filter(|t| index_holds(&tokenizer, t, &expr)).collect();
        assert_eq!(found, vec![expected]);
    }
}
