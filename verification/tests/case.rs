use typed_schema::case::{camel, pascal, rename_all, words};

fn rename(style: &str, ident: &str) -> Option<String> {
    rename_all(style, ident)
}

#[test]
fn rename_all_covers_every_serde_style() {
    assert_eq!(rename("lowercase", "UserID").as_deref(), Some("userid"));
    assert_eq!(rename("UPPERCASE", "user_id").as_deref(), Some("USER_ID"));
    assert_eq!(rename("PascalCase", "user_id").as_deref(), Some("UserId"));
    assert_eq!(rename("camelCase", "user_id").as_deref(), Some("userId"));
    assert_eq!(rename("snake_case", "user-id").as_deref(), Some("user_id"));
    assert_eq!(rename("SCREAMING_SNAKE_CASE", "user-id_x").as_deref(), Some("USER_ID_X"));
    assert_eq!(rename("kebab-case", "user_id").as_deref(), Some("user-id"));
    assert_eq!(rename("SCREAMING-KEBAB-CASE", "user_id").as_deref(), Some("USER-ID"));
}

#[test]
fn rename_all_refuses_unknown_styles() {
    assert_eq!(rename("not-a-case", "user_id"), None);
    assert_eq!(rename("camelcase", "user_id"), None);
    assert_eq!(rename("", "user_id"), None);
}

#[test]
fn words_split_on_underscores_and_hyphens_and_drop_empty_pieces() {
    assert_eq!(words("__User--ID_x_"), vec!["user".to_owned(), "id".to_owned(), "x".to_owned()]);
    assert!(words("").is_empty());
    assert!(words("_-_").is_empty());
    assert_eq!(words("UserId"), vec!["userid".to_owned()]);
}

#[test]
fn case_of_separators_only_is_empty() {
    assert_eq!(rename("snake_case", "__").as_deref(), Some(""));
    assert_eq!(pascal("-"), "");
    assert_eq!(camel(""), "");
}

#[test]
fn pascal_and_camel_capitalize_words() {
    assert_eq!(pascal("score_value"), "ScoreValue");
    assert_eq!(camel("score_value"), "scoreValue");
    assert_eq!(camel("x"), "x");
    assert_eq!(pascal("éa_b"), "éaB");
    assert_eq!(camel("éa_b"), "éaB");
}
