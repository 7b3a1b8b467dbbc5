use marsbot::bot::{fill_template, mars_reply_text, pick_conflict};
use marsbot::db::MarsImage;
use marsbot::config::Config;
use marsbot::utils::constant::{config_path, data_root_path, db_path};
use marsbot::utils::{i64_to_dec_string, msg_url, UrlJoin};

#[test]
fn test_url_join() {
    let mut url = "https://example.com".to_string();
    assert_eq!(url.clone().urljoin("api/v1"), "https://example.com/api/v1");
    assert_eq!(url.clone().urljoin("/api/v1"), "https://example.com/api/v1");
    assert_eq!(
        url.clone().urljoin(" /api/v1/"),
        "https://example.com/api/v1"
    );
    url.push('/');
    assert_eq!(url.clone().urljoin("api/v1"), "https://example.com/api/v1");
    assert_eq!(url.clone().urljoin("/api/v1"), "https://example.com/api/v1");
    assert_eq!(
        url.clone().urljoin(" /api/v1/"),
        "https://example.com/api/v1"
    );
}

#[test]
fn decimal_rendering() {
    assert_eq!(i64_to_dec_string(0), "0");
    assert_eq!(i64_to_dec_string(12_345_678), "12345678");
    assert_eq!(i64_to_dec_string(-1_001_234_567_890), "-1001234567890");
    assert_eq!(i64_to_dec_string(i64::MIN), "-9223372036854775808");
}

#[test]
fn msg_url_public_chat() {
    assert_eq!(
        msg_url(None, -1_001_234_567_890, 123),
        "https://t.me/c/1234567890/123"
    );
    assert_eq!(msg_url(None, 42, 7), "https://t.me/c/42/7");
}

#[test]
fn msg_url_invite_link() {
    assert_eq!(
        msg_url(Some("https://t.me/joinchat/abc"), -1_001_234_567_890, 9),
        "https://t.me/joinchat/abc/9"
    );
}

#[test]
fn fill_template_first_placeholder() {
    assert_eq!(fill_template("go {} now", "there"), "go there now");
    assert_eq!(fill_template("{}{}", "x"), "x{}");
    assert_eq!(fill_template("no placeholder", "x"), "no placeholder");
    assert_eq!(
        fill_template("You Marsed\\! [Origin message]({})", "https://t.me/c/1/2"),
        "You Marsed\\! [Origin message](https://t.me/c/1/2)"
    );
}

#[test]
fn default_config_values() {
    let c = Config::default();
    assert!(!c.only_mars_for_channel_message);
    assert!(c.token.is_none());
    assert_eq!(c.max_file_size, 10 * 1024 * 1024);
    assert_eq!(c.mars_prompt, "You Marsed\\! [Origin message]({})");
}

#[test]
fn data_paths() {
    let root = data_root_path("/home/someone");
    assert_eq!(root, "/home/someone/.local/marsbot");
    assert_eq!(config_path(&root), "/home/someone/.local/marsbot/config.toml");
    assert_eq!(db_path(&root), "/home/someone/.local/marsbot/db");
}

#[test]
fn reply_text_links_the_original_message() {
    assert_eq!(
        mars_reply_text("You Marsed\\! [Origin message]({})", None, 42, 7),
        "You Marsed\\! [Origin message](https://t.me/c/42/7)"
    );
}

#[test]
fn conflict_choice_takes_the_last_answer() {
    let img = MarsImage::new(3, vec![1, 2]);
    assert_eq!(pick_conflict(vec![]), None);
    assert_eq!(pick_conflict(vec![Some(img.clone()), None]), None);
    assert_eq!(pick_conflict(vec![None, Some(img.clone())]), Some(img));
}
