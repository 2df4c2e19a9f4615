use std::collections::HashMap;

use icobgone::web_shortcut::{get_steam_id_from_url, parse_url_file, url_file_content, UrlFields};

/// What the standard library makes of a `.url` file's content, line by line.
fn std_fields(content: &str) -> HashMap<String, String> {
    let mut map = HashMap::new();
    for line in content.lines() {
        if let Some((key, value)) = line.split_once('=') {
            map.insert(key.trim().to_string(), value.trim().to_string());
        }
    }
    map
}

fn as_map(fields: UrlFields) -> HashMap<String, String> {
    fields.into_pairs().into_iter().collect()
}

#[test]
fn steam_id_is_taken_from_a_launch_url() {
    assert_eq!(get_steam_id_from_url("steam://rungameid/440"), Some("440".to_string()));
    assert_eq!(get_steam_id_from_url("steam://rungameid/"), Some(String::new()));
}

#[test]
fn steam_id_is_none_for_other_urls() {
    assert_eq!(get_steam_id_from_url("https://store.steampowered.com/app/440"), None);
    assert_eq!(get_steam_id_from_url("steam://run/440"), None);
    assert_eq!(get_steam_id_from_url("STEAM://rungameid/440"), None);
    assert_eq!(get_steam_id_from_url(""), None);
}

#[test]
fn steam_id_round_trip() {
    let url = format!("steam://rungameid/{}", "1091500");
    assert_eq!(get_steam_id_from_url(&url).as_deref(), Some("1091500"));
}

#[test]
fn url_file_content_with_all_lines() {
    let content = url_file_content("steam://rungameid/440", Some("440"), Some("C:\\icons\\tf2.ico"));
    assert_eq!(
        content,
        "[InternetShortcut]\nURL=steam://rungameid/440\nID=440\nIconFile=C:\\icons\\tf2.ico\nIconIndex=0\n"
    );
}

#[test]
fn url_file_content_with_url_only() {
    let content = url_file_content("https://example.com/?a=b", None, None);
    assert_eq!(content, "[InternetShortcut]\nURL=https://example.com/?a=b\n");
}

#[test]
fn url_file_content_without_id() {
    let content = url_file_content("https://example.com", None, Some("x.ico"));
    assert_eq!(content, "[InternetShortcut]\nURL=https://example.com\nIconFile=x.ico\nIconIndex=0\n");
}

#[test]
fn written_url_file_reads_back() {
    let content = url_file_content(" steam://rungameid/440 ", Some("440"), Some("C:\\a b\\i.ico\r"));
    let fields = parse_url_file(&content);
    assert_eq!(fields.get("URL").as_deref(), Some("steam://rungameid/440"));
    assert_eq!(fields.get("ID").as_deref(), Some("440"));
    assert_eq!(fields.get("IconFile").as_deref(), Some("C:\\a b\\i.ico"));
    assert_eq!(fields.get("IconIndex").as_deref(), Some("0"));
    assert_eq!(fields.get("[InternetShortcut]"), None);
    assert_eq!(as_map(fields).len(), 4);
}

#[test]
fn parse_splits_at_the_first_equals_and_trims() {
    let fields = parse_url_file("  key  =  a=b  \r\nnoequals\n=empty key\nlast=\t");
    assert_eq!(fields.get("key").as_deref(), Some("a=b"));
    assert_eq!(fields.get("").as_deref(), Some("empty key"));
    assert_eq!(fields.get("last").as_deref(), Some(""));
    assert_eq!(fields.get("noequals"), None);
}

#[test]
fn later_line_overrides_earlier() {
    let fields = parse_url_file("URL=first\nURL=second\n");
    assert_eq!(fields.get("URL").as_deref(), Some("second"));
    assert_eq!(as_map(fields).len(), 1);
}

#[test]
fn parse_of_empty_content_is_empty() {
    assert!(as_map(parse_url_file("")).is_empty());
    assert!(as_map(parse_url_file("\n\n\r\n")).is_empty());
}

#[test]
fn parse_agrees_with_std_lines_split_and_trim() {
    let samples = [
        "[InternetShortcut]\r\nURL=steam://rungameid/570\r\nIconFile=C:\\x.ico\r\nIconIndex=0\r\n",
        "a=1\nb = 2\n\na = 3",
        "x=\u{a0}y\u{2003}\r",
        "\u{3000}k\u{3000}=\u{85}v\u{85}\n=\n==\n",
        "only a line",
        "trailing\r",
        "mid\rdle=va\rlue\r\r\n",
        "k=v\n\n",
    ];
    for sample in samples {
        assert_eq!(as_map(parse_url_file(sample)), std_fields(sample), "sample {:?}", sample);
    }
}

#[test]
fn fields_insert_and_get() {
    let mut fields = UrlFields::new();
    assert_eq!(fields.get("a"), None);
    fields.insert("a".to_string(), "1".to_string());
    fields.insert("b".to_string(), "2".to_string());
    fields.insert("a".to_string(), "3".to_string());
    assert_eq!(fields.get("a").as_deref(), Some("3"));
    assert_eq!(fields.get("b").as_deref(), Some("2"));
    let pairs = fields.into_pairs();
    assert_eq!(pairs, vec![("a".to_string(), "3".to_string()), ("b".to_string(), "2".to_string())]);
}
