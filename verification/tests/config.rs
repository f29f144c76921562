use std::path::PathBuf;

use key_capture::config::{config_path, parse_chord_key, ptt_chord_from_json, read_ptt_chord};
use key_capture::json::{parse_json, Json};

fn text(s: &str) -> Json {
    Json::Text(s.to_string())
}

fn object(members: Vec<(&str, Json)>) -> Json {
    Json::Object(members.into_iter().map(|(name, value)| (name.to_string(), value)).collect())
}

fn settings(shortcuts: Json) -> Json {
    object(vec![("prefs", object(vec![("user", object(vec![("shortcuts", shortcuts)]))]))])
}

#[test]
fn parse_chord_key_handles_plain_and_layered() {
    assert_eq!(parse_chord_key("162+91"), Some(vec![162, 91]));
    // Layered "-1+..." drops the sentinel, keeps the real keys.
    assert_eq!(parse_chord_key("-1+162+86"), Some(vec![162, 86]));
    // Single key.
    assert_eq!(parse_chord_key("27"), Some(vec![27]));
    // Nothing positive -> None.
    assert_eq!(parse_chord_key("-1"), None);
    assert_eq!(parse_chord_key(""), None);
}

#[test]
fn finds_ptt_entry_among_many() {
    // Mirrors the real config shape: many actions, ptt is modifier-only here.
    let cfg = settings(object(vec![
        ("27", text("dismiss")),
        ("-1+162+86", text("paste_last_text")),
        ("162+91", text("ptt")),
        ("-1+49", text("polish")),
    ]));
    assert_eq!(ptt_chord_from_json(&cfg), Some(vec![162, 91]));
}

#[test]
fn missing_pieces_yield_none() {
    assert_eq!(ptt_chord_from_json(&object(vec![])), None);
    assert_eq!(ptt_chord_from_json(&settings(object(vec![]))), None);
    // No ptt action present.
    assert_eq!(
        ptt_chord_from_json(&settings(object(vec![("27", text("dismiss"))]))),
        None
    );
}

#[test]
fn chord_tokens_are_trimmed_and_others_dropped() {
    assert_eq!(parse_chord_key(" 162 +\t91\u{a0}"), Some(vec![162, 91]));
    assert_eq!(parse_chord_key("a+65+0+-7+6x5+"), Some(vec![65]));
    assert_eq!(parse_chord_key("+"), None);
    assert_eq!(parse_chord_key("007"), Some(vec![7]));
    assert_eq!(parse_chord_key("1 2+3"), Some(vec![3]));
    assert_eq!(parse_chord_key("65+65"), Some(vec![65, 65]));
}

#[test]
fn numbers_beyond_a_key_code_are_dropped() {
    assert_eq!(parse_chord_key("4294967295"), Some(vec![u32::MAX]));
    assert_eq!(parse_chord_key("4294967296"), None);
    assert_eq!(parse_chord_key("4294967297"), None);
    assert_eq!(parse_chord_key("4294967297+65"), Some(vec![65]));
    assert_eq!(parse_chord_key("9223372036854775807"), None);
    assert_eq!(parse_chord_key("9223372036854775808"), None);
    assert_eq!(parse_chord_key("-9223372036854775808"), None);
    assert_eq!(parse_chord_key("99999999999999999999999+8"), Some(vec![8]));
}

#[test]
fn chord_keys_agree_with_iterator_chain() {
    let keys = [
        "162+91", "-1+162+86", "27", "-1", "", "++", " 1\u{2003}+\u{3000}2", "+5", "5+", "-", "--1",
        "0x10+16", "1e3+4", "٣+3", "18446744073709551616+1", "-0+00+1", "2147483648+3000000000",
        "4294967295+4294967296+4294967297", "9223372036854775807+2",
    ];
    for key in keys {
        let codes: Vec<u32> = key
            .split('+')
            .filter_map(|token| token.trim().parse::<i64>().ok())
            .filter(|&n| n > 0)
            .filter_map(|n| u32::try_from(n).ok())
            .collect();
        let expected = if codes.is_empty() { None } else { Some(codes) };
        assert_eq!(parse_chord_key(key), expected, "{key:?}");
    }
}

#[test]
fn written_chords_read_back() {
    for codes in [vec![1u32], vec![162, 91], vec![u32::MAX, 10, 100]] {
        let key = codes.iter().map(|c| c.to_string()).collect::<Vec<_>>().join("+");
        assert_eq!(parse_chord_key(&key), Some(codes.clone()));
        assert_eq!(parse_chord_key(&format!("-1+{key}")), Some(codes.clone()));
        assert_eq!(parse_chord_key(&format!("none+{key}")), Some(codes));
    }
}

#[test]
fn joined_chords_join_their_keys() {
    let keys = ["162+91", "-1", "", "65", " 7 +x", "+", "-1+162+86"];
    for a in keys {
        for b in keys {
            let mut codes = parse_chord_key(a).unwrap_or_default();
            codes.extend(parse_chord_key(b).unwrap_or_default());
            let joined = parse_chord_key(&format!("{a}+{b}")).unwrap_or_default();
            assert_eq!(joined, codes, "{a:?} {b:?}");
        }
    }
}

#[test]
fn codes_are_positive() {
    let codes = parse_chord_key("3+-3+0+4294967296+4294967301").unwrap();
    assert_eq!(codes, [3]);
    for code in codes {
        assert!(code > 0);
    }
}

#[test]
fn settings_text_gives_chord() {
    let content = r#"{"prefs": {"user": {"shortcuts": {
        "27": "dismiss", "-1+162+86": "paste_last_text", "162+91": "ptt", "-1+49": "polish"
    }, "other": [1, 2.5, null, true]}}}"#;
    assert_eq!(read_ptt_chord(Some(content)), Some(vec![162, 91]));
    assert_eq!(read_ptt_chord(None), None);
    assert_eq!(read_ptt_chord(Some("not json")), None);
    assert_eq!(read_ptt_chord(Some("{}")), None);
    assert_eq!(read_ptt_chord(Some(r#"{"prefs": {"user": {"shortcuts": ["ptt"]}}}"#)), None);
    assert_eq!(read_ptt_chord(Some(r#"{"prefs": [{"user": {}}]}"#)), None);
    assert_eq!(read_ptt_chord(Some(r#"{"prefs": {"user": 7}}"#)), None);
}

#[test]
fn ptt_entry_needs_its_action_and_a_key() {
    assert_eq!(
        read_ptt_chord(Some(r#"{"prefs": {"user": {"shortcuts": {"65": 1, "66": "PTT"}}}}"#)),
        None
    );
    // An entry without a key is passed over.
    assert_eq!(
        read_ptt_chord(Some(r#"{"prefs": {"user": {"shortcuts": {"-1": "ptt", "66": "ptt"}}}}"#)),
        Some(vec![66])
    );
}

#[test]
fn least_ptt_entry_wins() {
    let content = r#"{"prefs": {"user": {"shortcuts": {"66": "ptt", "162+91": "ptt"}}}}"#;
    assert_eq!(read_ptt_chord(Some(content)), Some(vec![162, 91]));
    let root = parse_json(content).unwrap();
    assert_eq!(ptt_chord_from_json(&root), Some(vec![162, 91]));
}

#[test]
fn ptt_chord_has_keys() {
    let content = r#"{"prefs": {"user": {"shortcuts": {"0": "ptt", "65": "ptt"}}}}"#;
    assert_eq!(read_ptt_chord(Some(content)), Some(vec![65]));
    // A number beyond a key code is no key either.
    let content = r#"{"prefs": {"user": {"shortcuts": {"4294967296": "ptt", "65": "ptt"}}}}"#;
    assert_eq!(read_ptt_chord(Some(content)), Some(vec![65]));
}

#[test]
fn config_path_prefers_xdg() {
    let path = |xdg: Option<&str>, home: Option<&str>| {
        config_path(
            xdg.map(|s| s.as_bytes().to_vec()),
            home.map(|s| s.as_bytes().to_vec()),
        )
        .map(|bytes| String::from_utf8(bytes).unwrap())
    };
    assert_eq!(
        path(Some("/x"), Some("/home/u")).as_deref(),
        Some("/x/Wispr Flow/config.json")
    );
    assert_eq!(path(Some("/x"), None).as_deref(), Some("/x/Wispr Flow/config.json"));
    assert_eq!(
        path(None, Some("/home/u")).as_deref(),
        Some("/home/u/.config/Wispr Flow/config.json")
    );
    // An empty XDG_CONFIG_HOME counts as unset.
    assert_eq!(
        path(Some(""), Some("/home/u")).as_deref(),
        Some("/home/u/.config/Wispr Flow/config.json")
    );
    assert_eq!(path(Some(""), None), None);
    assert_eq!(path(None, None), None);
}

#[test]
fn config_path_joins_like_pathbuf() {
    for base in ["/x", "/x/", "/", "rel", "rel/", "/a//", "/ü"] {
        let expected = PathBuf::from(base).join("Wispr Flow").join("config.json");
        let got = config_path(Some(base.as_bytes().to_vec()), None).unwrap();
        assert_eq!(String::from_utf8(got).unwrap(), expected.to_str().unwrap());
    }
    for home in ["", "/", "/home/u", "/home/u/"] {
        let expected = PathBuf::from(home).join(".config").join("Wispr Flow").join("config.json");
        let got = config_path(None, Some(home.as_bytes().to_vec())).unwrap();
        assert_eq!(String::from_utf8(got).unwrap(), expected.to_str().unwrap());
    }
}

#[test]
fn config_path_takes_any_bytes() {
    let got = config_path(Some(vec![b'/', 0xff]), None).unwrap();
    assert_eq!(got, b"/\xff/Wispr Flow/config.json".to_vec());
}

#[test]
fn bound_chord_reads_back() {
    for codes in [vec![65u32], vec![162, 160, 32]] {
        let key = codes.iter().map(|c| c.to_string()).collect::<Vec<_>>().join("+");
        let cfg = settings(object(vec![("27", text("dismiss")), (&key, text("ptt"))]));
        assert_eq!(ptt_chord_from_json(&cfg), Some(codes));
    }
}
