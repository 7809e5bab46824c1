use chimera_ruffle::config::{configure, LoadBehavior, MovieInfo, PlayerRuntime, StageQuality};
use chimera_ruffle::renderer::Which;
use chimera_ruffle::settings::{Document, Setting, SettingValue, Settings};

fn movie() -> MovieInfo {
    MovieInfo { rate: 24 * 256, width_twips: 11000, height_twips: 8000 }
}

fn settings(json: &str) -> Settings {
    Settings::load(Some(json.as_bytes()))
}

#[test]
fn text_is_trimmed_and_blank_is_unset() {
    let s = settings("{\"a\": \"  x y \\u00a0\", \"b\": \" \\t\\n\", \"c\": 7, \"d\": \"\"}");
    assert_eq!(s.text("a"), Some("x y".to_string()));
    assert_eq!(s.text("b"), None);
    assert_eq!(s.text("c"), None);
    assert_eq!(s.text("d"), None);
    assert_eq!(s.text("e"), None);
}

#[test]
fn names_are_exact() {
    let s = settings("{\"Fps\": 30, \"fps \": 31}");
    assert_eq!(s.integer("fps", 5), 5);
    assert_eq!(s.integer("Fps", 5), 30);
}

#[test]
fn flags_are_json_booleans() {
    let s = settings("{\"on\": true, \"off\": false, \"text\": \"true\", \"one\": 1}");
    assert!(s.flag("on", false));
    assert!(!s.flag("off", true));
    assert!(s.flag("text", true));
    assert!(!s.flag("text", false));
    assert!(!s.flag("one", false));
    assert!(s.flag("absent", true));
}

#[test]
fn integers_are_json_integers() {
    let s = settings(
        "{\"n\": -3, \"big\": 9223372036854775807, \"bigger\": 9223372036854775808, \"f\": 2.0, \"t\": \"4\"}",
    );
    assert_eq!(s.integer("n", 0), -3);
    assert_eq!(s.integer("big", 0), i64::MAX);
    assert_eq!(s.integer("bigger", 11), 11);
    assert_eq!(s.integer("f", 12), 12);
    assert_eq!(s.integer("t", 13), 13);
}

#[test]
fn choices_ignore_case_and_fall_back() {
    let table = [("low", 1), ("high8x8", 2), ("LOW", 3)];
    assert_eq!(settings("{\"q\": \"High8X8\"}").choice("q", &table, 0), 2);
    assert_eq!(settings("{\"q\": \" low \"}").choice("q", &table, 0), 1);
    assert_eq!(settings("{\"q\": \"ultra\"}").choice("q", &table, 9), 9);
    assert_eq!(settings("{\"q\": 1}").choice("q", &table, 9), 9);
    assert_eq!(settings("{}").choice("q", &table, 9), 9);
}

#[test]
fn last_of_a_repeated_name_wins() {
    let s = settings("{\"fps\": 30, \"fps\": 60}");
    assert_eq!(s.integer("fps", 0), 60);
    assert_eq!(s.entries.len(), 1);
}

#[test]
fn unreadable_settings_are_no_settings() {
    assert!(Settings::load(None).entries.is_empty());
    assert!(settings("").entries.is_empty());
    assert!(settings("{\"fps\": 30").entries.is_empty());
    assert!(settings("[1, 2]").entries.is_empty());
    assert!(settings("null").entries.is_empty());
    assert!(Settings::load(Some(&[0xff, 0xfe])).entries.is_empty());
}

#[test]
fn nothing_set_is_the_movies_own() {
    let c = configure(movie(), &Settings::load(None), None);
    assert_eq!((c.pace.host_num, c.pace.host_den), (24 * 256, 256));
    assert_eq!(c.pace.rate_256, 24 * 256);
    assert_eq!(c.forced_rate, None);
    assert_eq!((c.stage_width, c.stage_height), (550, 400));
    assert_eq!((c.vsync_num, c.vsync_den), (24, 1));
    assert_eq!(c.spoofed_url, None);
    assert_eq!(c.page_url, None);
    assert_eq!(c.player_version, None);
    assert_eq!(c.player_runtime, PlayerRuntime::FlashPlayer);
    assert_eq!(c.quality, StageQuality::High);
    assert_eq!(c.load_behavior, LoadBehavior::Streaming);
    assert!(!c.compatibility_rules);
    assert!(c.default_font);
    assert_eq!(c.renderer, Which::Hardware);
}

#[test]
fn everything_set_is_heard() {
    let s = settings(
        "{\"fps\": 60, \"spoofUrl\": \"http://a/b.swf\", \"pageUrl\": \"http://a/\", \
          \"playerVersion\": 11, \"playerRuntime\": \"AIR\", \"quality\": \"HIGH16x16linear\", \
          \"loadBehavior\": \"blocking\", \"compatibilityRules\": true, \"defaultFont\": false, \
          \"renderer\": \"software\"}",
    );
    let c = configure(movie(), &s, None);
    assert_eq!((c.pace.host_num, c.pace.host_den), (60, 1));
    assert_eq!(c.forced_rate, Some(60));
    assert_eq!((c.vsync_num, c.vsync_den), (60, 1));
    assert_eq!(c.spoofed_url, Some("http://a/b.swf".to_string()));
    assert_eq!(c.page_url, Some("http://a/".to_string()));
    assert_eq!(c.player_version, Some(11));
    assert_eq!(c.player_runtime, PlayerRuntime::Air);
    assert_eq!(c.quality, StageQuality::High16x16Linear);
    assert_eq!(c.load_behavior, LoadBehavior::Blocking);
    assert!(c.compatibility_rules);
    assert!(!c.default_font);
    assert_eq!(c.renderer, Which::Software);
}

#[test]
fn direct_url_wins_over_the_setting() {
    let s = settings("{\"spoofUrl\": \"http://setting/\"}");
    let c = configure(movie(), &s, Some("http://direct/".to_string()));
    assert_eq!(c.spoofed_url, Some("http://direct/".to_string()));
}

#[test]
fn player_versions_are_those_there_were() {
    for (asked, told) in [(0, None), (5, None), (6, Some(6)), (32, Some(32)), (33, None), (-1, None)] {
        let json = format!("{{\"playerVersion\": {}}}", asked);
        assert_eq!(configure(movie(), &settings(&json), None).player_version, told);
    }
}

#[test]
fn document_that_is_no_object_has_no_settings() {
    for raw in ["null", "true", "7", "\"fps\"", "[{\"fps\": 30}]"] {
        assert!(settings(raw).entries.is_empty(), "{}", raw);
    }
    for document in [Document::Null, Document::Bool, Document::Number, Document::Text, Document::Array] {
        assert!(Settings::of_document(Some(document)).entries.is_empty());
    }
    assert!(Settings::of_document(None).entries.is_empty());
    let entry = Setting { name: "fps".to_string(), value: SettingValue::Number(Some(30)) };
    assert_eq!(Settings::of_document(Some(Document::Object(vec![entry]))).integer("fps", 0), 30);
}
