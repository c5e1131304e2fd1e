use web_home::codec::{parse_u64_chars, push_field, push_u64_digits, take_field_str};
use web_home::fetch::cache_is_fresh;
use web_home::module_positions::ModulePositions;
use web_home::module_type::StringToModuleType;
use web_home::components::{distant_time, DISTANT_TIME_RESULT};
use web_home::holder::{make_name, parse_ordinal};
use web_home::imap::{imap_connector, imap_connector_extra, imap_decode, imap_encode, Attributs};
use web_home::links::{links_decode, links_encode, Link};
use web_home::rss::{maxline_default, rss_decode, rss_encode, RssConfig};
use web_home::weather::{weather_decode, weather_encode, WeatherConfig};

#[test]
fn field_framing_round_trips() {
    let mut out = String::new();
    push_field("hello", &mut out);
    assert_eq!(out, "5:hello");
    push_field("", &mut out);
    assert_eq!(out, "5:hello0:");
    let (f1, p1) = take_field_str(&out, 0).unwrap();
    assert_eq!(f1, "hello");
    let (f2, p2) = take_field_str(&out, p1).unwrap();
    assert_eq!(f2, "");
    assert_eq!(p2, out.chars().count());
}

#[test]
fn field_framing_survives_tricky_text() {
    let mut out = String::new();
    push_field("3:abc", &mut out);
    push_field("caf\u{e9} \u{2603}", &mut out);
    let (f1, p1) = take_field_str(&out, 0).unwrap();
    assert_eq!(f1, "3:abc");
    let (f2, _) = take_field_str(&out, p1).unwrap();
    assert_eq!(f2, "caf\u{e9} \u{2603}");
}

#[test]
fn malformed_fields_are_rejected() {
    assert!(take_field_str("abc", 0).is_none());
    assert!(take_field_str("5:abc", 0).is_none());
    assert!(take_field_str("3abc", 0).is_none());
    assert!(take_field_str("", 0).is_none());
}

#[test]
fn numbers_round_trip() {
    let mut out = String::new();
    push_u64_digits(0, &mut out);
    assert_eq!(out, "0");
    let mut out = String::new();
    push_u64_digits(18446744073709551615, &mut out);
    assert_eq!(out, "18446744073709551615");
    assert_eq!(parse_u64_chars(&out), Some(18446744073709551615));
    assert_eq!(parse_u64_chars("12x"), None);
    assert_eq!(parse_u64_chars(""), None);
}

#[test]
fn cache_freshness_window_is_five_minutes() {
    assert!(cache_is_fresh(1000, 1000));
    assert!(cache_is_fresh(1300, 1000));
    assert!(!cache_is_fresh(1301, 1000));
    assert!(cache_is_fresh(0, u64::MAX));
}

#[test]
fn resizing_clamps_to_constraints() {
    let weather = StringToModuleType("WEATHER").unwrap();
    let mut mp = ModulePositions::new(weather);
    mp.set_size(40, 2000);
    let rec = mp.export();
    assert_eq!(rec.size, [150, 2000]);
    mp.set_size(500, 100);
    let rec = mp.export();
    assert_eq!(rec.size, [500, 175]);
    mp.set_pos(-5, 12);
    let rec = mp.export();
    assert_eq!(rec.pos, [-5, 12]);
    assert!(mp.cache_mustUpdate());
}

#[test]
fn links_list_round_trips() {
    let links = vec![
        Link::new("home".to_string(), "https://example.com".to_string()),
        Link::new("s:8".to_string(), "https://example.org/a?b=c".to_string()),
        Link::new(String::new(), "x".to_string()),
    ];
    let enc = links_encode(&links);
    let dec = links_decode(&enc).unwrap();
    assert_eq!(dec.len(), 3);
    for (a, b) in links.iter().zip(dec.iter()) {
        assert_eq!(a.label, b.label);
        assert_eq!(a.url, b.url);
    }
    assert!(links_decode("junk").is_none());
}

#[test]
fn rss_config_round_trips() {
    let cfg = RssConfig {
        title: "news".to_string(),
        link: "https://example.com/feed".to_string(),
        maxline: 255,
    };
    let enc = rss_encode(&cfg);
    let dec = rss_decode(&enc).unwrap();
    assert_eq!(dec.title, cfg.title);
    assert_eq!(dec.link, cfg.link);
    assert_eq!(dec.maxline, 255);
    assert_eq!(maxline_default(), 10);
    assert!(rss_decode("").is_none());
}

#[test]
fn weather_config_round_trips() {
    let cfg = WeatherConfig {
        latitude: "48.8566".to_string(),
        longitude: "-2.3522".to_string(),
        maxday: 7,
        title: "Paris".to_string(),
    };
    let enc = weather_encode(&cfg);
    let dec = weather_decode(&enc).unwrap();
    assert_eq!(dec.latitude, cfg.latitude);
    assert_eq!(dec.longitude, cfg.longitude);
    assert_eq!(dec.maxday, 7);
    assert_eq!(dec.title, cfg.title);
}

#[test]
fn imap_connector_round_trips() {
    let plain = imap_connector {
        host: "imap.example.com".to_string(),
        port: 993,
        username: "user@example.com".to_string(),
        password: "hunter:2".to_string(),
        extra: None,
    };
    let dec = imap_decode(&imap_encode(&plain)).unwrap();
    assert_eq!(dec.host, plain.host);
    assert_eq!(dec.port, 993);
    assert_eq!(dec.username, plain.username);
    assert_eq!(dec.password, plain.password);
    assert!(dec.extra.is_none());

    let with_extra = imap_connector {
        extra: Some(imap_connector_extra {
            boxBlackList: vec!["Spam".to_string(), "Trash".to_string()],
            flagBlackList: vec!["\\Seen".to_string()],
        }),
        ..plain
    };
    let dec = imap_decode(&imap_encode(&with_extra)).unwrap();
    let extra = dec.extra.unwrap();
    assert_eq!(extra.boxBlackList, vec!["Spam".to_string(), "Trash".to_string()]);
    assert_eq!(extra.flagBlackList, vec!["\\Seen".to_string()]);
}

#[test]
fn uninteresting_mailboxes() {
    let mut a = Attributs::default();
    assert!(!a.is_uninteresting());
    a.is_junk = true;
    assert!(a.is_uninteresting());
}

#[test]
fn module_names_carry_their_ordinal() {
    assert_eq!(make_name(0, "RSS"), "0_RSS");
    assert_eq!(make_name(42, "TODO"), "42_TODO");
    assert_eq!(parse_ordinal("42_TODO"), Some(42));
    assert_eq!(parse_ordinal("links"), None);
    assert_eq!(parse_ordinal("12x_RSS"), None);
    assert_eq!(parse_ordinal("_RSS"), None);
    assert_eq!(parse_ordinal("7"), Some(7));
}

#[test]
fn relative_times_reduce_to_units() {
    assert_eq!(distant_time(1000, 970), DISTANT_TIME_RESULT::FUTUR(30, 0));
    assert_eq!(distant_time(1000, 1030), DISTANT_TIME_RESULT::PAST(30, 0));
    assert_eq!(distant_time(7200, 0), DISTANT_TIME_RESULT::FUTUR(2, 2));
    let year = 60 * 60 * 24 * 30 * 12;
    assert_eq!(distant_time(3 * year, 0), DISTANT_TIME_RESULT::FUTUR(3, 5));
    let r = distant_time(1000, 970);
    assert_eq!(r.unit_key(), "DISTANT_TIME_RESULT_SEC");
}
