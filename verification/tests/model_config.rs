use waveline::config::normalize_handle;
use waveline::model::{fmt_duration, Platform, Track};

#[test]
fn formate_les_durees_courtes_et_longues() {
    assert_eq!(fmt_duration(290_000), "4:50");
    assert_eq!(fmt_duration(3_731_000), "1:02:11");
    assert_eq!(fmt_duration(0), "0:00");
}

#[test]
fn duree_inconnue_affiche_placeholder() {
    let t = Track {
        platform: Platform::SoundCloud,
        id: "x".into(),
        title: "t".into(),
        artist: "a".into(),
        permalink: "https://soundcloud.com/a/t".into(),
        duration_ms: None,
    };
    assert_eq!(t.duration_human(), "--:--");
}

#[test]
fn normalise_pseudos_et_urls() {
    assert_eq!(normalize_handle("  bonobo "), Some("bonobo".into()));
    assert_eq!(
        normalize_handle("https://soundcloud.com/flume"),
        Some("flume".into())
    );
    assert_eq!(
        normalize_handle("www.mixcloud.com/NTSRadio/"),
        Some("NTSRadio".into())
    );
    assert_eq!(normalize_handle("   "), None);
}

#[test]
fn durations_edge_cases() {
    assert_eq!(fmt_duration(999), "0:00");
    assert_eq!(fmt_duration(59_999), "0:59");
    assert_eq!(fmt_duration(3_600_000), "1:00:00");
    assert_eq!(fmt_duration(36_005_000), "10:00:05");
    let t = Track {
        platform: Platform::Mixcloud,
        id: "x".into(),
        title: "t".into(),
        artist: "a".into(),
        permalink: "p".into(),
        duration_ms: Some(61_000),
    };
    assert_eq!(t.duration_human(), "1:01");
}

#[test]
fn platform_names() {
    assert_eq!(Platform::SoundCloud.tag(), "SC");
    assert_eq!(Platform::Mixcloud.tag(), "MC");
    assert_eq!(Platform::SoundCloud.to_string(), "SoundCloud");
    assert_eq!(Platform::Mixcloud.to_string(), "Mixcloud");
}

#[test]
fn handles_with_paths_and_spaces() {
    assert_eq!(normalize_handle("http://soundcloud.com/a/b/c"), Some("a".into()));
    assert_eq!(normalize_handle("https://https://mixcloud.com//x//"), Some("x".into()));
    assert_eq!(normalize_handle("soundcloud.com/"), None);
    assert_eq!(normalize_handle("\u{a0}name\t"), Some("name".into()));
    assert_eq!(normalize_handle("a b/c"), Some("a b".into()));
}

#[test]
fn duplicate_track_is_equal() {
    let t = Track {
        platform: Platform::Mixcloud,
        id: "i".into(),
        title: "t".into(),
        artist: "a".into(),
        permalink: "p".into(),
        duration_ms: Some(1),
    };
    let d = t.duplicate();
    assert_eq!(d.id, t.id);
    assert_eq!(d.title, t.title);
    assert_eq!(d.artist, t.artist);
    assert_eq!(d.permalink, t.permalink);
    assert_eq!(d.duration_ms, t.duration_ms);
    assert_eq!(d.platform, t.platform);
}

#[test]
fn handle_is_trimmed_segment_without_slash() {
    let h = normalize_handle(" https://soundcloud.com/ flume /x").unwrap();
    assert_eq!(h, "flume");
    assert!(!h.contains('/'));
    assert_eq!(normalize_handle("///"), None);
    assert_eq!(normalize_handle("mixcloud.com/ /"), None);
}

#[test]
fn normal_handles_come_back_unchanged() {
    for h in ["flume", "NTS_Radio", "a b", "x.y"] {
        assert_eq!(normalize_handle(h), Some(h.to_string()));
        assert_eq!(normalize_handle(&format!("https://soundcloud.com/{h}")), Some(h.to_string()));
        assert_eq!(normalize_handle(&format!("www.mixcloud.com/{h}/")), Some(h.to_string()));
    }
    // the one excluded handle: its own prefix is stripped twice
    assert_eq!(normalize_handle("www.mixcloud.com/mixcloud.com/"), None);
}
