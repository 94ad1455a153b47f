use waveline::b64::decode_str;
use waveline::http::HttpError;
use waveline::json::{Json, JsonNumber};
use waveline::model::Platform;
use waveline::providers::hls::{expand_variant, is_encrypted, parse, resolve_uri, HlsNext, Playlist};
use waveline::providers::mixcloud::{
    check_restriction, cloudcast_of, cloudcast_query, container_from_url, decrypt, parse_url,
    playlist_slugs, stream_plan, track_from_cc, track_from_rest, tracks_from_list,
};
use waveline::providers::soundcloud::{
    cached_client_id, check_resolved, collection_tracks, extract_client_id, find_script_urls,
    is_stale_client_error, no_stream_error, playlist_tracks, rank_transcodings, retry_resolve,
    score_transcoding,
    signed_stream_url, track_from_json, tracks_from_search, transcoding_request, transcodings_of,
    user_id_from,
};
use waveline::providers::{
    platform_of, resolve_target, Container, ProviderError, StreamKind, StreamPlan,
};

const BASE: &str = "https://cf-hls-media.sndcdn.com/media/0/30/playlist.m3u8?token=x";

fn s(x: &str) -> Json {
    Json::Str(x.to_string())
}

fn obj(members: Vec<(&str, Json)>) -> Json {
    Json::Object(members.into_iter().map(|(k, v)| (k.to_string(), v)).collect())
}

fn num(n: u64) -> Json {
    Json::Number(JsonNumber::PosInt(n))
}

// --- HLS ---------------------------------------------------------------------

#[test]
fn detecte_media_vs_master() {
    let master = "#EXTM3U\n#EXT-X-STREAM-INF:BANDWIDTH=128000\nchunk.m3u8\n";
    assert!(matches!(parse(master, BASE), Playlist::Master(_)));

    let media = "#EXTM3U\n#EXTINF:10,\nseg0.ts\n#EXTINF:10,\nseg1.ts\n";
    match parse(media, BASE) {
        Playlist::Media(segs) => assert_eq!(segs.len(), 2),
        _ => panic!("attendu media"),
    }
}

#[test]
fn resout_uris_relatives_absolues_et_completes() {
    // relative au chemin
    assert_eq!(
        resolve_uri(BASE, "seg0.ts"),
        "https://cf-hls-media.sndcdn.com/media/0/30/seg0.ts"
    );
    // absolue depuis la racine
    assert_eq!(
        resolve_uri(BASE, "/x/seg0.ts"),
        "https://cf-hls-media.sndcdn.com/x/seg0.ts"
    );
    // déjà complète
    assert_eq!(resolve_uri(BASE, "https://h/s.ts"), "https://h/s.ts");
}

#[test]
fn detecte_chiffrement() {
    assert!(is_encrypted(
        "#EXTM3U\n#EXT-X-KEY:METHOD=AES-128,URI=\"k\"\nseg0.ts\n"
    ));
    assert!(!is_encrypted("#EXTM3U\n#EXT-X-KEY:METHOD=NONE\nseg0.ts\n"));
    assert!(!is_encrypted("#EXTM3U\nseg0.ts\n"));
}

#[test]
fn hls_parse_segments_in_order_with_crlf() {
    let media = "#EXTM3U\r\n#EXTINF:10,\r\n  seg0.ts \r\n\r\n/abs/seg1.ts\r\nhttp://o/seg2.ts";
    match parse(media, BASE) {
        Playlist::Media(segs) => assert_eq!(
            segs,
            vec![
                "https://cf-hls-media.sndcdn.com/media/0/30/seg0.ts".to_string(),
                "https://cf-hls-media.sndcdn.com/abs/seg1.ts".to_string(),
                "http://o/seg2.ts".to_string(),
            ]
        ),
        _ => panic!("attendu media"),
    }
    assert_eq!(parse("", BASE), Playlist::Media(vec![]));
}

#[test]
fn hls_resolution_edge_cases() {
    // no slash in base: the uri is kept
    assert_eq!(resolve_uri("nobase", "seg.ts"), "seg.ts");
    // root-relative without a scheme in base: relative to the base directory
    assert_eq!(resolve_uri("dir/list.m3u8", "/seg.ts"), "dir//seg.ts");
    // host without path
    assert_eq!(resolve_uri("https://h.com", "/a.ts"), "https://h.com/a.ts");
    // relative against a bare host resolves to an absolute URL
    assert_eq!(resolve_uri("https://h.com", "a.ts"), "https://a.ts");
    // the origin stops before a query or a fragment
    assert_eq!(resolve_uri("https://h.example?t=1", "/seg.ts"), "https://h.example/seg.ts");
    assert_eq!(resolve_uri("https://h.example#top", "/seg.ts"), "https://h.example/seg.ts");
}

#[test]
fn hls_encryption_with_spaces() {
    assert!(is_encrypted("  #EXT-X-KEY:METHOD=SAMPLE-AES  \nseg.ts"));
    assert!(!is_encrypted("seg.ts\n# EXT-X-KEY:METHOD=AES-128"));
}

#[test]
fn hls_expand_steps() {
    let master = "#EXTM3U\n#EXT-X-STREAM-INF:BANDWIDTH=1\nlow/chunk.m3u8\nhigh.m3u8\n";
    match waveline::providers::soundcloud::expand_first(master, BASE) {
        Ok(HlsNext::Variant(u)) => {
            assert_eq!(u, "https://cf-hls-media.sndcdn.com/media/0/30/low/chunk.m3u8")
        }
        _ => panic!("attendu variante"),
    }
    let empty_master = "#EXT-X-STREAM-INF:BANDWIDTH=1\n";
    assert_eq!(
        waveline::providers::mixcloud::expand_first(empty_master, BASE).err(),
        Some(ProviderError::Malformed("master m3u8 vide".into()))
    );
    let enc = "#EXT-X-KEY:METHOD=AES-128\nseg.ts";
    assert_eq!(
        waveline::providers::soundcloud::expand_first(enc, BASE).err(),
        Some(ProviderError::Unavailable("flux HLS chiffré (AES-128) non supporté".into()))
    );
    assert_eq!(
        waveline::providers::mixcloud::expand_first(enc, BASE).err(),
        Some(ProviderError::Unavailable("flux HLS chiffré non supporté".into()))
    );
    assert_eq!(
        expand_variant(master, BASE),
        Err(ProviderError::Malformed("master m3u8 imbriqué".into()))
    );
    assert_eq!(
        expand_variant("a.ts\nb.ts", "https://h/x/y.m3u8"),
        Ok(vec!["https://h/x/a.ts".to_string(), "https://h/x/b.ts".to_string()])
    );
}

// --- Platform detection --------------------------------------------------------

#[test]
fn detecte_la_plateforme() {
    assert_eq!(
        platform_of("https://soundcloud.com/a/b"),
        Some(Platform::SoundCloud)
    );
    assert_eq!(
        platform_of("https://www.mixcloud.com/a/b/"),
        Some(Platform::Mixcloud)
    );
    assert_eq!(platform_of("https://example.com"), None);
}

#[test]
fn conteneur_depuis_mime() {
    assert_eq!(Container::from_mime("audio/mpeg"), Container::Mp3);
    assert_eq!(
        Container::from_mime("audio/mp4; codecs=\"mp4a.40.2\""),
        Container::Mp4
    );
    assert_eq!(
        Container::from_mime("audio/ogg; codecs=\"opus\""),
        Container::Ogg
    );
}

#[test]
fn platform_and_container_edge_cases() {
    assert_eq!(platform_of("HTTPS://SND.SC/x"), Some(Platform::SoundCloud));
    assert_eq!(platform_of("https://MixCloud.com/x"), Some(Platform::Mixcloud));
    assert_eq!(Container::from_mime("AUDIO/MPEG"), Container::Mp3);
    assert_eq!(Container::from_mime("audio/aac"), Container::Mp4);
    assert_eq!(Container::from_mime("audio/x-wav"), Container::Unknown);
    assert_eq!(resolve_target("https://soundcloud.com/a"), Ok(Platform::SoundCloud));
    assert_eq!(
        resolve_target("ftp://nowhere"),
        Err(ProviderError::Unsupported("ftp://nowhere".into()))
    );
}

#[test]
fn error_messages() {
    assert_eq!(
        HttpError::Status(404, "https://u".into()).message(),
        "HTTP 404 sur https://u"
    );
    assert_eq!(HttpError::Transport("x".into()).message(), "réseau : x");
    assert_eq!(HttpError::Decode("y".into()).message(), "décodage : y");
    assert_eq!(
        ProviderError::Http(HttpError::Status(500, "u".into())).message(),
        "HTTP 500 sur u"
    );
    assert_eq!(
        ProviderError::Unsupported("u".into()).message(),
        "URL non supportée : u"
    );
    assert_eq!(
        ProviderError::Malformed("m".into()).message(),
        "réponse inattendue : m"
    );
    assert_eq!(
        ProviderError::Unavailable("m".into()).message(),
        "indisponible : m"
    );
}

// --- Mixcloud --------------------------------------------------------------------

const KEY: &[u8] = b"IFYOUWANTTHEARTISTSTOGETPAIDDONOTDOWNLOADFROMMIXCLOUD";

/// Mini-encodeur base64 standard, réservé aux tests.
fn base64_encode(data: &[u8]) -> String {
    const A: &[u8; 64] = b"ABCDEFGHIJKLMNOPQRSTUVWXYZabcdefghijklmnopqrstuvwxyz0123456789+/";
    let mut out = String::new();
    for chunk in data.chunks(3) {
        let b = [
            chunk[0],
            *chunk.get(1).unwrap_or(&0),
            *chunk.get(2).unwrap_or(&0),
        ];
        let n = ((b[0] as u32) << 16) | ((b[1] as u32) << 8) | b[2] as u32;
        out.push(A[((n >> 18) & 63) as usize] as char);
        out.push(A[((n >> 12) & 63) as usize] as char);
        if chunk.len() > 1 {
            out.push(A[((n >> 6) & 63) as usize] as char);
        } else {
            out.push('=');
        }
        if chunk.len() > 2 {
            out.push(A[(n & 63) as usize] as char);
        } else {
            out.push('=');
        }
    }
    out
}

fn obfuscate(plain: &[u8]) -> String {
    let enc: Vec<u8> = plain
        .iter()
        .zip(KEY.iter().cycle())
        .map(|(b, k)| b ^ k)
        .collect();
    base64_encode(&enc)
}

#[test]
fn xor_est_symetrique_et_reversible() {
    // Chiffre "https://x" puis vérifie le round-trip via base64+xor.
    let plain = b"https://stream.example/seg.m4a";
    let enc: Vec<u8> = plain
        .iter()
        .zip(KEY.iter().cycle())
        .map(|(b, k)| b ^ k)
        .collect();
    // encode base64 standard "à la main" pour le test
    let b64 = base64_encode(&enc);
    assert_eq!(
        decrypt(&b64).as_deref(),
        Some(std::str::from_utf8(plain).unwrap())
    );
}

#[test]
fn parse_url_extrait_user_et_slug() {
    assert_eq!(
        parse_url("https://www.mixcloud.com/NTSRadio/the-mix/"),
        Some(("NTSRadio".into(), "the-mix".into()))
    );
    assert_eq!(
        parse_url("https://www.mixcloud.com/gilles/show/?utm=x"),
        Some(("gilles".into(), "show".into()))
    );
    assert_eq!(parse_url("https://www.mixcloud.com/onlyuser/"), None);
}

#[test]
fn container_devine_le_format() {
    assert_eq!(container_from_url("https://x/seg.mp3?t=1"), Container::Mp3);
    assert_eq!(container_from_url("https://x/seg.m4a"), Container::Mp4);
}

#[test]
fn decrypt_longer_than_key_and_invalid_input() {
    let long = "https://stream.example/".repeat(5) + "é.mp3";
    assert_eq!(decrypt(&obfuscate(long.as_bytes())).as_deref(), Some(long.as_str()));
    assert_eq!(decrypt("not base64!"), None);
    assert_eq!(decrypt("abc"), decrypt("abc="));
    // decodes to bytes that are not UTF-8 once unmasked
    let bad: Vec<u8> = vec![0xff ^ KEY[0]];
    assert_eq!(decrypt(&base64_encode(&bad)), None);
}

#[test]
fn base64_decoding() {
    assert_eq!(decode_str("aGVsbG8="), Some(b"hello".to_vec()));
    assert_eq!(decode_str("aGVsbG8"), Some(b"hello".to_vec()));
    assert_eq!(decode_str(""), Some(vec![]));
    assert_eq!(decode_str("a"), None);
    assert_eq!(decode_str("aGVsbG8=="), None);
    assert_eq!(decode_str("aGV=sbG8"), None);
    assert_eq!(decode_str("+/+/"), Some(vec![0xfb, 0xff, 0xbf]));
}

#[test]
fn mixcloud_url_edge_cases() {
    assert_eq!(
        parse_url("mixcloud.com/a/b#frag"),
        Some(("a".into(), "b".into()))
    );
    assert_eq!(
        parse_url("https://www.mixcloud.com//a///b/c"),
        Some(("a".into(), "b".into()))
    );
    assert_eq!(parse_url("https://soundcloud.com/a/b"), None);
    assert_eq!(container_from_url("https://x/SEG.MP3"), Container::Mp3);
    assert_eq!(container_from_url("https://x/a.mp3.m3u8#x.mp3"), Container::Mp4);
}

#[test]
fn mixcloud_rest_tracks() {
    let c = obj(vec![
        ("key", s("/u/slug/")),
        ("name", s("Show")),
        ("user", obj(vec![("name", s("DJ"))])),
        ("audio_length", num(60)),
    ]);
    let t = track_from_rest(&c).unwrap();
    assert_eq!(t.platform, Platform::Mixcloud);
    assert_eq!(t.id, "/u/slug/");
    assert_eq!(t.title, "Show");
    assert_eq!(t.artist, "DJ");
    assert_eq!(t.permalink, "https://www.mixcloud.com/u/slug/");
    assert_eq!(t.duration_ms, Some(60_000));
    let no_name = obj(vec![("key", s("/u/s/"))]);
    assert!(track_from_rest(&no_name).is_none());
    let list = obj(vec![("data", Json::Array(vec![c, no_name]))]);
    assert_eq!(tracks_from_list(&list).len(), 1);
    assert!(tracks_from_list(&obj(vec![])).is_empty());
    let search = waveline::providers::mixcloud::tracks_from_search(&obj(vec![]));
    assert_eq!(search.err(), Some(ProviderError::Malformed("recherche sans data".into())));
}

#[test]
fn mixcloud_playlist_slugs() {
    let v = obj(vec![(
        "data",
        Json::Array(vec![
            obj(vec![("slug", s("a"))]),
            obj(vec![]),
            obj(vec![("slug", s("b"))]),
            obj(vec![("slug", s("c"))]),
        ]),
    )]);
    assert_eq!(playlist_slugs(&v, 3), vec!["a".to_string(), "b".to_string()]);
    assert_eq!(playlist_slugs(&v, 10).len(), 3);
    assert!(playlist_slugs(&obj(vec![]), 3).is_empty());
}

#[test]
fn mixcloud_cloudcast_lookup() {
    assert_eq!(
        cloudcast_query("u", "s"),
        "{cloudcastLookup(lookup:{username:\"u\",slug:\"s\"}){name owner{displayName username} isExclusive restrictedReason audioLength streamInfo{url hlsUrl dashUrl}}}"
    );
    let resp = obj(vec![("data", obj(vec![("cloudcastLookup", Json::Null)]))]);
    assert_eq!(
        cloudcast_of(&resp).err(),
        Some(ProviderError::Unavailable("cloudcast introuvable".into()))
    );
    let cc = obj(vec![
        ("name", s("The Mix")),
        ("owner", obj(vec![("displayName", s("NTS"))])),
        ("audioLength", num(10)),
    ]);
    let resp = obj(vec![("data", obj(vec![("cloudcastLookup", cc)]))]);
    let found = cloudcast_of(&resp).unwrap();
    let t = track_from_cc(found, "NTSRadio", "the-mix");
    assert_eq!(t.id, "NTSRadio/the-mix");
    assert_eq!(t.title, "The Mix");
    assert_eq!(t.artist, "NTS");
    assert_eq!(t.permalink, "https://www.mixcloud.com/NTSRadio/the-mix/");
    assert_eq!(t.duration_ms, Some(10_000));
    let bare = track_from_cc(&obj(vec![]), "user", "slug");
    assert_eq!(bare.title, "slug");
    assert_eq!(bare.artist, "user");
    assert_eq!(bare.duration_ms, None);
    assert!(check_restriction(&obj(vec![])).is_ok());
    assert_eq!(
        check_restriction(&obj(vec![("restrictedReason", s("select"))])),
        Err(ProviderError::Unavailable("contenu restreint Mixcloud (select)".into()))
    );
}

#[test]
fn mixcloud_stream_plan() {
    let url = "https://audio.example/x.mp3";
    let cc = obj(vec![(
        "streamInfo",
        obj(vec![("url", s(&obfuscate(url.as_bytes()))), ("hlsUrl", s("zz"))]),
    )]);
    match stream_plan(&cc) {
        Ok(StreamPlan::Direct(src)) => {
            assert_eq!(src.container, Container::Mp3);
            match src.kind {
                StreamKind::Progressive(u) => assert_eq!(u, url),
                _ => panic!("attendu progressif"),
            }
        }
        _ => panic!("attendu flux direct"),
    }
    let hls = "https://audio.example/x.m3u8";
    let cc = obj(vec![(
        "streamInfo",
        obj(vec![("url", s("")), ("hlsUrl", s(&obfuscate(hls.as_bytes())))]),
    )]);
    match stream_plan(&cc) {
        Ok(StreamPlan::Hls(u, c)) => {
            assert_eq!(u, hls);
            assert_eq!(c, Container::Mp4);
        }
        _ => panic!("attendu HLS"),
    }
    assert_eq!(
        stream_plan(&obj(vec![("streamInfo", Json::Null)])).err(),
        Some(ProviderError::Unavailable("pas de streamInfo (exclusif ou supprimé)".into()))
    );
    assert_eq!(
        stream_plan(&obj(vec![("streamInfo", obj(vec![("url", s("!!"))]))])).err(),
        Some(ProviderError::Unavailable("aucune URL de flux exploitable".into()))
    );
}

// --- SoundCloud --------------------------------------------------------------------

#[test]
fn extrait_client_id_minifie() {
    let js = r#"...,client_id:"abcDEF1234567890abcDEF1234567890",api:..."#;
    assert_eq!(
        extract_client_id(js).as_deref(),
        Some("abcDEF1234567890abcDEF1234567890")
    );
}

#[test]
fn ignore_client_id_trop_court() {
    let js = r#"client_id:"tropcourt""#;
    assert_eq!(extract_client_id(js), None);
}

#[test]
fn trouve_les_scripts_sndcdn() {
    let html = r#"<script crossorigin src="https://a-v2.sndcdn.com/assets/0-abc.js"></script>
            <script src="https://other.com/x.js"></script>
            <script src="https://a-v2.sndcdn.com/assets/9-zzz.js"></script>"#;
    let urls = find_script_urls(html);
    assert_eq!(urls.len(), 2);
    assert!(urls[0].contains("0-abc.js"));
}

fn transcoding(protocol: &str, mime: Option<&str>, preset: Option<&str>, snipped: bool) -> Json {
    let mut format = vec![("protocol", s(protocol))];
    if let Some(m) = mime {
        format.push(("mime_type", s(m)));
    }
    let mut members = vec![("format", obj(format))];
    if let Some(p) = preset {
        members.push(("preset", s(p)));
    }
    if snipped {
        members.push(("snipped", Json::Bool(true)));
    }
    obj(members)
}

#[test]
fn score_prefere_progressive_mp3() {
    let prog_mp3 = transcoding("progressive", Some("audio/mpeg"), Some("mp3_0_0"), false);
    let hls_aac = transcoding("hls", Some("audio/mp4"), Some("aac_160k"), false);
    let snippet = transcoding("progressive", Some("audio/mpeg"), None, true);
    assert!(score_transcoding(&prog_mp3) > score_transcoding(&hls_aac));
    assert!(score_transcoding(&hls_aac) > score_transcoding(&snippet));
}

#[test]
fn track_depuis_json_minimal() {
    let v = obj(vec![
        ("title", s("Kerala")),
        ("user", obj(vec![("username", s("Bonobo"))])),
        ("id", num(12345)),
        ("permalink_url", s("https://soundcloud.com/bonobo/kerala")),
        ("duration", num(290000)),
    ]);
    let t = track_from_json(&v).unwrap();
    assert_eq!(t.title, "Kerala");
    assert_eq!(t.artist, "Bonobo");
    assert_eq!(t.duration_ms, Some(290000));
    assert_eq!(t.id, "12345");
}

#[test]
fn client_id_edge_cases() {
    assert_eq!(
        extract_client_id("client_id=short client_id = 'ABCDEFGHIJKLMNOPQRSTUVWXYZ012345' x"),
        Some("ABCDEFGHIJKLMNOPQRSTUVWXYZ012345".into())
    );
    assert_eq!(extract_client_id("client_id:\"ABCDEFGHIJKLMNOPQRSTUVWXYZ0123456\""), None);
    assert_eq!(extract_client_id("nothing here"), None);
    assert_eq!(cached_client_id("  0123456789abcdef \n"), Some("0123456789abcdef".into()));
    assert_eq!(cached_client_id("0123456789abcde"), None);
    assert_eq!(cached_client_id("ééééééééé"), Some("ééééééééé".into()));
}

#[test]
fn script_urls_edge_cases() {
    assert!(find_script_urls("no scripts").is_empty());
    let html = r#"<script src="https://a.sndcdn.com/x.js"><script src="https://a.sndcdn.com/y.css"><script>"#;
    assert_eq!(find_script_urls(html), vec!["https://a.sndcdn.com/x.js".to_string()]);
}

#[test]
fn soundcloud_track_fallbacks() {
    let v = obj(vec![
        ("title", s("T")),
        ("urn", s("soundcloud:tracks:1")),
        ("id", num(7)),
    ]);
    let t = track_from_json(&v).unwrap();
    assert_eq!(t.id, "soundcloud:tracks:1");
    assert_eq!(t.artist, "Inconnu");
    assert_eq!(t.permalink, "");
    assert_eq!(t.duration_ms, None);
    let neg = obj(vec![("title", s("T")), ("id", Json::Number(JsonNumber::NegInt(-5)))]);
    assert_eq!(track_from_json(&neg).unwrap().id, "-5");
    assert_eq!(
        track_from_json(&obj(vec![])).err(),
        Some(ProviderError::Malformed("titre manquant".into()))
    );
}

#[test]
fn soundcloud_collections() {
    let t1 = obj(vec![("title", s("a")), ("kind", s("track"))]);
    let wrapped = obj(vec![("track", obj(vec![("title", s("b"))]))]);
    let v = obj(vec![("collection", Json::Array(vec![t1, wrapped, obj(vec![])]))]);
    let ts = collection_tracks(&v);
    assert_eq!(ts.len(), 2);
    assert_eq!(ts[1].title, "b");
    let search = tracks_from_search(&v).unwrap();
    assert_eq!(search.len(), 1);
    assert_eq!(search[0].title, "a");
    assert_eq!(
        tracks_from_search(&obj(vec![])).err(),
        Some(ProviderError::Malformed("recherche sans collection".into()))
    );
    let pls = obj(vec![(
        "collection",
        Json::Array(vec![
            obj(vec![("tracks", Json::Array(vec![obj(vec![("title", s("x"))])]))]),
            obj(vec![("tracks", Json::Array(vec![obj(vec![("title", s("y"))]), obj(vec![])]))]),
        ]),
    )]);
    let flat = playlist_tracks(&pls);
    assert_eq!(flat.len(), 2);
    assert_eq!(flat[0].title, "x");
    assert_eq!(flat[1].title, "y");
}

#[test]
fn soundcloud_profile_and_resolve_checks() {
    let user = obj(vec![("kind", s("user")), ("id", num(42))]);
    assert_eq!(user_id_from(&user, "bonobo"), Ok(42));
    assert_eq!(
        user_id_from(&obj(vec![("kind", s("track"))]), "x"),
        Err(ProviderError::Unavailable("« x » n'est pas un profil SoundCloud".into()))
    );
    assert_eq!(
        user_id_from(&obj(vec![("kind", s("user"))]), "x"),
        Err(ProviderError::Malformed("profil sans id".into()))
    );
    assert!(check_resolved(&obj(vec![("kind", s("track"))])).is_ok());
    assert!(check_resolved(&obj(vec![("media", obj(vec![]))])).is_ok());
    assert_eq!(
        check_resolved(&obj(vec![("kind", s("playlist"))])),
        Err(ProviderError::Unavailable("l'URL ne pointe pas vers un morceau jouable".into()))
    );
    assert!(is_stale_client_error(&ProviderError::Http(HttpError::Status(401, "u".into()))));
    assert!(is_stale_client_error(&ProviderError::Http(HttpError::Status(403, "u".into()))));
    assert!(!is_stale_client_error(&ProviderError::Http(HttpError::Status(404, "u".into()))));
}

#[test]
fn soundcloud_transcoding_ranking() {
    let ts = vec![
        transcoding("hls", Some("audio/mp4"), None, false),
        transcoding("ctr-encrypted-hls", Some("audio/mp4"), None, false),
        transcoding("progressive", Some("audio/mpeg"), None, false),
        transcoding("hls", Some("audio/mpeg"), None, false),
        transcoding("hls", Some("audio/mp4"), None, false),
    ];
    let r = rank_transcodings(&ts);
    assert!(r.has_drm);
    assert_eq!(r.order, vec![2, 3, 0, 4]);
    let none = rank_transcodings(&vec![]);
    assert!(!none.has_drm && none.order.is_empty());
    assert_eq!(score_transcoding(&transcoding("progressive", Some("audio/mpeg"), None, false)), 130);
    assert_eq!(score_transcoding(&transcoding("hls", Some("audio/ogg; codecs=\"opus\""), None, false)), 55);
    assert_eq!(score_transcoding(&obj(vec![])), 0);
    let track = obj(vec![("media", obj(vec![("transcodings", Json::Array(vec![]))]))]);
    assert!(transcodings_of(&track).unwrap().is_empty());
    assert_eq!(
        transcodings_of(&obj(vec![])).err(),
        Some(ProviderError::Unavailable("aucun flux disponible".into()))
    );
}

#[test]
fn soundcloud_stream_requests() {
    let t = obj(vec![
        ("url", s("https://api/x")),
        ("format", obj(vec![("protocol", s("hls")), ("mime_type", s("audio/mpeg"))])),
    ]);
    let q = transcoding_request(&t).unwrap();
    assert_eq!(q.endpoint, "https://api/x");
    assert_eq!(q.container, Container::Mp3);
    assert!(!q.progressive);
    let bare = transcoding_request(&obj(vec![("url", s("e"))])).unwrap();
    assert!(bare.progressive);
    assert_eq!(bare.container, Container::Unknown);
    assert_eq!(
        transcoding_request(&obj(vec![])).err(),
        Some(ProviderError::Malformed("transcoding sans url".into()))
    );
    assert_eq!(signed_stream_url(&obj(vec![("url", s("u"))])), Ok("u".to_string()));
    assert_eq!(
        signed_stream_url(&obj(vec![])),
        Err(ProviderError::Malformed("url signée manquante".into()))
    );
    match waveline::providers::soundcloud::stream_plan(&q, "https://cdn/p.m3u8".to_string()) {
        StreamPlan::Hls(u, c) => {
            assert_eq!(u, "https://cdn/p.m3u8");
            assert_eq!(c, Container::Mp3);
        }
        _ => panic!("attendu HLS"),
    }
    assert_eq!(
        no_stream_error(true, None),
        ProviderError::Unavailable("titre protégé (DRM SoundCloud) — non lisible".into())
    );
    assert_eq!(
        no_stream_error(false, Some(ProviderError::Malformed("m".into()))),
        ProviderError::Malformed("m".into())
    );
    assert_eq!(
        no_stream_error(false, None),
        ProviderError::Unavailable("aucun flux jouable".into())
    );
}

#[test]
fn mime_guess_ignores_case_and_prefers_mp3() {
    assert_eq!(Container::from_mime("audio/mp4; codecs=mp3"), Container::Mp3);
    assert_eq!(Container::from_mime("AUDIO/MPEG"), Container::Mp3);
    assert_eq!(Container::from_mime("audio/aac"), Container::Mp4);
    assert_eq!(Container::from_mime("Audio/OGG; codecs=\"OPUS\""), Container::Ogg);
    assert_eq!(Container::from_mime("text/plain"), Container::Unknown);
    for m in ["audio/mpeg", "audio/mp4", "audio/ogg", "x/y", "audio/x-m4a"] {
        assert_eq!(Container::from_mime(m), Container::from_mime(&m.to_ascii_uppercase()));
        assert_ne!(Container::from_mime(m), Container::Aac);
    }
}

#[test]
fn canonical_mixcloud_urls_parse_back() {
    assert_eq!(
        parse_url("https://www.mixcloud.com/NTS_Radio-1/my-mix_2/"),
        Some(("NTS_Radio-1".to_string(), "my-mix_2".to_string()))
    );
    assert_eq!(parse_url("https://www.mixcloud.com/a?b/c"), None);
    let (u, s) = parse_url("https://mixcloud.com/u/s#frag/x").unwrap();
    assert_eq!((u.as_str(), s.as_str()), ("u", "s"));
}

#[test]
fn refused_client_id_is_retried_once() {
    let refused = ProviderError::Http(HttpError::Status(401, "u".into()));
    let missing = ProviderError::Http(HttpError::Status(404, "u".into()));
    assert!(retry_resolve(0, &refused));
    assert!(!retry_resolve(1, &refused));
    assert!(!retry_resolve(0, &missing));
    assert!(!retry_resolve(0, &ProviderError::Malformed("x".into())));
}
