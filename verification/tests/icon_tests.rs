use qdeck::icon::IconService;
use qdeck::icon::IconType;

#[test]
fn specifications_are_classified() {
    let service = IconService::new().unwrap();
    assert!(service.is_emoji("\u{1F600}"));
    assert!(service.is_emoji("\u{2753}"));
    assert!(!service.is_emoji("ab"));
    assert!(!service.is_emoji("a"));
    assert!(service.is_url("http://example.net/icon.png"));
    assert!(service.is_url("https://example.net/icon.png"));
    assert!(!service.is_url("ftp://example.net/icon.png"));
    assert!(service.is_base64("data:image/png;base64,AAAA"));
    assert!(!service.is_base64("plain.png"));
}

#[test]
fn processing_resolves_each_kind() {
    let mut service = IconService::new().unwrap();

    let emoji = service.process_icon("\u{1F4C1}", None).unwrap();
    assert_eq!(emoji.icon_type, IconType::Emoji);
    assert_eq!(emoji.path, "\u{1F4C1}");
    assert!(emoji.data_url.is_none());

    let url = service.process_icon("https://example.net/i.png", None).unwrap();
    assert_eq!(url.icon_type, IconType::Url);
    assert_eq!(url.path, "https://example.net/i.png");

    let inline = service.process_icon("data:image/png;base64,AAAA", None).unwrap();
    assert_eq!(inline.icon_type, IconType::Base64);
    assert_eq!(inline.path, "base64");
    assert_eq!(inline.data_url.as_deref(), Some("data:image/png;base64,AAAA"));

    let fallback = service.process_icon("no-such-icon", Some("/bin/tool")).unwrap();
    assert_eq!(fallback.icon_type, IconType::Emoji);
    assert_eq!(fallback.path, "\u{2753}");

    let stats = service.get_cache_stats(0);
    assert_eq!(stats.cached_icons, 4);

    let cached = service.process_icon("\u{1F4C1}", None).unwrap();
    assert_eq!(cached.path, "\u{1F4C1}");
    assert_eq!(service.get_cache_stats(0).cached_icons, 4);
}

#[test]
fn clearing_the_cache_forgets_records() {
    let mut service = IconService::with_cache_dir(String::from("/tmp/qdeck_icons"));
    service.process_icon("\u{1F4C1}", None).unwrap();
    assert_eq!(service.get_cache_stats(7).cached_icons, 1);
    assert_eq!(service.get_cache_stats(7).cache_size_bytes, 7);
    assert_eq!(service.get_cache_stats(7).cache_directory, "/tmp/qdeck_icons");
    service.clear_cache().unwrap();
    assert_eq!(service.get_cache_stats(0).cached_icons, 0);
}

#[test]
fn mime_types_follow_the_extension() {
    let service = IconService::new().unwrap();
    assert_eq!(service.get_mime_type("a.png"), "image/png");
    assert_eq!(service.get_mime_type("a.JPG"), "image/jpeg");
    assert_eq!(service.get_mime_type("a.jpeg"), "image/jpeg");
    assert_eq!(service.get_mime_type("a.svg"), "image/svg+xml");
    assert_eq!(service.get_mime_type("a.ico"), "image/x-icon");
    assert_eq!(service.get_mime_type("a.bin"), "application/octet-stream");
    assert_eq!(service.get_mime_type("noext"), "application/octet-stream");
}

#[test]
fn image_data_becomes_a_data_url() {
    let service = IconService::new().unwrap();
    let data: Vec<u8> = b"hello".to_vec();
    let info = service.process_image_data("/d/pic.png", &data).unwrap();
    assert_eq!(info.icon_type, IconType::File);
    assert_eq!(info.path, "/d/pic.png");
    assert_eq!(info.data_url.as_deref(), Some("data:image/png;base64,aGVsbG8="));

    let empty: Vec<u8> = Vec::new();
    let info = service.process_image_data("/d/pic.gif", &empty).unwrap();
    assert_eq!(info.data_url.as_deref(), Some("data:image/gif;base64,"));
}

#[test]
fn cache_keys_depend_on_both_inputs() {
    let service = IconService::new().unwrap();
    let a = service.generate_cache_key("/bin/tool", "icon");
    let b = service.generate_cache_key("/bin/tool", "other");
    let c = service.generate_cache_key("/bin/tool", "icon");
    assert_ne!(a, b);
    assert_eq!(a, c);
    assert!(a.chars().all(|ch| ch.is_ascii_hexdigit()));
}

#[test]
fn extracted_icons_fall_back_to_the_default() {
    let service = IconService::new().unwrap();
    let info = service.extract_executable_icon("/bin/tool", "0").unwrap();
    assert_eq!(info.icon_type, IconType::Emoji);
    assert_eq!(info.path, "\u{2753}");
    assert!(service.get_image_dimensions(&vec![1, 2, 3]).is_none());
}
