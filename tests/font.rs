use castella_skia_core::{
    contains_emoji, is_likely_emoji, segment_text_by_font, typeface_cache_key, typeface_candidates,
    EmojiTypefaceCache, TypefaceCache, TypefaceRole,
};

#[test]
fn emoji_classification() {
    assert!(is_likely_emoji('😀'));
    assert!(is_likely_emoji('🎉'));
    assert!(is_likely_emoji('🚀'));
    assert!(is_likely_emoji('\u{1F1EF}'));
    assert!(is_likely_emoji('\u{1FAFF}'));
    assert!(!is_likely_emoji('a'));
    assert!(!is_likely_emoji('あ'));
    assert!(!is_likely_emoji('\u{2764}'));
    assert!(!is_likely_emoji('\u{1FB00}'));
}

#[test]
fn detects_emoji_anywhere() {
    assert!(!contains_emoji(""));
    assert!(!contains_emoji("plain text"));
    assert!(contains_emoji("party 🎉"));
    assert!(contains_emoji("😀 first"));
}

#[test]
fn text_without_emoji_is_one_segment() {
    let segs = segment_text_by_font("Hello, 世界", true);
    assert_eq!(segs.len(), 1);
    assert_eq!(segs[0].text, "Hello, 世界");
    assert_eq!(segs[0].typeface, TypefaceRole::Primary);
}

#[test]
fn empty_text_has_no_segments() {
    assert!(segment_text_by_font("", true).is_empty());
    assert!(segment_text_by_font("", false).is_empty());
}

#[test]
fn alternating_text_splits_into_runs() {
    let segs = segment_text_by_font("a😀b", true);
    let texts: Vec<&str> = segs.iter().map(|s| s.text.as_str()).collect();
    assert_eq!(texts, vec!["a", "😀", "b"]);
    assert_eq!(segs[0].typeface, TypefaceRole::Primary);
    assert_eq!(segs[1].typeface, TypefaceRole::Emoji);
    assert_eq!(segs[2].typeface, TypefaceRole::Primary);
    assert_ne!(segs[1].typeface, segs[0].typeface);
}

#[test]
fn emoji_runs_use_primary_without_emoji_typeface() {
    let segs = segment_text_by_font("a😀b", false);
    assert_eq!(segs.len(), 3);
    assert!(segs.iter().all(|s| s.typeface == TypefaceRole::Primary));
}

#[test]
fn consecutive_emoji_form_one_run() {
    let segs = segment_text_by_font("😀🎉 ok 🚀", true);
    let texts: Vec<&str> = segs.iter().map(|s| s.text.as_str()).collect();
    assert_eq!(texts, vec!["😀🎉", " ok ", "🚀"]);
    assert_eq!(segs[2].typeface, TypefaceRole::Emoji);
}

#[test]
fn requested_family_comes_first() {
    let c = typeface_candidates(Some("Inter"));
    assert_eq!(c.len(), 14);
    assert_eq!(c[0], "Inter");
    assert_eq!(c[1], "Noto Sans");
    assert_eq!(c[13], "Helvetica");
}

#[test]
fn fallback_order_without_request() {
    let c = typeface_candidates(None);
    assert_eq!(
        c,
        vec![
            "Noto Sans",
            "Noto Sans CJK JP",
            "Hiragino Sans",
            "Hiragino Kaku Gothic ProN",
            "Yu Gothic",
            "Meiryo",
            "Microsoft YaHei",
            "PingFang SC",
            "SF Pro",
            "Segoe UI",
            "Roboto",
            "Arial",
            "Helvetica",
        ]
    );
}

#[test]
fn default_family_key() {
    assert_eq!(typeface_cache_key(None), "__default__");
    assert_eq!(typeface_cache_key(Some("Roboto")), "Roboto");
}

#[test]
fn typeface_cache_keeps_found_typefaces() {
    let mut cache: TypefaceCache<String> = TypefaceCache::new();
    assert!(cache.cached(Some("Roboto")).is_none());
    let r = cache.finish_resolve(Some("Roboto"), Some("roboto-face".to_string()));
    assert_eq!(r.as_deref(), Some("roboto-face"));
    assert_eq!(cache.cached(Some("Roboto")).map(|s| s.as_str()), Some("roboto-face"));
    assert!(cache.cached(None).is_none());
    cache.finish_resolve(None, Some("default-face".to_string()));
    assert_eq!(cache.cached(None).map(|s| s.as_str()), Some("default-face"));
    assert_eq!(cache.cached(Some("__default__")).map(|s| s.as_str()), Some("default-face"));
}

#[test]
fn typeface_cache_skips_failed_resolution() {
    let mut cache: TypefaceCache<u32> = TypefaceCache::new();
    assert_eq!(cache.finish_resolve(Some("Missing"), None), None);
    assert!(cache.cached(Some("Missing")).is_none());
}

#[test]
fn emoji_typeface_is_resolved_once() {
    let mut cache: EmojiTypefaceCache<u32> = EmojiTypefaceCache::new();
    assert!(cache.cached().is_none());
    assert_eq!(cache.finish_resolve(None), None);
    assert_eq!(cache.cached(), Some(&None));
    let mut found: EmojiTypefaceCache<u32> = EmojiTypefaceCache::new();
    assert_eq!(found.finish_resolve(Some(9)), Some(9));
    assert_eq!(found.cached(), Some(&Some(9)));
}
