use sixtyfps::text::GlyphCache;

#[test]
fn caching_assigns_slots_in_order_of_first_use() {
    let mut cache = GlyphCache::new();
    assert_eq!(cache.len(), 0);
    let added = cache.cache_glyphs(&vec![5, 3, 5, 9, 3]);
    assert_eq!(added, vec![5, 3, 9]);
    assert_eq!(cache.len(), 3);
    assert_eq!(cache.layout_glyphs(&vec![3, 5, 9, 5]), vec![1, 0, 2, 0]);
}

#[test]
fn caching_again_adds_nothing_and_keeps_slots() {
    let mut cache = GlyphCache::new();
    cache.cache_glyphs(&vec![1, 2]);
    let added = cache.cache_glyphs(&vec![2, 1, 2]);
    assert!(added.is_empty());
    assert_eq!(cache.len(), 2);
    let added = cache.cache_glyphs(&vec![4, 1]);
    assert_eq!(added, vec![4]);
    assert_eq!(cache.layout_glyphs(&vec![1, 2, 4]), vec![0, 1, 2]);
}

#[test]
fn empty_text_caches_nothing() {
    let mut cache = GlyphCache::new();
    assert!(cache.cache_glyphs(&vec![]).is_empty());
    assert!(cache.layout_glyphs(&vec![]).is_empty());
    assert_eq!(cache.len(), 0);
}

#[test]
fn glyphs_of_a_string_with_a_real_font() {
    let font = font_kit::font::Font::from_path("/usr/share/fonts/truetype/dejavu/DejaVuSans.ttf", 0)
        .expect("the test font loads");
    let mut cache = GlyphCache::new();
    let (glyphs, added) = cache.string_to_glyphs(&font, "abca").expect("the font maps these characters");
    assert_eq!(glyphs.len(), 4);
    assert!(glyphs.iter().all(|g| *g != 0));
    assert_eq!(glyphs[0], glyphs[3]);
    assert_ne!(glyphs[0], glyphs[1]);
    // the glyph ids are the font's, not the characters' code points
    assert_ne!(glyphs[0], 'a' as u32);
    assert_eq!(added, vec![glyphs[0], glyphs[1], glyphs[2]]);
    assert_eq!(cache.layout_glyphs(&glyphs), vec![0, 1, 2, 0]);
    let (_, added) = cache.string_to_glyphs(&font, "cab").expect("same characters");
    assert!(added.is_empty());
}

#[test]
fn character_without_glyph_leaves_cache_unchanged() {
    let font = font_kit::font::Font::from_path("/usr/share/fonts/truetype/dejavu/DejaVuSans.ttf", 0)
        .expect("the test font loads");
    let mut cache = GlyphCache::new();
    cache.cache_glyphs(&vec![10]);
    // a private-use code point that the font has no glyph for
    assert!(cache.string_to_glyphs(&font, "a\u{10fffd}").is_none());
    assert_eq!(cache.len(), 1);
}

#[test]
fn empty_text_always_succeeds() {
    let font = font_kit::font::Font::from_path("/usr/share/fonts/truetype/dejavu/DejaVuSans.ttf", 0)
        .expect("the test font loads");
    let mut cache = GlyphCache::new();
    let (glyphs, added) = cache.string_to_glyphs(&font, "").expect("an empty text needs no glyph");
    assert!(glyphs.is_empty());
    assert!(added.is_empty());
    assert_eq!(cache.len(), 0);
}

#[test]
fn each_glyph_is_the_fonts_glyph_for_its_character() {
    let font = font_kit::font::Font::from_path("/usr/share/fonts/truetype/dejavu/DejaVuSans.ttf", 0)
        .expect("the test font loads");
    let mut cache = GlyphCache::new();
    let text = "xyz?";
    let (glyphs, _) = cache.string_to_glyphs(&font, text).expect("the font maps these characters");
    for (ch, glyph) in text.chars().zip(glyphs.iter()) {
        assert_eq!(font.glyph_for_char(ch), Some(*glyph));
    }
}
