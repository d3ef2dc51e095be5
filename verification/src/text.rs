//! The glyph cache of a font that the renderer draws text with: which glyphs a text
//! needs, which of them are rendered already, and where each rendering is kept.

use vstd::prelude::*;

use std::collections::HashMap;

verus! {

/// A font that the font loader opened.
#[verifier::external_type_specification]
#[verifier::external_body]
pub struct ExFont(font_kit::font::Font);

/// The glyph that a font maps a character to, if it has one: what
/// `font_kit::font::Font::glyph_for_char` returns for them. With the FreeType loader
/// that this build uses, that is FreeType's character index of the font's face, which
/// depends on the font and the character alone.
pub uninterp spec fn font_glyph(font: font_kit::font::Font, ch: char) -> Option<u32>;

/// Calls `font_kit::font::Font::glyph_for_char`: the glyph that the font maps the
/// character to, named [`font_glyph`]. With the FreeType loader that this build uses,
/// a character that the font has no glyph for (FreeType's index 0) comes back as
/// `None`, so a glyph that comes back is never 0.
#[verifier::external_body]
fn glyph_for_char(font: &font_kit::font::Font, ch: char) -> (r: Option<u32>)
    ensures
        r == font_glyph(*font, ch),
        r matches Some(g) ==> g != 0,
{
    font.glyph_for_char(ch)
}

/// The glyphs of `glyphs` that `cached` lacks, each once, in the order of their first
/// occurrence.
pub open spec fn new_glyphs(cached: Map<u32, usize>, glyphs: Seq<u32>) -> Seq<u32>
    decreases glyphs.len(),
{
    if glyphs.len() == 0 {
        Seq::empty()
    } else {
        let prev = new_glyphs(cached, glyphs.subrange(0, glyphs.len() - 1));
        let g = glyphs[glyphs.len() - 1];
        if cached.contains_key(g) || prev.contains(g) {
            prev
        } else {
            prev.push(g)
        }
    }
}

/// The cache after the glyphs `added` were rendered into the slots that follow the
/// first `len` ones, in order.
pub open spec fn cache_after(cached: Map<u32, usize>, len: nat, added: Seq<u32>) -> Map<u32, usize>
    decreases added.len(),
{
    if added.len() == 0 {
        cached
    } else {
        cache_after(cached, len, added.subrange(0, added.len() - 1)).insert(
            added[added.len() - 1],
            (len + added.len() - 1) as usize,
        )
    }
}

/// The glyphs that [`new_glyphs`] gives are the glyphs of `glyphs` that `cached`
/// lacks, each once; every glyph of `glyphs` is cached or among them.
pub proof fn lemma_new_glyphs(cached: Map<u32, usize>, glyphs: Seq<u32>)
    ensures
        forall|i: int|
            0 <= i < new_glyphs(cached, glyphs).len() ==> !cached.contains_key(
                #[trigger] new_glyphs(cached, glyphs)[i],
            ) && glyphs.contains(new_glyphs(cached, glyphs)[i]),
        forall|i: int, j: int|
            0 <= i < j < new_glyphs(cached, glyphs).len() ==> #[trigger] new_glyphs(
                cached,
                glyphs,
            )[i] != #[trigger] new_glyphs(cached, glyphs)[j],
        forall|g: u32| #[trigger] glyphs.contains(g) ==> cached.contains_key(g) || new_glyphs(
            cached,
            glyphs,
        ).contains(g),
    decreases glyphs.len(),
{
    if glyphs.len() > 0 {
        let prefix = glyphs.subrange(0, glyphs.len() - 1);
        let last = glyphs[glyphs.len() - 1];
        lemma_new_glyphs(cached, prefix);
        let prev = new_glyphs(cached, prefix);
        let cur = new_glyphs(cached, glyphs);
        assert forall|i: int| 0 <= i < cur.len() implies !cached.contains_key(#[trigger] cur[i])
            && glyphs.contains(cur[i]) by {
            if i < prev.len() {
                assert(cur[i] == prev[i]);
                let k = choose|k: int| 0 <= k < prefix.len() && prefix[k] == prev[i];
                assert(glyphs[k] == prev[i]);
            } else {
                assert(cur[i] == last);
                assert(glyphs[glyphs.len() - 1] == last);
            }
        }
        assert forall|g: u32| #[trigger] glyphs.contains(g) implies cached.contains_key(g)
            || cur.contains(g) by {
            let k = choose|k: int| 0 <= k < glyphs.len() && glyphs[k] == g;
            if k < glyphs.len() - 1 {
                assert(prefix[k] == g);
                assert(prefix.contains(g));
                if prev.contains(g) {
                    let m = choose|m: int| 0 <= m < prev.len() && prev[m] == g;
                    assert(cur[m] == g);
                }
            } else if !cached.contains_key(g) && !prev.contains(g) {
                assert(cur[cur.len() - 1] == g);
            } else if prev.contains(g) {
                let m = choose|m: int| 0 <= m < prev.len() && prev[m] == g;
                assert(cur[m] == g);
            }
        }
    }
}

/// The cache after [`cache_after`] holds the glyphs it held and the added ones; a
/// glyph it held and that is not added keeps its slot.
pub proof fn lemma_cache_after(cached: Map<u32, usize>, len: nat, added: Seq<u32>)
    ensures
        forall|g: u32| #[trigger] cache_after(cached, len, added).contains_key(g) <==> (
        cached.contains_key(g) || added.contains(g)),
        forall|g: u32|
            cached.contains_key(g) && !added.contains(g) ==> #[trigger] cache_after(
                cached,
                len,
                added,
            )[g] == cached[g],
    decreases added.len(),
{
    if added.len() > 0 {
        let prefix = added.subrange(0, added.len() - 1);
        let last = added[added.len() - 1];
        lemma_cache_after(cached, len, prefix);
        assert(cache_after(cached, len, added) == cache_after(cached, len, prefix).insert(
            last,
            (len + added.len() - 1) as usize,
        ));
        assert forall|g: u32| #[trigger] cache_after(cached, len, added).contains_key(g) <==> (
        cached.contains_key(g) || added.contains(g)) by {
            if added.contains(g) && g != last {
                let k = choose|k: int| 0 <= k < added.len() && added[k] == g;
                assert(prefix[k] == g);
            }
            if prefix.contains(g) {
                let k = choose|k: int| 0 <= k < prefix.len() && prefix[k] == g;
                assert(added[k] == g);
            }
            if g == last {
                assert(added[added.len() - 1] == g);
            }
        }
        assert forall|g: u32|
            cached.contains_key(g) && !added.contains(g) implies #[trigger] cache_after(
            cached,
            len,
            added,
        )[g] == cached[g] by {
            if prefix.contains(g) {
                let k = choose|k: int| 0 <= k < prefix.len() && prefix[k] == g;
                assert(added[k] == g);
            }
            assert(added[added.len() - 1] == last);
        }
    }
}

/// Where every glyph of `glyphs` is cached already, none is added.
pub proof fn lemma_new_glyphs_none(cached: Map<u32, usize>, glyphs: Seq<u32>)
    requires
        forall|i: int| 0 <= i < glyphs.len() ==> cached.contains_key(#[trigger] glyphs[i]),
    ensures
        new_glyphs(cached, glyphs) == Seq::<u32>::empty(),
    decreases glyphs.len(),
{
    if glyphs.len() > 0 {
        let prefix = glyphs.subrange(0, glyphs.len() - 1);
        assert forall|i: int| 0 <= i < prefix.len() implies cached.contains_key(
            #[trigger] prefix[i],
        ) by {
            assert(prefix[i] == glyphs[i]);
        }
        lemma_new_glyphs_none(cached, prefix);
        assert(cached.contains_key(glyphs[glyphs.len() - 1]));
    }
}

/// Once the glyphs of a text are cached, each of them has a slot, every glyph that
/// was cached before keeps its slot, and caching them again adds nothing.
pub proof fn law_caching_covers_text(cached: Map<u32, usize>, len: nat, glyphs: Seq<u32>)
    ensures
        ({
            let after = cache_after(cached, len, new_glyphs(cached, glyphs));
            &&& forall|i: int| 0 <= i < glyphs.len() ==> after.contains_key(#[trigger] glyphs[i])
            &&& forall|g: u32| #[trigger] cached.contains_key(g) ==> after.contains_key(g)
                && after[g] == cached[g]
            &&& new_glyphs(after, glyphs) == Seq::<u32>::empty()
        }),
{
    let added = new_glyphs(cached, glyphs);
    let after = cache_after(cached, len, added);
    lemma_new_glyphs(cached, glyphs);
    lemma_cache_after(cached, len, added);
    assert forall|i: int| 0 <= i < glyphs.len() implies after.contains_key(#[trigger] glyphs[i]) by {
        assert(glyphs.contains(glyphs[i]));
    }
    assert forall|g: u32| #[trigger] cached.contains_key(g) implies after.contains_key(g)
        && after[g] == cached[g] by {
        if added.contains(g) {
            let k = choose|k: int| 0 <= k < added.len() && added[k] == g;
            assert(!cached.contains_key(added[k]));
        }
    }
    lemma_new_glyphs_none(after, glyphs);
}

/// The glyphs that a font has rendered, each with the slot that its rendering is kept
/// in.
#[derive(Debug)]
pub struct GlyphCache {
    glyphs: HashMap<u32, usize>,
    len: usize,
}

impl View for GlyphCache {
    type V = Map<u32, usize>;

    closed spec fn view(&self) -> Map<u32, usize> {
        self.glyphs@
    }
}

impl GlyphCache {
    /// How many glyphs are rendered: the slots in use are those below it.
    pub closed spec fn rendered(&self) -> nat {
        self.len as nat
    }

    /// Every cached glyph has a slot below [`GlyphCache::rendered`], and no two share one.
    pub open spec fn wf(&self) -> bool {
        &&& forall|g: u32| #[trigger] self@.contains_key(g) ==> self@[g] < self.rendered()
        &&& forall|g1: u32, g2: u32|
            #[trigger] self@.contains_key(g1) && #[trigger] self@.contains_key(g2) && g1 != g2
                ==> self@[g1] != self@[g2]
    }

    /// A cache without glyphs.
    pub fn new() -> (c: GlyphCache)
        ensures
            c@ == Map::<u32, usize>::empty(),
            c.rendered() == 0,
            c.wf(),
    {
        GlyphCache { glyphs: HashMap::new(), len: 0 }
    }

    /// How many glyphs are rendered.
    pub fn len(&self) -> (n: usize)
        ensures
            n == self.rendered(),
    {
        self.len
    }

    /// Caches the glyphs of `glyphs` that the cache lacks, each in the next free slot,
    /// in the order of their first occurrence, and returns them: these are the glyphs
    /// to render, in the order of their slots.
    pub fn cache_glyphs(&mut self, glyphs: &Vec<u32>) -> (added: Vec<u32>)
        requires
            old(self).wf(),
            old(self).rendered() + glyphs.len() <= usize::MAX,
        ensures
            added@ == new_glyphs(old(self)@, glyphs@),
            final(self)@ == cache_after(old(self)@, old(self).rendered(), added@),
            final(self).rendered() == old(self).rendered() + added@.len(),
            final(self).wf(),
    {
        broadcast use vstd::std_specs::hash::group_hash_axioms;

        let ghost m0 = self@;
        let ghost len0 = self.len as nat;
        let mut added: Vec<u32> = Vec::new();
        let mut i: usize = 0;
        assert(glyphs@.subrange(0, 0) =~= Seq::<u32>::empty());
        while i < glyphs.len()
            invariant
                0 <= i <= glyphs.len(),
                len0 + glyphs.len() <= usize::MAX,
                added@ == new_glyphs(m0, glyphs@.subrange(0, i as int)),
                added@.len() <= i,
                self.glyphs@ == cache_after(m0, len0, added@),
                self.len == len0 + added@.len(),
                forall|g: u32| #[trigger] m0.contains_key(g) ==> m0[g] < len0,
                forall|g1: u32, g2: u32|
                    #[trigger] m0.contains_key(g1) && #[trigger] m0.contains_key(g2) && g1 != g2
                        ==> m0[g1] != m0[g2],
                forall|g: u32|
                    #[trigger] self.glyphs@.contains_key(g) <==> (m0.contains_key(g)
                        || added@.contains(g)),
                forall|g: u32| #[trigger] self.glyphs@.contains_key(g) ==> self.glyphs@[g] < self.len,
                forall|g1: u32, g2: u32|
                    #[trigger] self.glyphs@.contains_key(g1) && #[trigger] self.glyphs@.contains_key(
                        g2,
                    ) && g1 != g2 ==> self.glyphs@[g1] != self.glyphs@[g2],
            decreases glyphs.len() - i,
        {
            let g = glyphs[i];
            let ghost prev_added = added@;
            assert(glyphs@.subrange(0, i + 1).subrange(0, i as int) =~= glyphs@.subrange(
                0,
                i as int,
            ));
            assert(glyphs@.subrange(0, i + 1)[i as int] == g);
            if !self.glyphs.contains_key(&g) {
                let ghost prev_map = self.glyphs@;
                self.glyphs.insert(g, self.len);
                added.push(g);
                self.len = self.len + 1;
                assert(added@.subrange(0, added@.len() - 1) =~= prev_added);
                assert forall|h: u32| #[trigger] self.glyphs@.contains_key(h) <==> (m0.contains_key(h)
                    || added@.contains(h)) by {
                    if added@.contains(h) {
                        let k = choose|k: int| 0 <= k < added@.len() && added@[k] == h;
                        if k < prev_added.len() {
                            assert(prev_added[k] == h);
                            assert(prev_added.contains(h));
                            assert(prev_map.contains_key(h));
                        } else {
                            assert(h == g);
                        }
                    }
                    if prev_added.contains(h) {
                        let k = choose|k: int| 0 <= k < prev_added.len() && prev_added[k] == h;
                        assert(added@[k] == h);
                    }
                    if m0.contains_key(h) {
                        assert(prev_map.contains_key(h));
                    }
                    if self.glyphs@.contains_key(h) && !m0.contains_key(h) {
                        if h == g {
                            assert(added@[added@.len() - 1] == h);
                        } else {
                            assert(prev_map.contains_key(h));
                            let k = choose|k: int| 0 <= k < prev_added.len() && prev_added[k] == h;
                            assert(added@[k] == h);
                        }
                    }
                }
            }
            i += 1;
        }
        assert(glyphs@.subrange(0, glyphs.len() as int) =~= glyphs@);
        added
    }

    /// The slot of the rendering of a glyph, if it is cached.
    pub fn slot(&self, glyph: u32) -> (r: Option<usize>)
        ensures
            r == (if self@.contains_key(glyph) {
                Some(self@[glyph])
            } else {
                None
            }),
    {
        broadcast use vstd::std_specs::hash::group_hash_axioms;

        match self.glyphs.get(&glyph) {
            Some(s) => Some(*s),
            None => None,
        }
    }

    /// The slot of the rendering of each glyph of `glyphs`, in order.
    pub fn layout_glyphs(&self, glyphs: &Vec<u32>) -> (slots: Vec<usize>)
        requires
            forall|i: int| 0 <= i < glyphs.len() ==> self@.contains_key(#[trigger] glyphs@[i]),
        ensures
            slots@.len() == glyphs@.len(),
            forall|i: int| 0 <= i < glyphs.len() ==> #[trigger] slots@[i] == self@[glyphs@[i]],
    {
        broadcast use vstd::std_specs::hash::group_hash_axioms;

        let mut slots: Vec<usize> = Vec::new();
        let mut i: usize = 0;
        while i < glyphs.len()
            invariant
                0 <= i <= glyphs.len(),
                slots@.len() == i,
                forall|k: int| 0 <= k < glyphs.len() ==> self@.contains_key(#[trigger] glyphs@[k]),
                forall|k: int| 0 <= k < i ==> #[trigger] slots@[k] == self@[glyphs@[k]],
            decreases glyphs.len() - i,
        {
            let g = glyphs[i];
            assert(self@.contains_key(glyphs@[i as int]));
            match self.glyphs.get(&g) {
                Some(s) => slots.push(*s),
                None => {
                    assert(false);
                },
            }
            i += 1;
        }
        slots
    }

    /// The glyph of each character of `text`, in order, found with `font`, and the
    /// glyphs of them that the cache lacked, now cached as [`GlyphCache::cache_glyphs`]
    /// does. `None`, and the cache unchanged, exactly where the font has no glyph for
    /// a character of the text.
    pub fn string_to_glyphs(&mut self, font: &font_kit::font::Font, text: &str) -> (r: Option<
        (Vec<u32>, Vec<u32>),
    >)
        requires
            old(self).wf(),
            old(self).rendered() + text@.len() <= usize::MAX,
        ensures
            match r {
                Some((glyphs, added)) => {
                    &&& glyphs@.len() == text@.len()
                    &&& forall|i: int|
                        0 <= i < glyphs@.len() ==> font_glyph(*font, text@[i]) == Some(
                            #[trigger] glyphs@[i],
                        )
                    &&& forall|i: int| 0 <= i < glyphs@.len() ==> #[trigger] glyphs@[i] != 0
                    &&& added@ == new_glyphs(old(self)@, glyphs@)
                    &&& final(self)@ == cache_after(old(self)@, old(self).rendered(), added@)
                    &&& final(self).rendered() == old(self).rendered() + added@.len()
                },
                None => final(self)@ == old(self)@ && final(self).rendered() == old(self).rendered(),
            },
            r is None <==> exists|i: int|
                0 <= i < text@.len() && #[trigger] font_glyph(*font, text@[i]) is None,
            final(self).wf(),
    {
        let n = text.unicode_len();
        let mut glyphs: Vec<u32> = Vec::new();
        let mut i: usize = 0;
        while i < n
            invariant
                0 <= i <= n,
                n == text@.len(),
                self@ == old(self)@,
                self.rendered() == old(self).rendered(),
                self.wf(),
                glyphs@.len() == i,
                forall|k: int| 0 <= k < i ==> #[trigger] glyphs@[k] != 0,
                forall|k: int|
                    0 <= k < i ==> font_glyph(*font, text@[k]) == Some(#[trigger] glyphs@[k]),
            decreases n - i,
        {
            let ch = text.get_char(i);
            match glyph_for_char(font, ch) {
                Some(g) => glyphs.push(g),
                None => {
                    assert(font_glyph(*font, text@[i as int]) is None);
                    return None;
                },
            }
            i += 1;
        }
        assert forall|k: int| 0 <= k < text@.len() implies !(#[trigger] font_glyph(
            *font,
            text@[k],
        ) is None) by {
            assert(font_glyph(*font, text@[k]) == Some(glyphs@[k]));
        }
        let added = self.cache_glyphs(&glyphs);
        Some((glyphs, added))
    }
}

} // verus!
