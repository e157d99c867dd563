//! Emoji detection and the font-fallback segmentation of text into runs.
use vstd::prelude::*;
use vstd::string::StrSliceExecFns;
use vstd::string::StringExecFns;

use crate::cache::NameCache;

verus! {

/// The code points that are drawn with an emoji-capable typeface:
/// pictographs, emoticons, transport and map symbols, alchemical symbols,
/// extended geometric shapes, supplemental arrows, supplemental and extended
/// pictographs, chess symbols, and the regional indicators that form flags.
pub open spec fn is_emoji_code_point(cp: u32) -> bool {
    ||| 0x1F300 <= cp <= 0x1F5FF
    ||| 0x1F600 <= cp <= 0x1F64F
    ||| 0x1F680 <= cp <= 0x1F6FF
    ||| 0x1F700 <= cp <= 0x1F77F
    ||| 0x1F780 <= cp <= 0x1F7FF
    ||| 0x1F800 <= cp <= 0x1F8FF
    ||| 0x1F900 <= cp <= 0x1F9FF
    ||| 0x1FA00 <= cp <= 0x1FA6F
    ||| 0x1FA70 <= cp <= 0x1FAFF
    ||| 0x1F1E0 <= cp <= 0x1F1FF
}

pub open spec fn is_emoji_char(c: char) -> bool {
    is_emoji_code_point(c as u32)
}

/// Whether some character of the text is an emoji.
pub open spec fn has_emoji(s: Seq<char>) -> bool {
    exists|i: int| 0 <= i < s.len() && is_emoji_char(#[trigger] s[i])
}

/// Whether the character is drawn with an emoji-capable typeface.
pub fn is_likely_emoji(ch: char) -> (r: bool)
    ensures
        r == is_emoji_char(ch),
{
    let cp = ch as u32;
    (0x1F300 <= cp && cp <= 0x1F5FF) || (0x1F600 <= cp && cp <= 0x1F64F) || (0x1F680 <= cp
        && cp <= 0x1F6FF) || (0x1F700 <= cp && cp <= 0x1F77F) || (0x1F780 <= cp && cp
        <= 0x1F7FF) || (0x1F800 <= cp && cp <= 0x1F8FF) || (0x1F900 <= cp && cp <= 0x1F9FF)
        || (0x1FA00 <= cp && cp <= 0x1FA6F) || (0x1FA70 <= cp && cp <= 0x1FAFF) || (0x1F1E0
        <= cp && cp <= 0x1F1FF)
}

/// Whether the text holds an emoji, in one pass over its characters.
pub fn contains_emoji(text: &str) -> (r: bool)
    ensures
        r == has_emoji(text@),
{
    let mut found = false;
    let ghost mut i: int = 0;
    for ch in it: text.chars()
        invariant
            it.seq() == text@,
            i == it.index(),
            found == has_emoji(text@.subrange(0, i)),
    {
        let e = is_likely_emoji(ch);
        proof {
            let pre = text@.subrange(0, i);
            let post = text@.subrange(0, i + 1);
            assert(ch == text@[i]);
            assert(post == pre.push(ch));
            if e {
                assert(post[i] == ch);
            }
            if has_emoji(post) && !e {
                let k = choose|k: int| 0 <= k < post.len() && is_emoji_char(#[trigger] post[k]);
                assert(pre[k] == post[k]);
            }
            if has_emoji(pre) {
                let k = choose|k: int| 0 <= k < pre.len() && is_emoji_char(#[trigger] pre[k]);
                assert(post[k] == pre[k]);
            }
        }
        if e {
            found = true;
        }
        proof {
            i = i + 1;
        }
    }
    assert(text@.subrange(0, text@.len() as int) == text@);
    found
}

/// Which typeface a segment of text is drawn with.
#[derive(Clone, Copy, Debug, PartialEq, Eq, Structural)]
pub enum TypefaceRole {
    /// The caller's typeface, or the default one where it gave none.
    Primary,
    /// The emoji-capable typeface.
    Emoji,
}

/// A run of text and the typeface that draws it.
pub struct TextSegment {
    pub text: String,
    pub typeface: TypefaceRole,
}

/// Whether `parts` split `s` into its maximal runs of emoji and of other
/// characters: they concatenate to `s`, none is empty, each holds characters
/// of one kind, and neighbours are of different kinds.
pub open spec fn is_run_split(s: Seq<char>, parts: Seq<Seq<char>>) -> bool {
    &&& parts.flatten() == s
    &&& forall|k: int| 0 <= k < parts.len() ==> (#[trigger] parts[k]).len() > 0
    &&& forall|k: int, j: int|
        0 <= k < parts.len() && 0 <= j < parts[k].len() ==> is_emoji_char(#[trigger] parts[k][j])
            == is_emoji_char(parts[k][0])
    &&& forall|k: int|
        0 <= k < parts.len() - 1 ==> is_emoji_char((#[trigger] parts[k])[0]) != is_emoji_char(
            parts[k + 1][0],
        )
}

/// The typeface for a run: emoji runs take the emoji-capable typeface where
/// one was found, every other run the primary one.
pub open spec fn role_for(run: Seq<char>, emoji_found: bool) -> TypefaceRole {
    if emoji_found && is_emoji_char(run[0]) {
        TypefaceRole::Emoji
    } else {
        TypefaceRole::Primary
    }
}

pub open spec fn segment_texts(segs: Seq<TextSegment>) -> Seq<Seq<char>> {
    segs.map_values(|g: TextSegment| g.text@)
}

/// Whether `segs` are the segmentation of `s`.
pub open spec fn is_segmentation(s: Seq<char>, segs: Seq<TextSegment>, emoji_found: bool) -> bool {
    &&& is_run_split(s, segment_texts(segs))
    &&& forall|k: int|
        0 <= k < segs.len() ==> (#[trigger] segs[k]).typeface == role_for(segs[k].text@, emoji_found)
}

proof fn lemma_single_run(s: Seq<char>)
    requires
        s.len() > 0,
        !has_emoji(s),
    ensures
        is_run_split(s, seq![s]),
{
    broadcast use Seq::lemma_flatten_singleton;

    let parts = seq![s];
    assert forall|k: int, j: int| 0 <= k < parts.len() && 0 <= j < parts[k].len() implies
        is_emoji_char(#[trigger] parts[k][j]) == is_emoji_char(parts[k][0]) by {
        assert(!is_emoji_char(s[j]));
        assert(!is_emoji_char(s[0]));
    }
}

proof fn lemma_first_run(s: Seq<char>, p: Seq<Seq<char>>)
    requires
        is_run_split(s, p),
        p.len() > 0,
    ensures
        p[0].len() <= s.len(),
        p[0] == s.subrange(0, p[0].len() as int),
        forall|j: int| 0 <= j < p[0].len() ==> is_emoji_char(#[trigger] s[j]) == is_emoji_char(s[0]),
        p[0].len() < s.len() ==> is_emoji_char(s[p[0].len() as int]) != is_emoji_char(s[0]),
        is_run_split(s.subrange(p[0].len() as int, s.len() as int), p.drop_first()),
{
    let k = p[0].len() as int;
    let rest = p.drop_first();
    assert(p.flatten() == p[0] + rest.flatten());
    assert(p[0].len() > 0);
    assert(s.subrange(0, k) == p[0]);
    assert(s.subrange(k, s.len() as int) == rest.flatten());
    assert forall|j: int| 0 <= j < k implies is_emoji_char(#[trigger] s[j]) == is_emoji_char(s[0]) by {
        assert(s[j] == p[0][j]);
        assert(s[0] == p[0][0]);
    }
    if k < s.len() {
        if rest.len() == 0 {
            assert(rest.flatten() == Seq::<char>::empty());
        }
        assert(rest.len() > 0);
        assert(rest.flatten() == rest[0] + rest.drop_first().flatten());
        assert(rest[0] == p[1]);
        assert(p[1].len() > 0);
        assert(s[k] == p[1][0]);
        assert(s[0] == p[0][0]);
    }
    assert forall|a: int| 0 <= a < rest.len() implies (#[trigger] rest[a]).len() > 0 by {
        assert(rest[a] == p[a + 1]);
    }
    assert forall|a: int, j: int| 0 <= a < rest.len() && 0 <= j < rest[a].len() implies
        is_emoji_char(#[trigger] rest[a][j]) == is_emoji_char(rest[a][0]) by {
        assert(rest[a] == p[a + 1]);
    }
    assert forall|a: int| 0 <= a < rest.len() - 1 implies is_emoji_char((#[trigger] rest[a])[0])
        != is_emoji_char(rest[a + 1][0]) by {
        assert(rest[a] == p[a + 1]);
        assert(rest[a + 1] == p[a + 2]);
    }
}

/// Text has one split into maximal runs: two segmentations of the same text
/// have the same segments, so the contract of `segment_text_by_font` fixes
/// its result (for "a😀b": "a", "😀", "b").
pub proof fn lemma_run_split_unique(s: Seq<char>, p: Seq<Seq<char>>, q: Seq<Seq<char>>)
    requires
        is_run_split(s, p),
        is_run_split(s, q),
    ensures
        p == q,
    decreases p.len(),
{
    if p.len() == 0 || q.len() == 0 {
        if p.len() > 0 {
            lemma_first_run(s, p);
            assert(q.flatten() == Seq::<char>::empty());
        } else if q.len() > 0 {
            lemma_first_run(s, q);
            assert(p.flatten() == Seq::<char>::empty());
        }
        assert(p =~= q);
    } else {
        lemma_first_run(s, p);
        lemma_first_run(s, q);
        let kp = p[0].len() as int;
        let kq = q[0].len() as int;
        if kp < kq {
            assert(is_emoji_char(s[kp]) == is_emoji_char(s[0]));
        }
        if kq < kp {
            assert(is_emoji_char(s[kq]) == is_emoji_char(s[0]));
        }
        assert(kp == kq);
        lemma_run_split_unique(s.subrange(kp, s.len() as int), p.drop_first(), q.drop_first());
        assert(p =~= seq![p[0]] + p.drop_first());
        assert(q =~= seq![q[0]] + q.drop_first());
    }
}

/// Splits text into runs of emoji and of other characters, each with the
/// typeface that draws it. Text without emoji is one segment; empty text is
/// none.
pub fn segment_text_by_font(text: &str, emoji_found: bool) -> (segs: Vec<TextSegment>)
    ensures
        is_segmentation(text@, segs@, emoji_found),
        text@.len() == 0 ==> segs.len() == 0,
        text@.len() > 0 && !has_emoji(text@) ==> segs.len() == 1 && segs[0].text@ == text@
            && segs[0].typeface == TypefaceRole::Primary,
{
    let n = text.unicode_len();
    if n == 0 {
        let segs: Vec<TextSegment> = Vec::new();
        proof {
            assert(text@ == Seq::<char>::empty());
            assert(segment_texts(segs@) == Seq::<Seq<char>>::empty());
        }
        return segs;
    }
    if !contains_emoji(text) {
        let mut segs: Vec<TextSegment> = Vec::new();
        segs.push(TextSegment { text: String::from_str(text), typeface: TypefaceRole::Primary });
        proof {
            lemma_single_run(text@);
            assert(segment_texts(segs@) == seq![text@]);
        }
        return segs;
    }
    let mut segs: Vec<TextSegment> = Vec::new();
    let mut start: usize = 0;
    let mut i: usize = 0;
    let mut current_is_emoji = false;
    proof {
        assert(text@.subrange(0, 0) == Seq::<char>::empty());
        assert(segment_texts(segs@) == Seq::<Seq<char>>::empty());
    }
    for ch in it: text.chars()
        invariant
            it.seq() == text@,
            n == text@.len(),
            i == it.index(),
            start <= i <= n,
            i > 0 ==> start < i,
            forall|j: int| start <= j < i ==> is_emoji_char(#[trigger] text@[j]) == current_is_emoji,
            is_run_split(text@.subrange(0, start as int), segment_texts(segs@)),
            segs.len() > 0 ==> start > 0,
            segs.len() > 0 ==> is_emoji_char(segment_texts(segs@).last()[0]) != current_is_emoji,
            forall|k: int|
                0 <= k < segs.len() ==> (#[trigger] segs@[k]).typeface == role_for(
                    segs@[k].text@,
                    emoji_found,
                ),
    {
        let is_emoji = is_likely_emoji(ch);
        proof {
            assert(ch == text@[i as int]);
        }
        if is_emoji != current_is_emoji && start < i {
            let run = text.substring_char(start, i);
            let typeface = if current_is_emoji && emoji_found {
                TypefaceRole::Emoji
            } else {
                TypefaceRole::Primary
            };
            let ghost old_parts = segment_texts(segs@);
            let ghost old_segs = segs@;
            segs.push(TextSegment { text: String::from_str(run), typeface });
            proof {
                broadcast use Seq::lemma_flatten_push;

                let tail = text@.subrange(start as int, i as int);
                assert(run@ == tail);
                assert(segs@ == old_segs.push(segs@.last()));
                assert(segment_texts(segs@) == old_parts.push(tail));
                assert(tail[0] == text@[start as int]);
                assert(is_emoji_char(tail[0]) == current_is_emoji);
                assert(segment_texts(segs@).last() == tail);
                assert(text@.subrange(0, i as int) == text@.subrange(0, start as int) + tail);
                let parts = segment_texts(segs@);
                assert forall|k: int, j: int| 0 <= k < parts.len() && 0 <= j < parts[k].len() implies
                    is_emoji_char(#[trigger] parts[k][j]) == is_emoji_char(parts[k][0]) by {
                    if k == parts.len() - 1 {
                        assert(parts[k][j] == text@[start + j]);
                    } else {
                        assert(parts[k] == old_parts[k]);
                    }
                }
                assert forall|k: int| 0 <= k < parts.len() - 1 implies is_emoji_char(
                    (#[trigger] parts[k])[0],
                ) != is_emoji_char(parts[k + 1][0]) by {
                    if k < parts.len() - 2 {
                        assert(parts[k] == old_parts[k]);
                        assert(parts[k + 1] == old_parts[k + 1]);
                    } else {
                        assert(parts[k] == old_parts.last());
                    }
                }
                assert forall|k: int| 0 <= k < parts.len() implies (#[trigger] parts[k]).len() > 0 by {
                    if k < parts.len() - 1 {
                        assert(parts[k] == old_parts[k]);
                    }
                }
                assert forall|k: int| 0 <= k < segs.len() implies (#[trigger] segs@[k]).typeface
                    == role_for(segs@[k].text@, emoji_found) by {
                    if k < segs.len() - 1 {
                        assert(segs@[k] == old_segs[k]);
                    }
                }
            }
            start = i;
        }
        current_is_emoji = is_emoji;
        i = i + 1;
    }
    let run = text.substring_char(start, n);
    let typeface = if current_is_emoji && emoji_found {
        TypefaceRole::Emoji
    } else {
        TypefaceRole::Primary
    };
    let ghost old_parts = segment_texts(segs@);
    let ghost old_segs = segs@;
    segs.push(TextSegment { text: String::from_str(run), typeface });
    proof {
        broadcast use Seq::lemma_flatten_push;

        let tail = text@.subrange(start as int, n as int);
        assert(run@ == tail);
        assert(segs@ == old_segs.push(segs@.last()));
        assert(segment_texts(segs@) == old_parts.push(tail));
        assert(tail[0] == text@[start as int]);
        assert(text@.subrange(0, n as int) == text@);
        assert(text@ == text@.subrange(0, start as int) + tail);
        let parts = segment_texts(segs@);
        assert forall|k: int, j: int| 0 <= k < parts.len() && 0 <= j < parts[k].len() implies
            is_emoji_char(#[trigger] parts[k][j]) == is_emoji_char(parts[k][0]) by {
            if k == parts.len() - 1 {
                assert(parts[k][j] == text@[start + j]);
            } else {
                assert(parts[k] == old_parts[k]);
            }
        }
        assert forall|k: int| 0 <= k < parts.len() - 1 implies is_emoji_char(
            (#[trigger] parts[k])[0],
        ) != is_emoji_char(parts[k + 1][0]) by {
            if k < parts.len() - 2 {
                assert(parts[k] == old_parts[k]);
                assert(parts[k + 1] == old_parts[k + 1]);
            } else {
                assert(parts[k] == old_parts.last());
            }
        }
        assert forall|k: int| 0 <= k < parts.len() implies (#[trigger] parts[k]).len() > 0 by {
            if k < parts.len() - 1 {
                assert(parts[k] == old_parts[k]);
            }
        }
        assert forall|k: int| 0 <= k < segs.len() implies (#[trigger] segs@[k]).typeface
            == role_for(segs@[k].text@, emoji_found) by {
            if k < segs.len() - 1 {
                assert(segs@[k] == old_segs[k]);
            }
        }
    }
    segs
}

/// The families tried, in order, when the requested one is missing or none
/// was requested: fonts common on Linux, macOS, Windows and Android that
/// cover Latin and CJK text.
pub open spec fn fallback_families() -> Seq<Seq<char>> {
    seq![
        "Noto Sans"@,
        "Noto Sans CJK JP"@,
        "Hiragino Sans"@,
        "Hiragino Kaku Gothic ProN"@,
        "Yu Gothic"@,
        "Meiryo"@,
        "Microsoft YaHei"@,
        "PingFang SC"@,
        "SF Pro"@,
        "Segoe UI"@,
        "Roboto"@,
        "Arial"@,
        "Helvetica"@,
    ]
}

/// The families to match, in order, for a requested family: the requested
/// one first, then the fallbacks. Where none matches, the engine's
/// last-resort typeface is taken.
pub open spec fn candidate_families(family: Option<Seq<char>>) -> Seq<Seq<char>> {
    match family {
        Some(f) => seq![f] + fallback_families(),
        None => fallback_families(),
    }
}

pub open spec fn string_views(v: Seq<String>) -> Seq<Seq<char>> {
    v.map_values(|s: String| s@)
}

pub open spec fn opt_view(family: Option<&str>) -> Option<Seq<char>> {
    match family {
        Some(f) => Some(f@),
        None => None,
    }
}

/// The family names to match, in order, when resolving a typeface for
/// `family`.
pub fn typeface_candidates(family: Option<&str>) -> (r: Vec<String>)
    ensures
        string_views(r@) == candidate_families(opt_view(family)),
{
    let mut r: Vec<String> = Vec::new();
    match family {
        Some(f) => r.push(String::from_str(f)),
        None => {},
    }
    let ghost start = string_views(r@);
    r.push(String::from_str("Noto Sans"));
    r.push(String::from_str("Noto Sans CJK JP"));
    r.push(String::from_str("Hiragino Sans"));
    r.push(String::from_str("Hiragino Kaku Gothic ProN"));
    r.push(String::from_str("Yu Gothic"));
    r.push(String::from_str("Meiryo"));
    r.push(String::from_str("Microsoft YaHei"));
    r.push(String::from_str("PingFang SC"));
    r.push(String::from_str("SF Pro"));
    r.push(String::from_str("Segoe UI"));
    r.push(String::from_str("Roboto"));
    r.push(String::from_str("Arial"));
    r.push(String::from_str("Helvetica"));
    assert(string_views(r@) =~= start + fallback_families());
    r
}

/// The cache key of a requested family; the default typeface is kept under
/// a reserved name.
pub open spec fn typeface_key(family: Option<Seq<char>>) -> Seq<char> {
    match family {
        Some(f) => f,
        None => "__default__"@,
    }
}

/// The cache key of a requested family.
pub fn typeface_cache_key(family: Option<&str>) -> (k: String)
    ensures
        k@ == typeface_key(opt_view(family)),
{
    match family {
        Some(f) => String::from_str(f),
        None => String::from_str("__default__"),
    }
}

/// Typefaces by requested family. Entries never change once made, and the
/// cache is never emptied: which typeface a family resolves to is taken to
/// hold for the life of the process.
pub struct TypefaceCache<T> {
    typefaces: NameCache<T>,
}

impl<T> View for TypefaceCache<T> {
    type V = Map<Seq<char>, T>;

    closed spec fn view(&self) -> Map<Seq<char>, T> {
        self.typefaces@
    }
}

impl<T: Clone> TypefaceCache<T> {
    pub closed spec fn wf(&self) -> bool {
        self.typefaces.wf()
    }

    pub fn new() -> (c: Self)
        ensures
            c.wf(),
            c@ == Map::<Seq<char>, T>::empty(),
    {
        TypefaceCache { typefaces: NameCache::new() }
    }

    /// The typeface cached for `family`; a hit skips all matching.
    pub fn cached(&self, family: Option<&str>) -> (r: Option<&T>)
        requires
            self.wf(),
        ensures
            match r {
                Some(t) => self@.contains_key(typeface_key(opt_view(family))) && *t == self@[typeface_key(
                    opt_view(family),
                )],
                None => !self@.contains_key(typeface_key(opt_view(family))),
            },
    {
        let key = typeface_cache_key(family);
        self.typefaces.get(key.as_str())
    }

    /// Ends the resolution of `family` that missed the cache: a typeface
    /// that was found is returned and a clone of it is cached; where none
    /// was found nothing is cached, so the next request tries again.
    pub fn finish_resolve(&mut self, family: Option<&str>, resolved: Option<T>) -> (r: Option<T>)
        requires
            old(self).wf(),
        ensures
            final(self).wf(),
            r == resolved,
            match resolved {
                Some(t) => {
                    let k = typeface_key(opt_view(family));
                    &&& final(self)@.contains_key(k)
                    &&& final(self)@ == old(self)@.insert(k, final(self)@[k])
                    &&& cloned(t, final(self)@[k])
                },
                None => final(self)@ == old(self)@,
            },
    {
        match resolved {
            Some(t) => {
                let key = typeface_cache_key(family);
                let kept = t.clone();
                self.typefaces.insert(key.as_str(), kept);
                Some(t)
            },
            None => None,
        }
    }
}

/// The emoji-capable typeface, looked up at most once: the outcome of the
/// lookup is kept even where it found nothing.
pub struct EmojiTypefaceCache<T> {
    resolved: Option<Option<T>>,
}

impl<T> View for EmojiTypefaceCache<T> {
    type V = Option<Option<T>>;

    closed spec fn view(&self) -> Option<Option<T>> {
        self.resolved
    }
}

impl<T: Clone> EmojiTypefaceCache<T> {
    /// A cache that has not looked yet.
    pub fn new() -> (c: Self)
        ensures
            c@ == None::<Option<T>>,
    {
        EmojiTypefaceCache { resolved: None }
    }

    /// The outcome of the lookup, if it was made.
    pub fn cached(&self) -> (r: Option<&Option<T>>)
        ensures
            match r {
                Some(t) => self@ == Some(*t),
                None => self@ is None,
            },
    {
        match &self.resolved {
            Some(t) => Some(t),
            None => None,
        }
    }

    /// Keeps the outcome of the lookup and returns it.
    pub fn finish_resolve(&mut self, found: Option<T>) -> (r: Option<T>)
        ensures
            r == found,
            final(self)@ matches Some(kept) && match found {
                Some(t) => kept matches Some(k) && cloned(t, k),
                None => kept is None,
            },
    {
        match found {
            Some(t) => {
                self.resolved = Some(Some(t.clone()));
                Some(t)
            },
            None => {
                self.resolved = Some(None);
                None
            },
        }
    }
}

} // verus!
