//! The tag section `@key=value;key=value ` of a line, and the whitelists
//! that decide which of its pairs are kept.
use crate::scan::{
    equals_model, find_equals, find_from, find_semi_or_space, lemma_find_bounds,
    semi_or_space_model, Found, EQUALS, SEMI, SPACE,
};
use crate::span::{lemma_after_ascii, lemma_at_ascii, Span};
use crate::tag::{resolve_tag, Tag};
use vstd::prelude::*;
use vstd::string::StringSliceAdditionalSpecFns;
use vstd::utf8::{is_char_boundary, is_char_boundary_start_end_of_seq, valid_utf8};

verus! {

/// `@`, which opens the tag section.
pub const AT: u8 = 0x40;

/// One `key=value` pair of the tag section.
#[derive(Clone, Copy, Debug, PartialEq, Eq, Structural)]
pub struct RawTag {
    pub key: Tag,
    pub key_span: Span,
    pub value: Span,
}

impl RawTag {
    /// The key, and the raw (still escaped) value as text.
    pub fn get<'a>(&self, src: &'a str) -> (r: (Tag, &'a str))
        requires
            self.value.within(src.spec_bytes().len() as int),
            is_char_boundary(src.spec_bytes(), self.value.start as int),
            is_char_boundary(src.spec_bytes(), self.value.end as int),
        ensures
            r.0 == self.key,
            r.1.spec_bytes() == src.spec_bytes().subrange(
                self.value.start as int,
                self.value.end as int,
            ),
    {
        (self.key, self.value.get(src))
    }
}

/// Which tags a parse keeps, with the expected number of tags as a
/// capacity hint `IC`.
pub struct Whitelist<const IC: usize> {
    keys: Option<Vec<Tag>>,
}

/// Whether a whitelist whose view is `keys` keeps tags with key `t`: a
/// whitelist of no key set keeps every tag.
pub open spec fn admits(keys: Option<Seq<Tag>>, t: Tag) -> bool {
    match keys {
        None => true,
        Some(k) => k.contains(t),
    }
}

impl<const IC: usize> View for Whitelist<IC> {
    type V = Option<Seq<Tag>>;

    /// The accepted keys; `None` when every key is accepted.
    closed spec fn view(&self) -> Option<Seq<Tag>> {
        match self.keys {
            None => None,
            Some(k) => Some(k@),
        }
    }
}

impl<const IC: usize> Whitelist<IC> {
    /// Keeps every tag.
    pub fn all() -> (r: Self)
        ensures
            r@ == None::<Seq<Tag>>,
    {
        Whitelist { keys: None }
    }

    /// Keeps the tags whose key is one of `keys`.
    pub fn of(keys: Vec<Tag>) -> (r: Self)
        ensures
            r@ == Some(keys@),
    {
        Whitelist { keys: Some(keys) }
    }

    /// Whether tags with key `t` are kept.
    pub fn accepts(&self, t: &Tag) -> (r: bool)
        ensures
            r == admits(self@, *t),
    {
        match self.keys.as_ref() {
            None => true,
            Some(k) => {
                let mut i: usize = 0;
                while i < k.len()
                    invariant
                        self@ == Some(k@),
                        i <= k@.len(),
                        forall|j: int| 0 <= j < i ==> k@[j] != *t,
                    decreases k@.len() - i,
                {
                    if k[i] == *t {
                        assert(k@[i as int] == *t);
                        return true;
                    }
                    i += 1;
                }
                false
            },
        }
    }

    /// Appends the pair `(key, value)` of `src` to `tags` when its key is kept.
    pub fn maybe_insert(&self, src: &[u8], tags: &mut Vec<RawTag>, key: Span, value: Span)
        requires
            key.within(src@.len() as int),
        ensures
            final(tags)@ == insert_model(src@, old(tags)@, key, value, self@),
    {
        let t = Tag::from_bytes(&src[key.start..key.end], key);
        if self.accepts(&t) {
            tags.push(RawTag { key: t, key_span: key, value });
        }
    }
}

/// The tag that the pair `(key, value)` of `b` makes.
pub open spec fn raw_tag(b: Seq<u8>, key: Span, value: Span) -> RawTag {
    RawTag { key: resolve_tag(b.subrange(key.start as int, key.end as int), key), key_span: key, value }
}

/// `tags` after the pair `(key, value)` of `b` went through the whitelist.
pub open spec fn insert_model(
    b: Seq<u8>,
    tags: Seq<RawTag>,
    key: Span,
    value: Span,
    keys: Option<Seq<Tag>>,
) -> Seq<RawTag> {
    if admits(keys, raw_tag(b, key, value).key) {
        tags.push(raw_tag(b, key, value))
    } else {
        tags
    }
}

/// The tags that the whitelist keeps of the pairs `pairs` of `b`, in order.
pub open spec fn kept(b: Seq<u8>, pairs: Seq<(Span, Span)>, keys: Option<Seq<Tag>>) -> Seq<
    RawTag,
>
    decreases pairs.len(),
{
    if pairs.len() == 0 {
        Seq::empty()
    } else {
        insert_model(b, kept(b, pairs.drop_last(), keys), pairs.last().0, pairs.last().1, keys)
    }
}

/// The `(key, value)` pairs of the tag list of `b` that starts at `ks`.
pub open spec fn tag_pairs(b: Seq<u8>, ks: int) -> Seq<(Span, Span)>
    decreases b.len() - ks via tag_pairs_decreases
{
    if ks < 0 || ks >= b.len() {
        Seq::empty()
    } else {
        let ke = find_from(b, ks, EQUALS, EQUALS);
        if ke >= b.len() {
            Seq::empty()
        } else {
            let ve = find_from(b, ke + 1, SEMI, SPACE);
            let pair = (Span { start: ks as usize, end: ke as usize }, Span { start: (ke + 1) as usize, end: ve as usize });
            if ve < b.len() && b[ve] == SEMI {
                seq![pair] + tag_pairs(b, ve + 1)
            } else {
                seq![pair]
            }
        }
    }
}

/// Where the scan of the tag list of `b` that starts at `ks` stops.
pub open spec fn tags_end(b: Seq<u8>, ks: int) -> int
    decreases b.len() - ks via tags_end_decreases
{
    if ks < 0 || ks >= b.len() {
        ks
    } else {
        let ke = find_from(b, ks, EQUALS, EQUALS);
        if ke >= b.len() {
            ks
        } else {
            let ve = find_from(b, ke + 1, SEMI, SPACE);
            if ve >= b.len() {
                b.len() as int
            } else if b[ve] == SEMI {
                tags_end(b, ve + 1)
            } else {
                ve + 1
            }
        }
    }
}

#[via_fn]
proof fn tag_pairs_decreases(b: Seq<u8>, ks: int) {
    if 0 <= ks < b.len() {
        lemma_find_bounds(b, ks, EQUALS, EQUALS);
        let ke = find_from(b, ks, EQUALS, EQUALS);
        if ke < b.len() {
            lemma_find_bounds(b, ke + 1, SEMI, SPACE);
        }
    }
}

#[via_fn]
proof fn tags_end_decreases(b: Seq<u8>, ks: int) {
    if 0 <= ks < b.len() {
        lemma_find_bounds(b, ks, EQUALS, EQUALS);
        let ke = find_from(b, ks, EQUALS, EQUALS);
        if ke < b.len() {
            lemma_find_bounds(b, ke + 1, SEMI, SPACE);
        }
    }
}

/// The pairs of the tag section of `b` when the cursor stands at `pos`.
pub open spec fn section_pairs(b: Seq<u8>, pos: int) -> Seq<(Span, Span)> {
    if 0 <= pos < b.len() && b[pos] == AT {
        tag_pairs(b, pos + 1)
    } else {
        Seq::empty()
    }
}

/// Where the cursor stands after the tag section of `b` that starts at `pos`.
pub open spec fn section_end(b: Seq<u8>, pos: int) -> int {
    if 0 <= pos < b.len() && b[pos] == AT {
        tags_end(b, pos + 1)
    } else {
        pos
    }
}

/// A scan of a suffix is the scan of the whole, shifted.
pub proof fn lemma_find_suffix(b: Seq<u8>, i: int, j: int, x: u8, y: u8)
    requires
        0 <= i <= b.len(),
        0 <= j,
    ensures
        find_from(b.subrange(i, b.len() as int), j, x, y) + i == find_from(b, i + j, x, y),
    decreases b.len() - i - j,
{
    let s = b.subrange(i, b.len() as int);
    if j < s.len() {
        assert(s[j] == b[i + j]);
        if !(s[j] == x || s[j] == y) {
            lemma_find_suffix(b, i, j + 1, x, y);
        }
    }
}

/// Parses the tag section of `b` at `*pos`, moving the cursor past it.
pub fn parse_tag_bytes<const IC: usize>(b: &[u8], pos: &mut usize, wl: &Whitelist<IC>) -> (tags: Vec<RawTag>)
    requires
        *old(pos) <= b@.len(),
    ensures
        tags@ == kept(b@, section_pairs(b@, *old(pos) as int), wl@),
        *final(pos) == section_end(b@, *old(pos) as int),
        *final(pos) <= b@.len(),
{
    if *pos >= b.len() || b[*pos] != AT {
        return Vec::new();
    }
    let mut tags: Vec<RawTag> = Vec::with_capacity(IC);
    let mut ks: usize = *pos + 1;
    let ghost start = ks as int;
    let ghost mut done: Seq<(Span, Span)> = Seq::empty();
    loop
        invariant_except_break
            tag_pairs(b@, start) == done + tag_pairs(b@, ks as int),
            tags_end(b@, start) == tags_end(b@, ks as int),
            tags@ == kept(b@, done, wl@),
        invariant
            ks <= b@.len(),
            forall|k: int| 0 <= k < done.len() ==> (#[trigger] done[k]).0.within(b@.len() as int),
        ensures
            tags@ == kept(b@, tag_pairs(b@, start), wl@),
            ks == tags_end(b@, start),
        decreases b@.len() - ks,
    {
        if ks >= b.len() {
            assert(done + tag_pairs(b@, ks as int) =~= done);
            break;
        }
        let rest = &b[ks..b.len()];
        proof {
            lemma_find_suffix(b@, ks as int, 0, EQUALS, EQUALS);
            lemma_find_bounds(b@, ks as int, EQUALS, EQUALS);
        }
        match find_equals(rest) {
            None => {
                assert(done + tag_pairs(b@, ks as int) =~= done);
                break;
            },
            Some(e) => {
                let ke = ks + e;
                let vs = ke + 1;
                let value_rest = &b[vs..b.len()];
                proof {
                    lemma_find_suffix(b@, vs as int, 0, SEMI, SPACE);
                    lemma_find_bounds(b@, vs as int, SEMI, SPACE);
                }
                let key = Span { start: ks, end: ke };
                match find_semi_or_space(value_rest) {
                    Some(Found::Semi(o)) => {
                        let value = Span { start: vs, end: vs + o };
                        wl.maybe_insert(b, &mut tags, key, value);
                        proof {
                            let old_done = done;
                            done = done.push((key, value));
                            assert(done.drop_last() =~= old_done);
                            assert(old_done + tag_pairs(b@, ks as int) =~= done + tag_pairs(b@, (vs + o + 1) as int));
                        }
                        ks = vs + o + 1;
                    },
                    Some(Found::Space(o)) => {
                        let value = Span { start: vs, end: vs + o };
                        wl.maybe_insert(b, &mut tags, key, value);
                        proof {
                            let old_done = done;
                            done = done.push((key, value));
                            assert(done.drop_last() =~= old_done);
                            assert(old_done + tag_pairs(b@, ks as int) =~= done);
                        }
                        ks = vs + o + 1;
                        break;
                    },
                    None => {
                        let value = Span { start: vs, end: b.len() };
                        wl.maybe_insert(b, &mut tags, key, value);
                        proof {
                            let old_done = done;
                            done = done.push((key, value));
                            assert(done.drop_last() =~= old_done);
                            assert(old_done + tag_pairs(b@, ks as int) =~= done);
                        }
                        ks = b.len();
                        break;
                    },
                }
            },
        }
    }
    *pos = ks;
    tags
}

/// Parses the tag section of `src` at `*pos`, moving the cursor past it.
pub fn parse_tags<const IC: usize>(src: &str, pos: &mut usize, whitelist: &Whitelist<IC>) -> (tags: Vec<RawTag>)
    requires
        *old(pos) <= src.spec_bytes().len(),
    ensures
        tags@ == kept(src.spec_bytes(), section_pairs(src.spec_bytes(), *old(pos) as int), whitelist@),
        *final(pos) == section_end(src.spec_bytes(), *old(pos) as int),
        forall|k: int|
            0 <= k < tags@.len() ==> tag_ok(src.spec_bytes(), *old(pos) as int, #[trigger] tags@[k]),
        *old(pos) <= *final(pos) <= src.spec_bytes().len(),
        *final(pos) == *old(pos) || is_char_boundary(src.spec_bytes(), *final(pos) as int),
{
    let b = src.as_bytes();
    let blen = b.len();
    proof {
        vstd::utf8::encode_utf8_valid_utf8(src@);
        lemma_section_shape(b@, *old(pos) as int, whitelist@);
    }
    parse_tag_bytes(b, pos, whitelist)
}

/// `i` is the start or end of `b`, or stands next to an ASCII byte: in
/// UTF-8 text such a position never splits a character.
pub open spec fn cut(b: Seq<u8>, i: int) -> bool {
    0 <= i <= b.len() && (i == 0 || i == b.len() || b[i] < 0x80 || b[i - 1] < 0x80)
}

/// The key and value of a pair lie in `b`, in that order, and start and end
/// at cuts.
pub open spec fn pair_ok(b: Seq<u8>, p: (Span, Span)) -> bool {
    &&& p.0.start <= p.0.end < p.1.start <= p.1.end <= b.len()
    &&& p.1.start == p.0.end + 1
    &&& b[p.0.end as int] == EQUALS
    &&& cut(b, p.0.start as int)
    &&& cut(b, p.0.end as int)
    &&& cut(b, p.1.start as int)
    &&& cut(b, p.1.end as int)
}

/// The pairs of a tag list lie in `b` in the order of the text, each at
/// cuts, none before `ks`; the scan stops at a cut.
pub proof fn lemma_tag_pairs_shape(b: Seq<u8>, ks: int)
    requires
        1 <= ks <= b.len() <= usize::MAX,
        b[ks - 1] < 0x80,
    ensures
        forall|k: int| 0 <= k < tag_pairs(b, ks).len() ==> pair_ok(b, #[trigger] tag_pairs(b, ks)[k]),
        forall|k: int|
            0 <= k < tag_pairs(b, ks).len() - 1 ==> (#[trigger] tag_pairs(b, ks)[k]).1.end < tag_pairs(
                b,
                ks,
            )[k + 1].0.start,
        forall|k: int|
            0 <= k < tag_pairs(b, ks).len() - 1 ==> (#[trigger] tag_pairs(b, ks)[k]).1.end + 1
                == tag_pairs(b, ks)[k + 1].0.start && b[tag_pairs(b, ks)[k].1.end as int] == SEMI,
        forall|k: int| 0 <= k < tag_pairs(b, ks).len() ==> ks <= (#[trigger] tag_pairs(b, ks)[k]).0.start,
        tag_pairs(b, ks).len() > 0 ==> ks == tag_pairs(b, ks)[0].0.start,
        cut(b, tags_end(b, ks)),
        ks <= tags_end(b, ks) <= b.len(),
    decreases b.len() - ks,
{
    if ks < b.len() {
        lemma_find_bounds(b, ks, EQUALS, EQUALS);
        let ke = find_from(b, ks, EQUALS, EQUALS);
        if ke < b.len() {
            lemma_find_bounds(b, ke + 1, SEMI, SPACE);
            let ve = find_from(b, ke + 1, SEMI, SPACE);
            let pair = (Span { start: ks as usize, end: ke as usize }, Span { start: (ke + 1) as usize, end: ve as usize });
            assert(pair_ok(b, pair));
            if !(ve < b.len() && b[ve] == SEMI) {
                assert(tag_pairs(b, ks) == seq![pair]);
            } else {
                lemma_tag_pairs_shape(b, ve + 1);
                let rest = tag_pairs(b, ve + 1);
                assert(tag_pairs(b, ks) == seq![pair] + rest);
                assert forall|k: int| 0 <= k < tag_pairs(b, ks).len() implies pair_ok(b, #[trigger] tag_pairs(b, ks)[k]) by {
                    if k > 0 {
                        assert(tag_pairs(b, ks)[k] == rest[k - 1]);
                    }
                }
                assert forall|k: int| 0 <= k < tag_pairs(b, ks).len() - 1 implies (#[trigger] tag_pairs(b, ks)[k]).1.end < tag_pairs(b, ks)[k + 1].0.start
                    && tag_pairs(b, ks)[k].1.end + 1 == tag_pairs(b, ks)[k + 1].0.start
                    && b[tag_pairs(b, ks)[k].1.end as int] == SEMI by {
                    if k > 0 {
                        assert(tag_pairs(b, ks)[k] == rest[k - 1]);
                    }
                    assert(tag_pairs(b, ks)[k + 1] == rest[k]);
                }
                assert forall|k: int| 0 <= k < tag_pairs(b, ks).len() implies ks <= (#[trigger] tag_pairs(b, ks)[k]).0.start by {
                    if k > 0 {
                        assert(tag_pairs(b, ks)[k] == rest[k - 1]);
                    }
                }
            }
        }
    }
}

/// Each kept tag is made of one of the pairs.
pub proof fn lemma_kept_from(b: Seq<u8>, pairs: Seq<(Span, Span)>, keys: Option<Seq<Tag>>)
    ensures
        forall|k: int|
            0 <= k < kept(b, pairs, keys).len() ==> exists|j: int|
                0 <= j < pairs.len() && #[trigger] kept(b, pairs, keys)[k] == raw_tag(
                    b,
                    pairs[j].0,
                    pairs[j].1,
                ),
    decreases pairs.len(),
{
    if pairs.len() > 0 {
        let prev = pairs.drop_last();
        lemma_kept_from(b, prev, keys);
        assert forall|k: int| 0 <= k < kept(b, pairs, keys).len() implies exists|j: int|
            0 <= j < pairs.len() && #[trigger] kept(b, pairs, keys)[k] == raw_tag(
                b,
                pairs[j].0,
                pairs[j].1,
            ) by {
            if k < kept(b, prev, keys).len() {
                let j = choose|j: int|
                    0 <= j < prev.len() && #[trigger] kept(b, prev, keys)[k] == raw_tag(
                        b,
                        prev[j].0,
                        prev[j].1,
                    );
                assert(prev[j] == pairs[j]);
            } else {
                assert(kept(b, pairs, keys)[k] == raw_tag(b, pairs[pairs.len() - 1].0, pairs[pairs.len() - 1].1));
            }
        }
    }
}

/// In UTF-8 text a cut is a character boundary.
pub proof fn lemma_cut_boundary_of(b: Seq<u8>, i: int)
    requires
        valid_utf8(b),
        cut(b, i),
    ensures
        is_char_boundary(b, i),
{
    is_char_boundary_start_end_of_seq(b);
    if i == 0 || i == b.len() {
    } else if b[i] < 0x80 {
        lemma_at_ascii(b, i);
    } else {
        lemma_after_ascii(b, i);
    }
}

/// A tag read at cursor `pos` of `b`: key and value lie after `pos` in `b`,
/// the value right after the key's `=`, all four ends on character
/// boundaries.
pub open spec fn tag_ok(b: Seq<u8>, pos: int, t: RawTag) -> bool {
    &&& pos < t.key_span.start <= t.key_span.end
    &&& t.value.start == t.key_span.end + 1
    &&& t.value.start <= t.value.end <= b.len()
    &&& is_char_boundary(b, t.key_span.start as int)
    &&& is_char_boundary(b, t.key_span.end as int)
    &&& is_char_boundary(b, t.value.start as int)
    &&& is_char_boundary(b, t.value.end as int)
}

/// Every tag of the section at `pos` is `tag_ok`, and the section ends on a
/// character boundary at or after `pos`.
pub proof fn lemma_section_shape(b: Seq<u8>, pos: int, keys: Option<Seq<Tag>>)
    requires
        valid_utf8(b),
        b.len() <= usize::MAX,
        0 <= pos <= b.len(),
    ensures
        forall|k: int|
            0 <= k < kept(b, section_pairs(b, pos), keys).len() ==> tag_ok(
                b,
                pos,
                #[trigger] kept(b, section_pairs(b, pos), keys)[k],
            ),
        pos <= section_end(b, pos) <= b.len(),
        section_end(b, pos) == pos || is_char_boundary(b, section_end(b, pos)),
{
    let pairs = section_pairs(b, pos);
    if 0 <= pos < b.len() && b[pos] == AT {
        lemma_tag_pairs_shape(b, pos + 1);
        lemma_cut_boundary_of(b, section_end(b, pos));
    }
    lemma_kept_from(b, pairs, keys);
    assert forall|k: int| 0 <= k < kept(b, pairs, keys).len() implies tag_ok(
        b,
        pos,
        #[trigger] kept(b, pairs, keys)[k],
    ) by {
        let j = choose|j: int|
            0 <= j < pairs.len() && #[trigger] kept(b, pairs, keys)[k] == raw_tag(
                b,
                pairs[j].0,
                pairs[j].1,
            );
        assert(pair_ok(b, pairs[j]));
        lemma_cut_boundary_of(b, pairs[j].0.start as int);
        lemma_cut_boundary_of(b, pairs[j].0.end as int);
        lemma_cut_boundary_of(b, pairs[j].1.start as int);
        lemma_cut_boundary_of(b, pairs[j].1.end as int);
    }
}

/// Tags come out in the order of their pairs: when every key is accepted,
/// the `k`-th tag is made of the `k`-th `key=value` pair.
pub proof fn lemma_tag_order(b: Seq<u8>, pairs: Seq<(Span, Span)>)
    ensures
        kept(b, pairs, None).len() == pairs.len(),
        forall|k: int|
            0 <= k < pairs.len() ==> #[trigger] kept(b, pairs, None)[k] == raw_tag(
                b,
                pairs[k].0,
                pairs[k].1,
            ),
    decreases pairs.len(),
{
    if pairs.len() > 0 {
        lemma_tag_order(b, pairs.drop_last());
        assert forall|k: int| 0 <= k < pairs.len() implies #[trigger] kept(b, pairs, None)[k]
            == raw_tag(b, pairs[k].0, pairs[k].1) by {
            if k < pairs.len() - 1 {
                assert(pairs.drop_last()[k] == pairs[k]);
            }
        }
    }
}

/// A whitelist keeps, in their order, exactly the tags of an accept-all
/// scan whose keys it names.
pub proof fn lemma_whitelist_filter(b: Seq<u8>, pairs: Seq<(Span, Span)>, keys: Seq<Tag>)
    ensures
        kept(b, pairs, Some(keys)) == kept(b, pairs, None).filter(|t: RawTag| keys.contains(t.key)),
    decreases pairs.len(),
{
    reveal(Seq::filter);
    if pairs.len() > 0 {
        lemma_whitelist_filter(b, pairs.drop_last(), keys);
        let all = kept(b, pairs, None);
        assert(all.drop_last() =~= kept(b, pairs.drop_last(), None));
    }
}

} // verus!
