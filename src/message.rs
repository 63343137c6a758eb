//! The line parser: tags, prefix, command, channel, params and trailing
//! text of one IRC line, as spans of the line.
use crate::command::{lemma_lookup_known, resolve_command, Command};
use crate::scan::{find_from, find_in, find_within, lemma_find_bounds, SPACE};
use crate::span::Span;
use crate::tag::Tag;
use crate::tags::{
    cut, kept, lemma_kept_from, lemma_tag_pairs_shape, lemma_whitelist_filter, pair_ok, parse_tag_bytes, raw_tag,
    section_end, section_pairs, RawTag, Whitelist, AT,
};
use crate::span::{lemma_after_ascii, lemma_at_ascii};
use vstd::utf8::{is_char_boundary, is_char_boundary_start_end_of_seq, valid_utf8};
use vstd::prelude::*;
use vstd::string::StringSliceAdditionalSpecFns;

verus! {

/// `:`, which opens the prefix and the trailing text.
pub const COLON: u8 = 0x3a;

/// `!`, between nick and user in a prefix.
pub const BANG: u8 = 0x21;

/// `#`, which opens a channel name.
pub const HASH: u8 = 0x23;

/// Carriage return.
pub const CR: u8 = 0x0d;

/// Line feed.
pub const LF: u8 = 0x0a;

/// The origin of a line: `nick!user@host`, `nick@host` or `host`.
#[derive(Clone, Copy, Debug, PartialEq, Eq, Structural)]
pub struct Prefix {
    pub nick: Option<Span>,
    pub user: Option<Span>,
    pub host: Span,
}

/// The prefix of `l` at `pos`, with the position after its closing space;
/// `None` when there is no `:` at `pos` or no space after it.
pub open spec fn prefix_at(l: Seq<u8>, pos: int) -> Option<(Prefix, int)> {
    if 0 <= pos < l.len() && l[pos] == COLON {
        let ps = pos + 1;
        let sp = find_from(l, ps, SPACE, SPACE);
        if sp >= l.len() {
            None
        } else {
            let bang = find_within(l, ps, sp, BANG, BANG);
            let at = if bang < sp {
                find_within(l, bang + 1, sp, AT, AT)
            } else {
                find_within(l, ps, sp, AT, AT)
            };
            let p = if at < sp {
                if bang < sp {
                    Prefix {
                        nick: Some(Span { start: ps as usize, end: bang as usize }),
                        user: Some(Span { start: (bang + 1) as usize, end: at as usize }),
                        host: Span { start: (at + 1) as usize, end: sp as usize },
                    }
                } else {
                    Prefix {
                        nick: Some(Span { start: ps as usize, end: at as usize }),
                        user: None,
                        host: Span { start: (at + 1) as usize, end: sp as usize },
                    }
                }
            } else {
                Prefix { nick: None, user: None, host: Span { start: ps as usize, end: sp as usize } }
            };
            Some((p, sp + 1))
        }
    } else {
        None
    }
}

/// Parses the prefix of `l` at `*pos`, moving the cursor past its closing
/// space; leaves the cursor where it was when there is none.
pub fn parse_prefix_bytes(l: &[u8], pos: &mut usize) -> (r: Option<Prefix>)
    requires
        *old(pos) <= l@.len(),
    ensures
        match prefix_at(l@, *old(pos) as int) {
            Some((p, e)) => r == Some(p) && *final(pos) == e,
            None => r is None && *final(pos) == *old(pos),
        },
{
    let p0 = *pos;
    if p0 >= l.len() || l[p0] != COLON {
        return None;
    }
    let ps = p0 + 1;
    let sp = find_in(l, ps, l.len(), SPACE, SPACE);
    proof {
        assert(l@.subrange(0, l@.len() as int) =~= l@);
    }
    if sp >= l.len() {
        return None;
    }
    let bang = find_in(l, ps, sp, BANG, BANG);
    let at = if bang < sp {
        find_in(l, bang + 1, sp, AT, AT)
    } else {
        find_in(l, ps, sp, AT, AT)
    };
    let p = if at < sp {
        if bang < sp {
            Prefix {
                nick: Some(Span { start: ps, end: bang }),
                user: Some(Span { start: bang + 1, end: at }),
                host: Span { start: at + 1, end: sp },
            }
        } else {
            Prefix {
                nick: Some(Span { start: ps, end: at }),
                user: None,
                host: Span { start: at + 1, end: sp },
            }
        }
    } else {
        Prefix { nick: None, user: None, host: Span { start: ps, end: sp } }
    };
    *pos = sp + 1;
    Some(p)
}

/// Parses the prefix of `src` at `*pos`, moving the cursor past its closing
/// space; leaves the cursor where it was when there is none.
pub fn parse_prefix(src: &str, pos: &mut usize) -> (r: Option<Prefix>)
    requires
        *old(pos) <= src.spec_bytes().len(),
    ensures
        match prefix_at(src.spec_bytes(), *old(pos) as int) {
            Some((p, e)) => r == Some(p) && *final(pos) == e,
            None => r is None && *final(pos) == *old(pos),
        },
{
    parse_prefix_bytes(src.as_bytes(), pos)
}

/// The first index `k >= i` with ` :` at `k`; `l.len()` when there is none.
pub open spec fn find_trailing(l: Seq<u8>, i: int) -> int
    decreases l.len() - i,
{
    if i < 0 || i + 1 >= l.len() {
        l.len() as int
    } else if l[i] == SPACE && l[i + 1] == COLON {
        i
    } else {
        find_trailing(l, i + 1)
    }
}

/// `b` without one trailing `\n`, `\r` or `\r\n`.
pub open spec fn line_of(b: Seq<u8>) -> Seq<u8> {
    let n1 = if b.len() > 0 && b.last() == LF {
        b.len() - 1
    } else {
        b.len() as int
    };
    let n2 = if n1 > 0 && b[n1 - 1] == CR {
        n1 - 1
    } else {
        n1
    };
    b.subrange(0, n2)
}

/// What a parsed line holds, as spans of the line.
pub struct MessageView {
    pub tags: Seq<RawTag>,
    pub prefix: Option<Prefix>,
    pub command: Command,
    pub channel: Option<Span>,
    pub params: Option<Span>,
    pub text: Option<Span>,
}

/// The fields that follow the command token `[q, ce)` of `l`.
pub open spec fn body_of(l: Seq<u8>, tags: Seq<RawTag>, prefix: Option<Prefix>, q: int, ce: int) -> MessageView {
    let r = if ce < l.len() {
        ce + 1
    } else {
        l.len() as int
    };
    let has_channel = r < l.len() && l[r] == HASH;
    let te = find_from(l, r + 1, SPACE, SPACE);
    let r2 = if !has_channel {
        r
    } else if te < l.len() {
        te + 1
    } else {
        l.len() as int
    };
    let k = find_trailing(l, r2);
    MessageView {
        tags,
        prefix,
        command: resolve_command(l.subrange(q, ce), Span { start: q as usize, end: ce as usize }),
        channel: if has_channel {
            Some(Span { start: (r + 1) as usize, end: te as usize })
        } else {
            None
        },
        params: if r2 < l.len() {
            Some(Span { start: r2 as usize, end: l.len() as usize })
        } else {
            None
        },
        text: if r2 < l.len() && l[r2] == COLON {
            Some(Span { start: (r2 + 1) as usize, end: l.len() as usize })
        } else if r2 < l.len() && k < l.len() {
            Some(Span { start: (k + 2) as usize, end: l.len() as usize })
        } else {
            None
        },
    }
}

/// The parse of the line `b` with a whitelist whose view is `keys`: `None`
/// when the prefix has no closing space or the command token is empty.
pub open spec fn parse_model(b: Seq<u8>, keys: Option<Seq<Tag>>) -> Option<MessageView> {
    let l = line_of(b);
    let q0 = section_end(l, 0);
    let tags = kept(l, section_pairs(l, 0), keys);
    if q0 < l.len() && l[q0] == COLON && prefix_at(l, q0) is None {
        None
    } else {
        let prefix = match prefix_at(l, q0) {
            Some((p, _)) => Some(p),
            None => None,
        };
        let q = match prefix_at(l, q0) {
            Some((_, e)) => e,
            None => q0,
        };
        let ce = find_from(l, q, SPACE, SPACE);
        if ce == q {
            None
        } else {
            Some(body_of(l, tags, prefix, q, ce))
        }
    }
}

/// The value of the first tag of `tags`, from index `i` on, with key `t`.
pub open spec fn first_tag(tags: Seq<RawTag>, t: Tag, i: int) -> Option<Span>
    decreases tags.len() - i,
{
    if i < 0 || i >= tags.len() {
        None
    } else if tags[i].key == t {
        Some(tags[i].value)
    } else {
        first_tag(tags, t, i + 1)
    }
}

/// A parsed line. Every span is a range of the line it was parsed from.
pub struct IrcMessage {
    tags: Vec<RawTag>,
    prefix: Option<Prefix>,
    command: Command,
    channel: Option<Span>,
    params: Option<Span>,
    text: Option<Span>,
}

impl View for IrcMessage {
    type V = MessageView;

    closed spec fn view(&self) -> MessageView {
        MessageView {
            tags: self.tags@,
            prefix: self.prefix,
            command: self.command,
            channel: self.channel,
            params: self.params,
            text: self.text,
        }
    }
}

/// The first index `k >= from` of `l` with ` :` at `k`; `l.len()` when
/// there is none.
fn find_trailing_in(l: &[u8], from: usize) -> (r: usize)
    requires
        from <= l@.len(),
    ensures
        r == find_trailing(l@, from as int),
        r == l@.len() || r + 1 < l@.len(),
{
    let mut i: usize = from;
    while l.len() - i > 1
        invariant
            from <= i <= l@.len(),
            find_trailing(l@, from as int) == find_trailing(l@, i as int),
        decreases l@.len() - i,
    {
        if l[i] == SPACE && l[i + 1] == COLON {
            return i;
        }
        i += 1;
    }
    l.len()
}

/// The length of `b` without its line terminator.
fn line_len(b: &[u8]) -> (n: usize)
    ensures
        n <= b@.len(),
        b@.subrange(0, n as int) == line_of(b@),
{
    let mut n = b.len();
    if n > 0 && b[n - 1] == LF {
        n -= 1;
    }
    if n > 0 && b[n - 1] == CR {
        n -= 1;
    }
    n
}

impl IrcMessage {
    /// The message whose command token is `[q, ce)` of `l`.
    fn fields(l: &[u8], tags: Vec<RawTag>, prefix: Option<Prefix>, q: usize, ce: usize) -> (r:
        IrcMessage)
        requires
            q < ce <= l@.len(),
        ensures
            r@ == body_of(l@, tags@, prefix, q as int, ce as int),
    {
        let n = l.len();
        proof {
            assert(l@.subrange(0, n as int) =~= l@);
        }
        let command = Command::from_bytes(&l[q..ce], Span { start: q, end: ce });
        let r = if ce < n {
            ce + 1
        } else {
            n
        };
        let has_channel = r < n && l[r] == HASH;
        let mut channel: Option<Span> = None;
        let mut r2 = r;
        if has_channel {
            let te = find_in(l, r + 1, n, SPACE, SPACE);
            channel = Some(Span { start: r + 1, end: te });
            r2 = if te < n {
                te + 1
            } else {
                n
            };
        }
        let mut params: Option<Span> = None;
        let mut text: Option<Span> = None;
        if r2 < n {
            params = Some(Span { start: r2, end: n });
            if l[r2] == COLON {
                text = Some(Span { start: r2 + 1, end: n });
            } else {
                let k = find_trailing_in(l, r2);
                if k < n {
                    text = Some(Span { start: k + 2, end: n });
                }
            }
        }
        IrcMessage { tags, prefix, command, channel, params, text }
    }

    /// Parses one line, keeping the tags that `whitelist` accepts.
    pub fn parse_with_whitelist<const IC: usize>(src: &str, whitelist: Whitelist<IC>) -> (r:
        Option<IrcMessage>)
        ensures
            match parse_model(src.spec_bytes(), whitelist@) {
                None => r is None,
                Some(v) => r is Some && r.unwrap()@ == v,
            },
            r matches Some(m) ==> view_spans_ok(src.spec_bytes(), m@),
    {
        let b = src.as_bytes();
        let blen = b.len();
        proof {
            vstd::utf8::encode_utf8_valid_utf8(src@);
            if parse_model(b@, whitelist@) is Some {
                lemma_parse_spans(b@, whitelist@);
            }
        }
        let n = line_len(b);
        let l = &b[0..n];
        let ghost lv = l@;
        assert(lv == line_of(src.spec_bytes()));
        assert(lv.subrange(0, n as int) =~= lv);
        let mut pos: usize = 0;
        let tags = parse_tag_bytes(l, &mut pos, &whitelist);
        let q0 = pos;
        let prefix = parse_prefix_bytes(l, &mut pos);
        if prefix.is_none() && q0 < n && l[q0] == COLON {
            return None;
        }
        let q = pos;
        let ce = find_in(l, q, n, SPACE, SPACE);
        if ce == q {
            return None;
        }
        Some(IrcMessage::fields(l, tags, prefix, q, ce))
    }

    /// Parses one line, keeping every tag.
    pub fn parse(src: &str) -> (r: Option<IrcMessage>)
        ensures
            match parse_model(src.spec_bytes(), None) {
                None => r is None,
                Some(v) => r is Some && r.unwrap()@ == v,
            },
            r matches Some(m) ==> view_spans_ok(src.spec_bytes(), m@),
    {
        IrcMessage::parse_with_whitelist(src, Whitelist::<16>::all())
    }

    /// The value of the first tag with key `t`.
    pub fn tag(&self, t: Tag) -> (r: Option<Span>)
        ensures
            r == first_tag(self@.tags, t, 0),
    {
        let mut i: usize = 0;
        while i < self.tags.len()
            invariant
                i <= self.tags@.len(),
                self@.tags == self.tags@,
                first_tag(self@.tags, t, 0) == first_tag(self@.tags, t, i as int),
            decreases self.tags@.len() - i,
        {
            if self.tags[i].key == t {
                return Some(self.tags[i].value);
            }
            i += 1;
        }
        None
    }

    /// The tags that were kept, in the order of the line.
    pub fn tags(&self) -> (r: &[RawTag])
        ensures
            r@ == self@.tags,
    {
        self.tags.as_slice()
    }

    pub fn prefix(&self) -> (r: Option<Prefix>)
        ensures
            r == self@.prefix,
    {
        self.prefix
    }

    pub fn command(&self) -> (r: Command)
        ensures
            r == self@.command,
    {
        self.command
    }

    /// The channel name, without its `#`.
    pub fn channel(&self) -> (r: Option<Span>)
        ensures
            r == self@.channel,
    {
        self.channel
    }

    /// Everything after the command and channel.
    pub fn params(&self) -> (r: Option<Span>)
        ensures
            r == self@.params,
    {
        self.params
    }

    /// The trailing text, after ` :`.
    pub fn text(&self) -> (r: Option<Span>)
        ensures
            r == self@.text,
    {
        self.text
    }
}

/// Parsing with a whitelist succeeds exactly when parsing with every key
/// accepted does; it keeps, in order, the tags whose keys the whitelist
/// names, and every other field is the same.
pub proof fn lemma_whitelist_parse(b: Seq<u8>, keys: Seq<Tag>)
    ensures
        parse_model(b, Some(keys)) is Some == parse_model(b, None) is Some,
        parse_model(b, None) is Some ==> {
            let w = parse_model(b, Some(keys)).unwrap();
            let a = parse_model(b, None).unwrap();
            &&& w.tags == a.tags.filter(|t: RawTag| keys.contains(t.key))
            &&& w.prefix == a.prefix
            &&& w.command == a.command
            &&& w.channel == a.channel
            &&& w.params == a.params
            &&& w.text == a.text
        },
{
    let l = line_of(b);
    lemma_whitelist_filter(l, section_pairs(l, 0), keys);
}

/// `s` lies in `b` and starts and ends on character boundaries.
pub open spec fn span_ok(b: Seq<u8>, s: Span) -> bool {
    &&& s.within(b.len() as int)
    &&& is_char_boundary(b, s.start as int)
    &&& is_char_boundary(b, s.end as int)
}

/// `span_ok` of the span, if there is one.
pub open spec fn opt_span_ok(b: Seq<u8>, o: Option<Span>) -> bool {
    match o {
        None => true,
        Some(s) => span_ok(b, s),
    }
}

/// Every span of the view lies in `b` on character boundaries.
pub open spec fn view_spans_ok(b: Seq<u8>, v: MessageView) -> bool {
    &&& forall|k: int|
        0 <= k < v.tags.len() ==> span_ok(b, (#[trigger] v.tags[k]).key_span) && span_ok(
            b,
            v.tags[k].value,
        )
    &&& match v.prefix {
        None => true,
        Some(p) => opt_span_ok(b, p.nick) && opt_span_ok(b, p.user) && span_ok(b, p.host),
    }
    &&& match v.command {
        Command::Other(s) => span_ok(b, s),
        _ => true,
    }
    &&& opt_span_ok(b, v.channel)
    &&& opt_span_ok(b, v.params)
    &&& opt_span_ok(b, v.text)
}

/// A cut of the line of `b` is a character boundary of `b`.
proof fn lemma_cut_boundary(b: Seq<u8>, i: int)
    requires
        valid_utf8(b),
        cut(line_of(b), i),
    ensures
        0 <= i <= b.len(),
        is_char_boundary(b, i),
{
    let l = line_of(b);
    is_char_boundary_start_end_of_seq(b);
    if i == 0 || i == b.len() {
    } else if i == l.len() {
        lemma_at_ascii(b, i);
    } else if l[i] < 0x80 {
        lemma_at_ascii(b, i);
    } else {
        lemma_after_ascii(b, i);
    }
}

/// A span between cuts of the line of `b` is `span_ok` in `b`.
proof fn lemma_cut_span(b: Seq<u8>, s: Span)
    requires
        valid_utf8(b),
        s.start <= s.end,
        cut(line_of(b), s.start as int),
        cut(line_of(b), s.end as int),
    ensures
        span_ok(b, s),
{
    lemma_cut_boundary(b, s.start as int);
    lemma_cut_boundary(b, s.end as int);
}

/// The first ` :` found lies before the end, with its `:` inside the line.
proof fn lemma_find_trailing(l: Seq<u8>, i: int)
    requires
        0 <= i,
    ensures
        find_trailing(l, i) == l.len() || (i <= find_trailing(l, i) && find_trailing(l, i) + 1
            < l.len() && l[find_trailing(l, i) + 1] == COLON),
    decreases l.len() - i,
{
    if i + 1 < l.len() && !(l[i] == SPACE && l[i + 1] == COLON) {
        lemma_find_trailing(l, i + 1);
    }
}

/// A bounded scan stops at a needle or at the bound.
proof fn lemma_find_within(l: Seq<u8>, from: int, to: int, x: u8)
    requires
        0 <= from <= to <= l.len(),
    ensures
        from <= find_within(l, from, to, x, x) <= to,
        find_within(l, from, to, x, x) < to ==> l[find_within(l, from, to, x, x)] == x,
{
    lemma_find_bounds(l.subrange(0, to), from, x, x);
}

/// The spans of the kept tags are `span_ok` in `b`.
proof fn lemma_tag_spans(b: Seq<u8>, keys: Option<Seq<Tag>>)
    requires
        valid_utf8(b),
        b.len() <= usize::MAX,
    ensures
        forall|k: int|
            0 <= k < kept(line_of(b), section_pairs(line_of(b), 0), keys).len() ==> span_ok(
                b,
                (#[trigger] kept(line_of(b), section_pairs(line_of(b), 0), keys)[k]).key_span,
            ) && span_ok(b, kept(line_of(b), section_pairs(line_of(b), 0), keys)[k].value),
        cut(line_of(b), section_end(line_of(b), 0)),
{
    let l = line_of(b);
    let pairs = section_pairs(l, 0);
    if 0 < l.len() && l[0] == AT {
        lemma_tag_pairs_shape(l, 1);
    }
    lemma_kept_from(l, pairs, keys);
    assert forall|k: int| 0 <= k < kept(l, pairs, keys).len() implies span_ok(
        b,
        (#[trigger] kept(l, pairs, keys)[k]).key_span,
    ) && span_ok(b, kept(l, pairs, keys)[k].value) by {
        let j = choose|j: int|
            0 <= j < pairs.len() && #[trigger] kept(l, pairs, keys)[k] == raw_tag(
                l,
                pairs[j].0,
                pairs[j].1,
            );
        assert(pair_ok(l, pairs[j]));
        lemma_cut_span(b, pairs[j].0);
        lemma_cut_span(b, pairs[j].1);
    }
}

/// The spans of a prefix at a cut are `span_ok` in `b`, and the prefix ends
/// at a cut.
proof fn lemma_prefix_spans(b: Seq<u8>, q0: int)
    requires
        valid_utf8(b),
        b.len() <= usize::MAX,
        cut(line_of(b), q0),
    ensures
        prefix_at(line_of(b), q0) matches Some((p, e)) ==> {
            &&& opt_span_ok(b, p.nick)
            &&& opt_span_ok(b, p.user)
            &&& span_ok(b, p.host)
            &&& cut(line_of(b), e)
        },
{
    let l = line_of(b);
    if q0 < l.len() && l[q0] == COLON {
        let ps = q0 + 1;
        lemma_find_bounds(l, ps, SPACE, SPACE);
        let sp = find_from(l, ps, SPACE, SPACE);
        lemma_find_within(l, ps, sp, BANG);
        let bang = find_within(l, ps, sp, BANG, BANG);
        lemma_find_within(l, ps, sp, AT);
        if bang < sp {
            lemma_find_within(l, bang + 1, sp, AT);
        }
        if sp < l.len() {
            let p = prefix_at(l, q0).unwrap().0;
            lemma_cut_span(b, p.host);
            if let Some(n) = p.nick {
                lemma_cut_span(b, n);
            }
            if let Some(u) = p.user {
                lemma_cut_span(b, u);
            }
        }
    }
}

/// The spans that follow a command token starting at a cut are `span_ok`.
proof fn lemma_body_spans(b: Seq<u8>, tags: Seq<RawTag>, prefix: Option<Prefix>, q: int)
    requires
        valid_utf8(b),
        b.len() <= usize::MAX,
        cut(line_of(b), q),
    ensures
        ({
            let v = body_of(line_of(b), tags, prefix, q, find_from(line_of(b), q, SPACE, SPACE));
            &&& opt_span_ok(b, v.channel)
            &&& opt_span_ok(b, v.params)
            &&& opt_span_ok(b, v.text)
            &&& match v.command {
                Command::Other(s) => span_ok(b, s),
                _ => true,
            }
        }),
{
    let l = line_of(b);
    lemma_find_bounds(l, q, SPACE, SPACE);
    let ce = find_from(l, q, SPACE, SPACE);
    let sp = Span { start: q as usize, end: ce as usize };
    lemma_cut_span(b, sp);
    lemma_lookup_known(l.subrange(q, ce), 0);
    let r = if ce < l.len() {
        ce + 1
    } else {
        l.len() as int
    };
    let has_channel = r < l.len() && l[r] == HASH;
    let te = find_from(l, r + 1, SPACE, SPACE);
    if has_channel {
        lemma_find_bounds(l, r + 1, SPACE, SPACE);
        lemma_cut_span(b, Span { start: (r + 1) as usize, end: te as usize });
    }
    let r2 = if !has_channel {
        r
    } else if te < l.len() {
        te + 1
    } else {
        l.len() as int
    };
    lemma_find_trailing(l, r2);
    if r2 < l.len() {
        lemma_cut_span(b, Span { start: r2 as usize, end: l.len() as usize });
        let k = find_trailing(l, r2);
        if l[r2] == COLON {
            lemma_cut_span(b, Span { start: (r2 + 1) as usize, end: l.len() as usize });
        } else if k < l.len() {
            lemma_cut_span(b, Span { start: (k + 2) as usize, end: l.len() as usize });
        }
    }
}

/// Every span of a parsed line lies in the line, never inside its line
/// terminator, and starts and ends on character boundaries, so that it
/// resolves to text of the line.
pub proof fn lemma_parse_spans(b: Seq<u8>, keys: Option<Seq<Tag>>)
    requires
        valid_utf8(b),
        b.len() <= usize::MAX,
        parse_model(b, keys) is Some,
    ensures
        view_spans_ok(b, parse_model(b, keys).unwrap()),
{
    let l = line_of(b);
    let q0 = section_end(l, 0);
    lemma_tag_spans(b, keys);
    lemma_prefix_spans(b, q0);
    let q = match prefix_at(l, q0) {
        Some((_, e)) => e,
        None => q0,
    };
    let prefix = match prefix_at(l, q0) {
        Some((p, _)) => Some(p),
        None => None,
    };
    lemma_body_spans(b, kept(l, section_pairs(l, 0), keys), prefix, q);
}

} // verus!
