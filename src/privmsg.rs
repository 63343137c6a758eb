//! The typed view of a chat message (`PRIVMSG`).
use crate::command::Command;
use crate::message::{first_tag, view_spans_ok, IrcMessage, MessageView};
use crate::scan::{find_in, find_within, lemma_find_bounds};
use crate::span::Span;
use crate::tag::Tag;
use crate::text::{decimal_u64, parse_u64};
use crate::escape::{escape_chars, lemma_unescape_escape, unescape, unescape_chars};
use crate::message::span_ok;
use std::borrow::Cow;
use vstd::prelude::*;
use vstd::utf8::decode_utf8;
use vstd::string::StringSliceAdditionalSpecFns;

verus! {

/// `,`, between two badges.
pub const COMMA: u8 = 0x2c;

/// `/`, between the name and the version of a badge.
pub const SLASH: u8 = 0x2f;

/// `\x01`, which brackets a `/me` action.
pub const CTCP: u8 = 0x01;

/// The last instant chrono represents, in milliseconds since the Unix
/// epoch: December 31, 262142 CE, 23:59:59.999 UTC.
pub const MAX_MILLIS: i64 = 8210266876799999;

/// Relies on chrono's `DateTime::<Utc>::from_timestamp_millis`, which
/// returns `None` exactly for an instant out of its range; from the epoch
/// on, that range ends with `NaiveDate::MAX` at 23:59:59.999.
#[verifier::external_body]
fn millis_in_range(ms: i64) -> (r: bool)
    ensures
        0 <= ms ==> r == (ms <= MAX_MILLIS),
{
    chrono::DateTime::<chrono::Utc>::from_timestamp_millis(ms).is_some()
}

/// Who sent a message: user id, login and (escaped) display name.
#[derive(Clone, Copy, Debug, PartialEq, Eq, Structural)]
pub struct User {
    pub id: Span,
    pub login: Span,
    pub name: Span,
}

/// The message that a message replies to.
#[derive(Clone, Copy, Debug, PartialEq, Eq, Structural)]
pub struct Reply {
    pub message_id: Span,
    pub sender: User,
    pub text: Span,
}

/// One `name/version` entry of the `badges` tag.
#[derive(Clone, Copy, Debug, PartialEq, Eq, Structural)]
pub struct Badge {
    pub name: Span,
    pub version: Span,
}

/// The badges of the list `[i, end)` of `b`: entries separated by `,`, each
/// `name/version` (the version is empty when there is no `/`).
pub open spec fn badges_from(b: Seq<u8>, i: int, end: int) -> Seq<Badge>
    decreases end - i via badges_decreases
{
    if i < 0 || i >= end || end > b.len() {
        Seq::empty()
    } else {
        let c = find_within(b, i, end, COMMA, COMMA);
        let sl = find_within(b, i, c, SLASH, SLASH);
        let badge = Badge {
            name: Span { start: i as usize, end: sl as usize },
            version: Span { start: (if sl < c { sl + 1 } else { c }) as usize, end: c as usize },
        };
        if c < end {
            seq![badge] + badges_from(b, c + 1, end)
        } else {
            seq![badge]
        }
    }
}

#[via_fn]
proof fn badges_decreases(b: Seq<u8>, i: int, end: int) {
    if 0 <= i < end <= b.len() {
        assert(b.subrange(0, end).len() == end);
        lemma_find_bounds(b.subrange(0, end), i, COMMA, COMMA);
    }
}

/// Splits the `badges` list `[i, end)` of `b`.
pub fn parse_badges(b: &[u8], list: Span) -> (r: Vec<Badge>)
    requires
        list.within(b@.len() as int),
    ensures
        r@ == badges_from(b@, list.start as int, list.end as int),
{
    let end = list.end;
    let mut out: Vec<Badge> = Vec::new();
    let mut i: usize = list.start;
    while i < end
        invariant
            list.start <= i <= end,
            end == list.end,
            end <= b@.len(),
            badges_from(b@, list.start as int, end as int) == out@ + badges_from(b@, i as int, end as int),
        decreases end - i,
    {
        let c = find_in(b, i, end, COMMA, COMMA);
        let sl = find_in(b, i, c, SLASH, SLASH);
        let badge = Badge {
            name: Span { start: i, end: sl },
            version: Span {
                start: if sl < c {
                    sl + 1
                } else {
                    c
                },
                end: c,
            },
        };
        let ghost before = out@;
        out.push(badge);
        proof {
            let next = if c < end {
                c + 1
            } else {
                c as int
            };
            assert(badges_from(b@, i as int, end as int) =~= seq![badge] + badges_from(b@, next, end as int));
            assert(before + badges_from(b@, i as int, end as int) =~= out@ + badges_from(b@, next, end as int));
        }
        i = if c < end {
            c + 1
        } else {
            c
        };
    }
    proof {
        assert(out@ + badges_from(b@, i as int, end as int) =~= out@);
    }
    out
}

/// Every badge of the list `[i, end)` lies inside it, name and version in
/// order.
pub proof fn lemma_badges_within(b: Seq<u8>, i: int, end: int)
    requires
        0 <= i,
        end <= b.len() <= usize::MAX,
    ensures
        forall|k: int|
            0 <= k < badges_from(b, i, end).len() ==> {
                let e = #[trigger] badges_from(b, i, end)[k];
                i <= e.name.start <= e.name.end <= e.version.start <= e.version.end <= end
            },
    decreases end - i,
{
    if i < end {
        lemma_find_bounds(b.subrange(0, end), i, COMMA, COMMA);
        let c = find_within(b, i, end, COMMA, COMMA);
        lemma_find_bounds(b.subrange(0, c), i, SLASH, SLASH);
        let list = badges_from(b, i, end);
        assert(i <= list[0].name.start <= list[0].name.end <= list[0].version.start
            <= list[0].version.end <= end);
        if c < end {
            lemma_badges_within(b, c + 1, end);
            let rest = badges_from(b, c + 1, end);
            assert forall|k: int| 0 <= k < list.len() implies {
                let e = #[trigger] list[k];
                i <= e.name.start <= e.name.end <= e.version.start <= e.version.end <= end
            } by {
                if k > 0 {
                    assert(list[k] == rest[k - 1]);
                }
            }
        }
    }
}

/// The span `s` of `b` reads `subscriber`.
pub open spec fn is_subscriber(b: Seq<u8>, s: Span) -> bool {
    &&& s.start + 10 == s.end <= b.len()
    &&& b[s.start as int] == 0x73
    &&& b[s.start + 1] == 0x75
    &&& b[s.start + 2] == 0x62
    &&& b[s.start + 3] == 0x73
    &&& b[s.start + 4] == 0x63
    &&& b[s.start + 5] == 0x72
    &&& b[s.start + 6] == 0x69
    &&& b[s.start + 7] == 0x62
    &&& b[s.start + 8] == 0x65
    &&& b[s.start + 9] == 0x72
}

/// The first entry of `list`, from index `i` on, named `subscriber`.
pub open spec fn subscriber_entry(b: Seq<u8>, list: Seq<Badge>, i: int) -> Option<Badge>
    decreases list.len() - i,
{
    if i < 0 || i >= list.len() {
        None
    } else if is_subscriber(b, list[i].name) {
        Some(list[i])
    } else {
        subscriber_entry(b, list, i + 1)
    }
}

/// Whether the span `s` of `b` reads `subscriber`.
fn subscriber_name(b: &[u8], s: Span) -> (r: bool)
    requires
        s.within(b@.len() as int),
    ensures
        r == is_subscriber(b@, s),
{
    s.end - s.start == 10 && b[s.start] == 0x73 && b[s.start + 1] == 0x75 && b[s.start + 2] == 0x62
        && b[s.start + 3] == 0x73 && b[s.start + 4] == 0x63 && b[s.start + 5] == 0x72 && b[s.start
        + 6] == 0x69 && b[s.start + 7] == 0x62 && b[s.start + 8] == 0x65 && b[s.start + 9] == 0x72
}

/// The subscriber months of `v`, cross-read from `badge-info`: `Some(None)`
/// when it has no `subscriber` entry, `Some(Some(n))` when that entry's
/// version is the number `n`, and `None` when it is anything else.
pub open spec fn months_model(b: Seq<u8>, v: MessageView) -> Option<Option<u64>> {
    match tag_of(v, Tag::BadgeInfo) {
        None => Some(None),
        Some(s) => match subscriber_entry(b, badges_from(b, s.start as int, s.end as int), 0) {
            None => Some(None),
            Some(e) => match decimal_u64(bytes_of(b, e.version)) {
                Some(n) => Some(Some(n)),
                None => None,
            },
        },
    }
}

/// Reads the subscriber months of the `badge-info` list `info` of `b`;
/// `None` when its `subscriber` entry has a version that is no number.
fn parse_months(b: &[u8], info: Span) -> (r: Option<Option<u64>>)
    requires
        info.within(b@.len() as int),
    ensures
        r == (match subscriber_entry(b@, badges_from(b@, info.start as int, info.end as int), 0) {
            None => Some(None),
            Some(e) => match decimal_u64(bytes_of(b@, e.version)) {
                Some(n) => Some(Some(n)),
                None => None,
            },
        }),
{
    let list = parse_badges(b, info);
    let mut i: usize = 0;
    while i < list.len()
        invariant
            i <= list@.len(),
            list@ == badges_from(b@, info.start as int, info.end as int),
            info.within(b@.len() as int),
            subscriber_entry(b@, list@, 0) == subscriber_entry(b@, list@, i as int),
        decreases list@.len() - i,
    {
        let e = list[i];
        let blen = b.len();
        proof {
            lemma_badges_within(b@, info.start as int, info.end as int);
            assert(list@[i as int] == e);
        }
        if subscriber_name(b, e.name) {
            return match parse_u64(&b[e.version.start..e.version.end]) {
                Some(n) => Some(Some(n)),
                None => None,
            };
        }
        i += 1;
    }
    Some(None)
}

/// The text `s` of `b` is a `/me` action: `\x01ACTION body\x01`.
pub open spec fn is_action_text(b: Seq<u8>, s: Span) -> bool {
    &&& s.start + 9 <= s.end <= b.len()
    &&& b[s.start as int] == CTCP
    &&& b[s.start + 1] == 0x41
    &&& b[s.start + 2] == 0x43
    &&& b[s.start + 3] == 0x54
    &&& b[s.start + 4] == 0x49
    &&& b[s.start + 5] == 0x4f
    &&& b[s.start + 6] == 0x4e
    &&& b[s.start + 7] == 0x20
    &&& b[s.end - 1] == CTCP
}

/// The message text without its action markers, and whether it had them.
pub open spec fn message_text(b: Seq<u8>, s: Span) -> (Span, bool) {
    if is_action_text(b, s) {
        (Span { start: (s.start + 8) as usize, end: (s.end - 1) as usize }, true)
    } else {
        (s, false)
    }
}

/// Strips the `/me` markers from the text `s` of `b`.
pub fn parse_message_text(b: &[u8], s: Span) -> (r: (Span, bool))
    requires
        s.within(b@.len() as int),
    ensures
        r == message_text(b@, s),
{
    if s.end - s.start >= 9 && b[s.start] == CTCP && b[s.start + 1] == 0x41 && b[s.start + 2]
        == 0x43 && b[s.start + 3] == 0x54 && b[s.start + 4] == 0x49 && b[s.start + 5] == 0x4f
        && b[s.start + 6] == 0x4e && b[s.start + 7] == 0x20 && b[s.end - 1] == CTCP {
        (Span { start: s.start + 8, end: s.end - 1 }, true)
    } else {
        (s, false)
    }
}

/// A chat message, as spans of the line it was parsed from.
pub struct Privmsg {
    /// The channel, without its `#`.
    pub channel: Span,
    pub channel_id: Span,
    pub message_id: Span,
    pub sender: User,
    pub reply_to: Option<Reply>,
    /// The text, without the markers of a `/me` action.
    pub text: Span,
    pub is_action: bool,
    /// The badges; empty when the `badges` tag is absent.
    pub badges: Vec<Badge>,
    /// The raw `badge-info` list.
    pub badge_info: Option<Span>,
    /// The months of the `subscriber` entry of `badge-info`.
    pub subscriber_months: Option<u64>,
    /// The chosen name color; `None` when the user chose none.
    pub color: Option<Span>,
    pub bits: Option<u64>,
    /// The raw emote ranges.
    pub emotes: Option<Span>,
    /// Milliseconds since the Unix epoch.
    pub timestamp: i64,
}

/// What a [`Privmsg`] holds.
pub struct PrivmsgView {
    pub channel: Span,
    pub channel_id: Span,
    pub message_id: Span,
    pub sender: User,
    pub reply_to: Option<Reply>,
    pub text: Span,
    pub is_action: bool,
    pub badges: Seq<Badge>,
    pub badge_info: Option<Span>,
    pub subscriber_months: Option<u64>,
    pub color: Option<Span>,
    pub bits: Option<u64>,
    pub emotes: Option<Span>,
    pub timestamp: i64,
}

impl View for Privmsg {
    type V = PrivmsgView;

    open spec fn view(&self) -> PrivmsgView {
        PrivmsgView {
            channel: self.channel,
            channel_id: self.channel_id,
            message_id: self.message_id,
            sender: self.sender,
            reply_to: self.reply_to,
            text: self.text,
            is_action: self.is_action,
            badges: self.badges@,
            badge_info: self.badge_info,
            subscriber_months: self.subscriber_months,
            color: self.color,
            bits: self.bits,
            emotes: self.emotes,
            timestamp: self.timestamp,
        }
    }
}

/// The value of tag `t` of the view `v`.
pub open spec fn tag_of(v: MessageView, t: Tag) -> Option<Span> {
    first_tag(v.tags, t, 0)
}

/// The bytes of `s` in `b`.
pub open spec fn bytes_of(b: Seq<u8>, s: Span) -> Seq<u8> {
    b.subrange(s.start as int, s.end as int)
}

/// The `tmi-sent-ts` of `v`: a decimal number of milliseconds that fits in
/// an `i64`.
pub open spec fn timestamp_model(b: Seq<u8>, v: MessageView) -> Option<i64> {
    match tag_of(v, Tag::TmiSentTs) {
        None => None,
        Some(s) => match decimal_u64(bytes_of(b, s)) {
            Some(n) if n <= i64::MAX => Some(n as i64),
            _ => None,
        },
    }
}

/// The message that `v` replies to, when all five `reply-parent-*` tags are
/// there.
pub open spec fn reply_model(v: MessageView) -> Option<Reply> {
    match (
        tag_of(v, Tag::ReplyParentMsgId),
        tag_of(v, Tag::ReplyParentUserId),
        tag_of(v, Tag::ReplyParentUserLogin),
        tag_of(v, Tag::ReplyParentDisplayName),
        tag_of(v, Tag::ReplyParentMsgBody),
    ) {
        (Some(m), Some(i), Some(l), Some(n), Some(t)) => Some(
            Reply { message_id: m, sender: User { id: i, login: l, name: n }, text: t },
        ),
        _ => None,
    }
}

/// The text that the escaped span `s` of `b` stands for.
pub open spec fn unescaped_text(b: Seq<u8>, s: Span) -> Seq<char> {
    unescape_chars(decode_utf8(bytes_of(b, s)))
}

/// Reads the escaped tag value at `s` of `src` and unescapes it.
fn unescape_span<'a>(src: &'a str, s: Span) -> (r: Cow<'a, str>)
    requires
        span_ok(src.spec_bytes(), s),
    ensures
        r@ == unescaped_text(src.spec_bytes(), s),
{
    let t = s.get(src);
    proof {
        vstd::utf8::encode_utf8_decode_utf8(t@);
    }
    unescape(t)
}

impl User {
    /// The display name, unescaped.
    pub fn display_name<'a>(&self, src: &'a str) -> (r: Cow<'a, str>)
        requires
            span_ok(src.spec_bytes(), self.name),
        ensures
            r@ == unescaped_text(src.spec_bytes(), self.name),
    {
        unescape_span(src, self.name)
    }
}

impl Reply {
    /// The text of the parent message, unescaped.
    pub fn body<'a>(&self, src: &'a str) -> (r: Cow<'a, str>)
        requires
            span_ok(src.spec_bytes(), self.text),
        ensures
            r@ == unescaped_text(src.spec_bytes(), self.text),
    {
        unescape_span(src, self.text)
    }
}

/// The `bits` of `v`: `Some(None)` when the tag is absent or empty,
/// `Some(Some(n))` when it is the decimal number `n`, and `None` when it is
/// anything else.
pub open spec fn bits_model(b: Seq<u8>, v: MessageView) -> Option<Option<u64>> {
    match tag_of(v, Tag::Bits) {
        None => Some(None),
        Some(n) => if n.start >= n.end {
            Some(None)
        } else {
            match decimal_u64(bytes_of(b, n)) {
                Some(x) => Some(Some(x)),
                None => None,
            }
        },
    }
}

/// The badges of `v`; none when the `badges` tag is absent.
pub open spec fn badges_model(b: Seq<u8>, v: MessageView) -> Seq<Badge> {
    match tag_of(v, Tag::Badges) {
        Some(s) => badges_from(b, s.start as int, s.end as int),
        None => Seq::empty(),
    }
}

/// The chat message of the line `b` parsed as `v`, stamped `ts`: `None`
/// unless the command is `PRIVMSG`, the channel, text, sender nick and the
/// tags `room-id`, `id`, `user-id` and `display-name` are all there,
/// `bits` is absent, empty or a number, and the `subscriber` entry of
/// `badge-info`, if any, has a number for its version.
pub open spec fn privmsg_model(b: Seq<u8>, v: MessageView, ts: i64) -> Option<PrivmsgView> {
    if v.command != Command::Privmsg {
        None
    } else {
        match (
            v.text,
            v.channel,
            tag_of(v, Tag::RoomId),
            tag_of(v, Tag::Id),
            tag_of(v, Tag::UserId),
            v.prefix,
            tag_of(v, Tag::DisplayName),
            bits_model(b, v),
            months_model(b, v),
        ) {
            (
                Some(text),
                Some(channel),
                Some(room),
                Some(id),
                Some(user),
                Some(prefix),
                Some(name),
                Some(bits),
                Some(months),
            ) => match prefix.nick {
                None => None,
                Some(login) => Some(
                    PrivmsgView {
                        channel,
                        channel_id: room,
                        message_id: id,
                        sender: User { id: user, login, name },
                        reply_to: reply_model(v),
                        text: message_text(b, text).0,
                        is_action: message_text(b, text).1,
                        badges: badges_model(b, v),
                        badge_info: tag_of(v, Tag::BadgeInfo),
                        subscriber_months: months,
                        color: match tag_of(v, Tag::Color) {
                            Some(c) if c.start < c.end => Some(c),
                            _ => None,
                        },
                        bits,
                        emotes: tag_of(v, Tag::Emotes),
                        timestamp: ts,
                    },
                ),
            },
            _ => None,
        }
    }
}

impl Privmsg {
    /// The `tmi-sent-ts` of `message`, read from `src`.
    pub fn timestamp_of(message: &IrcMessage, src: &str) -> (r: Option<i64>)
        requires
            view_spans_ok(src.spec_bytes(), message@),
        ensures
            r == timestamp_model(src.spec_bytes(), message@),
    {
        let b = src.as_bytes();
        match message.tag(Tag::TmiSentTs) {
            None => None,
            Some(s) => {
                proof {
                    lemma_first_tag_in(message@, Tag::TmiSentTs, 0);
                }
                match parse_u64(&b[s.start..s.end]) {
                    Some(n) => {
                        if n <= i64::MAX as u64 {
                            Some(n as i64)
                        } else {
                            None
                        }
                    },
                    None => None,
                }
            },
        }
    }

    /// The chat message of `message`, read from `src` and stamped `timestamp`.
    pub fn project(message: &IrcMessage, src: &str, timestamp: i64) -> (r: Option<Privmsg>)
        requires
            view_spans_ok(src.spec_bytes(), message@),
        ensures
            match privmsg_model(src.spec_bytes(), message@, timestamp) {
                None => r is None,
                Some(p) => r is Some && r.unwrap()@ == p,
            },
            r matches Some(p) ==> span_ok(src.spec_bytes(), p.sender.name),
            r matches Some(p) ==> (p.reply_to matches Some(rp) ==> span_ok(src.spec_bytes(), rp.text)),
    {
        proof {
            lemma_first_tag_in(message@, Tag::DisplayName, 0);
            lemma_first_tag_in(message@, Tag::ReplyParentMsgBody, 0);
        }
        let b = src.as_bytes();
        if message.command() != Command::Privmsg {
            return None;
        }
        let text = match message.text() { Some(t) => t, None => return None };
        let channel = match message.channel() { Some(c) => c, None => return None };
        let room = match message.tag(Tag::RoomId) { Some(t) => t, None => return None };
        let id = match message.tag(Tag::Id) { Some(t) => t, None => return None };
        let user = match message.tag(Tag::UserId) { Some(t) => t, None => return None };
        let prefix = match message.prefix() { Some(p) => p, None => return None };
        let name = match message.tag(Tag::DisplayName) { Some(t) => t, None => return None };
        let login = match prefix.nick { Some(n) => n, None => return None };
        proof {
            lemma_first_tag_in(message@, Tag::Badges, 0);
            lemma_first_tag_in(message@, Tag::Bits, 0);
        }
        let reply_to = match (
            message.tag(Tag::ReplyParentMsgId),
            message.tag(Tag::ReplyParentUserId),
            message.tag(Tag::ReplyParentUserLogin),
            message.tag(Tag::ReplyParentDisplayName),
            message.tag(Tag::ReplyParentMsgBody),
        ) {
            (Some(m), Some(i), Some(l), Some(n), Some(t)) => Some(
                Reply { message_id: m, sender: User { id: i, login: l, name: n }, text: t },
            ),
            _ => None,
        };
        let (text, is_action) = parse_message_text(b, text);
        let color = match message.tag(Tag::Color) {
            Some(c) => if c.start < c.end {
                Some(c)
            } else {
                None
            },
            None => None,
        };
        let bits = match message.tag(Tag::Bits) {
            Some(n) => if n.start >= n.end {
                None
            } else {
                match parse_u64(&b[n.start..n.end]) {
                    Some(x) => Some(x),
                    None => return None,
                }
            },
            None => None,
        };
        let subscriber_months = match message.tag(Tag::BadgeInfo) {
            Some(info) => {
                proof {
                    lemma_first_tag_in(message@, Tag::BadgeInfo, 0);
                }
                match parse_months(b, info) {
                    Some(m) => m,
                    None => return None,
                }
            },
            None => None,
        };
        let badges = match message.tag(Tag::Badges) {
            Some(t) => parse_badges(b, t),
            None => Vec::new(),
        };
        Some(
            Privmsg {
                channel,
                channel_id: room,
                message_id: id,
                sender: User { id: user, login, name },
                reply_to,
                text,
                is_action,
                badges,
                badge_info: message.tag(Tag::BadgeInfo),
                subscriber_months,
                color,
                bits,
                emotes: message.tag(Tag::Emotes),
                timestamp,
            },
        )
    }

    /// The chat message of `message`, read from `src`: `None` also when its
    /// timestamp is missing, is no number, or is past chrono's range.
    pub fn from_irc(message: &IrcMessage, src: &str) -> (r: Option<Privmsg>)
        requires
            view_spans_ok(src.spec_bytes(), message@),
        ensures
            match timestamp_model(src.spec_bytes(), message@) {
                None => r is None,
                Some(ts) => if ts <= MAX_MILLIS {
                    match privmsg_model(src.spec_bytes(), message@, ts) {
                        None => r is None,
                        Some(p) => r is Some && r.unwrap()@ == p,
                    }
                } else {
                    r is None
                },
            },
            r matches Some(p) ==> span_ok(src.spec_bytes(), p.sender.name),
            r matches Some(p) ==> (p.reply_to matches Some(rp) ==> span_ok(src.spec_bytes(), rp.text)),
    {
        let ts = match Privmsg::timestamp_of(message, src) {
            Some(t) => t,
            None => return None,
        };
        if !millis_in_range(ts) {
            return None;
        }
        Privmsg::project(message, src, ts)
    }
}

/// A display name written on the line as the escaped form of `x` reads
/// back, unescaped, as `x`.
pub proof fn lemma_display_name_round_trip(b: Seq<u8>, v: MessageView, ts: i64, x: Seq<char>)
    requires
        privmsg_model(b, v, ts) is Some,
        decode_utf8(bytes_of(b, privmsg_model(b, v, ts).unwrap().sender.name)) == escape_chars(x),
    ensures
        unescaped_text(b, privmsg_model(b, v, ts).unwrap().sender.name) == x,
{
    lemma_unescape_escape(x);
}

/// A tag value found in a view whose spans are `span_ok` is itself `span_ok`.
proof fn lemma_first_tag_in(v: MessageView, t: Tag, i: int)
    ensures
        first_tag(v.tags, t, i) matches Some(s) ==> exists|k: int|
            0 <= k < v.tags.len() && #[trigger] v.tags[k].value == s,
    decreases v.tags.len() - i,
{
    if 0 <= i < v.tags.len() && v.tags[i].key != t {
        lemma_first_tag_in(v, t, i + 1);
    }
}

} // verus!
