//! Tag keys: a closed enumeration of the keys the chat server sends, and
//! the lookup from the bytes of a key to its variant.
use crate::span::Span;
use crate::text::bytes_eq;
use vstd::prelude::*;
use vstd::string::StringSliceAdditionalSpecFns;

verus! {

/// The number of known tag keys.
pub const KNOWN_TAGS: usize = 83;

/// A tag key. Keys outside the closed set keep the span of their bytes.
#[derive(Clone, Copy, Debug, PartialEq, Eq, Structural)]
pub enum Tag {
    /// `badge-info`
    BadgeInfo,
    /// `badges`
    Badges,
    /// `ban-duration`
    BanDuration,
    /// `bits`
    Bits,
    /// `client-nonce`
    ClientNonce,
    /// `color`
    Color,
    /// `display-name`
    DisplayName,
    /// `emote-only`
    EmoteOnly,
    /// `emote-sets`
    EmoteSets,
    /// `emotes`
    Emotes,
    /// `first-msg`
    FirstMsg,
    /// `flags`
    Flags,
    /// `followers-only`
    FollowersOnly,
    /// `historical`
    Historical,
    /// `id`
    Id,
    /// `login`
    Login,
    /// `message-id`
    MessageId,
    /// `mod`
    Mod,
    /// `msg-id`
    MsgId,
    /// `msg-param-category`
    MsgParamCategory,
    /// `msg-param-color`
    MsgParamColor,
    /// `msg-param-cumulative-months`
    MsgParamCumulativeMonths,
    /// `msg-param-displayName`
    MsgParamDisplayName,
    /// `msg-param-gift-months`
    MsgParamGiftMonths,
    /// `msg-param-goal-contribution-type`
    MsgParamGoalContributionType,
    /// `msg-param-goal-current-contributions`
    MsgParamGoalCurrentContributions,
    /// `msg-param-goal-description`
    MsgParamGoalDescription,
    /// `msg-param-goal-target-contributions`
    MsgParamGoalTargetContributions,
    /// `msg-param-goal-user-contributions`
    MsgParamGoalUserContributions,
    /// `msg-param-login`
    MsgParamLogin,
    /// `msg-param-mass-gift-count`
    MsgParamMassGiftCount,
    /// `msg-param-months`
    MsgParamMonths,
    /// `msg-param-multimonth-duration`
    MsgParamMultimonthDuration,
    /// `msg-param-multimonth-tenure`
    MsgParamMultimonthTenure,
    /// `msg-param-origin-id`
    MsgParamOriginId,
    /// `msg-param-promo-gift-total`
    MsgParamPromoGiftTotal,
    /// `msg-param-promo-name`
    MsgParamPromoName,
    /// `msg-param-recipient-display-name`
    MsgParamRecipientDisplayName,
    /// `msg-param-recipient-id`
    MsgParamRecipientId,
    /// `msg-param-recipient-user-name`
    MsgParamRecipientUserName,
    /// `msg-param-ritual-name`
    MsgParamRitualName,
    /// `msg-param-sender-count`
    MsgParamSenderCount,
    /// `msg-param-sender-login`
    MsgParamSenderLogin,
    /// `msg-param-sender-name`
    MsgParamSenderName,
    /// `msg-param-should-share-streak`
    MsgParamShouldShareStreak,
    /// `msg-param-streak-months`
    MsgParamStreakMonths,
    /// `msg-param-sub-plan`
    MsgParamSubPlan,
    /// `msg-param-sub-plan-name`
    MsgParamSubPlanName,
    /// `msg-param-threshold`
    MsgParamThreshold,
    /// `msg-param-value`
    MsgParamValue,
    /// `msg-param-viewerCount`
    MsgParamViewerCount,
    /// `msg-param-was-gifted`
    MsgParamWasGifted,
    /// `pinned-chat-paid-amount`
    PinnedChatPaidAmount,
    /// `pinned-chat-paid-canonical-amount`
    PinnedChatPaidCanonicalAmount,
    /// `pinned-chat-paid-currency`
    PinnedChatPaidCurrency,
    /// `pinned-chat-paid-exponent`
    PinnedChatPaidExponent,
    /// `pinned-chat-paid-is-system-message`
    PinnedChatPaidIsSystemMessage,
    /// `pinned-chat-paid-level`
    PinnedChatPaidLevel,
    /// `r9k`
    R9K,
    /// `reply-parent-display-name`
    ReplyParentDisplayName,
    /// `reply-parent-msg-body`
    ReplyParentMsgBody,
    /// `reply-parent-msg-id`
    ReplyParentMsgId,
    /// `reply-parent-user-id`
    ReplyParentUserId,
    /// `reply-parent-user-login`
    ReplyParentUserLogin,
    /// `reply-thread-parent-msg-id`
    ReplyThreadParentMsgId,
    /// `reply-thread-parent-user-login`
    ReplyThreadParentUserLogin,
    /// `returning-chatter`
    ReturningChatter,
    /// `rituals`
    Rituals,
    /// `rm-received-ts`
    RmReceivedTs,
    /// `room-id`
    RoomId,
    /// `sent-ts`
    SentTs,
    /// `slow`
    Slow,
    /// `subs-only`
    SubsOnly,
    /// `subscriber`
    Subscriber,
    /// `system-msg`
    SystemMsg,
    /// `target-msg-id`
    TargetMsgId,
    /// `target-user-id`
    TargetUserId,
    /// `thread-id`
    ThreadId,
    /// `tmi-sent-ts`
    TmiSentTs,
    /// `turbo`
    Turbo,
    /// `user-id`
    UserId,
    /// `user-type`
    UserType,
    /// `vip`
    Vip,
    /// Any other key.
    Unknown(Span),
}

/// The `i`-th entry of the table of known keys.
pub open spec fn known_tag(i: usize) -> Option<Tag> {
    match i {
        0 => Some(Tag::BadgeInfo),
        1 => Some(Tag::Badges),
        2 => Some(Tag::BanDuration),
        3 => Some(Tag::Bits),
        4 => Some(Tag::ClientNonce),
        5 => Some(Tag::Color),
        6 => Some(Tag::DisplayName),
        7 => Some(Tag::EmoteOnly),
        8 => Some(Tag::EmoteSets),
        9 => Some(Tag::Emotes),
        10 => Some(Tag::FirstMsg),
        11 => Some(Tag::Flags),
        12 => Some(Tag::FollowersOnly),
        13 => Some(Tag::Historical),
        14 => Some(Tag::Id),
        15 => Some(Tag::Login),
        16 => Some(Tag::MessageId),
        17 => Some(Tag::Mod),
        18 => Some(Tag::MsgId),
        19 => Some(Tag::MsgParamCategory),
        20 => Some(Tag::MsgParamColor),
        21 => Some(Tag::MsgParamCumulativeMonths),
        22 => Some(Tag::MsgParamDisplayName),
        23 => Some(Tag::MsgParamGiftMonths),
        24 => Some(Tag::MsgParamGoalContributionType),
        25 => Some(Tag::MsgParamGoalCurrentContributions),
        26 => Some(Tag::MsgParamGoalDescription),
        27 => Some(Tag::MsgParamGoalTargetContributions),
        28 => Some(Tag::MsgParamGoalUserContributions),
        29 => Some(Tag::MsgParamLogin),
        30 => Some(Tag::MsgParamMassGiftCount),
        31 => Some(Tag::MsgParamMonths),
        32 => Some(Tag::MsgParamMultimonthDuration),
        33 => Some(Tag::MsgParamMultimonthTenure),
        34 => Some(Tag::MsgParamOriginId),
        35 => Some(Tag::MsgParamPromoGiftTotal),
        36 => Some(Tag::MsgParamPromoName),
        37 => Some(Tag::MsgParamRecipientDisplayName),
        38 => Some(Tag::MsgParamRecipientId),
        39 => Some(Tag::MsgParamRecipientUserName),
        40 => Some(Tag::MsgParamRitualName),
        41 => Some(Tag::MsgParamSenderCount),
        42 => Some(Tag::MsgParamSenderLogin),
        43 => Some(Tag::MsgParamSenderName),
        44 => Some(Tag::MsgParamShouldShareStreak),
        45 => Some(Tag::MsgParamStreakMonths),
        46 => Some(Tag::MsgParamSubPlan),
        47 => Some(Tag::MsgParamSubPlanName),
        48 => Some(Tag::MsgParamThreshold),
        49 => Some(Tag::MsgParamValue),
        50 => Some(Tag::MsgParamViewerCount),
        51 => Some(Tag::MsgParamWasGifted),
        52 => Some(Tag::PinnedChatPaidAmount),
        53 => Some(Tag::PinnedChatPaidCanonicalAmount),
        54 => Some(Tag::PinnedChatPaidCurrency),
        55 => Some(Tag::PinnedChatPaidExponent),
        56 => Some(Tag::PinnedChatPaidIsSystemMessage),
        57 => Some(Tag::PinnedChatPaidLevel),
        58 => Some(Tag::R9K),
        59 => Some(Tag::ReplyParentDisplayName),
        60 => Some(Tag::ReplyParentMsgBody),
        61 => Some(Tag::ReplyParentMsgId),
        62 => Some(Tag::ReplyParentUserId),
        63 => Some(Tag::ReplyParentUserLogin),
        64 => Some(Tag::ReplyThreadParentMsgId),
        65 => Some(Tag::ReplyThreadParentUserLogin),
        66 => Some(Tag::ReturningChatter),
        67 => Some(Tag::Rituals),
        68 => Some(Tag::RmReceivedTs),
        69 => Some(Tag::RoomId),
        70 => Some(Tag::SentTs),
        71 => Some(Tag::Slow),
        72 => Some(Tag::SubsOnly),
        73 => Some(Tag::Subscriber),
        74 => Some(Tag::SystemMsg),
        75 => Some(Tag::TargetMsgId),
        76 => Some(Tag::TargetUserId),
        77 => Some(Tag::ThreadId),
        78 => Some(Tag::TmiSentTs),
        79 => Some(Tag::Turbo),
        80 => Some(Tag::UserId),
        81 => Some(Tag::UserType),
        82 => Some(Tag::Vip),
        _ => None,
    }
}

/// The first entry of the table, from `i` on, whose name is `key`.
pub open spec fn lookup_tag_from(key: Seq<u8>, i: int) -> Option<Tag>
    decreases KNOWN_TAGS - i,
{
    if i < 0 || i >= KNOWN_TAGS {
        None
    } else if known_tag(i as usize).unwrap().spec_name().spec_bytes() == key {
        known_tag(i as usize)
    } else {
        lookup_tag_from(key, i + 1)
    }
}

/// The tag that the key bytes `key`, found at `span`, stand for.
pub open spec fn resolve_tag(key: Seq<u8>, span: Span) -> Tag {
    match lookup_tag_from(key, 0) {
        Some(t) => t,
        None => Tag::Unknown(span),
    }
}

impl Tag {
    /// The key as it stands on the wire; empty for an unknown key.
    pub open spec fn spec_name(self) -> &'static str {
        match self {
            Tag::BadgeInfo => "badge-info",
            Tag::Badges => "badges",
            Tag::BanDuration => "ban-duration",
            Tag::Bits => "bits",
            Tag::ClientNonce => "client-nonce",
            Tag::Color => "color",
            Tag::DisplayName => "display-name",
            Tag::EmoteOnly => "emote-only",
            Tag::EmoteSets => "emote-sets",
            Tag::Emotes => "emotes",
            Tag::FirstMsg => "first-msg",
            Tag::Flags => "flags",
            Tag::FollowersOnly => "followers-only",
            Tag::Historical => "historical",
            Tag::Id => "id",
            Tag::Login => "login",
            Tag::MessageId => "message-id",
            Tag::Mod => "mod",
            Tag::MsgId => "msg-id",
            Tag::MsgParamCategory => "msg-param-category",
            Tag::MsgParamColor => "msg-param-color",
            Tag::MsgParamCumulativeMonths => "msg-param-cumulative-months",
            Tag::MsgParamDisplayName => "msg-param-displayName",
            Tag::MsgParamGiftMonths => "msg-param-gift-months",
            Tag::MsgParamGoalContributionType => "msg-param-goal-contribution-type",
            Tag::MsgParamGoalCurrentContributions => "msg-param-goal-current-contributions",
            Tag::MsgParamGoalDescription => "msg-param-goal-description",
            Tag::MsgParamGoalTargetContributions => "msg-param-goal-target-contributions",
            Tag::MsgParamGoalUserContributions => "msg-param-goal-user-contributions",
            Tag::MsgParamLogin => "msg-param-login",
            Tag::MsgParamMassGiftCount => "msg-param-mass-gift-count",
            Tag::MsgParamMonths => "msg-param-months",
            Tag::MsgParamMultimonthDuration => "msg-param-multimonth-duration",
            Tag::MsgParamMultimonthTenure => "msg-param-multimonth-tenure",
            Tag::MsgParamOriginId => "msg-param-origin-id",
            Tag::MsgParamPromoGiftTotal => "msg-param-promo-gift-total",
            Tag::MsgParamPromoName => "msg-param-promo-name",
            Tag::MsgParamRecipientDisplayName => "msg-param-recipient-display-name",
            Tag::MsgParamRecipientId => "msg-param-recipient-id",
            Tag::MsgParamRecipientUserName => "msg-param-recipient-user-name",
            Tag::MsgParamRitualName => "msg-param-ritual-name",
            Tag::MsgParamSenderCount => "msg-param-sender-count",
            Tag::MsgParamSenderLogin => "msg-param-sender-login",
            Tag::MsgParamSenderName => "msg-param-sender-name",
            Tag::MsgParamShouldShareStreak => "msg-param-should-share-streak",
            Tag::MsgParamStreakMonths => "msg-param-streak-months",
            Tag::MsgParamSubPlan => "msg-param-sub-plan",
            Tag::MsgParamSubPlanName => "msg-param-sub-plan-name",
            Tag::MsgParamThreshold => "msg-param-threshold",
            Tag::MsgParamValue => "msg-param-value",
            Tag::MsgParamViewerCount => "msg-param-viewerCount",
            Tag::MsgParamWasGifted => "msg-param-was-gifted",
            Tag::PinnedChatPaidAmount => "pinned-chat-paid-amount",
            Tag::PinnedChatPaidCanonicalAmount => "pinned-chat-paid-canonical-amount",
            Tag::PinnedChatPaidCurrency => "pinned-chat-paid-currency",
            Tag::PinnedChatPaidExponent => "pinned-chat-paid-exponent",
            Tag::PinnedChatPaidIsSystemMessage => "pinned-chat-paid-is-system-message",
            Tag::PinnedChatPaidLevel => "pinned-chat-paid-level",
            Tag::R9K => "r9k",
            Tag::ReplyParentDisplayName => "reply-parent-display-name",
            Tag::ReplyParentMsgBody => "reply-parent-msg-body",
            Tag::ReplyParentMsgId => "reply-parent-msg-id",
            Tag::ReplyParentUserId => "reply-parent-user-id",
            Tag::ReplyParentUserLogin => "reply-parent-user-login",
            Tag::ReplyThreadParentMsgId => "reply-thread-parent-msg-id",
            Tag::ReplyThreadParentUserLogin => "reply-thread-parent-user-login",
            Tag::ReturningChatter => "returning-chatter",
            Tag::Rituals => "rituals",
            Tag::RmReceivedTs => "rm-received-ts",
            Tag::RoomId => "room-id",
            Tag::SentTs => "sent-ts",
            Tag::Slow => "slow",
            Tag::SubsOnly => "subs-only",
            Tag::Subscriber => "subscriber",
            Tag::SystemMsg => "system-msg",
            Tag::TargetMsgId => "target-msg-id",
            Tag::TargetUserId => "target-user-id",
            Tag::ThreadId => "thread-id",
            Tag::TmiSentTs => "tmi-sent-ts",
            Tag::Turbo => "turbo",
            Tag::UserId => "user-id",
            Tag::UserType => "user-type",
            Tag::Vip => "vip",
            Tag::Unknown(_) => "",
        }
    }

    /// The key as it stands on the wire; empty for an unknown key.
    pub fn name(&self) -> (r: &'static str)
        ensures
            r == self.spec_name(),
    {
        match self {
            Tag::BadgeInfo => "badge-info",
            Tag::Badges => "badges",
            Tag::BanDuration => "ban-duration",
            Tag::Bits => "bits",
            Tag::ClientNonce => "client-nonce",
            Tag::Color => "color",
            Tag::DisplayName => "display-name",
            Tag::EmoteOnly => "emote-only",
            Tag::EmoteSets => "emote-sets",
            Tag::Emotes => "emotes",
            Tag::FirstMsg => "first-msg",
            Tag::Flags => "flags",
            Tag::FollowersOnly => "followers-only",
            Tag::Historical => "historical",
            Tag::Id => "id",
            Tag::Login => "login",
            Tag::MessageId => "message-id",
            Tag::Mod => "mod",
            Tag::MsgId => "msg-id",
            Tag::MsgParamCategory => "msg-param-category",
            Tag::MsgParamColor => "msg-param-color",
            Tag::MsgParamCumulativeMonths => "msg-param-cumulative-months",
            Tag::MsgParamDisplayName => "msg-param-displayName",
            Tag::MsgParamGiftMonths => "msg-param-gift-months",
            Tag::MsgParamGoalContributionType => "msg-param-goal-contribution-type",
            Tag::MsgParamGoalCurrentContributions => "msg-param-goal-current-contributions",
            Tag::MsgParamGoalDescription => "msg-param-goal-description",
            Tag::MsgParamGoalTargetContributions => "msg-param-goal-target-contributions",
            Tag::MsgParamGoalUserContributions => "msg-param-goal-user-contributions",
            Tag::MsgParamLogin => "msg-param-login",
            Tag::MsgParamMassGiftCount => "msg-param-mass-gift-count",
            Tag::MsgParamMonths => "msg-param-months",
            Tag::MsgParamMultimonthDuration => "msg-param-multimonth-duration",
            Tag::MsgParamMultimonthTenure => "msg-param-multimonth-tenure",
            Tag::MsgParamOriginId => "msg-param-origin-id",
            Tag::MsgParamPromoGiftTotal => "msg-param-promo-gift-total",
            Tag::MsgParamPromoName => "msg-param-promo-name",
            Tag::MsgParamRecipientDisplayName => "msg-param-recipient-display-name",
            Tag::MsgParamRecipientId => "msg-param-recipient-id",
            Tag::MsgParamRecipientUserName => "msg-param-recipient-user-name",
            Tag::MsgParamRitualName => "msg-param-ritual-name",
            Tag::MsgParamSenderCount => "msg-param-sender-count",
            Tag::MsgParamSenderLogin => "msg-param-sender-login",
            Tag::MsgParamSenderName => "msg-param-sender-name",
            Tag::MsgParamShouldShareStreak => "msg-param-should-share-streak",
            Tag::MsgParamStreakMonths => "msg-param-streak-months",
            Tag::MsgParamSubPlan => "msg-param-sub-plan",
            Tag::MsgParamSubPlanName => "msg-param-sub-plan-name",
            Tag::MsgParamThreshold => "msg-param-threshold",
            Tag::MsgParamValue => "msg-param-value",
            Tag::MsgParamViewerCount => "msg-param-viewerCount",
            Tag::MsgParamWasGifted => "msg-param-was-gifted",
            Tag::PinnedChatPaidAmount => "pinned-chat-paid-amount",
            Tag::PinnedChatPaidCanonicalAmount => "pinned-chat-paid-canonical-amount",
            Tag::PinnedChatPaidCurrency => "pinned-chat-paid-currency",
            Tag::PinnedChatPaidExponent => "pinned-chat-paid-exponent",
            Tag::PinnedChatPaidIsSystemMessage => "pinned-chat-paid-is-system-message",
            Tag::PinnedChatPaidLevel => "pinned-chat-paid-level",
            Tag::R9K => "r9k",
            Tag::ReplyParentDisplayName => "reply-parent-display-name",
            Tag::ReplyParentMsgBody => "reply-parent-msg-body",
            Tag::ReplyParentMsgId => "reply-parent-msg-id",
            Tag::ReplyParentUserId => "reply-parent-user-id",
            Tag::ReplyParentUserLogin => "reply-parent-user-login",
            Tag::ReplyThreadParentMsgId => "reply-thread-parent-msg-id",
            Tag::ReplyThreadParentUserLogin => "reply-thread-parent-user-login",
            Tag::ReturningChatter => "returning-chatter",
            Tag::Rituals => "rituals",
            Tag::RmReceivedTs => "rm-received-ts",
            Tag::RoomId => "room-id",
            Tag::SentTs => "sent-ts",
            Tag::Slow => "slow",
            Tag::SubsOnly => "subs-only",
            Tag::Subscriber => "subscriber",
            Tag::SystemMsg => "system-msg",
            Tag::TargetMsgId => "target-msg-id",
            Tag::TargetUserId => "target-user-id",
            Tag::ThreadId => "thread-id",
            Tag::TmiSentTs => "tmi-sent-ts",
            Tag::Turbo => "turbo",
            Tag::UserId => "user-id",
            Tag::UserType => "user-type",
            Tag::Vip => "vip",
            Tag::Unknown(_) => "",
        }
    }

    /// The `i`-th entry of the table of known keys.
    pub fn known(i: usize) -> (r: Option<Tag>)
        ensures
            r == known_tag(i),
    {
        match i {
            0 => Some(Tag::BadgeInfo),
            1 => Some(Tag::Badges),
            2 => Some(Tag::BanDuration),
            3 => Some(Tag::Bits),
            4 => Some(Tag::ClientNonce),
            5 => Some(Tag::Color),
            6 => Some(Tag::DisplayName),
            7 => Some(Tag::EmoteOnly),
            8 => Some(Tag::EmoteSets),
            9 => Some(Tag::Emotes),
            10 => Some(Tag::FirstMsg),
            11 => Some(Tag::Flags),
            12 => Some(Tag::FollowersOnly),
            13 => Some(Tag::Historical),
            14 => Some(Tag::Id),
            15 => Some(Tag::Login),
            16 => Some(Tag::MessageId),
            17 => Some(Tag::Mod),
            18 => Some(Tag::MsgId),
            19 => Some(Tag::MsgParamCategory),
            20 => Some(Tag::MsgParamColor),
            21 => Some(Tag::MsgParamCumulativeMonths),
            22 => Some(Tag::MsgParamDisplayName),
            23 => Some(Tag::MsgParamGiftMonths),
            24 => Some(Tag::MsgParamGoalContributionType),
            25 => Some(Tag::MsgParamGoalCurrentContributions),
            26 => Some(Tag::MsgParamGoalDescription),
            27 => Some(Tag::MsgParamGoalTargetContributions),
            28 => Some(Tag::MsgParamGoalUserContributions),
            29 => Some(Tag::MsgParamLogin),
            30 => Some(Tag::MsgParamMassGiftCount),
            31 => Some(Tag::MsgParamMonths),
            32 => Some(Tag::MsgParamMultimonthDuration),
            33 => Some(Tag::MsgParamMultimonthTenure),
            34 => Some(Tag::MsgParamOriginId),
            35 => Some(Tag::MsgParamPromoGiftTotal),
            36 => Some(Tag::MsgParamPromoName),
            37 => Some(Tag::MsgParamRecipientDisplayName),
            38 => Some(Tag::MsgParamRecipientId),
            39 => Some(Tag::MsgParamRecipientUserName),
            40 => Some(Tag::MsgParamRitualName),
            41 => Some(Tag::MsgParamSenderCount),
            42 => Some(Tag::MsgParamSenderLogin),
            43 => Some(Tag::MsgParamSenderName),
            44 => Some(Tag::MsgParamShouldShareStreak),
            45 => Some(Tag::MsgParamStreakMonths),
            46 => Some(Tag::MsgParamSubPlan),
            47 => Some(Tag::MsgParamSubPlanName),
            48 => Some(Tag::MsgParamThreshold),
            49 => Some(Tag::MsgParamValue),
            50 => Some(Tag::MsgParamViewerCount),
            51 => Some(Tag::MsgParamWasGifted),
            52 => Some(Tag::PinnedChatPaidAmount),
            53 => Some(Tag::PinnedChatPaidCanonicalAmount),
            54 => Some(Tag::PinnedChatPaidCurrency),
            55 => Some(Tag::PinnedChatPaidExponent),
            56 => Some(Tag::PinnedChatPaidIsSystemMessage),
            57 => Some(Tag::PinnedChatPaidLevel),
            58 => Some(Tag::R9K),
            59 => Some(Tag::ReplyParentDisplayName),
            60 => Some(Tag::ReplyParentMsgBody),
            61 => Some(Tag::ReplyParentMsgId),
            62 => Some(Tag::ReplyParentUserId),
            63 => Some(Tag::ReplyParentUserLogin),
            64 => Some(Tag::ReplyThreadParentMsgId),
            65 => Some(Tag::ReplyThreadParentUserLogin),
            66 => Some(Tag::ReturningChatter),
            67 => Some(Tag::Rituals),
            68 => Some(Tag::RmReceivedTs),
            69 => Some(Tag::RoomId),
            70 => Some(Tag::SentTs),
            71 => Some(Tag::Slow),
            72 => Some(Tag::SubsOnly),
            73 => Some(Tag::Subscriber),
            74 => Some(Tag::SystemMsg),
            75 => Some(Tag::TargetMsgId),
            76 => Some(Tag::TargetUserId),
            77 => Some(Tag::ThreadId),
            78 => Some(Tag::TmiSentTs),
            79 => Some(Tag::Turbo),
            80 => Some(Tag::UserId),
            81 => Some(Tag::UserType),
            82 => Some(Tag::Vip),
            _ => None,
        }
    }

    /// Resolves the bytes of a key found at `span` to its variant.
    pub fn from_bytes(key: &[u8], span: Span) -> (r: Tag)
        ensures
            r == resolve_tag(key@, span),
    {
        let mut i: usize = 0;
        while i < KNOWN_TAGS
            invariant
                i <= KNOWN_TAGS,
                lookup_tag_from(key@, 0) == lookup_tag_from(key@, i as int),
            decreases KNOWN_TAGS - i,
        {
            let t = Tag::known(i).unwrap();
            if bytes_eq(key, t.name().as_bytes()) {
                return t;
            }
            i += 1;
        }
        Tag::Unknown(span)
    }
}

} // verus!
