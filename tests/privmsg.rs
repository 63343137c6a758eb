use tmi::escape::unescape;
use tmi::message::IrcMessage;
use tmi::privmsg::Privmsg;
use tmi::tag::Tag;

fn privmsg(src: &str) -> Privmsg {
    let m = IrcMessage::parse(src).unwrap();
    Privmsg::from_irc(&m, src).unwrap()
}

#[test]
fn parse_privmsg_message_with_bits() {
    let src = "@badge-info=;badges=bits/100;bits=1;color=#004B49;display-name=TETYYS;emotes=;flags=;id=d7f03a35-f339-41ca-b4d4-7c0721438570;mod=0;room-id=11148817;subscriber=0;tmi-sent-ts=1594571566672;turbo=0;user-id=36175310;user-type= :tetyys!tetyys@tetyys.tmi.twitch.tv PRIVMSG #pajlada :trihard1";
    let p = privmsg(src);
    assert_eq!(p.bits, Some(1));
    assert_eq!(p.text.get(src), "trihard1");
    assert!(!p.is_action);
    assert_eq!(p.badges.len(), 1);
    assert_eq!(p.badges[0].name.get(src), "bits");
    assert_eq!(p.badges[0].version.get(src), "100");
    assert_eq!(p.channel.get(src), "pajlada");
    assert_eq!(p.sender.login.get(src), "tetyys");
    assert_eq!(p.color.unwrap().get(src), "#004B49");
    assert_eq!(p.timestamp, 1594571566672);
    assert!(p.reply_to.is_none());
}

#[test]
fn action_message() {
    let src = "@id=x;room-id=1;tmi-sent-ts=1;user-id=2;display-name=A :a!a@a.tmi.twitch.tv PRIVMSG #c :\x01ACTION waves\x01";
    let p = privmsg(src);
    assert!(p.is_action);
    assert_eq!(p.text.get(src), "waves");
    assert!(p.badges.is_empty());
    assert!(p.badge_info.is_none());
}

#[test]
fn parse_privmsg_action_and_badges() {
    let src = "@badge-info=subscriber/22;badges=moderator/1,subscriber/12;color=#19E6E6;display-name=randers;emotes=;flags=;id=d831d848-b7c7-4559-ae3a-2cb88f4dbfed;mod=1;room-id=11148817;subscriber=1;tmi-sent-ts=1594555275886;turbo=0;user-id=40286300;user-type=mod :randers!randers@randers.tmi.twitch.tv PRIVMSG #pajlada :\u{1}ACTION -tags\u{1}";
    let p = privmsg(src);
    assert!(p.is_action);
    assert_eq!(p.text.get(src), "-tags");
    let badges: Vec<(&str, &str)> = p.badges.iter().map(|b| (b.name.get(src), b.version.get(src))).collect();
    assert_eq!(badges, vec![("moderator", "1"), ("subscriber", "12")]);
    assert_eq!(p.badge_info.unwrap().get(src), "subscriber/22");
    assert_eq!(p.subscriber_months, Some(22));
}

#[test]
fn parse_privmsg_basic_example() {
    let src = "@badge-info=;badges=;color=#0000FF;display-name=JuN1oRRRR;emotes=;flags=;id=e9d998c3-36f1-430f-89ec-6b887c28af36;mod=0;room-id=11148817;subscriber=0;tmi-sent-ts=1594545155039;turbo=0;user-id=29803735;user-type= :jun1orrrr!jun1orrrr@jun1orrrr.tmi.twitch.tv PRIVMSG #pajlada :dank cam";
    let p = privmsg(src);
    assert_eq!(p.text.get(src), "dank cam");
    assert!(p.badges.is_empty());
    assert_eq!(p.bits, None);
    assert_eq!(p.message_id.get(src), "e9d998c3-36f1-430f-89ec-6b887c28af36");
    assert_eq!(p.channel_id.get(src), "11148817");
    assert_eq!(p.sender.id.get(src), "29803735");
}

#[test]
fn parse_privmsg_reply_parent_included() {
    let src = "@badge-info=;badges=;client-nonce=cd56193132f934ac71b4d5ac488d4bd6;color=;display-name=LeftSwing;emotes=;first-msg=0;flags=;id=5b4f63a9-776f-4fce-bf3c-d9707f52e32d;mod=0;reply-parent-display-name=Retoon;reply-parent-msg-body=hello;reply-parent-msg-id=6b13e51b-7ecb-43b5-ba5b-2bb5288df696;reply-parent-user-id=37940952;reply-parent-user-login=retoon;returning-chatter=0;room-id=37940952;subscriber=0;tmi-sent-ts=1673925983585;turbo=0;user-id=133651738;user-type= :leftswing!leftswing@leftswing.tmi.twitch.tv PRIVMSG #retoon :@Retoon yes";
    let p = privmsg(src);
    let r = p.reply_to.unwrap();
    assert_eq!(r.message_id.get(src), "6b13e51b-7ecb-43b5-ba5b-2bb5288df696");
    assert_eq!(r.sender.login.get(src), "retoon");
    assert_eq!(r.sender.name.get(src), "Retoon");
    assert_eq!(r.text.get(src), "hello");
    assert!(p.color.is_none());
}

#[test]
fn parse_privmsg_display_name_with_trailing_space() {
    let src = "@rm-received-ts=1594554085918;historical=1;badge-info=;badges=;client-nonce=815810609edecdf4537bd9586994182b;color=;display-name=CarvedTaleare\\s;emotes=;flags=;id=c9b941d9-a0ab-4534-9903-971768fcdf10;mod=0;room-id=22484632;subscriber=0;tmi-sent-ts=1594554085753;turbo=0;user-id=467684514;user-type= :carvedtaleare!carvedtaleare@carvedtaleare.tmi.twitch.tv PRIVMSG #forsen :NaM";
    let p = privmsg(src);
    assert_eq!(unescape(p.sender.name.get(src)), "CarvedTaleare ");
}

#[test]
fn parse_privmsg_korean_display_name() {
    let src = "@badge-info=subscriber/35;badges=moderator/1,subscriber/3024;color=#FF0000;display-name=테스트계정420;emotes=;flags=;id=bdfa278e-11c4-484f-9491-0a61b16fab60;mod=1;room-id=11148817;subscriber=1;tmi-sent-ts=1593953876927;turbo=0;user-id=117166826;user-type=mod :testaccount_420!testaccount_420@testaccount_420.tmi.twitch.tv PRIVMSG #pajlada :@asd";
    let p = privmsg(src);
    assert_eq!(p.sender.name.get(src), "테스트계정420");
    assert_eq!(p.text.get(src), "@asd");
}

#[test]
fn parse_privmsg_display_name_with_middle_space() {
    let src = "@badge-info=;badges=;color=;display-name=Riot\\sGames;emotes=;flags=;id=bdfa278e-11c4-484f-9491-0a61b16fab60;mod=1;room-id=36029255;subscriber=0;tmi-sent-ts=1593953876927;turbo=0;user-id=36029255;user-type= :riotgames!riotgames@riotgames.tmi.twitch.tv PRIVMSG #riotgames :test fake message";
    let m = IrcMessage::parse(src).unwrap();
    let raw = m.tag(Tag::DisplayName).unwrap().get(src);
    assert_eq!(raw, "Riot\\sGames");
    assert_eq!(unescape(raw), "Riot Games");
    let p = Privmsg::from_irc(&m, src).unwrap();
    assert_eq!(unescape(p.sender.name.get(src)), "Riot Games");
}

#[test]
fn parse_privmsg_emotes_1() {
    let src = "@badge-info=;badges=moderator/1;client-nonce=fc4ebe0889105c8404a9be81cf9a9ad4;color=#FF0000;display-name=boring_nick;emotes=555555591:51-52/25:0-4,12-16,18-22/1902:6-10,29-33,35-39/1:45-46,48-49;first-msg=0;flags=;id=3d9540a0-04b6-4bea-baf9-9165b14160be;mod=1;returning-chatter=0;room-id=55203741;subscriber=0;tmi-sent-ts=1696093084212;turbo=0;user-id=111024753;user-type=mod :boring_nick!boring_nick@boring_nick.tmi.twitch.tv PRIVMSG #moscowwbish :Kappa Keepo Kappa Kappa test Keepo Keepo 123 :) :) :P";
    let p = privmsg(src);
    assert_eq!(
        p.emotes.unwrap().get(src),
        "555555591:51-52/25:0-4,12-16,18-22/1902:6-10,29-33,35-39/1:45-46,48-49"
    );
    assert_eq!(p.text.get(src), "Kappa Keepo Kappa Kappa test Keepo Keepo 123 :) :) :P");
}

#[test]
fn parse_privmsg_emote_non_numeric_id() {
    let src = "@badge-info=;badges=;client-nonce=245b864d508a69a685e25104204bd31b;color=#FF144A;display-name=AvianArtworks;emote-only=1;emotes=300196486_TK:0-7;flags=;id=21194e0d-f0fa-4a8f-a14f-3cbe89366ad9;mod=0;room-id=11148817;subscriber=0;tmi-sent-ts=1594552113129;turbo=0;user-id=39565465;user-type= :avianartworks!avianartworks@avianartworks.tmi.twitch.tv PRIVMSG #pajlada :pajaM_TK";
    let p = privmsg(src);
    assert_eq!(p.emotes.unwrap().get(src), "300196486_TK:0-7");
}

#[test]
fn missing_fields_give_no_view() {
    let src = "@id=x;room-id=1;user-id=2;display-name=A;badges=;badge-info= :a!a@a.tmi.twitch.tv PRIVMSG #c :hi";
    let m = IrcMessage::parse(src).unwrap();
    assert!(Privmsg::from_irc(&m, src).is_none());
    let src = "@id=x;room-id=1;tmi-sent-ts=12a;user-id=2;display-name=A;badges=;badge-info= :a!a@a.tmi.twitch.tv PRIVMSG #c :hi";
    let m = IrcMessage::parse(src).unwrap();
    assert!(Privmsg::from_irc(&m, src).is_none());
    let src = "@id=x;room-id=1;tmi-sent-ts=9223372036854775807;user-id=2;display-name=A;badges=;badge-info= :a!a@a.tmi.twitch.tv PRIVMSG #c :hi";
    let m = IrcMessage::parse(src).unwrap();
    assert!(Privmsg::from_irc(&m, src).is_none());
    assert_eq!(Privmsg::timestamp_of(&m, src), Some(9223372036854775807));
    assert!(Privmsg::project(&m, src, 5).is_some());
    let src = ":a!a@a.tmi.twitch.tv JOIN #c";
    let m = IrcMessage::parse(src).unwrap();
    assert!(Privmsg::from_irc(&m, src).is_none());
}

#[test]
fn bits_that_are_no_number_give_no_view() {
    let src = "@id=x;bits=1x;room-id=1;tmi-sent-ts=1;user-id=2;display-name=A;badges=a,b/2;badge-info= :a!a@a.tmi.twitch.tv PRIVMSG #c :hi";
    let m = IrcMessage::parse(src).unwrap();
    assert!(Privmsg::from_irc(&m, src).is_none());
}

#[test]
fn empty_bits_give_none_and_badges_split() {
    let src = "@id=x;bits=;room-id=1;tmi-sent-ts=1;user-id=2;display-name=A;badges=a,b/2;badge-info= :a!a@a.tmi.twitch.tv PRIVMSG #c :hi";
    let p = privmsg(src);
    assert_eq!(p.bits, None);
    assert_eq!(p.badges[0].name.get(src), "a");
    assert_eq!(p.badges[0].version.get(src), "");
    assert_eq!(p.badges[1].version.get(src), "2");
}

#[test]
fn timestamps_up_to_chronos_last_millisecond() {
    let line = |ts: &str| {
        format!("@id=x;room-id=1;tmi-sent-ts={ts};user-id=2;display-name=A :a!a@a.tmi.twitch.tv PRIVMSG #c :hi")
    };
    let src = line("8210266876799999");
    let m = IrcMessage::parse(&src).unwrap();
    assert_eq!(Privmsg::from_irc(&m, &src).unwrap().timestamp, tmi::privmsg::MAX_MILLIS);
    let src = line("8210266876800000");
    let m = IrcMessage::parse(&src).unwrap();
    assert!(Privmsg::from_irc(&m, &src).is_none());
    let src = line("0");
    let m = IrcMessage::parse(&src).unwrap();
    assert_eq!(Privmsg::from_irc(&m, &src).unwrap().timestamp, 0);
}

#[test]
fn unescaped_display_name_and_reply_body() {
    let src = "@display-name=Riot\\sGames;id=x;reply-parent-display-name=P;reply-parent-msg-body=a\\sb\\:c;reply-parent-msg-id=1;reply-parent-user-id=2;reply-parent-user-login=p;room-id=1;tmi-sent-ts=1;user-id=2 :riotgames!riotgames@riotgames.tmi.twitch.tv PRIVMSG #riotgames :hi";
    let p = privmsg(src);
    assert_eq!(p.sender.display_name(src), "Riot Games");
    assert_eq!(p.reply_to.unwrap().body(src), "a b;c");
}

#[test]
fn subscriber_months_from_badge_info() {
    let line = |info: &str| {
        format!("@badge-info={info};badges=subscriber/12;id=x;room-id=1;tmi-sent-ts=1;user-id=2;display-name=A :a!a@a.tmi.twitch.tv PRIVMSG #c :hi")
    };
    let src = line("predictions/blue,subscriber/22");
    let m = IrcMessage::parse(&src).unwrap();
    assert_eq!(Privmsg::from_irc(&m, &src).unwrap().subscriber_months, Some(22));
    let src = line("");
    let m = IrcMessage::parse(&src).unwrap();
    assert_eq!(Privmsg::from_irc(&m, &src).unwrap().subscriber_months, None);
    let src = line("subscriber/many");
    let m = IrcMessage::parse(&src).unwrap();
    assert!(Privmsg::from_irc(&m, &src).is_none());
}
