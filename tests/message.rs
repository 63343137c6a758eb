use tmi::command::Command;
use tmi::message::IrcMessage;
use tmi::tag::Tag;
use tmi::tags::Whitelist;

const BITS: &str = "@badge-info=;badges=bits/100;bits=1;color=#004B49;display-name=TETYYS;emotes=;id=d7f03a35-f339-41ca-b4d4-7c0721438570;mod=0;room-id=11148817;tmi-sent-ts=1594571566672;user-id=36175310 :tetyys!tetyys@tetyys.tmi.twitch.tv PRIVMSG #pajlada :trihard1";

#[test]
fn test_parse_data_0() {
    IrcMessage::parse(r"@badge-info=;badges=premium/1;color=#000000;display-name=Vicarun;emotes=;flags=;id=a0414f65-b471-46be-b6cc-f8d7cd0aa62c;login=vicarun;mod=0;msg-id=resub;msg-param-cumulative-months=20;msg-param-months=0;msg-param-multimonth-duration=1;msg-param-multimonth-tenure=0;msg-param-should-share-streak=0;msg-param-sub-plan-name=Channel\sSubscription\s(forsenlol);msg-param-sub-plan=Prime;msg-param-was-gifted=false;room-id=22484632;subscriber=1;system-msg=Vicarun\ssubscribed\swith\sPrime.\sThey've\ssubscribed\sfor\s20\smonths!;tmi-sent-ts=1685664553875;user-id=691811336;user-type= :tmi.twitch.tv USERNOTICE #forsen").unwrap();
}

#[test]
fn bare_ping() {
    let m = IrcMessage::parse("PING").unwrap();
    assert!(m.tags().is_empty());
    assert!(m.prefix().is_none());
    assert_eq!(m.command(), Command::Ping);
    assert!(m.channel().is_none());
    assert!(m.params().is_none());
    assert!(m.text().is_none());
}

#[test]
fn ping_with_trailing_text_and_terminator() {
    let src = "PING :tmi.twitch.tv\r\n";
    let m = IrcMessage::parse(src).unwrap();
    assert_eq!(m.command(), Command::Ping);
    assert_eq!(m.params().unwrap().get(src), ":tmi.twitch.tv");
    assert_eq!(m.text().unwrap().get(src), "tmi.twitch.tv");
}

#[test]
fn tagged_privmsg_with_bits() {
    let m = IrcMessage::parse(BITS).unwrap();
    assert_eq!(m.command(), Command::Privmsg);
    assert_eq!(m.channel().unwrap().get(BITS), "pajlada");
    assert_eq!(m.prefix().unwrap().nick.unwrap().get(BITS), "tetyys");
    assert_eq!(m.text().unwrap().get(BITS), "trihard1");
    assert_eq!(m.params().unwrap().get(BITS), ":trihard1");
    assert_eq!(m.tags().len(), 11);
    assert_eq!(m.tags()[2].get(BITS), (Tag::Bits, "1"));
}

#[test]
fn whitelist_filter() {
    let all = IrcMessage::parse(BITS).unwrap();
    let m = IrcMessage::parse_with_whitelist(BITS, Whitelist::<1>::of(vec![Tag::Mod])).unwrap();
    assert_eq!(m.tags().len(), 1);
    assert_eq!(m.tags()[0].get(BITS), (Tag::Mod, "0"));
    assert_eq!(m.prefix(), all.prefix());
    assert_eq!(m.command(), all.command());
    assert_eq!(m.channel(), all.channel());
    assert_eq!(m.params(), all.params());
    assert_eq!(m.text(), all.text());
}

#[test]
fn host_only_prefix() {
    let src = ":tmi.twitch.tv RECONNECT";
    let m = IrcMessage::parse(src).unwrap();
    let p = m.prefix().unwrap();
    assert!(p.nick.is_none());
    assert!(p.user.is_none());
    assert_eq!(p.host.get(src), "tmi.twitch.tv");
    assert_eq!(m.command(), Command::Reconnect);
}

#[test]
fn numeric_and_unknown_commands() {
    let src = ":tmi.twitch.tv 001 justinfan :Welcome, GLHF!";
    let m = IrcMessage::parse(src).unwrap();
    assert_eq!(m.command(), Command::RplWelcome);
    assert_eq!(m.text().unwrap().get(src), "Welcome, GLHF!");
    let src = "FOO bar";
    let m = IrcMessage::parse(src).unwrap();
    assert!(matches!(m.command(), Command::Other(s) if s.get(src) == "FOO"));
    assert_eq!(m.params().unwrap().get(src), "bar");
}

#[test]
fn structural_failures() {
    assert!(IrcMessage::parse("").is_none());
    assert!(IrcMessage::parse(":tmi.twitch.tv").is_none());
    assert!(IrcMessage::parse("@mod=0;id=1").is_none());
    assert!(IrcMessage::parse("\r\n").is_none());
}

#[test]
fn tag_order_follows_the_line() {
    let src = "@z=1;a=2;mod=3;a=4 :n!n@n.tmi.twitch.tv PRIVMSG #c :x";
    let m = IrcMessage::parse(src).unwrap();
    let values: Vec<&str> = m.tags().iter().map(|t| t.value.get(src)).collect();
    assert_eq!(values, vec!["1", "2", "3", "4"]);
    let keys: Vec<&str> = m.tags().iter().map(|t| t.key_span.get(src)).collect();
    assert_eq!(keys, vec!["z", "a", "mod", "a"]);
    assert_eq!(m.tag(Tag::Mod).unwrap().get(src), "3");
}

#[test]
fn spans_stay_inside_the_line() {
    let src = "@display-name=테스트;id=ü :ü!ü@ü PRIVMSG #ü :ü ü\r\n";
    let m = IrcMessage::parse(src).unwrap();
    assert_eq!(m.channel().unwrap().get(src), "ü");
    assert_eq!(m.text().unwrap().get(src), "ü ü");
    assert_eq!(m.prefix().unwrap().user.unwrap().get(src), "ü");
    for t in m.tags() {
        assert!(t.value.end <= src.len() - 2);
        assert!(src.is_char_boundary(t.value.start) && src.is_char_boundary(t.value.end));
    }
}
