use tmi::message::parse_prefix;

#[test]
fn prefix() {
    let data = ":nick!user@host <rest>";
    let mut pos = 0;
    let prefix = parse_prefix(data, &mut pos).unwrap();
    assert_eq!(prefix.nick.unwrap().get(data), "nick");
    assert_eq!(prefix.user.unwrap().get(data), "user");
    assert_eq!(prefix.host.get(data), "host");
    assert_eq!(&data[pos..], "<rest>");

    let data = ":nick@host <rest>";
    let mut pos = 0;
    let prefix = parse_prefix(data, &mut pos).unwrap();
    assert_eq!(prefix.nick.unwrap().get(data), "nick");
    assert!(prefix.user.is_none());
    assert_eq!(prefix.host.get(data), "host");
    assert_eq!(&data[pos..], "<rest>");

    let data = ":host <rest>";
    let mut pos = 0;
    let prefix = parse_prefix(data, &mut pos).unwrap();
    assert!(prefix.nick.is_none());
    assert!(prefix.user.is_none());
    assert_eq!(prefix.host.get(data), "host");
    assert_eq!(&data[pos..], "<rest>");
}

#[test]
fn unterminated_prefix_is_refused() {
    let data = ":host";
    let mut pos = 0;
    assert!(parse_prefix(data, &mut pos).is_none());
    assert_eq!(pos, 0);
}

#[test]
fn no_prefix_leaves_the_cursor() {
    let data = "PING";
    let mut pos = 0;
    assert!(parse_prefix(data, &mut pos).is_none());
    assert_eq!(pos, 0);
}
