use tmi::tag::Tag;
use tmi::tags::{parse_tags, Whitelist};

fn run<'a, const IC: usize>(src: &'a str, whitelist: &Whitelist<IC>) -> (Vec<(Tag, &'a str)>, usize) {
    let mut pos = 0;
    let tags = parse_tags(src, &mut pos, whitelist)
        .into_iter()
        .map(|tag| tag.get(src))
        .collect();
    (tags, pos)
}

#[test]
fn tags() {
    let cases: Vec<(&str, (Vec<(Tag, &str)>, &str))> = vec![
        ("", (vec![], "")),
        ("mod=0;id=1000", (vec![], "mod=0;id=1000")),
        ("@mod=0;id=1000", (vec![(Tag::Mod, "0"), (Tag::Id, "1000")], "")),
        ("@mod=0;id=1000 ", (vec![(Tag::Mod, "0"), (Tag::Id, "1000")], "")),
        (
            "@mod=0;id=1000 :asdf",
            (vec![(Tag::Mod, "0"), (Tag::Id, "1000")], ":asdf"),
        ),
    ];

    for (src, (expected_tags, expected_remainder)) in cases.into_iter() {
        let (actual_tags, pos) = run(src, &Whitelist::<16>::all());
        assert_eq!(actual_tags, expected_tags);
        assert_eq!(&src[pos..], expected_remainder);
    }
}

#[test]
fn tags_whitelist() {
    let cases: Vec<(&str, (Vec<(Tag, &str)>, &str))> = vec![
        ("", (vec![], "")),
        ("mod=0;id=1000", (vec![], "mod=0;id=1000")),
        ("@mod=0;id=1000", (vec![(Tag::Mod, "0")], "")),
        ("@mod=0;id=1000 ", (vec![(Tag::Mod, "0")], "")),
        ("@mod=0;id=1000 :asdf", (vec![(Tag::Mod, "0")], ":asdf")),
    ];

    for (src, (expected_tags, expected_remainder)) in cases.into_iter() {
        let (actual_tags, pos) = run(src, &Whitelist::<16>::of(vec![Tag::Mod]));
        assert_eq!(actual_tags, expected_tags);
        assert_eq!(&src[pos..], expected_remainder)
    }
}

#[test]
fn tag_keys_outside_the_table_keep_their_span() {
    let src = "@foo-bar=1;mod=0 PING";
    let (tags, pos) = run(src, &Whitelist::<4>::all());
    assert_eq!(tags.len(), 2);
    assert_eq!(tags[0].0.name(), "");
    assert!(matches!(tags[0].0, Tag::Unknown(s) if s.get(src) == "foo-bar"));
    assert_eq!(tags[1], (Tag::Mod, "0"));
    assert_eq!(&src[pos..], "PING");
}

#[test]
fn empty_key_and_empty_value_are_kept() {
    let src = "@=v;k=;mod= :x";
    let (tags, pos) = run(src, &Whitelist::<4>::all());
    assert_eq!(tags.len(), 3);
    assert_eq!(tags[0].1, "v");
    assert_eq!(tags[1].1, "");
    assert_eq!(tags[2], (Tag::Mod, ""));
    assert_eq!(&src[pos..], ":x");
}

#[test]
fn missing_equals_stops_the_tag_scan() {
    let src = "@mod=0;garbage";
    let (tags, pos) = run(src, &Whitelist::<4>::all());
    assert_eq!(tags, vec![(Tag::Mod, "0")]);
    assert_eq!(&src[pos..], "garbage");
}

#[test]
fn tag_spans_follow_the_cursor() {
    let src = "xx@a=1;é=ü;c=3 rest";
    let mut pos = 2;
    let tags = parse_tags(src, &mut pos, &Whitelist::<4>::all());
    assert_eq!(tags.len(), 3);
    for t in &tags {
        assert!(2 < t.key_span.start && t.key_span.end + 1 == t.value.start);
        assert!(t.value.end <= src.len());
        assert!(src.is_char_boundary(t.key_span.start) && src.is_char_boundary(t.value.end));
    }
    assert_eq!(tags[1].key_span.get(src), "é");
    assert_eq!(tags[1].value.get(src), "ü");
    assert_eq!(&src[pos..], "rest");
}
