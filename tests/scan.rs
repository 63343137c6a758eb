use tmi::scan::{find_equals, find_equals_scalar, find_semi_or_space, find_semi_or_space_scalar, Found};

#[test]
fn equals() {
    let cases = [
        ("", None),
        ("asdf=", Some(4)),
        ("=asdf", Some(0)),
        ("as=df", Some(2)),
    ];

    for (string, expected) in cases {
        assert_eq!(find_equals(string.as_bytes()), expected);
    }
}

#[test]
fn semi_or_space() {
    let cases = [
        ("", None),
        (" ", Some(Found::Space(0))),
        (";", Some(Found::Semi(0))),
        (" ;", Some(Found::Space(0))),
        ("; ", Some(Found::Semi(0))),
        ("____________________; ", Some(Found::Semi(20))),
        ("____________________ ;", Some(Found::Space(20))),
    ];

    for (string, expected) in cases {
        assert_eq!(find_semi_or_space(string.as_bytes()), expected);
    }
}

#[test]
fn chunked_and_scalar_scans_agree() {
    let alphabet = [b'a', b'=', b';', b' ', 0xc3, 0xa9];
    for len in 0..70usize {
        for seed in 0..40usize {
            let s: Vec<u8> = (0..len)
                .map(|i| {
                    let k = (i * 7 + seed * 13 + (i * seed) % 5) % 23;
                    if k < alphabet.len() { alphabet[k] } else { b'x' }
                })
                .collect();
            assert_eq!(find_equals(&s), find_equals_scalar(&s));
            assert_eq!(find_semi_or_space(&s), find_semi_or_space_scalar(&s));
        }
    }
}

#[test]
fn needles_past_the_first_chunk() {
    let mut s = vec![b'_'; 40];
    s[33] = b'=';
    assert_eq!(find_equals(&s), Some(33));
    s[17] = b' ';
    s[31] = b';';
    assert_eq!(find_semi_or_space(&s), Some(Found::Space(17)));
    assert_eq!(find_semi_or_space(&vec![b'_'; 32]), None);
    assert_eq!(find_equals(&vec![b'_'; 16]), None);
}
