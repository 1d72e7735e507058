use dockerfile_updater::{Tag, TagVariant};

#[test]
fn mod_parsing() {
    let expected = "1.29.3-alpine3.22-slim";
    let tag: Tag = expected.parse().unwrap();
    assert_eq!(tag.major, Some(1));
    assert_eq!(tag.minor, Some(29));
    assert_eq!(tag.patch, Some(3));
    assert_eq!(tag.variant.clone().unwrap().prefix, Some("alpine".to_owned()));
    assert_eq!(tag.variant.clone().unwrap().major, Some(3));
    assert_eq!(tag.variant.clone().unwrap().minor, Some(22));
    assert_eq!(tag.variant.clone().unwrap().suffix, Some("-slim".to_owned()));
    assert_eq!(tag.to_string(), expected);

    let expected = "24.6.0-trixie-slim";
    let tag: Tag = expected.parse().unwrap();
    assert_eq!(tag.major, Some(24));
    assert_eq!(tag.minor, Some(6));
    assert_eq!(tag.patch, Some(0));
    assert_eq!(tag.variant.clone().unwrap().prefix, Some("trixie-slim".to_owned()));
    assert_eq!(tag.variant.clone().unwrap().major, None);
    assert_eq!(tag.to_string(), expected);

    let expected = "13.1-slim";
    let tag: Tag = expected.parse().unwrap();
    assert_eq!(tag.major, Some(13));
    assert_eq!(tag.minor, Some(1));
    assert_eq!(tag.patch, None);
    assert_eq!(tag.variant.clone().unwrap().prefix, Some("slim".to_owned()));
    assert_eq!(tag.to_string(), expected);

    let expected = "1.5.1-11_base";
    let tag: Tag = expected.parse().unwrap();
    assert_eq!(tag.major, Some(1));
    assert_eq!(tag.minor, Some(5));
    assert_eq!(tag.patch, Some(1));
    assert_eq!(tag.variant.clone().unwrap().prefix, None);
    assert_eq!(tag.variant.clone().unwrap().major, Some(11));
    assert_eq!(tag.variant.clone().unwrap().minor, None);
    assert_eq!(tag.variant.clone().unwrap().suffix, Some("_base".to_owned()));
    assert_eq!(tag.to_string(), expected);

    let tag: Tag = "24".parse().unwrap();
    assert_eq!(tag.major, Some(24));
    assert_eq!(tag.minor, None);
    assert_eq!(tag.variant, None);

    let expected = "24.0.0-alpine3.22";
    let tag: Tag = expected.parse().unwrap();
    assert_eq!(tag.major, Some(24));
    assert_eq!(tag.minor, Some(0));
    assert_eq!(tag.patch, Some(0));
    assert_eq!(
        tag.variant,
        Some(TagVariant {
            prefix: Some("alpine".to_owned()),
            major: Some(3),
            minor: Some(22),
            patch: None,
            affixes: vec![],
            suffix: None,
        })
    );
    assert_eq!(tag.to_string(), expected);

    let expected = "24.0-alpine3.21.1";
    let tag: Tag = expected.parse().unwrap();
    assert_eq!(tag.major, Some(24));
    assert_eq!(tag.minor, Some(0));
    assert_eq!(tag.patch, None);
    assert_eq!(
        tag.variant,
        Some(TagVariant {
            prefix: Some("alpine".to_owned()),
            major: Some(3),
            minor: Some(21),
            patch: Some(1),
            affixes: vec![],
            suffix: None,
        })
    );
    assert_eq!(tag.to_string(), expected);

    let expected = "";
    let tag: Tag = expected.parse().unwrap();
    let empty_tag = Tag::default();
    assert_eq!(empty_tag, tag);
    assert_eq!(empty_tag.to_string(), expected);

    let expected = "9.1.1-debian-13-r8";
    let tag: Tag = expected.parse().unwrap();
    assert_eq!(tag.variant.clone().unwrap().prefix, Some("debian-".to_owned()));
    assert_eq!(tag.variant.unwrap().major, Some(13));

    let expected = "10.0.1-azurelinux3.0-amd64";
    let tag: Tag = expected.parse().unwrap();
    assert_eq!(tag.major, Some(10));
    assert_eq!(tag.minor, Some(0));
    assert_eq!(tag.patch, Some(1));
    assert_eq!(tag.variant.clone().unwrap().prefix, Some("azurelinux".to_owned()));
    assert_eq!(tag.variant.clone().unwrap().major, Some(3));
    assert_eq!(tag.variant.clone().unwrap().minor, Some(0));
    assert_eq!(tag.variant.clone().unwrap().affixes.get(1), Some("-amd".to_owned()).as_ref());
    assert_eq!(tag.variant.clone().unwrap().patch, Some(64));
    assert_eq!(tag.to_string(), expected);
}

#[test]
fn comparing() {
    let current: Tag = "1.29.3-alpine3.22-slim".parse().unwrap();
    let next: Tag = "1.29.3-alpine3.22".parse().unwrap();
    assert!(current.is_same_major(&next));
    assert!(current.is_same_minor(&next));
    assert!(!current.is_same_variant(&next));

    let current: Tag = "1.29.3-alpine3.22-slim".parse().unwrap();
    let next: Tag = "1.29.3-alpine3.23".parse().unwrap();
    assert!(!current.is_next_major(&next));
    assert!(!current.is_next_minor(&next));
    assert!(current.is_next_patch(&next));

    let current: Tag = "1.29.3-alpine3.22-slim".parse().unwrap();
    let next: Tag = "1.29.3-alpine4.1".parse().unwrap();
    assert!(!current.is_next_major(&next));
    assert!(!current.is_next_minor(&next));
    assert!(current.is_next_patch(&next));

    let current: Tag = "0.28.2-alpine3.22-slim".parse().unwrap();
    let next: Tag = "1.29.3-alpine3.22".parse().unwrap();
    assert!(current.is_next_major(&next));
    assert!(!current.is_next_minor(&next));

    let current: Tag = "1.5.1-11_base".parse().unwrap();
    let next: Tag = "1.5.1-14_base".parse().unwrap();
    assert!(current.is_same_variant(&next));

    let current: Tag = "1.5.1-bookworm-11_base".parse().unwrap();
    let next: Tag = "1.5.1-bookworm-14_base".parse().unwrap();
    assert!(current.is_same_variant(&next));

    let current: Tag = "24.12.0-bookworm-slim".parse().unwrap();
    let next: Tag = "24.12.0-trixie-slim".parse().unwrap();
    assert!(!current.is_same_variant(&next));

    let current: Tag = "1.29.3-alpine3.22.1".parse().unwrap();
    let next: Tag = "1.29.3-alpine4.0.0".parse().unwrap();
    assert!(current.is_next_patch(&next));

    let current: Tag = "1.29.3-alpine3.22.1".parse().unwrap();
    let next: Tag = "1.29.3-alpine3.23.0".parse().unwrap();
    assert!(current.is_next_patch(&next));

    let current: Tag = "1.29.3-alpine3.22.1".parse().unwrap();
    let next: Tag = "1.29.3-alpine3.22.2".parse().unwrap();
    assert!(current.is_next_patch(&next));
}

#[test]
fn next_patch() {
    let cases = [
        ("2.5.0", "2.5.01", true),
        ("2.5.0", "2.5.0", false),
        ("2.6.9-bookworm-slim", "2.6.10-bookworm-slim", true),
        ("9.0.1-debian-12-r8", "9.0.1-debian-12-r9", true),
        ("9.0.1-debian-12-r8", "9.0.1-debian-13-r8", true),
        ("1.5.1-11_base", "1.5", false),
        ("1.5.1-11_base", "1.5.1-10_base", false),
    ];

    for (current, next, expect) in &cases {
        let c = current.parse::<Tag>().expect("left tag valid");
        let n = next.parse::<Tag>().expect("right tag valid");
        let got = c.is_next_patch(&n);
        assert_eq!(got, *expect, "is_next_minor({}, {}) → expected {}, got {}", current, next, expect, got);
    }
}

#[test]
fn mod_next_minor() {
    let cases = [
        ("2.5.0", "2.6.0", true),
        ("2.5.7", "2.6.9", true),
        ("2.6.9-bookworm-slim", "2.7.0-bookworm-slim", true),
        ("9.0.1-debian-12-r8", "9.1.0-debian-12-r9", true),
        ("9.0.1-debian-12-r8", "9.1.0-debian-13-r8", true),
        ("9.0-debian-12-r8", "9.1-debian-13-r8", true),
        ("1.4.9-11_base", "1.5.1-14_base", true),
        ("2.6.9", "2.6.10", false),
        ("2.6.9", "3.6.10", false),
        ("2.6.9-bookworm-slim", "3.6.10-bookworm-slim", false),
        ("2.6.9-bookworm-slim", "2.6.8-bookworm-slim", false),
        ("2.6.9-bookworm-slim", "2.6.10-bookwork-slim", false),
        ("1.5.1-11_base", "1.5", false),
    ];

    for (current, next, expect) in &cases {
        let c = current.parse::<Tag>().expect("left tag valid");
        let n = next.parse::<Tag>().expect("right tag valid");
        let got = c.is_next_minor(&n);
        assert_eq!(got, *expect, "is_next_minor({}, {}) → expected {}, got {}", current, next, expect, got);
    }
}

#[test]
fn mod_next_major() {
    let cases = [
        ("2.5.7", "3.0.0", true),
        ("2.6.9-bookworm-slim", "3.6.10-bookworm-slim", true),
        ("8.0.1-debian-12-r8", "9.0.1-debian-12-r8", true),
        ("2.6.9", "2.7.9", false),
    ];

    for (current, next, expect) in &cases {
        let c = current.parse::<Tag>().expect("left tag valid");
        let n = next.parse::<Tag>().expect("right tag valid");
        let got = c.is_next_major(&n);
        assert_eq!(got, *expect, "is_next_major({}, {}) → expected {}, got {}", current, next, expect, got);
    }
}

#[test]
fn fixture_tags_render_as_read() {
    for s in [
        "1.29.3-alpine3.22-slim",
        "8.0-alpine",
        "1.5.1-11_base",
        "9.0.1-debian-12-r8",
        "8.0.0-alpine3.10",
        "9.0.0",
        "10.0.1-azurelinux3.0-amd64",
        "latest",
    ] {
        let t: Tag = s.parse().unwrap();
        assert_eq!(t.to_string(), s);
        let again: Tag = t.to_string().parse().unwrap();
        assert_eq!(again, t);
    }
}

#[test]
fn variant_shapes_from_the_description() {
    let t: Tag = "1.0.0-alpine3.22-slim".parse().unwrap();
    let var = t.variant.unwrap();
    assert_eq!(var.prefix, Some("alpine".to_owned()));
    assert_eq!((var.major, var.minor), (Some(3), Some(22)));
    assert_eq!(var.suffix, Some("-slim".to_owned()));
    assert!(var.affixes.is_empty());

    let t: Tag = "1.0.0-11_base".parse().unwrap();
    let var = t.variant.unwrap();
    assert_eq!(var.prefix, None);
    assert_eq!(var.major, Some(11));
    assert_eq!(var.suffix, Some("_base".to_owned()));

    let v = "debian-13-r8";
    let t: Tag = format!("1.0.0-{v}").parse().unwrap();
    let var = t.variant.unwrap();
    assert_eq!(var.prefix, Some("debian-".to_owned()));
    assert_eq!(var.major, Some(13));
    assert_eq!(var.minor, Some(8));
    assert_eq!(var.affixes, vec!["-r".to_owned()]);
    assert_eq!(var.suffix, None);

    let t: Tag = "1.0.0-azurelinux3.0-amd64".parse().unwrap();
    let var = t.variant.unwrap();
    assert_eq!(var.affixes, vec![".".to_owned(), "-amd".to_owned()]);
    assert_eq!(var.patch, Some(64));
}

#[test]
fn empty_tag_is_the_zero_tag() {
    let t: Tag = "".parse().unwrap();
    assert_eq!(t, Tag::default());
    assert_eq!(t.major, None);
    assert!(!t.latest && !t.allowed_missing);
    assert_eq!(t.to_string(), "");
}

#[test]
fn latest_in_any_case() {
    let t: Tag = " LaTeSt ".parse().unwrap();
    assert!(t.latest);
    assert_eq!(t.major, None);
    assert_eq!(t.to_string(), "latest");
}

#[test]
fn parts_that_are_not_numbers_are_absent() {
    let t: Tag = "1.x.3".parse().unwrap();
    assert_eq!(t.major, Some(1));
    assert_eq!(t.minor, None);
    assert_eq!(t.patch, Some(3));
    let t: Tag = "99999999999999999999.2".parse().unwrap();
    assert_eq!(t.major, None);
    assert_eq!(t.minor, Some(2));
    let t: Tag = "+7".parse().unwrap();
    assert_eq!(t.major, Some(7));
}

#[test]
fn same_major_with_itself() {
    let t: Tag = "3.1.4".parse().unwrap();
    assert!(t.is_same_major(&t));
    assert!(!t.is_next_minor(&t));
    let u: Tag = "alpine".parse().unwrap();
    assert!(!u.is_same_major(&u));
}

#[test]
fn next_major_chains() {
    let a: Tag = "1.0.0".parse().unwrap();
    let b: Tag = "2.0.0".parse().unwrap();
    let c: Tag = "3.0.0".parse().unwrap();
    assert!(a.is_next_major(&b) && b.is_next_major(&c));
    assert!(a.is_next_major(&c));
    let no_patch: Tag = "4.0".parse().unwrap();
    assert!(!a.is_next_major(&no_patch));
}

#[test]
fn tag_order() {
    let a: Tag = "1.2.3".parse().unwrap();
    let b: Tag = "1.2.4".parse().unwrap();
    let l: Tag = "latest".parse().unwrap();
    let plain: Tag = "1.2.3".parse().unwrap();
    let with_variant: Tag = "1.2.3-alpine".parse().unwrap();
    assert!(a.compare(&b) < 0);
    assert!(b.compare(&a) > 0);
    assert_eq!(a.compare(&a.clone()), 0);
    assert!(b.compare(&l) < 0);
    assert!(plain.compare(&with_variant) < 0);
}

#[test]
fn present_numbers_are_joined_by_dots() {
    let t = Tag { major: None, minor: Some(5), patch: None, variant: None, allowed_missing: false, latest: false };
    assert_eq!(t.to_string(), "5");
    let t = Tag { major: None, minor: Some(5), patch: Some(2), variant: None, allowed_missing: false, latest: false };
    assert_eq!(t.to_string(), "5.2");
    let t: Tag = "1.2.3-alpine".parse().unwrap();
    assert_eq!(t.to_string(), "1.2.3-alpine");
}
