use nevra::errors::Error;
use nevra::{PackageVersion, Version};

#[test]
fn parse_nevra() {
    let testcases = vec![
        "n-0:v-r.a",
        "nnn-000:vvv-rrr.aaa",
        "f-v",
        "foo-v",
        "f-0:v",
        "f-0-1",
        "f-0:1",
    ];
    let versions: Vec<(&str, Option<String>, &str, Option<String>, Option<String>)> = vec![
        // (N, E, V, R, A)
        (
            "n",
            Some("0".into()),
            "v",
            Some("r".into()),
            Some("a".into()),
        ),
        (
            "nnn",
            Some("000".into()),
            "vvv",
            Some("rrr".into()),
            Some("aaa".into()),
        ),
        ("f", None, "v", None, None),
        ("foo", None, "v", None, None),
        ("f", Some("0".into()), "v", None, None),
        ("f", None, "0", Some("1".into()), None),
        ("f", Some("0".into()), "1", None, None),
    ];

    for (t, ver) in testcases.iter().zip(versions.iter()) {
        let parsed = PackageVersion::parse(t).expect(t);
        assert_eq!(parsed.name(), ver.0, "{} -> {:?}", t, parsed);
        assert_eq!(parsed.epoch(), &ver.1, "{} -> {:?}", t, parsed);
        assert_eq!(parsed.version(), ver.2, "{} -> {:?}", t, parsed);
        assert_eq!(parsed.release(), &ver.3, "{} -> {:?}", t, parsed);
        assert_eq!(parsed.architecture(), &ver.4, "{} -> {:?}", t, parsed);
        assert_eq!(parsed.to_string(), *t, "{} -> {:?}", t, parsed);
    }
}

/// Inputs for the round-trip check: the text is reproduced whenever it parses.
#[test]
fn roundtrip_string_samples() {
    let inputs = vec![
        "", "-", ":", ".", "--", "a-", "-a", "a-b-c-d", "a-b.c.d", "a-b:c:d", "a-:b", "a-b-.c",
        "ä-ö:ü-ß.µ", "a b-c", "a-b c", "a\t-b", "x-1:2-3:4.5-6", "x-1.", "x-1-", "x-y-z.w-q",
        "n-e:v-r.a",
    ];
    for input in inputs {
        if let Ok(p) = PackageVersion::parse(input) {
            assert_eq!(p.to_string(), input);
        }
    }
}

#[test]
fn separator_cases() {
    let p = PackageVersion::parse("n-e:v-r.a").unwrap();
    assert_eq!(p.name(), "n");
    assert_eq!(p.epoch(), &Some("e".to_string()));
    assert_eq!(p.version(), "v");
    assert_eq!(p.release(), &Some("r".to_string()));
    assert_eq!(p.architecture(), &Some("a".to_string()));
    assert_eq!(p.to_string(), "n-e:v-r.a");

    let p = PackageVersion::parse("f-e:v").unwrap();
    assert_eq!(p.name(), "f");
    assert_eq!(p.epoch(), &Some("e".to_string()));
    assert_eq!(p.version(), "v");
    assert_eq!(p.release(), &None);
    assert_eq!(p.architecture(), &None);
}

#[test]
fn last_dot_is_architecture() {
    let p = PackageVersion::parse("f-v.a").unwrap();
    assert_eq!(p.version(), "v");
    assert_eq!(p.architecture(), &Some("a".to_string()));
    assert_eq!(p.release(), &None);
    // A release may hold `-`; the architecture follows the dot.
    let p = PackageVersion::parse("f-1-2-3.x86_64").unwrap();
    assert_eq!(p.version(), "1");
    assert_eq!(p.release(), &Some("2-3".to_string()));
    assert_eq!(p.architecture(), &Some("x86_64".to_string()));
    // The first dot after the version starts the architecture, which may hold dots.
    let p = PackageVersion::parse("f-1.2.3").unwrap();
    assert_eq!(p.version(), "1");
    assert_eq!(p.release(), &None);
    assert_eq!(p.architecture(), &Some("2.3".to_string()));
    assert_eq!(p.to_string(), "f-1.2.3");
    let p = PackageVersion::parse("n-v.a.b").unwrap();
    assert_eq!(p.architecture(), &Some("a.b".to_string()));
}

#[test]
fn new_refuses_empty_fields() {
    assert_eq!(
        PackageVersion::new("", Some("1".to_string()), "v", None, None),
        Err(Error::EmptyName)
    );
    assert_eq!(PackageVersion::new("n", None, "", None, None), Err(Error::EmptyVersion));
    assert_eq!(PackageVersion::new("", None, "", None, None), Err(Error::EmptyName));
    assert_eq!(Version::new(Some("1".to_string()), "", None, None), Err(Error::EmptyVersion));
}

#[test]
fn parse_refuses_empty_label() {
    assert_eq!(PackageVersion::parse(""), Err(Error::Syntax));
    assert_eq!(Version::parse(""), Err(Error::Syntax));
}

#[test]
fn syntax_errors() {
    for bad in ["nv", "-v", "n-", "n-:v", "n-e:", "n-v-", "n-v.", "n-v-.a", "n v-1", "n-1:2:3", "n-v.a b"] {
        assert_eq!(PackageVersion::parse(bad), Err(Error::Syntax), "{}", bad);
    }
    for bad in ["", ":v", "v-", "v.", "e:v:w", "v w", "1.2 3"] {
        assert_eq!(Version::parse(bad), Err(Error::Syntax), "{}", bad);
    }
}

#[test]
fn new_round_trip() {
    let p = PackageVersion::new(
        "cargo",
        Some("1".to_string()),
        "130",
        Some("f29".to_string()),
        Some("aarch64".to_string()),
    )
    .unwrap();
    assert_eq!(p.to_string(), "cargo-1:130-f29.aarch64");
    assert_eq!(PackageVersion::parse(&p.to_string()).unwrap(), p);
    assert_eq!(p.name(), "cargo");
    assert_eq!(p.evra().to_string(), "1:130-f29.aarch64");

    let v = Version::new(None, "2", Some("3".to_string()), None).unwrap();
    assert_eq!(v.to_string(), "2-3");
    assert_eq!(Version::parse(&v.to_string()).unwrap(), v);
    assert_eq!(v.epoch(), &None);
    assert_eq!(v.version(), "2");
    assert_eq!(v.release(), &Some("3".to_string()));
    assert_eq!(v.architecture(), &None);
}

#[test]
fn new_with_separator_in_field_reparses() {
    // The label is built and parsed, so a `-` in the version becomes a release.
    let p = PackageVersion::new("f", None, "1-2", None, None).unwrap();
    assert_eq!(p.version(), "1");
    assert_eq!(p.release(), &Some("2".to_string()));
    // An empty optional field gives a label that does not parse.
    assert_eq!(
        PackageVersion::new("f", Some(String::new()), "1", None, None),
        Err(Error::Syntax)
    );
}

#[test]
fn format_then_parse_is_stable() {
    for label in ["a-1", "a-1:2", "a-1:2-3", "a-1:2-3.x", "a-2.x", "a-2-3-4:5.noarch"] {
        let p = PackageVersion::parse(label).unwrap();
        let q = PackageVersion::parse(&p.to_string()).unwrap();
        assert_eq!(p, q);
        assert_eq!(q.to_string(), label);
    }
    for label in ["1", "1:2", "1:2-3", "1:2-3.x", "2.x", "2-a:b-c.d"] {
        let v = Version::parse(label).unwrap();
        assert_eq!(Version::parse(&v.to_string()).unwrap(), v);
        assert_eq!(v.to_string(), label);
    }
}

#[test]
fn nevra_and_evra_agree() {
    let pkgname = "cargo";
    let pkgver = "1:1.30.0-f29.aarch64";
    let pkgnamever = format!("{}-{}", pkgname, pkgver);
    let p = PackageVersion::parse(&pkgnamever).unwrap();
    let v = Version::parse(pkgver).unwrap();
    assert_eq!(p.evra(), &v);
    assert_eq!(p.to_string(), pkgnamever);
    assert_eq!(v.to_string(), pkgver);
}

#[test]
fn dotted_labels_are_accepted() {
    let p = PackageVersion::parse("bash-5.1.8-4.fc35.x86_64").unwrap();
    assert_eq!(p.name(), "bash");
    assert_eq!(p.epoch(), &None);
    assert_eq!(p.version(), "5");
    assert_eq!(p.release(), &None);
    assert_eq!(p.architecture(), &Some("1.8-4.fc35.x86_64".to_string()));
    assert_eq!(p.to_string(), "bash-5.1.8-4.fc35.x86_64");
    let v = Version::parse("1:1.30.0-f29.aarch64").unwrap();
    assert_eq!(v.epoch(), &Some("1".to_string()));
    assert_eq!(v.version(), "1");
    assert_eq!(v.architecture(), &Some("30.0-f29.aarch64".to_string()));
}

#[test]
fn whitespace_and_controls_are_refused() {
    for bad in ["a\u{a0}-b", "a-b\u{3000}", "a-\u{85}b", "a-b.c\u{2028}", "a-b-\u{9f}", "a\u{7f}-b"] {
        assert_eq!(PackageVersion::parse(bad), Err(Error::Syntax), "{:?}", bad);
    }
}

#[test]
fn non_ascii_fields() {
    let p = PackageVersion::parse("päck-ü:ß-ø.µ").unwrap();
    assert_eq!(p.name(), "päck");
    assert_eq!(p.epoch(), &Some("ü".to_string()));
    assert_eq!(p.version(), "ß");
    assert_eq!(p.release(), &Some("ø".to_string()));
    assert_eq!(p.architecture(), &Some("µ".to_string()));
    assert_eq!(p.to_string(), "päck-ü:ß-ø.µ");
}
