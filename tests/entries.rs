use rpm_tool::repodata::header::DependencyEntry;
use rpm_tool::repodata::primary::{EntryError, RpmEntry};

fn s(v: &str) -> Option<String> {
    Some(v.to_owned())
}

#[test]
fn flags_eq_decodes_to_eq() {
    assert_eq!(RpmEntry::encode_flags(0x8), Ok(s("EQ")));
}

#[test]
fn flags_zero_has_no_comparator() {
    assert_eq!(RpmEntry::encode_flags(0x0), Ok(None));
}

#[test]
fn flags_comparator_table() {
    assert_eq!(RpmEntry::encode_flags(0x2), Ok(s("LT")));
    assert_eq!(RpmEntry::encode_flags(0x4), Ok(s("GT")));
    assert_eq!(RpmEntry::encode_flags(0xA), Ok(s("LE")));
    assert_eq!(RpmEntry::encode_flags(0xC), Ok(s("GE")));
}

#[test]
fn flags_high_bits_do_not_change_comparator() {
    assert_eq!(RpmEntry::encode_flags(0x8 | 1024), Ok(s("EQ")));
    assert_eq!(RpmEntry::encode_flags(0x10), Ok(None));
}

#[test]
fn flags_malformed_values_are_rejected() {
    for v in [0x1, 0x3, 0x5, 0x6, 0x7, 0x9, 0xB, 0xD, 0xE, 0xF] {
        assert_eq!(RpmEntry::encode_flags(v), Err(EntryError::InvalidFlags(v)));
    }
}

#[test]
fn version_split_full() {
    assert_eq!(
        RpmEntry::split_version("1:2.4.46-13.el7"),
        Some((s("1"), s("2.4.46"), s("13.el7")))
    );
}

#[test]
fn version_split_empty() {
    assert_eq!(RpmEntry::split_version(""), Some((None, None, None)));
}

#[test]
fn version_split_plain_version() {
    assert_eq!(RpmEntry::split_version("5.0"), Some((None, s("5.0"), None)));
}

#[test]
fn version_split_release_at_first_dash() {
    assert_eq!(
        RpmEntry::split_version("2.0-1-beta"),
        Some((None, s("2.0"), s("1-beta")))
    );
}

#[test]
fn version_split_colon_dash_separator() {
    assert_eq!(RpmEntry::split_version("1.0:-2"), Some((None, s("1.0"), s("2"))));
}

#[test]
fn version_split_epoch_needs_following_text() {
    assert_eq!(RpmEntry::split_version("12:"), Some((None, s("12:"), None)));
    assert_eq!(RpmEntry::split_version(":3:4.1"), Some((s("3"), s("4.1"), None)));
}

#[test]
fn version_split_line_break_is_rejected() {
    assert_eq!(RpmEntry::split_version("1.0\n-2"), None);
}

#[test]
fn nonempty_or_none_cases() {
    assert_eq!(RpmEntry::nonempty_or_none(None), None);
    assert_eq!(RpmEntry::nonempty_or_none(Some("")), None);
    assert_eq!(RpmEntry::nonempty_or_none(Some("x")), s("x"));
}

#[test]
fn entry_of_header_dependency() {
    let d = DependencyEntry {
        name: "attr-debuginfo".to_owned(),
        version: "0:2.4.46-13.vk1.el7".to_owned(),
        flags: 8,
    };
    assert_eq!(
        RpmEntry::of_rpmentry(&d),
        Ok(RpmEntry {
            name: "attr-debuginfo".to_owned(),
            flags: s("EQ"),
            epoch: s("0"),
            ver: s("2.4.46"),
            rel: s("13.vk1.el7"),
            pre: None,
        })
    );
}

#[test]
fn entry_prerequisite_flag() {
    let d = DependencyEntry { name: "sh".to_owned(), version: String::new(), flags: 1024 };
    assert_eq!(
        RpmEntry::of_rpmentry(&d),
        Ok(RpmEntry {
            name: "sh".to_owned(),
            flags: None,
            epoch: None,
            ver: None,
            rel: None,
            pre: Some(1),
        })
    );
}

#[test]
fn entry_errors() {
    let bad_flags = DependencyEntry { name: "a".to_owned(), version: "1".to_owned(), flags: 3 };
    assert_eq!(RpmEntry::of_rpmentry(&bad_flags), Err(EntryError::InvalidFlags(3)));
    let bad_version = DependencyEntry { name: "a".to_owned(), version: "1\n".to_owned(), flags: 3 };
    assert_eq!(
        RpmEntry::of_rpmentry(&bad_version),
        Err(EntryError::InvalidVersion("1\n".to_owned()))
    );
}

#[test]
fn version_split_unicode_decimal_epoch() {
    assert_eq!(
        RpmEntry::split_version("\u{0661}\u{0662}:3.0-1"),
        Some((s("\u{0661}\u{0662}"), s("3.0"), s("1")))
    );
}

#[test]
fn version_split_other_numerals_are_not_epoch_digits() {
    assert_eq!(RpmEntry::split_version("\u{00BD}:1"), Some((None, s("\u{00BD}:1"), None)));
}
