use desktop_entry::Error;
use desktop_entry::parse_desktop_entry_raw;

#[test]
fn single_group_single_pair_trimmed() {
    let raw = parse_desktop_entry_raw("[Settings]\nKey = Value\n").unwrap();
    let group = raw.get_group("Settings").unwrap();
    assert_eq!(group.get("Key").unwrap(), "Value");
}

#[test]
fn several_pairs_in_one_group() {
    let raw = parse_desktop_entry_raw("[G]\na=1\nb = 2\nc=  3  \n").unwrap();
    let group = raw.get_group("G").unwrap();
    assert_eq!(group.get("a").unwrap(), "1");
    assert_eq!(group.get("b").unwrap(), "2");
    assert_eq!(group.get("c").unwrap(), "3");
}

#[test]
fn property_before_any_group_fails() {
    let result = parse_desktop_entry_raw("Key=Value\n[G]\n");
    match result {
        Err(Error::FormatError(m)) => assert_eq!(m, "Entry found outside of group"),
        _ => panic!("expected a format error"),
    }
}

#[test]
fn property_after_comments_but_before_group_fails() {
    let result = parse_desktop_entry_raw("# leading comment\n\nKey=Value\n");
    match result {
        Err(Error::FormatError(m)) => assert_eq!(m, "Entry found outside of group"),
        _ => panic!("expected a format error"),
    }
}

#[test]
fn property_without_separator_fails() {
    let result = parse_desktop_entry_raw("[G]\nno separator here\n");
    match result {
        Err(Error::FormatError(m)) => assert_eq!(m, "Entry not key/value"),
        _ => panic!("expected a format error"),
    }
}

#[test]
fn comments_and_blank_lines_do_not_affect_the_mapping() {
    let plain = parse_desktop_entry_raw("[G]\na=1\nb=2\n").unwrap();
    let noisy = parse_desktop_entry_raw("# top\n\n[G]\n# inside\na=1\n\nb=2\n# end\n").unwrap();
    for key in ["a", "b"] {
        assert_eq!(
            plain.get_group("G").unwrap().get(key).unwrap(),
            noisy.get_group("G").unwrap().get(key).unwrap()
        );
    }
}

#[test]
fn redeclared_group_merges_pairs() {
    let raw = parse_desktop_entry_raw("[G]\na=1\n[Other]\nx=9\n[G]\nb=2\n").unwrap();
    let group = raw.get_group("G").unwrap();
    assert_eq!(group.get("a").unwrap(), "1");
    assert_eq!(group.get("b").unwrap(), "2");
    assert_eq!(raw.get_group("Other").unwrap().get("x").unwrap(), "9");
}

#[test]
fn duplicate_key_last_write_wins() {
    let raw = parse_desktop_entry_raw("[G]\nk=first\nk=second\n").unwrap();
    assert_eq!(raw.get_group("G").unwrap().get("k").unwrap(), "second");
}

#[test]
fn value_may_contain_separator() {
    let raw = parse_desktop_entry_raw("[G]\nk=a=b=c\n").unwrap();
    assert_eq!(raw.get_group("G").unwrap().get("k").unwrap(), "a=b=c");
}

#[test]
fn empty_key_and_empty_value_are_allowed() {
    let raw = parse_desktop_entry_raw("[G]\n=v\nk=\n").unwrap();
    let group = raw.get_group("G").unwrap();
    assert_eq!(group.get("").unwrap(), "v");
    assert_eq!(group.get("k").unwrap(), "");
}

#[test]
fn crlf_line_endings_are_handled() {
    let raw = parse_desktop_entry_raw("[G]\r\nKey=Value\r\n").unwrap();
    assert_eq!(raw.get_group("G").unwrap().get("Key").unwrap(), "Value");
}

#[test]
fn empty_bracket_pair_opens_no_group() {
    let result = parse_desktop_entry_raw("[]\nk=v\n");
    match result {
        Err(Error::FormatError(m)) => assert_eq!(m, "Entry found outside of group"),
        _ => panic!("expected a format error"),
    }
}

#[test]
fn empty_input_gives_empty_mapping() {
    let raw = parse_desktop_entry_raw("").unwrap();
    assert!(raw.get_group("G").is_none());
}

#[test]
fn header_alone_creates_no_group() {
    let raw = parse_desktop_entry_raw("[G]\n").unwrap();
    assert!(raw.get_group("G").is_none());
}

#[test]
fn missing_group_is_absent() {
    let raw = parse_desktop_entry_raw("[G]\na=1\n").unwrap();
    assert!(raw.get_group("H").is_none());
    assert!(raw.get_group("G").unwrap().get("b").is_none());
}
