use desktop_entry::DesktopEntryType;
use desktop_entry::Error;
use desktop_entry::RawDesktopEntry;
use desktop_entry::parse_desktop_entry;

fn format_message(result: Result<DesktopEntryType, Error>) -> String {
    match result {
        Err(Error::FormatError(m)) => m,
        Err(Error::IoError(_)) => panic!("expected a format error, got an io error"),
        Ok(_) => panic!("expected a format error, got an entry"),
    }
}

#[test]
fn minimal_application_round_trip() {
    let mut raw = RawDesktopEntry::new();
    raw.insert("Desktop Entry", "Type", "Application");
    raw.insert("Desktop Entry", "Name", "Foo");
    match DesktopEntryType::try_from(raw) {
        Ok(DesktopEntryType::Application(a)) => {
            assert_eq!(a.name, "Foo");
            assert!(a.version.is_none());
            assert!(a.generic_name.is_none());
            assert!(a.no_display.is_none());
            assert!(a.comment.is_none());
            assert!(a.icon.is_none());
            assert!(a.hidden.is_none());
            assert!(a.only_show_in.is_none());
            assert!(a.not_show_in.is_none());
            assert!(a.try_exec.is_none());
            assert!(a.exec_cmd.is_none());
            assert!(a.path.is_none());
            assert!(a.terminal.is_none());
            assert!(a.actions.is_none());
            assert!(a.mime_type.is_none());
            assert!(a.categories.is_none());
            assert!(a.keywords.is_none());
            assert!(a.startup_notify.is_none());
            assert!(a.startup_wm_class.is_none());
            assert!(a.prefers_non_default_gpu.is_none());
            assert!(a.single_main_window.is_none());
        },
        _ => panic!("expected an application entry"),
    }
}

#[test]
fn missing_type_fails() {
    let mut raw = RawDesktopEntry::new();
    raw.insert("Desktop Entry", "Name", "Foo");
    assert_eq!(format_message(DesktopEntryType::try_from(raw)), "Entry type missing!");
}

#[test]
fn missing_desktop_entry_group_fails() {
    let mut raw = RawDesktopEntry::new();
    raw.insert("Other Group", "Type", "Application");
    assert_eq!(format_message(DesktopEntryType::try_from(raw)), "Desktop entry group missing!");
}

#[test]
fn unknown_type_is_quoted_verbatim() {
    let mut raw = RawDesktopEntry::new();
    raw.insert("Desktop Entry", "Type", "Widget");
    raw.insert("Desktop Entry", "Name", "Foo");
    assert_eq!(format_message(DesktopEntryType::try_from(raw)), "Unknown entry type Widget");
}

#[test]
fn application_missing_name_fails() {
    let mut raw = RawDesktopEntry::new();
    raw.insert("Desktop Entry", "Type", "Application");
    assert_eq!(format_message(DesktopEntryType::try_from(raw)), "Missing required key 'Name'");
}

#[test]
fn link_without_url_fails() {
    let mut raw = RawDesktopEntry::new();
    raw.insert("Desktop Entry", "Type", "Link");
    raw.insert("Desktop Entry", "Name", "Example");
    assert_eq!(format_message(DesktopEntryType::try_from(raw)), "Missing required key 'URL'");
}

#[test]
fn link_with_url_succeeds() {
    let mut raw = RawDesktopEntry::new();
    raw.insert("Desktop Entry", "Type", "Link");
    raw.insert("Desktop Entry", "Name", "Example");
    raw.insert("Desktop Entry", "URL", "http://example.com");
    match DesktopEntryType::try_from(raw) {
        Ok(DesktopEntryType::Link(l)) => {
            assert_eq!(l.name, "Example");
            assert_eq!(l.url, "http://example.com");
        },
        _ => panic!("expected a link entry"),
    }
}

#[test]
fn link_missing_name_is_reported_before_url() {
    let mut raw = RawDesktopEntry::new();
    raw.insert("Desktop Entry", "Type", "Link");
    assert_eq!(format_message(DesktopEntryType::try_from(raw)), "Missing required key 'Name'");
}

#[test]
fn directory_entry_succeeds() {
    let mut raw = RawDesktopEntry::new();
    raw.insert("Desktop Entry", "Type", "Directory");
    raw.insert("Desktop Entry", "Name", "Utilities");
    raw.insert("Desktop Entry", "Icon", "folder");
    match DesktopEntryType::try_from(raw) {
        Ok(DesktopEntryType::Directory(d)) => {
            assert_eq!(d.name, "Utilities");
            assert_eq!(d.icon.as_deref(), Some("folder"));
            assert!(d.hidden.is_none());
        },
        _ => panic!("expected a directory entry"),
    }
}

#[test]
fn unparseable_boolean_coerces_to_false() {
    let mut raw = RawDesktopEntry::new();
    raw.insert("Desktop Entry", "Type", "Application");
    raw.insert("Desktop Entry", "Name", "Foo");
    raw.insert("Desktop Entry", "Hidden", "notabool");
    match DesktopEntryType::try_from(raw) {
        Ok(DesktopEntryType::Application(a)) => assert_eq!(a.hidden, Some(false)),
        _ => panic!("expected an application entry"),
    }
}

#[test]
fn boolean_literals_parse_exactly() {
    let mut raw = RawDesktopEntry::new();
    raw.insert("Desktop Entry", "Type", "Application");
    raw.insert("Desktop Entry", "Name", "Foo");
    raw.insert("Desktop Entry", "Terminal", "true");
    raw.insert("Desktop Entry", "NoDisplay", "false");
    raw.insert("Desktop Entry", "StartupNotify", "True");
    match DesktopEntryType::try_from(raw) {
        Ok(DesktopEntryType::Application(a)) => {
            assert_eq!(a.terminal, Some(true));
            assert_eq!(a.no_display, Some(false));
            assert_eq!(a.startup_notify, Some(false));
        },
        _ => panic!("expected an application entry"),
    }
}

#[test]
fn end_to_end_text_editor_example() {
    let input = "[Desktop Entry]\nType=Application\nName=Text Editor\nExec=edit %f\nTerminal=false\n";
    match parse_desktop_entry(input) {
        Ok(DesktopEntryType::Application(a)) => {
            assert_eq!(a.name, "Text Editor");
            assert_eq!(a.exec_cmd.as_deref(), Some("edit %f"));
            assert_eq!(a.terminal, Some(false));
            assert!(a.version.is_none());
            assert!(a.generic_name.is_none());
            assert!(a.no_display.is_none());
            assert!(a.comment.is_none());
            assert!(a.icon.is_none());
            assert!(a.hidden.is_none());
            assert!(a.only_show_in.is_none());
            assert!(a.not_show_in.is_none());
            assert!(a.try_exec.is_none());
            assert!(a.path.is_none());
            assert!(a.actions.is_none());
            assert!(a.mime_type.is_none());
            assert!(a.categories.is_none());
            assert!(a.keywords.is_none());
            assert!(a.startup_notify.is_none());
            assert!(a.startup_wm_class.is_none());
            assert!(a.prefers_non_default_gpu.is_none());
            assert!(a.single_main_window.is_none());
        },
        _ => panic!("expected an application entry"),
    }
}

#[test]
fn end_to_end_format_failure_propagates() {
    let message = format_message(parse_desktop_entry("[Desktop Entry]\nbroken line\n"));
    assert_eq!(message, "Entry not key/value");
}

#[test]
fn only_the_desktop_entry_group_is_consulted() {
    let input = "[Desktop Entry]\nType=Application\nName=App\n[Desktop Action New]\nName=Other\nExec=app --new\n";
    match parse_desktop_entry(input) {
        Ok(DesktopEntryType::Application(a)) => {
            assert_eq!(a.name, "App");
            assert!(a.exec_cmd.is_none());
        },
        _ => panic!("expected an application entry"),
    }
}

#[test]
fn full_application_fields_are_read() {
    let input = "[Desktop Entry]\nType=Application\nVersion=1.5\nName=App\nGenericName=Tool\nNoDisplay=true\nComment=Does things\nIcon=app-icon\nHidden=false\nOnlyShowIn=GNOME;\nNotShowIn=KDE;\nTryExec=app\nExec=app %U\nPath=/opt/app\nTerminal=true\nActions=New;\nMimeType=text/plain;\nCategories=Utility;\nKeywords=tool;helper;\nStartupNotify=true\nStartupWMClass=AppWindow\nPrefersNonDefaultGPU=false\nSingleMainWindow=true\n";

    match parse_desktop_entry(input) {
        Ok(DesktopEntryType::Application(a)) => {
            assert_eq!(a.version.as_deref(), Some("1.5"));
            assert_eq!(a.name, "App");
            assert_eq!(a.generic_name.as_deref(), Some("Tool"));
            assert_eq!(a.no_display, Some(true));
            assert_eq!(a.comment.as_deref(), Some("Does things"));
            assert_eq!(a.icon.as_deref(), Some("app-icon"));
            assert_eq!(a.hidden, Some(false));
            assert_eq!(a.only_show_in.as_deref(), Some("GNOME;"));
            assert_eq!(a.not_show_in.as_deref(), Some("KDE;"));
            assert_eq!(a.try_exec.as_deref(), Some("app"));
            assert_eq!(a.exec_cmd.as_deref(), Some("app %U"));
            assert_eq!(a.path.as_deref(), Some("/opt/app"));
            assert_eq!(a.terminal, Some(true));
            assert_eq!(a.actions.as_deref(), Some("New;"));
            assert_eq!(a.mime_type.as_deref(), Some("text/plain;"));
            assert_eq!(a.categories.as_deref(), Some("Utility;"));
            assert_eq!(a.keywords.as_deref(), Some("tool;helper;"));
            assert_eq!(a.startup_notify, Some(true));
            assert_eq!(a.startup_wm_class.as_deref(), Some("AppWindow"));
            assert_eq!(a.prefers_non_default_gpu, Some(false));
            assert_eq!(a.single_main_window, Some(true));
        },
        _ => panic!("expected an application entry"),
    }
}
