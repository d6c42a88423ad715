//! The typed stage: project the raw mapping's `"Desktop Entry"` group into
//! one of the three entry variants, validating required keys and coercing
//! boolean-valued properties.

use vstd::prelude::*;

use crate::error::Error;
use crate::raw::RawDesktopEntry;
use crate::raw::RawGroup;
use crate::raw::RawParse;
use crate::raw::parse_desktop_entry_raw;
use crate::raw::spec_parse_raw;
use crate::text::str_eq;

verus! {

/// An entry of `Type=Application`: a launchable program. Only `Name` is
/// required; every other property is optional.
#[derive(Debug, Clone)]
pub struct ApplicationDesktopEntry {
    pub version: Option<String>,
    pub name: String,
    pub generic_name: Option<String>,
    pub no_display: Option<bool>,
    pub comment: Option<String>,
    pub icon: Option<String>,
    pub hidden: Option<bool>,
    pub only_show_in: Option<String>,
    pub not_show_in: Option<String>,
    pub try_exec: Option<String>,
    pub exec_cmd: Option<String>,
    pub path: Option<String>,
    pub terminal: Option<bool>,
    pub actions: Option<String>,
    pub mime_type: Option<String>,
    pub categories: Option<String>,
    pub keywords: Option<String>,
    pub startup_notify: Option<bool>,
    pub startup_wm_class: Option<String>,
    pub prefers_non_default_gpu: Option<bool>,
    pub single_main_window: Option<bool>,
}

/// An entry of `Type=Link`: a bookmark. `Name` and `URL` are required.
#[derive(Debug, Clone)]
pub struct LinkDesktopEntry {
    pub version: Option<String>,
    pub name: String,
    pub generic_name: Option<String>,
    pub no_display: Option<bool>,
    pub comment: Option<String>,
    pub icon: Option<String>,
    pub hidden: Option<bool>,
    pub only_show_in: Option<String>,
    pub not_show_in: Option<String>,
    pub url: String,
}

/// An entry of `Type=Directory`: a menu directory. Only `Name` is
/// required.
#[derive(Debug, Clone)]
pub struct DirectoryDesktopEntry {
    pub version: Option<String>,
    pub name: String,
    pub generic_name: Option<String>,
    pub no_display: Option<bool>,
    pub comment: Option<String>,
    pub icon: Option<String>,
    pub hidden: Option<bool>,
    pub only_show_in: Option<String>,
    pub not_show_in: Option<String>,
}

/// The closed set of entry variants, discriminated by the `Type` property.
#[derive(Debug)]
pub enum DesktopEntryType {
    Application(ApplicationDesktopEntry),
    Link(LinkDesktopEntry),
    Directory(DirectoryDesktopEntry),
}

/// The name of the group the typed projection consults.
pub open spec fn de_group_name() -> Seq<char> {
    "Desktop Entry"@
}

/// An optional string field holds the group's value for `k` when the key
/// is present, and is absent when it is not.
pub open spec fn opt_str_matches(
    o: Option<String>,
    m: Map<Seq<char>, Seq<char>>,
    k: Seq<char>,
) -> bool {
    match o {
        Some(s) => m.contains_key(k) && s@ == m[k],
        None => !m.contains_key(k),
    }
}

/// The lenient boolean coercion: a present value counts as true exactly
/// when it is the literal `true`; anything else, even unparseable text,
/// counts as false.
pub open spec fn bool_value(v: Seq<char>) -> bool {
    v == "true"@
}

/// An optional boolean field holds the coercion of the group's value for
/// `k` when the key is present, and is absent when it is not.
pub open spec fn opt_bool_matches(
    o: Option<bool>,
    m: Map<Seq<char>, Seq<char>>,
    k: Seq<char>,
) -> bool {
    match o {
        Some(b) => m.contains_key(k) && b == bool_value(m[k]),
        None => !m.contains_key(k),
    }
}

/// The fields every variant shares: `Name` plus the presentation and
/// visibility options.
pub open spec fn common_matches(
    name: String,
    version: Option<String>,
    generic_name: Option<String>,
    no_display: Option<bool>,
    comment: Option<String>,
    icon: Option<String>,
    hidden: Option<bool>,
    only_show_in: Option<String>,
    not_show_in: Option<String>,
    m: Map<Seq<char>, Seq<char>>,
) -> bool {
    &&& m.contains_key("Name"@) && name@ == m["Name"@]
    &&& opt_str_matches(version, m, "Version"@)
    &&& opt_str_matches(generic_name, m, "GenericName"@)
    &&& opt_bool_matches(no_display, m, "NoDisplay"@)
    &&& opt_str_matches(comment, m, "Comment"@)
    &&& opt_str_matches(icon, m, "Icon"@)
    &&& opt_bool_matches(hidden, m, "Hidden"@)
    &&& opt_str_matches(only_show_in, m, "OnlyShowIn"@)
    &&& opt_str_matches(not_show_in, m, "NotShowIn"@)
}

/// An application entry is the correct projection of group `m`.
pub open spec fn app_matches(a: ApplicationDesktopEntry, m: Map<Seq<char>, Seq<char>>) -> bool {
    &&& common_matches(
        a.name,
        a.version,
        a.generic_name,
        a.no_display,
        a.comment,
        a.icon,
        a.hidden,
        a.only_show_in,
        a.not_show_in,
        m,
    )
    &&& opt_str_matches(a.try_exec, m, "TryExec"@)
    &&& opt_str_matches(a.exec_cmd, m, "Exec"@)
    &&& opt_str_matches(a.path, m, "Path"@)
    &&& opt_bool_matches(a.terminal, m, "Terminal"@)
    &&& opt_str_matches(a.actions, m, "Actions"@)
    &&& opt_str_matches(a.mime_type, m, "MimeType"@)
    &&& opt_str_matches(a.categories, m, "Categories"@)
    &&& opt_str_matches(a.keywords, m, "Keywords"@)
    &&& opt_bool_matches(a.startup_notify, m, "StartupNotify"@)
    &&& opt_str_matches(a.startup_wm_class, m, "StartupWMClass"@)
    &&& opt_bool_matches(a.prefers_non_default_gpu, m, "PrefersNonDefaultGPU"@)
    &&& opt_bool_matches(a.single_main_window, m, "SingleMainWindow"@)
}

/// A link entry is the correct projection of group `m`.
pub open spec fn link_matches(l: LinkDesktopEntry, m: Map<Seq<char>, Seq<char>>) -> bool {
    &&& common_matches(
        l.name,
        l.version,
        l.generic_name,
        l.no_display,
        l.comment,
        l.icon,
        l.hidden,
        l.only_show_in,
        l.not_show_in,
        m,
    )
    &&& m.contains_key("URL"@) && l.url@ == m["URL"@]
}

/// A directory entry is the correct projection of group `m`.
pub open spec fn dir_matches(d: DirectoryDesktopEntry, m: Map<Seq<char>, Seq<char>>) -> bool {
    common_matches(
        d.name,
        d.version,
        d.generic_name,
        d.no_display,
        d.comment,
        d.icon,
        d.hidden,
        d.only_show_in,
        d.not_show_in,
        m,
    )
}

/// The message naming a missing `"Desktop Entry"` group.
pub open spec fn missing_group_msg() -> Seq<char> {
    "Desktop entry group missing!"@
}

/// The message naming a missing `Type` key.
pub open spec fn missing_type_msg() -> Seq<char> {
    "Entry type missing!"@
}

/// The message naming a missing required `Name` key.
pub open spec fn missing_name_msg() -> Seq<char> {
    "Missing required key 'Name'"@
}

/// The message naming a missing required `URL` key.
pub open spec fn missing_url_msg() -> Seq<char> {
    "Missing required key 'URL'"@
}

/// The message reported for an unrecognized `Type` value, which it quotes
/// verbatim.
pub open spec fn unknown_type_msg(t: Seq<char>) -> Seq<char> {
    "Unknown entry type "@ + t
}

/// Whether the typed projection of raw mapping `m` fails, and with which
/// message: the `"Desktop Entry"` group must exist, must carry a `Type` of
/// `Application`, `Link` or `Directory`, and must hold that variant's
/// required keys.
pub open spec fn project_error(m: Map<Seq<char>, Map<Seq<char>, Seq<char>>>) -> Option<Seq<char>> {
    if !m.contains_key(de_group_name()) {
        Some(missing_group_msg())
    } else {
        let g = m[de_group_name()];
        if !g.contains_key("Type"@) {
            Some(missing_type_msg())
        } else if g["Type"@] == "Application"@ {
            if !g.contains_key("Name"@) {
                Some(missing_name_msg())
            } else {
                None
            }
        } else if g["Type"@] == "Link"@ {
            if !g.contains_key("Name"@) {
                Some(missing_name_msg())
            } else if !g.contains_key("URL"@) {
                Some(missing_url_msg())
            } else {
                None
            }
        } else if g["Type"@] == "Directory"@ {
            if !g.contains_key("Name"@) {
                Some(missing_name_msg())
            } else {
                None
            }
        } else {
            Some(unknown_type_msg(g["Type"@]))
        }
    }
}

/// A typed entry is the correct projection of group `g`: its variant
/// agrees with the `Type` value and its fields with the group's
/// properties.
pub open spec fn entry_ok(e: DesktopEntryType, g: Map<Seq<char>, Seq<char>>) -> bool {
    match e {
        DesktopEntryType::Application(a) => g.contains_key("Type"@) && g["Type"@]
            == "Application"@ && app_matches(a, g),
        DesktopEntryType::Link(l) => g.contains_key("Type"@) && g["Type"@] == "Link"@
            && link_matches(l, g),
        DesktopEntryType::Directory(d) => g.contains_key("Type"@) && g["Type"@] == "Directory"@
            && dir_matches(d, g),
    }
}

/// The group's value for `key`, cloned, or absent.
fn opt_string(g: &RawGroup, key: &str) -> (r: Option<String>)
    ensures
        opt_str_matches(r, g@, key@),
{
    match g.get(key) {
        Some(v) => Some(v.clone()),
        None => None,
    }
}

/// The group's value for `key` coerced to a boolean, or absent.
fn opt_bool(g: &RawGroup, key: &str) -> (r: Option<bool>)
    ensures
        opt_bool_matches(r, g@, key@),
{
    match g.get(key) {
        Some(v) => Some(str_eq(v.as_str(), "true")),
        None => None,
    }
}

impl ApplicationDesktopEntry {
    /// Build an application entry from the `"Desktop Entry"` group's
    /// properties; fails exactly when `Name` is missing.
    pub fn try_from(g: &RawGroup) -> (r: Result<ApplicationDesktopEntry, Error>)
        ensures
            match r {
                Ok(a) => g@.contains_key("Name"@) && app_matches(a, g@),
                Err(e) => !g@.contains_key("Name"@) && (e matches Error::FormatError(m) && m@
                    == missing_name_msg()),
            },
    {
        let name = match g.get("Name") {
            Some(v) => v.clone(),
            None => {
                return Err(Error::FormatError(String::from_str("Missing required key 'Name'")));
            },
        };
        Ok(
            ApplicationDesktopEntry {
                version: opt_string(g, "Version"),
                name,
                generic_name: opt_string(g, "GenericName"),
                no_display: opt_bool(g, "NoDisplay"),
                comment: opt_string(g, "Comment"),
                icon: opt_string(g, "Icon"),
                hidden: opt_bool(g, "Hidden"),
                only_show_in: opt_string(g, "OnlyShowIn"),
                not_show_in: opt_string(g, "NotShowIn"),
                try_exec: opt_string(g, "TryExec"),
                exec_cmd: opt_string(g, "Exec"),
                path: opt_string(g, "Path"),
                terminal: opt_bool(g, "Terminal"),
                actions: opt_string(g, "Actions"),
                mime_type: opt_string(g, "MimeType"),
                categories: opt_string(g, "Categories"),
                keywords: opt_string(g, "Keywords"),
                startup_notify: opt_bool(g, "StartupNotify"),
                startup_wm_class: opt_string(g, "StartupWMClass"),
                prefers_non_default_gpu: opt_bool(g, "PrefersNonDefaultGPU"),
                single_main_window: opt_bool(g, "SingleMainWindow"),
            },
        )
    }
}

impl LinkDesktopEntry {
    /// Build a link entry from the `"Desktop Entry"` group's properties;
    /// fails exactly when `Name` is missing, or `Name` is present but
    /// `URL` is missing.
    pub fn try_from(g: &RawGroup) -> (r: Result<LinkDesktopEntry, Error>)
        ensures
            match r {
                Ok(l) => g@.contains_key("Name"@) && g@.contains_key("URL"@) && link_matches(
                    l,
                    g@,
                ),
                Err(e) => e matches Error::FormatError(m) && ((!g@.contains_key("Name"@) && m@
                    == missing_name_msg()) || (g@.contains_key("Name"@) && !g@.contains_key(
                    "URL"@,
                ) && m@ == missing_url_msg())),
            },
    {
        let name = match g.get("Name") {
            Some(v) => v.clone(),
            None => {
                return Err(Error::FormatError(String::from_str("Missing required key 'Name'")));
            },
        };
        let url = match g.get("URL") {
            Some(v) => v.clone(),
            None => {
                return Err(Error::FormatError(String::from_str("Missing required key 'URL'")));
            },
        };
        Ok(
            LinkDesktopEntry {
                version: opt_string(g, "Version"),
                name,
                generic_name: opt_string(g, "GenericName"),
                no_display: opt_bool(g, "NoDisplay"),
                comment: opt_string(g, "Comment"),
                icon: opt_string(g, "Icon"),
                hidden: opt_bool(g, "Hidden"),
                only_show_in: opt_string(g, "OnlyShowIn"),
                not_show_in: opt_string(g, "NotShowIn"),
                url,
            },
        )
    }
}

impl DirectoryDesktopEntry {
    /// Build a directory entry from the `"Desktop Entry"` group's
    /// properties; fails exactly when `Name` is missing.
    pub fn try_from(g: &RawGroup) -> (r: Result<DirectoryDesktopEntry, Error>)
        ensures
            match r {
                Ok(d) => g@.contains_key("Name"@) && dir_matches(d, g@),
                Err(e) => !g@.contains_key("Name"@) && (e matches Error::FormatError(m) && m@
                    == missing_name_msg()),
            },
    {
        let name = match g.get("Name") {
            Some(v) => v.clone(),
            None => {
                return Err(Error::FormatError(String::from_str("Missing required key 'Name'")));
            },
        };
        Ok(
            DirectoryDesktopEntry {
                version: opt_string(g, "Version"),
                name,
                generic_name: opt_string(g, "GenericName"),
                no_display: opt_bool(g, "NoDisplay"),
                comment: opt_string(g, "Comment"),
                icon: opt_string(g, "Icon"),
                hidden: opt_bool(g, "Hidden"),
                only_show_in: opt_string(g, "OnlyShowIn"),
                not_show_in: opt_string(g, "NotShowIn"),
            },
        )
    }
}

impl DesktopEntryType {
    /// Project a raw mapping onto the variant its `"Desktop Entry"` group
    /// declares. Fails with a `FormatError` exactly when the group or its
    /// `Type` key is missing, the `Type` value is unknown, or a required
    /// key of the chosen variant is missing.
    pub fn try_from(raw: RawDesktopEntry) -> (r: Result<DesktopEntryType, Error>)
        ensures
            match r {
                Ok(e) => project_error(raw@) is None && raw@.contains_key(de_group_name())
                    && entry_ok(e, raw@[de_group_name()]),
                Err(err) => err matches Error::FormatError(m) && project_error(raw@) == Some(m@),
            },
    {
        let group = match raw.get_group("Desktop Entry") {
            Some(g) => g,
            None => {
                return Err(Error::FormatError(String::from_str("Desktop entry group missing!")));
            },
        };
        let t = match group.get("Type") {
            Some(t) => t,
            None => {
                return Err(Error::FormatError(String::from_str("Entry type missing!")));
            },
        };
        if str_eq(t.as_str(), "Application") {
            match ApplicationDesktopEntry::try_from(group) {
                Ok(e) => Ok(DesktopEntryType::Application(e)),
                Err(e) => Err(e),
            }
        } else if str_eq(t.as_str(), "Link") {
            match LinkDesktopEntry::try_from(group) {
                Ok(e) => Ok(DesktopEntryType::Link(e)),
                Err(e) => Err(e),
            }
        } else if str_eq(t.as_str(), "Directory") {
            match DirectoryDesktopEntry::try_from(group) {
                Ok(e) => Ok(DesktopEntryType::Directory(e)),
                Err(e) => Err(e),
            }
        } else {
            let msg = String::from_str("Unknown entry type ").concat(t.as_str());
            Err(Error::FormatError(msg))
        }
    }
}

/// Parse the text of a desktop-entry file all the way to a typed entry:
/// the raw grammar first, then the typed projection of its result. Any
/// failure of either stage is returned unchanged.
pub fn parse_desktop_entry(content: &str) -> (r: Result<DesktopEntryType, Error>)
    ensures
        match r {
            Ok(e) => spec_parse_raw(content@) matches RawParse::Parsed(m) && project_error(m)
                is None && m.contains_key(de_group_name()) && entry_ok(e, m[de_group_name()]),
            Err(err) => err matches Error::FormatError(msg) && (spec_parse_raw(content@)
                == RawParse::Failed(msg@) || (spec_parse_raw(content@) matches RawParse::Parsed(m)
                && project_error(m) == Some(msg@))),
        },
{
    match parse_desktop_entry_raw(content) {
        Ok(raw) => DesktopEntryType::try_from(raw),
        Err(e) => Err(e),
    }
}

} // verus!
