//! Reading `.desktop` files with the `freedesktop_desktop_entry` crate.

use vstd::prelude::*;

verus! {

/// What the dock reads from a decoded desktop entry.
#[derive(Debug, Clone, PartialEq, Eq)]
pub struct DesktopInfo {
    /// The `Name` key, as written (untranslated).
    pub name: Option<String>,
    /// The `Exec` key.
    pub exec_line: Option<String>,
    /// The `Icon` key.
    pub icon: Option<String>,
    /// Whether `NoDisplay` is `true`.
    pub no_display: bool,
}

/// Whether `DesktopEntry::from_str` accepts a file at this path with this content.
pub uninterp spec fn desktop_decodes(path: Seq<char>, content: Seq<char>) -> bool;

/// The `Exec` value that `DesktopEntry::exec` answers for the decoded file.
pub uninterp spec fn desktop_exec(path: Seq<char>, content: Seq<char>) -> Option<Seq<char>>;

/// The `Icon` value that `DesktopEntry::icon` answers for the decoded file.
pub uninterp spec fn desktop_icon(path: Seq<char>, content: Seq<char>) -> Option<Seq<char>>;

/// What `DesktopEntry::no_display` answers for the decoded file.
pub uninterp spec fn desktop_no_display(path: Seq<char>, content: Seq<char>) -> bool;

/// The `Name` value that `DesktopEntry::desktop_entry("Name")` answers for the
/// decoded file: the key's value as written in the `[Desktop Entry]` group.
pub uninterp spec fn desktop_name(path: Seq<char>, content: Seq<char>) -> Option<Seq<char>>;

/// The view of an optional string.
pub open spec fn opt_view(o: Option<String>) -> Option<Seq<char>> {
    match o {
        Some(s) => Some(s@),
        None => None,
    }
}

/// `path` ends with `.desktop`.
pub open spec fn has_desktop_suffix(path: Seq<char>) -> bool {
    path.len() >= 8 && path.subrange(path.len() - 8, path.len() as int) == ".desktop"@
}

/// Decodes a desktop file with `DesktopEntry::from_str` (no locale filter) and
/// reads the `Name`, `Exec` and `Icon` values (`desktop_entry`, `exec`, `icon`)
/// and `no_display` from the result; `None` when decoding fails. All of these
/// depend on the path and the content alone and are named here; decoding fails
/// for a path without the `.desktop` suffix, from which the crate derives the
/// app id. The name is read as written: the crate's `name` accessor would pass
/// it through gettext when the file sets `X-Ubuntu-Gettext-Domain`, which
/// depends on the process locale and panics on a NUL byte in the value.
#[verifier::external_body]
pub(crate) fn read_desktop_entry(path: &str, content: &str) -> (r: Option<DesktopInfo>)
    ensures
        r is Some <==> desktop_decodes(path@, content@),
        !has_desktop_suffix(path@) ==> r is None,
        r matches Some(i) ==> opt_view(i.name) == desktop_name(path@, content@)
            && opt_view(i.exec_line) == desktop_exec(path@, content@)
            && opt_view(i.icon) == desktop_icon(path@, content@)
            && i.no_display == desktop_no_display(path@, content@),
{
    let e = freedesktop_desktop_entry::DesktopEntry::from_str(path, content, None::<&[&str]>).ok()?;
    Some(DesktopInfo {
        name: e.desktop_entry("Name").map(|s| s.to_string()),
        exec_line: e.exec().map(|s| s.to_string()),
        icon: e.icon().map(|s| s.to_string()),
        no_display: e.no_display(),
    })
}

/// The `Icon` value of a desktop file, when it decodes.
pub fn desktop_icon_of(path: &str, content: &str) -> (r: Option<String>)
    ensures
        opt_view(r) == (if desktop_decodes(path@, content@) { desktop_icon(path@, content@) } else { None::<Seq<char>> }),
{
    match read_desktop_entry(path, content) {
        Some(info) => info.icon,
        None => None,
    }
}

} // verus!
