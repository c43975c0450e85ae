use vstd::prelude::*;
use crate::events::WindowForegroundEvent;
use vstd::string::StrSliceExecFns;

verus! {

/// Win32 object id of a window itself.
pub const OBJID_WINDOW: i32 = 0;

/// Win32 object id of a window's client area.
pub const OBJID_CLIENT: i32 = -4;

/// Win32 extended style bit of a tool window.
pub const WS_EX_TOOLWINDOW: i32 = 0x80;

/// Relies on std::path::Path::file_name: the final component of the path, if
/// there is one; an empty path has none, and a component is never empty.
#[verifier::external_body]
fn path_file_name(full_path: &str) -> (r: Option<String>)
    ensures
        full_path@.len() == 0 ==> r is None,
        r matches Some(n) ==> n@.len() > 0,
{
    match std::path::Path::new(full_path).file_name() {
        Some(n) => Some(n.to_string_lossy().into_owned()),
        None => None,
    }
}

/// The application name of an executable path: its file name.
pub fn get_app_name_from_path(full_path: String) -> (r: Option<String>)
    ensures
        full_path@.len() == 0 ==> r is None,
        r matches Some(n) ==> n@.len() > 0,
{
    path_file_name(full_path.as_str())
}

/// A notification concerns a visible window, or its client area.
pub fn is_visible_and_valid(is_null: bool, visible: bool, object_id: i32) -> (r: bool)
    ensures
        r == (!is_null && visible && (object_id == OBJID_WINDOW || object_id == OBJID_CLIENT)),
{
    if is_null {
        return false;
    }
    visible && (object_id == OBJID_WINDOW || object_id == OBJID_CLIENT)
}

/// A window worth tracking: not a tool window, and not one whose title, where it
/// could be read, is empty.
pub fn is_interesting_window(ex_style: i32, title: &Option<String>) -> (r: bool)
    ensures
        r == ((ex_style & WS_EX_TOOLWINDOW) == 0 && !(title matches Some(t) && t@.len() == 0)),
{
    if (ex_style & WS_EX_TOOLWINDOW) != 0 {
        return false;
    }
    match title {
        Some(t) => t.as_str().unicode_len() != 0,
        None => true,
    }
}

/// The foreground notification for a window, from what the window system
/// reported of it: its executable path, the name derived from that path, and
/// its title; `None` where one of them is missing.
pub fn gather_window_info(path: Option<String>, title: Option<String>, hwnd: isize) -> (r: Option<
    WindowForegroundEvent,
>)
    ensures
        (path is None || title is None) ==> r is None,
        r matches Some(e) ==> path == Some(e.path) && title == Some(e.title) && e.hwnd == hwnd,
        r matches Some(e) ==> e.name@.len() > 0 && e.path@.len() > 0,
{
    match (path, title) {
        (Some(p), Some(t)) => {
            match get_app_name_from_path(p.clone()) {
                Some(name) => Some(WindowForegroundEvent { name, title: t, path: p, hwnd }),
                None => None,
            }
        },
        _ => None,
    }
}

} // verus!
