//! Windows of the system: which one is the flyout, how it is styled, and what the system says of
//! a file that was to be opened.

use crate::text::{contains_text, decimal_text, same_text, text_from_utf16};
use vstd::prelude::*;
use vstd::string::*;

verus! {

/// The title of the flyout.
pub const FLYOUT_TITLE: &'static str = "XCreenFlyout";

/// `WS_CAPTION`, `WS_THICKFRAME`, `WS_MINIMIZEBOX`, `WS_MAXIMIZEBOX` and `WS_SYSMENU`: the style
/// bits of a window with a frame.
pub const FRAME_STYLES: u32 = 0x00cf_0000;

/// `WS_EX_TOOLWINDOW`: the window has no button on the task bar.
pub const TOOL_WINDOW: u32 = 0x0000_0080;

/// `WS_EX_APPWINDOW`: the window has a button on the task bar.
pub const APP_WINDOW: u32 = 0x0004_0000;

/// A top-level window of the program, as the system describes it: its title and the name of its
/// class are UTF-16 code units.
#[derive(Debug)]
pub struct ThreadWindow {
    pub handle: isize,
    pub title: Vec<u16>,
    pub class_name: Vec<u16>,
}

/// A top-level window of the program.
#[derive(Debug)]
pub struct WindowInfo {
    pub handle: isize,
    pub title: String,
    pub class_name: String,
}

/// What a [`WindowInfo`] stands for.
#[verifier::ext_equal]
pub struct WindowView {
    pub handle: isize,
    pub title: Seq<char>,
    pub class_name: Seq<char>,
}

impl View for WindowInfo {
    type V = WindowView;

    open spec fn view(&self) -> WindowView {
        WindowView { handle: self.handle, title: self.title@, class_name: self.class_name@ }
    }
}

/// What a list of windows stands for.
pub open spec fn window_views(windows: Seq<WindowInfo>) -> Seq<WindowView> {
    Seq::new(windows.len(), |i: int| windows[i]@)
}

/// A window, with its title and the name of its class as texts.
pub open spec fn window_read(window: ThreadWindow) -> WindowView {
    WindowView {
        handle: window.handle,
        title: crate::text::utf16_text(window.title@),
        class_name: crate::text::utf16_text(window.class_name@),
    }
}

/// What came of asking the system to open a file.
#[derive(Debug)]
pub enum OpenOutcome {
    Opened,
    /// No program is known for the file; the user is to choose one.
    AskForProgram,
    /// The file was not opened; the text says why.
    Failed(String),
}

/// The window carries the title of the flyout.
pub open spec fn titled(window: WindowView) -> bool {
    window.title == "XCreenFlyout"@
}

/// The window may be the flyout though it carries another title: it is none of the helper
/// windows of the user interface.
pub open spec fn eligible(window: WindowView) -> bool {
    &&& window.handle != 0
    &&& !crate::text::has_part(window.class_name, "InputNonClientPointerSource"@)
    &&& !crate::text::has_part(window.class_name, "DesktopWindowTreeSource"@)
}

/// The handle of the first window from `from` on that may be the flyout.
pub open spec fn first_eligible(windows: Seq<WindowView>, from: int) -> Option<isize>
    decreases windows.len() - from,
{
    if from < 0 || from >= windows.len() {
        None
    } else if eligible(windows[from]) {
        Some(windows[from].handle)
    } else {
        first_eligible(windows, from + 1)
    }
}

/// The handle of the first window from `from` on that carries the title of the flyout.
pub open spec fn first_titled(windows: Seq<WindowView>, from: int) -> Option<isize>
    decreases windows.len() - from,
{
    if from < 0 || from >= windows.len() {
        None
    } else if titled(windows[from]) {
        Some(windows[from].handle)
    } else {
        first_titled(windows, from + 1)
    }
}

/// The window to take for the flyout: the first that carries its title, or else the first that
/// may be it.
pub open spec fn flyout_window(windows: Seq<WindowView>) -> Option<isize> {
    match first_titled(windows, 0) {
        Some(handle) => if handle != 0 {
            Some(handle)
        } else {
            None
        },
        None => first_eligible(windows, 0),
    }
}

/// Whether the window may be the flyout though it carries another title.
fn is_eligible(window: &WindowInfo) -> (r: bool)
    ensures
        r == eligible(window@),
{
    window.handle != 0 && !contains_text(
        window.class_name.as_str(),
        "InputNonClientPointerSource",
    ) && !contains_text(window.class_name.as_str(), "DesktopWindowTreeSource")
}

/// Finds the flyout among the windows of the program.
pub fn find_flyout_window(windows: &Vec<WindowInfo>) -> (handle: Option<isize>)
    ensures
        handle == flyout_window(window_views(windows@)),
{
    let ghost views = window_views(windows@);
    let mut backup: Option<isize> = None;
    let mut i: usize = 0;
    while i < windows.len()
        invariant
            i <= windows@.len(),
            views == window_views(windows@),
            first_titled(views, 0) == first_titled(views, i as int),
            first_eligible(views, 0) == match backup {
                Some(handle) => Some(handle),
                None => first_eligible(views, i as int),
            },
        decreases windows@.len() - i,
    {
        assert(views[i as int] == windows@[i as int]@);
        if same_text(windows[i].title.as_str(), FLYOUT_TITLE) {
            let handle = windows[i].handle;
            return if handle != 0 {
                Some(handle)
            } else {
                None
            };
        }
        if backup.is_none() && is_eligible(&windows[i]) {
            backup = Some(windows[i].handle);
        }
        i += 1;
    }
    backup
}

/// Finds the flyout among the windows of the program, as the system describes them.
pub fn current_thread_window(windows: &Vec<ThreadWindow>) -> (handle: Option<isize>)
    ensures
        handle == flyout_window(windows@.map_values(|window: ThreadWindow| window_read(window))),
{
    let mut read: Vec<WindowInfo> = Vec::new();
    let mut i: usize = 0;
    while i < windows.len()
        invariant
            i <= windows@.len(),
            read@.len() == i,
            forall|j: int| 0 <= j < i ==> (#[trigger] read@[j])@ == window_read(windows@[j]),
        decreases windows@.len() - i,
    {
        let title = text_from_utf16(windows[i].title.as_slice());
        let class_name = text_from_utf16(windows[i].class_name.as_slice());
        read.push(WindowInfo { handle: windows[i].handle, title, class_name });
        i += 1;
    }
    assert(window_views(read@) =~= windows@.map_values(
        |window: ThreadWindow| window_read(window),
    ));
    find_flyout_window(&read)
}

/// The style of the flyout: that of the window, without a frame.
pub fn flyout_style(style: u32) -> (flyout: u32)
    ensures
        flyout & FRAME_STYLES == 0,
        flyout | (style & FRAME_STYLES) == style,
{
    let flyout: u32 = style & !FRAME_STYLES;
    assert(flyout & 0x00cf_0000 == 0 && flyout | (style & 0x00cf_0000) == style) by (bit_vector)
        requires
            flyout == style & !0x00cf_0000u32,
    ;
    flyout
}

/// The extended style of the flyout: that of the window, kept off the task bar.
pub fn flyout_extended_style(style: u32) -> (flyout: u32)
    ensures
        flyout & TOOL_WINDOW == TOOL_WINDOW,
        flyout & APP_WINDOW == 0,
        flyout & !(TOOL_WINDOW | APP_WINDOW) == style & !(TOOL_WINDOW | APP_WINDOW),
{
    let flyout: u32 = (style | TOOL_WINDOW) & !APP_WINDOW;
    assert(flyout & 0x80 == 0x80 && flyout & 0x0004_0000 == 0 && flyout & !(0x80u32
        | 0x0004_0000u32) == style & !(0x80u32 | 0x0004_0000u32)) by (bit_vector)
        requires
            flyout == (style | 0x80u32) & !0x0004_0000u32,
    ;
    flyout
}

/// Whether the menu of the tray icon is to be closed: it is where the window in the foreground
/// belongs to the program itself.
pub fn closes_tray_menu(foreground: isize, owner: u32, own: u32) -> (r: bool)
    ensures
        r == (foreground != 0 && owner == own),
{
    foreground != 0 && owner == own
}

/// What came of asking the system to open the configuration file, by the status that it gave.
/// Up to 32 the status is an error; of those, 31 means that no program is known for the file.
pub fn after_open(status: isize) -> (outcome: OpenOutcome)
    ensures
        match outcome {
            OpenOutcome::Opened => status > 32,
            OpenOutcome::AskForProgram => status == 31,
            OpenOutcome::Failed(said) => status <= 32 && status != 31 && said@
                == "Failed to open config file: ShellExecuteW(open) returned "@
                + crate::text::decimal(status as int),
        },
{
    if status == 31 {
        OpenOutcome::AskForProgram
    } else if status <= 32 {
        OpenOutcome::Failed(
            "Failed to open config file: ShellExecuteW(open) returned ".to_owned().concat(
                decimal_text(status).as_str(),
            ),
        )
    } else {
        OpenOutcome::Opened
    }
}

/// What came of asking the user for a program, by the status that the system gave.
pub fn after_open_as(status: isize) -> (outcome: Result<(), String>)
    ensures
        crate::text::result_view(outcome) == if status <= 32 {
            Err::<(), Seq<char>>(
                "Failed to open config file: ShellExecuteW(openas) returned "@
                    + crate::text::decimal(status as int),
            )
        } else {
            Ok::<(), Seq<char>>(())
        },
{
    if status <= 32 {
        Err(
            "Failed to open config file: ShellExecuteW(openas) returned ".to_owned().concat(
                decimal_text(status).as_str(),
            ),
        )
    } else {
        Ok(())
    }
}

/// The command that starts the program with the system: the path of the executable, in quotes.
pub fn autostart_command(exe_path: &str) -> (command: String)
    ensures
        command@ == "\""@ + exe_path@ + "\""@,
{
    "\"".to_owned().concat(exe_path).concat("\"")
}

/// A window is one of the helper windows of the user interface.
pub open spec fn helper(window: WindowView) -> bool {
    crate::text::has_part(window.class_name, "InputNonClientPointerSource"@)
        || crate::text::has_part(window.class_name, "DesktopWindowTreeSource"@)
}

/// The first window with the title of the flyout is taken for it, whatever stands before it.
pub proof fn titled_windows_come_first(windows: Seq<WindowView>, i: int)
    requires
        0 <= i < windows.len(),
        windows[i].title == "XCreenFlyout"@,
        forall|j: int| 0 <= j < i ==> (#[trigger] windows[j]).title != "XCreenFlyout"@,
    ensures
        windows[i].handle != 0 ==> flyout_window(windows) == Some(windows[i].handle),
        windows[i].handle == 0 ==> flyout_window(windows) is None,
{
    lemma_first_titled(windows, 0, i);
}

/// Where no window has the title of the flyout, the first that has a handle and is no helper window
/// is taken for it; where there is none, nothing is.
pub proof fn other_windows_come_next(windows: Seq<WindowView>, i: int)
    requires
        0 <= i <= windows.len(),
        forall|j: int| 0 <= j < windows.len() ==> (#[trigger] windows[j]).title != "XCreenFlyout"@,
        forall|j: int| 0 <= j < i ==> (#[trigger] windows[j]).handle == 0 || helper(windows[j]),
    ensures
        i < windows.len() && windows[i].handle != 0 && !helper(windows[i]) ==> flyout_window(
            windows,
        ) == Some(windows[i].handle),
        i == windows.len() ==> flyout_window(windows) is None,
{
    lemma_none_titled(windows, 0);
    lemma_first_eligible(windows, 0, i);
}

proof fn lemma_first_titled(windows: Seq<WindowView>, from: int, i: int)
    requires
        0 <= from <= i < windows.len(),
        windows[i].title == "XCreenFlyout"@,
        forall|j: int| from <= j < i ==> (#[trigger] windows[j]).title != "XCreenFlyout"@,
    ensures
        first_titled(windows, from) == Some(windows[i].handle),
    decreases i - from,
{
    if from < i {
        assert(windows[from].title != "XCreenFlyout"@);
        lemma_first_titled(windows, from + 1, i);
    }
}

proof fn lemma_none_titled(windows: Seq<WindowView>, from: int)
    requires
        0 <= from <= windows.len(),
        forall|j: int| 0 <= j < windows.len() ==> (#[trigger] windows[j]).title != "XCreenFlyout"@,
    ensures
        first_titled(windows, from) is None,
    decreases windows.len() - from,
{
    if from < windows.len() {
        assert(windows[from].title != "XCreenFlyout"@);
        lemma_none_titled(windows, from + 1);
    }
}

proof fn lemma_first_eligible(windows: Seq<WindowView>, from: int, i: int)
    requires
        0 <= from <= i <= windows.len(),
        forall|j: int| from <= j < i ==> (#[trigger] windows[j]).handle == 0 || helper(windows[j]),
    ensures
        i < windows.len() && windows[i].handle != 0 && !helper(windows[i]) ==> first_eligible(
            windows,
            from,
        ) == Some(windows[i].handle),
        i == windows.len() ==> first_eligible(windows, from) is None,
    decreases i - from,
{
    if from < i {
        assert(windows[from].handle == 0 || helper(windows[from]));
        lemma_first_eligible(windows, from + 1, i);
    }
}

/// A window keeps its handle when its title and the name of its class are read, each as a text of
/// its own.
pub proof fn windows_are_read_as_they_are(window: ThreadWindow)
    ensures
        window_read(window).handle == window.handle,
        window_read(window).title == crate::text::utf16_text(window.title@),
        window_read(window).class_name == crate::text::utf16_text(window.class_name@),
{
}

/// What a window stands for holds every field of it, and a list of windows every window in its
/// place.
pub proof fn windows_are_seen_whole(windows: Seq<WindowInfo>, window: WindowInfo, i: int)
    ensures
        window@.handle == window.handle,
        window@.title == window.title@,
        window@.class_name == window.class_name@,
        window_views(windows).len() == windows.len(),
        0 <= i < windows.len() ==> window_views(windows)[i] == windows[i]@,
{
}

} // verus!
