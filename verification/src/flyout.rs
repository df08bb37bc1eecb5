//! Where the flyout stands, and when it comes and goes.

use crate::snapshot::PendingCommit;
use crate::text::same_text;
use vstd::prelude::*;
use vstd::string::*;

verus! {

/// The width of the flyout, in units of which an inch has 96.
pub const FLYOUT_WIDTH_DIP: u32 = 360;

/// The height of the flyout.
pub const FLYOUT_HEIGHT_DIP: u32 = 280;

/// The room between the flyout and the edges of the screen.
pub const FLYOUT_GAP_DIP: u32 = 12;

/// The resolution at which a unit is a pixel; none below it is taken.
pub const BASE_DPI: u32 = 96;

/// A rectangle on the desktop, in pixels.
#[derive(Clone, Copy, Debug, PartialEq, Eq, Structural)]
pub struct Rect {
    pub left: i32,
    pub top: i32,
    pub right: i32,
    pub bottom: i32,
}

/// A window's place and size, in pixels.
#[derive(Clone, Copy, Debug, PartialEq, Eq, Structural)]
pub struct Placement {
    pub x: i32,
    pub y: i32,
    pub width: i32,
    pub height: i32,
}

/// What a click on the tray icon, or the like, does to the flyout.
#[derive(Clone, Copy, Debug, PartialEq, Eq, Structural)]
pub enum FlyoutAction {
    Nothing,
    Hide,
    Show,
}

/// What an entry of the tray menu does.
#[derive(Clone, Copy, Debug, PartialEq, Eq, Structural)]
pub enum MenuCommand {
    Open,
    Refresh,
    Exit,
}

/// What is the case at one look at mouse, keyboard and windows.
#[derive(Clone, Copy, Debug, PartialEq, Eq, Structural)]
pub struct Tick {
    /// The left mouse button is down.
    pub left_button_down: bool,
    /// There is a flyout, and it is visible.
    pub visible: bool,
    /// The escape key is down.
    pub escape_down: bool,
    /// The flyout is the window in the foreground.
    pub in_foreground: bool,
}

/// What is written at a tick, and what stays pending: nothing is written while the mouse button
/// is held.
pub open spec fn at_tick<T>(pending: Option<T>, tick: Tick) -> (Option<T>, Option<T>) {
    if tick.left_button_down {
        (None, pending)
    } else {
        (pending, None)
    }
}

/// The pixels that `dip` units take at a resolution, rounded to the nearest.
pub open spec fn pixels(dip: int, dpi: int) -> int {
    (dip * dpi + 48) / 96
}

/// The number that is nearest to `n` from `low` to `high`.
pub open spec fn clamped(n: int, low: int, high: int) -> int {
    if n < low {
        low
    } else if n > high {
        high
    } else {
        n
    }
}

/// The greater of two numbers.
pub open spec fn greater(a: int, b: int) -> int {
    if a < b {
        b
    } else {
        a
    }
}

/// Where a window of this size begins on an axis of the screen: a gap before the far end, but
/// never before the near one.
pub open spec fn anchored(near: int, far: int, size: int, gap: int) -> int {
    clamped(far - size - gap, near, greater(far - size, near))
}

/// The number fits in 32 bits.
pub open spec fn fits(n: int) -> bool {
    i32::MIN <= n <= i32::MAX
}

/// The arithmetic of placing a window of this size stays within 32 bits.
pub open spec fn placeable(screen: Rect, width: int, height: int, gap: int) -> bool {
    &&& fits(screen.right - width)
    &&& fits(screen.right - width - gap)
    &&& fits(screen.bottom - height)
    &&& fits(screen.bottom - height - gap)
}

/// The place of a window at the lower right of the screen.
pub open spec fn placed(screen: Rect, width: int, height: int, gap: int) -> (int, int) {
    (
        anchored(screen.left as int, screen.right as int, width, gap),
        anchored(screen.top as int, screen.bottom as int, height, gap),
    )
}

/// The resolution to go by where the system reports this one, or none.
pub fn effective_dpi(reported: Option<u32>) -> (dpi: u32)
    ensures
        dpi == match reported {
            Some(dpi) => greater(dpi as int, 96),
            None => 96,
        },
{
    match reported {
        Some(dpi) => if dpi < BASE_DPI {
            BASE_DPI
        } else {
            dpi
        },
        None => BASE_DPI,
    }
}

/// The pixels that `dip` units take at a resolution, as far as 32 bits hold them.
pub fn scale_dip(dip: u32, dpi: u32) -> (size: i32)
    ensures
        size == clamped(pixels(dip as int, dpi as int), 0, i32::MAX as int),
{
    proof {
        assert(0 <= dip * dpi <= u32::MAX * u32::MAX) by (nonlinear_arith)
            requires
                0 <= dip <= u32::MAX,
                0 <= dpi <= u32::MAX,
        ;
    }
    let size: u128 = (dip as u128 * dpi as u128 + 48) / 96;
    if size > 2147483647 {
        i32::MAX
    } else {
        size as i32
    }
}

/// The size to give the flyout at a resolution.
pub fn flyout_size(dpi: u32) -> (size: (i32, i32))
    ensures
        size.0 == clamped(pixels(360, dpi as int), 0, i32::MAX as int),
        size.1 == clamped(pixels(280, dpi as int), 0, i32::MAX as int),
{
    (scale_dip(FLYOUT_WIDTH_DIP, dpi), scale_dip(FLYOUT_HEIGHT_DIP, dpi))
}

/// Where a window of this size begins on an axis of the screen.
fn anchor(near: i32, far: i32, size: i32, gap: i32) -> (start: i32)
    requires
        fits(far - size),
        fits(far - size - gap),
    ensures
        start == anchored(near as int, far as int, size as int, gap as int),
{
    let room: i32 = far - size;
    let last: i32 = if room < near {
        near
    } else {
        room
    };
    let wanted: i32 = room - gap;
    if wanted < near {
        near
    } else if wanted > last {
        last
    } else {
        wanted
    }
}

/// The place of a window of this size at the lower right of the screen.
pub fn calculate_flyout_position(screen: Rect, width: i32, height: i32, gap: i32) -> (place: (
    i32,
    i32,
))
    requires
        placeable(screen, width as int, height as int, gap as int),
    ensures
        place.0 == placed(screen, width as int, height as int, gap as int).0,
        place.1 == placed(screen, width as int, height as int, gap as int).1,
{
    (
        anchor(screen.left, screen.right, width, gap),
        anchor(screen.top, screen.bottom, height, gap),
    )
}

/// The place of the flyout on a screen of this resolution, where the flyout has become as large
/// as `window`. There is none where 32 bits do not hold it.
pub fn position_flyout(screen: Rect, window: Rect, dpi: u32) -> (placement: Option<Placement>)
    ensures
        ({
            let width = window.right - window.left;
            let height = window.bottom - window.top;
            let gap = clamped(pixels(12, dpi as int), 0, i32::MAX as int);
            match placement {
                Some(p) => {
                    &&& fits(width) && fits(height) && placeable(screen, width, height, gap)
                    &&& p.x == placed(screen, width, height, gap).0
                    &&& p.y == placed(screen, width, height, gap).1
                    &&& p.width == width
                    &&& p.height == height
                },
                None => !(fits(width) && fits(height) && placeable(screen, width, height, gap)),
            }
        }),
{
    let width: i64 = window.right as i64 - window.left as i64;
    let height: i64 = window.bottom as i64 - window.top as i64;
    let gap: i32 = scale_dip(FLYOUT_GAP_DIP, dpi);
    let room_x: i64 = screen.right as i64 - width;
    let room_y: i64 = screen.bottom as i64 - height;
    if in_32_bits(width) && in_32_bits(height) && in_32_bits(room_x) && in_32_bits(
        room_x - gap as i64,
    ) && in_32_bits(room_y) && in_32_bits(room_y - gap as i64) {
        let (x, y) = calculate_flyout_position(screen, width as i32, height as i32, gap);
        Some(Placement { x, y, width: width as i32, height: height as i32 })
    } else {
        None
    }
}

/// Whether a number fits in 32 bits.
fn in_32_bits(n: i64) -> (r: bool)
    ensures
        r == fits(n as int),
{
    -2147483648 <= n && n <= 2147483647
}

/// What asking for the flyout does, where there may be none yet.
pub fn toggle_flyout(has_window: bool, visible: bool) -> (action: FlyoutAction)
    ensures
        action == if !has_window {
            FlyoutAction::Nothing
        } else if visible {
            FlyoutAction::Hide
        } else {
            FlyoutAction::Show
        },
{
    if !has_window {
        FlyoutAction::Nothing
    } else if visible {
        FlyoutAction::Hide
    } else {
        FlyoutAction::Show
    }
}

/// What a click on the tray icon does: letting go of the left button asks for the flyout.
pub fn tray_click(left_button: bool, released: bool, has_window: bool, visible: bool) -> (action:
    FlyoutAction)
    ensures
        action == if !left_button || !released || !has_window {
            FlyoutAction::Nothing
        } else if visible {
            FlyoutAction::Hide
        } else {
            FlyoutAction::Show
        },
{
    if left_button && released {
        toggle_flyout(has_window, visible)
    } else {
        FlyoutAction::Nothing
    }
}

/// What an entry of the tray menu does, by its id.
pub fn menu_command(id: &str) -> (command: Option<MenuCommand>)
    ensures
        command == if id@ == "open"@ {
            Some(MenuCommand::Open)
        } else if id@ == "refresh"@ {
            Some(MenuCommand::Refresh)
        } else if id@ == "exit"@ {
            Some(MenuCommand::Exit)
        } else {
            None
        },
{
    if same_text(id, "open") {
        Some(MenuCommand::Open)
    } else if same_text(id, "refresh") {
        Some(MenuCommand::Refresh)
    } else if same_text(id, "exit") {
        Some(MenuCommand::Exit)
    } else {
        None
    }
}

/// The level to write now, if one is pending: none is written while the mouse button is held.
pub fn take_pending(pending: &mut Option<PendingCommit>, tick: Tick) -> (commit: Option<
    PendingCommit,
>)
    ensures
        (commit, *final(pending)) == at_tick(*old(pending), tick),
{
    if tick.left_button_down {
        None
    } else {
        pending.take()
    }
}

/// Whether the flyout goes away: the user left it, or pressed escape.
pub fn hides_flyout(tick: Tick) -> (r: bool)
    ensures
        r == (tick.visible && (tick.escape_down || !tick.in_foreground)),
{
    tick.visible && (tick.escape_down || !tick.in_foreground)
}

/// The flyout stays on the screen: it never begins before the screen does, and where it fits it
/// does not reach beyond the screen either.
pub proof fn placed_on_screen(screen: Rect, width: int, height: int, gap: int)
    requires
        gap >= 0,
    ensures
        placed(screen, width, height, gap).0 >= screen.left,
        placed(screen, width, height, gap).1 >= screen.top,
        width <= screen.right - screen.left ==> placed(screen, width, height, gap).0 + width
            <= screen.right,
        height <= screen.bottom - screen.top ==> placed(screen, width, height, gap).1 + height
            <= screen.bottom,
{
}

/// Where the screen has room for the flyout and the gap, the flyout keeps exactly the gap from
/// the right and from the bottom.
pub proof fn placed_with_gap(screen: Rect, width: int, height: int, gap: int)
    requires
        gap >= 0,
        width + gap <= screen.right - screen.left,
        height + gap <= screen.bottom - screen.top,
    ensures
        placed(screen, width, height, gap).0 + width + gap == screen.right,
        placed(screen, width, height, gap).1 + height + gap == screen.bottom,
{
}

/// At the base resolution a unit is a pixel, and a higher resolution never takes fewer pixels.
pub proof fn pixels_grow(dip: int, dpi: int, finer: int)
    requires
        0 <= dip,
        dpi <= finer,
    ensures
        pixels(dip, 96) == dip,
        pixels(dip, dpi) <= pixels(dip, finer),
{
    assert(dip * dpi <= dip * finer) by (nonlinear_arith)
        requires
            0 <= dip,
            dpi <= finer,
    ;
}

/// Of the levels that are chosen while the mouse button is held, only the last is written, and it
/// is written once: at the first look that finds the button up.
pub proof fn last_choice_is_written_once(
    snapshot: crate::snapshot::SnapshotView,
    pending: Option<crate::snapshot::CommitView>,
    first: (crate::ddc::LevelKind, u32),
    second: (crate::ddc::LevelKind, u32),
    held: Tick,
    up: Tick,
    later: Tick,
)
    requires
        snapshot.selected_id() is Some,
        held.left_button_down,
        !up.left_button_down,
    ensures
        ({
            let once = crate::snapshot::chosen(snapshot, pending, first.0, first.1);
            let (early, waiting) = at_tick(once, held);
            let twice = crate::snapshot::chosen(
                snapshot.with_level(first.0, first.1),
                waiting,
                second.0,
                second.1,
            );
            let (written, left) = at_tick(twice, up);
            &&& early is None
            &&& written == Some(
                crate::snapshot::CommitView {
                    monitor_id: snapshot.selected_id()->0,
                    kind: second.0,
                    value: second.1,
                },
            )
            &&& at_tick(left, later).0 is None
        }),
{
}

/// Units are turned into the number of pixels that is nearest to the exact one, half a pixel
/// counting upwards.
pub proof fn pixels_are_nearest(dip: int, dpi: int)
    ensures
        dip * dpi - 48 < 96 * pixels(dip, dpi) <= dip * dpi + 48,
{
}

/// Clamping leaves a number within the bounds alone and takes any other to the nearer bound.
pub proof fn clamping(n: int, low: int, high: int)
    requires
        low <= high,
    ensures
        low <= clamped(n, low, high) <= high,
        low <= n <= high ==> clamped(n, low, high) == n,
        n < low ==> clamped(n, low, high) == low,
        n > high ==> clamped(n, low, high) == high,
{
}

/// The greater of two numbers is one of them, and neither is above it.
pub proof fn greater_of_two(a: int, b: int)
    ensures
        greater(a, b) >= a,
        greater(a, b) >= b,
        greater(a, b) == a || greater(a, b) == b,
{
}

/// On each axis the flyout ends the gap before the far edge where there is room for both; where
/// there is not, it begins at the near edge. A gap below zero counts as none.
pub proof fn placed_axis_by_axis(screen: Rect, width: int, height: int, gap: int)
    ensures
        ({
            let (x, y) = placed(screen, width, height, gap);
            &&& gap >= 0 && screen.left + width + gap <= screen.right ==> x + width + gap
                == screen.right
            &&& gap >= 0 && screen.left + width + gap > screen.right ==> x == screen.left
            &&& gap >= 0 && screen.top + height + gap <= screen.bottom ==> y + height + gap
                == screen.bottom
            &&& gap >= 0 && screen.top + height + gap > screen.bottom ==> y == screen.top
            &&& gap < 0 ==> placed(screen, width, height, gap) == placed(screen, width, height, 0)
        }),
{
}

/// A place can be worked out exactly where none of the numbers on the way leaves 32 bits.
pub proof fn placeable_within_32_bits(screen: Rect, width: int, height: int, gap: int)
    ensures
        placeable(screen, width, height, gap) <==> {
            &&& -0x8000_0000 <= screen.right - width <= 0x7fff_ffff
            &&& -0x8000_0000 <= screen.right - width - gap <= 0x7fff_ffff
            &&& -0x8000_0000 <= screen.bottom - height <= 0x7fff_ffff
            &&& -0x8000_0000 <= screen.bottom - height - gap <= 0x7fff_ffff
        },
        fits(width) <==> -0x8000_0000 <= width <= 0x7fff_ffff,
{
}

/// What is pending is written as it is at a look that finds the mouse button up, and stays pending
/// at any other; it is never lost, and never both.
pub proof fn pending_levels_are_not_lost<T>(pending: Option<T>, tick: Tick)
    ensures
        tick.left_button_down ==> at_tick(pending, tick).0 is None && at_tick(pending, tick).1
            == pending,
        !tick.left_button_down ==> at_tick(pending, tick).0 == pending && at_tick(
            pending,
            tick,
        ).1 is None,
{
}

} // verus!
