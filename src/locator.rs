//! Finding the parent application's window among the desktop's top-level
//! windows, and the geometry that the overlay takes from it. The queries to
//! the operating system are the host's; every choice is made here.
use vstd::prelude::*;

verus! {

/// The operating system's identity of a window, as its raw handle value.
#[derive(Debug, Clone, Copy, PartialEq, Eq, Structural)]
pub struct WindowHandle {
    pub raw: isize,
}

/// One top-level window and the process that owns it.
#[derive(Debug, Clone, Copy, PartialEq, Eq, Structural)]
pub struct WindowRecord {
    pub handle: WindowHandle,
    pub owner_pid: u32,
}

/// A window's bounding rectangle in screen coordinates.
#[derive(Debug, Clone, Copy, PartialEq, Eq, Structural)]
pub struct Rect {
    pub left: i32,
    pub top: i32,
    pub right: i32,
    pub bottom: i32,
}

/// Where a window stands on the screen, and its size.
#[derive(Debug, Clone, Copy, PartialEq, Eq, Structural)]
pub struct Geometry {
    pub x: i32,
    pub y: i32,
    pub width: u32,
    pub height: u32,
}

/// The first window in enumeration order that the process `pid` owns.
pub open spec fn first_owned_by(windows: Seq<WindowRecord>, pid: u32) -> Option<WindowHandle>
    decreases windows.len(),
{
    if windows.len() == 0 {
        None
    } else if windows[0].owner_pid == pid {
        Some(windows[0].handle)
    } else {
        first_owned_by(windows.drop_first(), pid)
    }
}

/// The parent's window: none where the parent process is unknown.
pub open spec fn parent_window_of(parent_pid: Option<u32>, windows: Seq<WindowRecord>) -> Option<
    WindowHandle,
> {
    match parent_pid {
        Some(pid) => first_owned_by(windows, pid),
        None => None,
    }
}

/// The extent from `lo` to `hi` as an unsigned 32-bit size: `hi - lo`, taken
/// modulo 2^32 where the rectangle is inverted.
pub open spec fn extent(lo: i32, hi: i32) -> u32 {
    if hi >= lo {
        (hi - lo) as u32
    } else {
        (hi - lo + 0x1_0000_0000) as u32
    }
}

pub open spec fn geometry_of(r: Rect) -> Geometry {
    Geometry {
        x: r.left,
        y: r.top,
        width: extent(r.left, r.right),
        height: extent(r.top, r.bottom),
    }
}

/// Chooses the window to align to: the first one, in the order given, that
/// the parent process owns.
pub fn select_parent_window(parent_pid: Option<u32>, windows: &Vec<WindowRecord>) -> (r: Option<
    WindowHandle,
>)
    ensures
        r == parent_window_of(parent_pid, windows@),
{
    let pid = match parent_pid {
        Some(pid) => pid,
        None => {
            return None;
        },
    };
    let n = windows.len();
    let mut i: usize = 0;
    assert(windows@.subrange(0, n as int) =~= windows@);
    while i < n
        invariant
            n == windows@.len(),
            i <= n,
            parent_pid == Some(pid),
            first_owned_by(windows@, pid) == first_owned_by(
                windows@.subrange(i as int, n as int),
                pid,
            ),
        decreases n - i,
    {
        assert(windows@.subrange(i as int, n as int).drop_first() =~= windows@.subrange(
            i as int + 1,
            n as int,
        ));
        assert(windows@.subrange(i as int, n as int)[0] == windows@[i as int]);
        if windows[i].owner_pid == pid {
            return Some(windows[i].handle);
        }
        i = i + 1;
    }
    None
}

fn extent_between(lo: i32, hi: i32) -> (r: u32)
    ensures
        r == extent(lo, hi),
{
    let d: i64 = hi as i64 - lo as i64;
    if d >= 0 {
        d as u32
    } else {
        (d + 0x1_0000_0000) as u32
    }
}

/// The geometry of a window whose rectangle was found: its top-left corner,
/// width `right - left` and height `bottom - top`. No rectangle, no geometry.
pub fn geometry_from_rect(rect: Option<Rect>) -> (r: Option<Geometry>)
    ensures
        r == match rect {
            Some(x) => Some(geometry_of(x)),
            None => None::<Geometry>,
        },
{
    match rect {
        Some(x) => Some(
            Geometry {
                x: x.left,
                y: x.top,
                width: extent_between(x.left, x.right),
                height: extent_between(x.top, x.bottom),
            },
        ),
        None => None,
    }
}

/// The window chosen is one that the parent owns, and every window before
/// it belongs to another process; none is chosen only where the parent owns
/// no window at all.
pub proof fn lemma_first_owned_is_first_match(windows: Seq<WindowRecord>, pid: u32)
    ensures
        first_owned_by(windows, pid) is None <==> (forall|i: int|
            0 <= i < windows.len() ==> (#[trigger] windows[i]).owner_pid != pid),
        first_owned_by(windows, pid) is Some ==> exists|k: int|
            0 <= k < windows.len() && (#[trigger] windows[k]).owner_pid == pid
                && windows[k].handle == first_owned_by(windows, pid)->0 && forall|j: int|
                0 <= j < k ==> (#[trigger] windows[j]).owner_pid != pid,
    decreases windows.len(),
{
    if windows.len() > 0 {
        let rest = windows.drop_first();
        lemma_first_owned_is_first_match(rest, pid);
        if windows[0].owner_pid != pid {
            assert forall|i: int| 0 < i < windows.len() implies windows[i] == rest[i - 1] by {}
            if first_owned_by(rest, pid) is Some {
                let k = choose|k: int|
                    0 <= k < rest.len() && (#[trigger] rest[k]).owner_pid == pid
                        && rest[k].handle == first_owned_by(rest, pid)->0 && forall|j: int|
                        0 <= j < k ==> (#[trigger] rest[j]).owner_pid != pid;
                assert(windows[k + 1] == rest[k]);
                assert forall|j: int| 0 <= j < k + 1 implies (#[trigger] windows[j]).owner_pid
                    != pid by {
                    if j > 0 {
                        assert(windows[j] == rest[j - 1]);
                    }
                }
            } else {
                assert forall|i: int| 0 <= i < windows.len() implies (
                #[trigger] windows[i]).owner_pid != pid by {
                    if i > 0 {
                        assert(windows[i] == rest[i - 1]);
                    }
                }
            }
        } else {
            assert(windows[0].owner_pid == pid);
        }
    }
}

/// Windows of other processes do not change the choice: taking one away
/// leaves the result as it was.
pub proof fn lemma_other_windows_do_not_matter(windows: Seq<WindowRecord>, i: int, pid: u32)
    requires
        0 <= i < windows.len(),
        windows[i].owner_pid != pid,
    ensures
        first_owned_by(windows.remove(i), pid) == first_owned_by(windows, pid),
    decreases windows.len(),
{
    if i == 0 {
        assert(windows.remove(0) =~= windows.drop_first());
    } else {
        let rest = windows.drop_first();
        lemma_other_windows_do_not_matter(rest, i - 1, pid);
        let shorter = windows.remove(i);
        assert(shorter[0] == windows[0]);
        assert(shorter.drop_first() =~= rest.remove(i - 1));
    }
}

} // verus!
