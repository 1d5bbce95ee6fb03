//! Keyboard navigation primitives: classifying navigation keys and
//! computing the next index in a cyclic list, skipping disabled items.

use vstd::prelude::*;

verus! {

/// Direction for arrow-key navigation within a list or group.
#[derive(Debug, Clone, Copy, PartialEq, Eq, Structural)]
pub enum NavDirection {
    /// Previous item (Up in vertical lists, Left in horizontal tabs).
    Previous,
    /// Next item (Down in vertical lists, Right in horizontal tabs).
    Next,
    /// Jump to the first item (Home key).
    First,
    /// Jump to the last item (End key).
    Last,
}

/// Orientation of the navigable container.
#[derive(Debug, Clone, Copy, PartialEq, Eq, Structural)]
pub enum Orientation {
    /// Vertical list: Up/Down navigate.
    Vertical,
    /// Horizontal group: Left/Right navigate.
    Horizontal,
}

/// Classifies a key name into a navigation direction for the given
/// orientation; `None` when the key does not navigate there.
pub fn classify_nav_key(key: &str, orientation: Orientation) -> (r: Option<NavDirection>)
    ensures
        r == spec_classify_nav_key(key@, orientation),
{
    let up = key_eq(key, "up");
    let down = key_eq(key, "down");
    let left = key_eq(key, "left");
    let right = key_eq(key, "right");
    let home = key_eq(key, "home");
    let end = key_eq(key, "end");
    match orientation {
        Orientation::Vertical => {
            if up {
                Some(NavDirection::Previous)
            } else if down {
                Some(NavDirection::Next)
            } else if home {
                Some(NavDirection::First)
            } else if end {
                Some(NavDirection::Last)
            } else {
                None
            }
        },
        Orientation::Horizontal => {
            if left {
                Some(NavDirection::Previous)
            } else if right {
                Some(NavDirection::Next)
            } else if home {
                Some(NavDirection::First)
            } else if end {
                Some(NavDirection::Last)
            } else {
                None
            }
        },
    }
}

/// The navigation direction a key name selects for an orientation.
pub open spec fn spec_classify_nav_key(key: Seq<char>, orientation: Orientation) -> Option<
    NavDirection,
> {
    match orientation {
        Orientation::Vertical => if key == "up"@ {
            Some(NavDirection::Previous)
        } else if key == "down"@ {
            Some(NavDirection::Next)
        } else if key == "home"@ {
            Some(NavDirection::First)
        } else if key == "end"@ {
            Some(NavDirection::Last)
        } else {
            None
        },
        Orientation::Horizontal => if key == "left"@ {
            Some(NavDirection::Previous)
        } else if key == "right"@ {
            Some(NavDirection::Next)
        } else if key == "home"@ {
            Some(NavDirection::First)
        } else if key == "end"@ {
            Some(NavDirection::Last)
        } else {
            None
        },
    }
}

/// Whether a key name is an activation key (Enter or Space).
pub fn is_activation_key(key: &str) -> (r: bool)
    ensures
        r == (key@ == "enter"@ || key@ == "space"@),
{
    let e = key_eq(key, "enter");
    let s = key_eq(key, "space");
    e || s
}

/// Whether a key name is the Escape key.
pub fn is_escape_key(key: &str) -> (r: bool)
    ensures
        r == (key@ == "escape"@),
{
    key_eq(key, "escape")
}

/// Whether a key name is Tab (with or without Shift).
pub fn is_tab_key(key: &str) -> (r: bool)
    ensures
        r == (key@ == "tab"@),
{
    key_eq(key, "tab")
}

/// Whether a key event is Shift-Tab (reverse tab navigation).
pub fn is_shift_tab(key: &str, shift: bool) -> (r: bool)
    ensures
        r == (key@ == "tab"@ && shift),
{
    let t = key_eq(key, "tab");
    t && shift
}

/// Compares a key name with an expected name, character by character.
fn key_eq(key: &str, expected: &str) -> (r: bool)
    ensures
        r == (key@ == expected@),
{
    let kn = key.unicode_len();
    let en = expected.unicode_len();
    if kn != en {
        return false;
    }
    let mut i: usize = 0;
    while i < kn
        invariant
            kn == key@.len(),
            kn == expected@.len(),
            i <= kn,
            forall|j: int| 0 <= j < i ==> key@[j] == expected@[j],
        decreases kn - i,
    {
        if key.get_char(i) != expected.get_char(i) {
            return false;
        }
        i = i + 1;
    }
    proof {
        assert(key@ =~= expected@);
    }
    true
}

/// The index one step from `i` in a cyclic list of length `count`.
pub open spec fn cyc_step(i: int, count: int, forward: bool) -> int {
    if forward {
        if i + 1 >= count {
            0
        } else {
            i + 1
        }
    } else {
        if i == 0 {
            count - 1
        } else {
            i - 1
        }
    }
}

/// The first enabled index reached from `pos` by repeated cyclic steps,
/// trying at most `tries` positions; `None` when all tried positions are
/// disabled.
pub open spec fn find_enabled(disabled: Seq<bool>, pos: int, forward: bool, tries: nat) -> Option<
    int,
>
    decreases tries,
{
    if tries == 0 {
        None
    } else if !disabled[pos] {
        Some(pos)
    } else {
        find_enabled(disabled, cyc_step(pos, disabled.len() as int, forward), forward, (tries
            - 1) as nat)
    }
}

/// The starting position for a navigation move.
pub open spec fn nav_start(current: int, direction: NavDirection, count: int) -> int {
    match direction {
        NavDirection::Previous => if current == 0 {
            count - 1
        } else {
            current - 1
        },
        NavDirection::Next => if current >= count - 1 {
            0
        } else {
            current + 1
        },
        NavDirection::First => 0,
        NavDirection::Last => count - 1,
    }
}

/// Whether the cyclic scan for a direction proceeds forward.
pub open spec fn nav_forward(direction: NavDirection) -> bool {
    match direction {
        NavDirection::Previous => false,
        NavDirection::Next => true,
        NavDirection::First => true,
        NavDirection::Last => false,
    }
}

/// The next index for a navigation move in a cyclic list: steps from the
/// current index, then skips disabled items (at most `count` positions);
/// returns the current index when every item is disabled, and 0 for an
/// empty list.
pub open spec fn spec_navigate_index(
    current: int,
    direction: NavDirection,
    count: int,
    disabled: Seq<bool>,
) -> int {
    if count == 0 {
        0
    } else {
        match find_enabled(
            disabled,
            nav_start(current, direction, count),
            nav_forward(direction),
            count as nat,
        ) {
            Some(i) => i,
            None => current,
        }
    }
}

/// Computes the next index in a list for a navigation move.
///
/// Wraps around: `Previous` from index 0 wraps to `count - 1`, `Next`
/// from the last index wraps to 0. Skips items whose entry in `disabled`
/// is true; when every item is disabled the current index is returned.
pub fn navigate_index(
    current: usize,
    direction: NavDirection,
    count: usize,
    disabled: &Vec<bool>,
) -> (r: usize)
    requires
        current < count || count == 0,
        disabled@.len() == count,
    ensures
        r == spec_navigate_index(current as int, direction, count as int, disabled@),
{
    if count == 0 {
        return 0;
    }
    let start: usize = match direction {
        NavDirection::Previous => {
            if current == 0 {
                count - 1
            } else {
                current - 1
            }
        },
        NavDirection::Next => {
            if current >= count - 1 {
                0
            } else {
                current + 1
            }
        },
        NavDirection::First => 0,
        NavDirection::Last => count - 1,
    };
    let forward: bool = match direction {
        NavDirection::Previous => false,
        NavDirection::Next => true,
        NavDirection::First => true,
        NavDirection::Last => false,
    };
    assert(start == nav_start(current as int, direction, count as int));
    assert(forward == nav_forward(direction));
    let mut idx = start;
    let mut t: usize = 0;
    while t < count
        invariant
            count > 0,
            count == disabled@.len(),
            current < count,
            start == nav_start(current as int, direction, count as int),
            forward == nav_forward(direction),
            idx < count,
            t <= count,
            find_enabled(disabled@, start as int, forward, count as nat) == find_enabled(
                disabled@,
                idx as int,
                forward,
                (count - t) as nat,
            ),
        decreases count - t,
    {
        if !disabled[idx] {
            assert(find_enabled(disabled@, idx as int, forward, (count - t) as nat) == Some(
                idx as int,
            ));
            return idx;
        }
        idx = if forward {
            if idx + 1 >= count {
                0
            } else {
                idx + 1
            }
        } else {
            if idx == 0 {
                count - 1
            } else {
                idx - 1
            }
        };
        t = t + 1;
    }
    current
}

} // verus!
