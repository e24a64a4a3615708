//! A list of check boxes with a cursor that the keyboard moves.
use vstd::prelude::*;

verus! {

/// An item of a `Menu`: it has a name and can be checked.
pub trait MenuItem {
    spec fn item_name(&self) -> Seq<char>;

    spec fn is_selected(&self) -> bool;

    fn name(&self) -> (r: &str)
        ensures
            r@ == self.item_name(),
    ;

    fn selected(&self) -> (r: bool)
        ensures
            r == self.is_selected(),
    ;

    fn set_selected(&mut self, value: bool)
        ensures
            final(self).is_selected() == value,
            final(self).item_name() == old(self).item_name(),
    ;
}

/// What the user did to a menu during a frame.
pub struct MenuInput {
    /// The item whose check box was clicked, if any.
    pub toggled: Option<usize>,
    /// The item whose name was clicked, if any.
    pub clicked: Option<usize>,
    /// Whether the menu's window has the focus.
    pub focused: bool,
    pub up: bool,
    pub down: bool,
    pub left: bool,
    pub right: bool,
    /// Whether `A` was pressed with `Ctrl` held.
    pub select_all: bool,
    pub space: bool,
}

/// A menu of check boxes; `index` is the item under the keyboard cursor.
pub struct Menu {
    pub label: String,
    pub horizontal: bool,
    pub index: usize,
}

/// Whether item `i`, checked as `f`, is checked after the clicks of `input`: a
/// click on its check box flips it, and so does a click on its name.
pub open spec fn after_clicks(f: bool, i: int, input: MenuInput) -> bool {
    let a = if input.toggled == Some(i as usize) {
        !f
    } else {
        f
    };
    if input.clicked == Some(i as usize) {
        !a
    } else {
        a
    }
}

/// `o`, where it is below `i`.
pub open spec fn below(o: Option<usize>, i: int) -> Option<int> {
    match o {
        Some(t) if (t as int) < i => Some(t as int),
        _ => None,
    }
}

/// The later of two item indices.
pub open spec fn later(a: Option<int>, b: Option<int>) -> Option<int> {
    match (a, b) {
        (Some(x), Some(y)) => Some(if x < y {
            y
        } else {
            x
        }),
        (Some(x), None) => Some(x),
        (None, y) => y,
    }
}

/// The cursor after the clicks on the first `i` items: on the last item clicked.
pub open spec fn cursor_after_clicks(index: int, input: MenuInput, i: int) -> int {
    match later(below(input.toggled, i), below(input.clicked, i)) {
        Some(k) => k,
        None => index,
    }
}

pub open spec fn moves_back(horizontal: bool, input: MenuInput) -> bool {
    (!horizontal && input.up) || (horizontal && input.left)
}

pub open spec fn moves_forward(horizontal: bool, input: MenuInput) -> bool {
    (!horizontal && input.down) || (horizontal && input.right)
}

/// The cursor after the clicks and a step back, stopping at the first item.
pub open spec fn cursor_after_back(index: int, n: int, horizontal: bool, input: MenuInput) -> int {
    let i = cursor_after_clicks(index, input, n);
    if input.focused && moves_back(horizontal, input) {
        if i > 0 {
            i - 1
        } else {
            0
        }
    } else {
        i
    }
}

/// The cursor at the end of the frame: a step forward stops at the last item.
pub open spec fn menu_cursor(index: int, n: int, horizontal: bool, input: MenuInput) -> int {
    let i = cursor_after_back(index, n, horizontal, input);
    if input.focused && moves_forward(horizontal, input) {
        if i + 1 < n - 1 {
            i + 1
        } else {
            n - 1
        }
    } else {
        i
    }
}

/// The checks at the end of the frame: the clicks; then, with the focus, `Ctrl+A`
/// checks every item if one was unchecked and unchecks every item otherwise; then
/// the space bar flips the item under the cursor.
pub open spec fn menu_checks(flags: Seq<bool>, index: int, horizontal: bool, input: MenuInput) -> Seq<bool> {
    let n = flags.len() as int;
    let clicked = Seq::new(flags.len(), |i: int| after_clicks(flags[i], i, input));
    let all = if input.focused && input.select_all {
        let value = exists|i: int| 0 <= i < n && !clicked[i];
        Seq::new(flags.len(), |i: int| value)
    } else {
        clicked
    };
    let c = menu_cursor(index, n, horizontal, input);
    if input.focused && input.space {
        all.update(c, !all[c])
    } else {
        all
    }
}

/// Whether the items are checked.
pub open spec fn checks<T: MenuItem>(items: Seq<T>) -> Seq<bool> {
    items.map_values(|t: T| t.is_selected())
}

/// Whether a frame with `input` can be applied to a menu of `len` items whose
/// cursor is at `index`: what `Menu::draw` requires.
pub open spec fn menu_draw_allowed(index: int, horizontal: bool, len: int, input: MenuInput) -> bool {
    &&& input.toggled matches Some(i) ==> i < len
    &&& input.clicked matches Some(i) ==> i < len
    &&& len > 0 && input.focused && moves_forward(horizontal, input) ==> cursor_after_back(
        index,
        len,
        horizontal,
        input,
    ) < usize::MAX
    &&& len > 0 && input.focused && input.space ==> menu_cursor(index, len, horizontal, input)
        < len
}

impl Menu {
    /// Decides whether `draw` may be called with `len` items and `input`; where it
    /// may not, the frame would press the space bar past the last item.
    pub fn draw_is_safe(&self, len: usize, input: &MenuInput) -> (r: bool)
        ensures
            r == menu_draw_allowed(self.index as int, self.horizontal, len as int, *input),
    {
        if let Some(i) = input.toggled {
            if i >= len {
                return false;
            }
        }
        if let Some(i) = input.clicked {
            if i >= len {
                return false;
            }
        }
        if len == 0 {
            return true;
        }
        let c1 = match (input.toggled, input.clicked) {
            (Some(t), Some(c)) => if t < c {
                c
            } else {
                t
            },
            (Some(t), None) => t,
            (None, Some(c)) => c,
            (None, None) => self.index,
        };
        let back = (!self.horizontal && input.up) || (self.horizontal && input.left);
        let c2 = if input.focused && back {
            if c1 > 0 {
                c1 - 1
            } else {
                0
            }
        } else {
            c1
        };
        let forward = (!self.horizontal && input.down) || (self.horizontal && input.right);
        if input.focused && forward && c2 == usize::MAX {
            return false;
        }
        let c3 = if input.focused && forward {
            if c2 + 1 < len - 1 {
                c2 + 1
            } else {
                len - 1
            }
        } else {
            c2
        };
        !(input.focused && input.space) || c3 < len
    }

    /// Applies what the user did during a frame. An empty menu is left alone.
    ///
    /// Pressing the space bar when the cursor is past the last item is refused,
    /// as is a step forward from the largest index.
    pub fn draw<T: MenuItem>(&mut self, items: &mut Vec<T>, input: &MenuInput)
        requires
            menu_draw_allowed(
                old(self).index as int,
                old(self).horizontal,
                old(items).len() as int,
                *input,
            ),
        ensures
            final(items).len() == old(items).len(),
            final(self).label == old(self).label,
            final(self).horizontal == old(self).horizontal,
            old(items).len() == 0 ==> final(items)@ == old(items)@ && *final(self) == *old(self),
            old(items).len() > 0 ==> final(self).index == menu_cursor(
                old(self).index as int,
                old(items).len() as int,
                old(self).horizontal,
                *input,
            ),
            old(items).len() > 0 ==> checks(final(items)@) == menu_checks(
                checks(old(items)@),
                old(self).index as int,
                old(self).horizontal,
                *input,
            ),
            forall|i: int|
                0 <= i < final(items).len() ==> #[trigger] final(items)@[i].item_name() == old(
                    items,
                )@[i].item_name(),
    {
        let n = items.len();
        if n == 0 {
            return;
        }
        let ghost flags = checks(items@);
        let ghost initial = items@;
        let ghost start = self.index as int;
        let ghost clicked = Seq::new(flags.len(), |i: int| after_clicks(flags[i], i, *input));
        let mut i: usize = 0;
        while i < n
            invariant
                n == items.len(),
                n == initial.len(),
                flags == checks(initial),
                clicked == Seq::new(flags.len(), |i: int| after_clicks(flags[i], i, *input)),
                i <= n,
                self.label == old(self).label,
                self.horizontal == old(self).horizontal,
                start == old(self).index as int,
                self.index == cursor_after_clicks(start, *input, i as int),
                forall|j: int| 0 <= j < i ==> #[trigger] items@[j].is_selected() == clicked[j],
                forall|j: int| i <= j < n ==> items@[j] == initial[j],
                forall|j: int|
                    0 <= j < n ==> #[trigger] items@[j].item_name() == initial[j].item_name(),
                input.toggled matches Some(t) ==> t < n,
                input.clicked matches Some(t) ==> t < n,
            decreases n - i,
        {
            let mut selected = items[i].selected();
            assert(selected == flags[i as int]);
            if input.toggled == Some(i) {
                selected = !selected;
                items[i].set_selected(selected);
                self.index = i;
            }
            if input.clicked == Some(i) {
                items[i].set_selected(!selected);
                self.index = i;
            }
            i = i + 1;
        }
        let ghost after_items = items@;
        assert(checks(items@) =~= clicked);
        if input.focused {
            let back = (!self.horizontal && input.up) || (self.horizontal && input.left);
            if back {
                self.index = if self.index > 0 {
                    self.index - 1
                } else {
                    0
                };
            }
            let forward = (!self.horizontal && input.down) || (self.horizontal && input.right);
            if forward {
                self.index = if self.index + 1 < n - 1 {
                    self.index + 1
                } else {
                    n - 1
                };
            }
            if input.select_all {
                let mut should_select = false;
                let mut k: usize = 0;
                while k < n
                    invariant
                        n == items.len(),
                        items@ == after_items,
                        checks(after_items) == clicked,
                        clicked.len() == n,
                        k <= n,
                        should_select == exists|j: int| 0 <= j < k && !clicked[j],
                    decreases n - k,
                {
                    if !items[k].selected() {
                        should_select = true;
                    }
                    assert(clicked[k as int] == items@[k as int].is_selected());
                    k = k + 1;
                }
                let mut k: usize = 0;
                while k < n
                    invariant
                        n == items.len(),
                        n == initial.len(),
                        k <= n,
                        forall|j: int| 0 <= j < k ==> #[trigger] items@[j].is_selected() == should_select,
                        forall|j: int| k <= j < n ==> items@[j] == after_items[j],
                        forall|j: int|
                            0 <= j < n ==> #[trigger] items@[j].item_name() == initial[j].item_name(),
                    decreases n - k,
                {
                    items[k].set_selected(should_select);
                    k = k + 1;
                }
                assert(checks(items@) =~= Seq::new(flags.len(), |j: int| should_select));
            }
            if input.space {
                let idx = self.index;
                let value = items[idx].selected();
                let ghost before_space = checks(items@);
                items[idx].set_selected(!value);
                assert(checks(items@) =~= before_space.update(idx as int, !value));
            }
        }
    }
}

/// `Ctrl+A` leaves every item alike: all checked if one was unchecked, all
/// unchecked otherwise (the space bar aside).
pub proof fn law_select_all_uniform(flags: Seq<bool>, index: int, horizontal: bool, input: MenuInput)
    requires
        input.focused,
        input.select_all,
        !input.space,
    ensures
        forall|i: int|
            0 <= i < flags.len() ==> #[trigger] menu_checks(flags, index, horizontal, input)[i]
                == exists|j: int|
                0 <= j < flags.len() && !after_clicks(flags[j], j, input),
{
    let n = flags.len() as int;
    let clicked = Seq::new(flags.len(), |i: int| after_clicks(flags[i], i, input));
    assert((exists|j: int| 0 <= j < n && !clicked[j]) == (exists|j: int|
        0 <= j < n && !after_clicks(flags[j], j, input))) by {
        if exists|j: int| 0 <= j < n && !clicked[j] {
            let j = choose|j: int| 0 <= j < n && !clicked[j];
            assert(!after_clicks(flags[j], j, input));
        }
        if exists|j: int| 0 <= j < n && !after_clicks(flags[j], j, input) {
            let j = choose|j: int| 0 <= j < n && !after_clicks(flags[j], j, input);
            assert(!clicked[j]);
        }
    }
}

/// A click on the check box of an item, or on its name, flips that item and
/// leaves every other item as it was (with no `Ctrl+A` and no space bar).
pub proof fn law_click_flips_item(flags: Seq<bool>, index: int, horizontal: bool, input: MenuInput, i: int)
    requires
        0 <= i < flags.len() <= usize::MAX,
        (input.toggled == Some(i as usize) && input.clicked is None) || (input.clicked == Some(
            i as usize,
        ) && input.toggled is None),
        !(input.focused && (input.select_all || input.space)),
    ensures
        menu_checks(flags, index, horizontal, input).len() == flags.len(),
        menu_checks(flags, index, horizontal, input)[i] == !flags[i],
        forall|j: int|
            0 <= j < flags.len() && j != i ==> #[trigger] menu_checks(flags, index, horizontal, input)[j]
                == flags[j],
{
}

/// The space bar, with the focus and no click, no step and no `Ctrl+A`, flips the
/// item under the cursor and leaves every other item as it was.
pub proof fn law_space_flips_cursor_item(flags: Seq<bool>, index: int, horizontal: bool, input: MenuInput)
    requires
        0 <= index < flags.len() <= usize::MAX,
        input.toggled is None,
        input.clicked is None,
        input.focused,
        input.space,
        !input.select_all,
        !moves_back(horizontal, input),
        !moves_forward(horizontal, input),
    ensures
        menu_checks(flags, index, horizontal, input).len() == flags.len(),
        menu_checks(flags, index, horizontal, input)[index] == !flags[index],
        forall|j: int|
            0 <= j < flags.len() && j != index ==> #[trigger] menu_checks(flags, index, horizontal, input)[j]
                == flags[j],
{
}

/// A cursor on an item stays on an item.
pub proof fn law_cursor_in_bounds(index: int, n: int, horizontal: bool, input: MenuInput)
    requires
        0 <= index < n,
        input.toggled matches Some(i) ==> i < n,
        input.clicked matches Some(i) ==> i < n,
    ensures
        0 <= menu_cursor(index, n, horizontal, input) < n,
{
}

/// How the cursor moves: with no click, a step back goes one item back and stops
/// at the first, a step forward goes one item on and stops at the last; with no
/// step, a click on the name of item `i` puts the cursor on `i`.
pub proof fn law_menu_cursor_moves(index: int, n: int, horizontal: bool, input: MenuInput)
    requires
        0 <= index < n,
        input.toggled matches Some(i) ==> i < n,
        input.clicked matches Some(i) ==> i < n,
    ensures
        input.toggled is None && input.clicked is None && input.focused && moves_back(
            horizontal,
            input,
        ) && !moves_forward(horizontal, input) ==> menu_cursor(index, n, horizontal, input)
            == if index > 0 {
            index - 1
        } else {
            0
        },
        input.toggled is None && input.clicked is None && input.focused && moves_forward(
            horizontal,
            input,
        ) && !moves_back(horizontal, input) ==> menu_cursor(index, n, horizontal, input)
            == if index + 1 < n - 1 {
            index + 1
        } else {
            n - 1
        },
        input.toggled is None && !(input.focused && (moves_back(horizontal, input) || moves_forward(
            horizontal,
            input,
        ))) ==> menu_cursor(index, n, horizontal, input) == match input.clicked {
            Some(i) => i as int,
            None => index,
        },
{
}

} // verus!
