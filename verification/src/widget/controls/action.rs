//! A list of named commands, each with a button that runs it.
use vstd::prelude::*;

verus! {

/// Something an `Action` can run: it has a name and a command.
pub trait Executor {
    spec fn executor_name(&self) -> Seq<char>;

    spec fn executor_command(&self) -> Seq<char>;

    fn name(&self) -> (r: &str)
        ensures
            r@ == self.executor_name(),
    ;

    fn command(&self) -> (r: &str)
        ensures
            r@ == self.executor_command(),
    ;
}

/// What the user did to an action list during a frame.
pub struct ActionInput {
    /// The item whose run button was clicked, if any.
    pub clicked: Option<usize>,
    /// The item under the pointer when the mouse was clicked, if any.
    pub picked: Option<usize>,
    /// Whether the list's window has the focus.
    pub focused: bool,
    pub space: bool,
    pub up: bool,
    pub down: bool,
    pub left: bool,
    pub right: bool,
}

/// A list of runnable items; `index` is the item under the keyboard cursor.
pub struct Action {
    pub label: String,
    pub horizontal: bool,
    pub index: usize,
}

/// The cursor while item `i` is drawn: on the item picked earlier in the frame,
/// if any.
pub open spec fn cursor_at(index: int, input: ActionInput, i: int) -> int {
    match input.picked {
        Some(h) if (h as int) < i => h as int,
        _ => index,
    }
}

/// The items run while the first `count` items are drawn, in order: an item runs
/// when its button is clicked, and again when the space bar is pressed with the
/// focus while the cursor is on it.
pub open spec fn runs(index: int, input: ActionInput, count: int) -> Seq<int>
    decreases count,
{
    if count <= 0 {
        Seq::empty()
    } else {
        let i = count - 1;
        runs(index, input, i) + (if input.clicked == Some(i as usize) {
            seq![i]
        } else {
            Seq::empty()
        }) + (if input.focused && input.space && cursor_at(index, input, i) == i {
            seq![i]
        } else {
            Seq::empty()
        })
    }
}

pub open spec fn steps_back(horizontal: bool, input: ActionInput) -> bool {
    (!horizontal && input.up) || (horizontal && input.left)
}

pub open spec fn steps_forward(horizontal: bool, input: ActionInput) -> bool {
    (!horizontal && input.down) || (horizontal && input.right)
}

/// The cursor after the pick and a step back, stopping at the first item.
pub open spec fn action_cursor_back(index: int, horizontal: bool, input: ActionInput) -> int {
    let i = match input.picked {
        Some(h) => h as int,
        None => index,
    };
    if input.focused && steps_back(horizontal, input) {
        if i > 0 {
            i - 1
        } else {
            0
        }
    } else {
        i
    }
}

/// The cursor at the end of the frame: a step forward stops at the last item.
pub open spec fn action_cursor(index: int, n: int, horizontal: bool, input: ActionInput) -> int {
    let i = action_cursor_back(index, horizontal, input);
    if input.focused && steps_forward(horizontal, input) {
        if i + 1 < n - 1 {
            i + 1
        } else {
            n - 1
        }
    } else {
        i
    }
}

pub open spec fn index_seq(v: Seq<usize>) -> Seq<int> {
    v.map_values(|i: usize| i as int)
}

/// Whether a frame with `input` can be applied to a list of `len` items whose
/// cursor is at `index`: what `Action::draw` requires.
pub open spec fn action_draw_allowed(index: int, horizontal: bool, len: int, input: ActionInput) -> bool {
    &&& input.clicked matches Some(i) ==> i < len
    &&& input.picked matches Some(i) ==> i < len
    &&& len > 0 && input.focused && steps_forward(horizontal, input) ==> action_cursor_back(
        index,
        horizontal,
        input,
    ) < usize::MAX
}

impl Action {
    /// Decides whether `draw` may be called with `len` items and `input`.
    pub fn draw_is_safe(&self, len: usize, input: &ActionInput) -> (r: bool)
        ensures
            r == action_draw_allowed(self.index as int, self.horizontal, len as int, *input),
    {
        if let Some(i) = input.clicked {
            if i >= len {
                return false;
            }
        }
        if let Some(i) = input.picked {
            if i >= len {
                return false;
            }
        }
        let c1 = match input.picked {
            Some(h) => h,
            None => self.index,
        };
        let back = (!self.horizontal && input.up) || (self.horizontal && input.left);
        let c2 = if input.focused && back {
            if c1 > 0 {
                c1 - 1
            } else {
                0
            }
        } else {
            c1
        };
        let forward = (!self.horizontal && input.down) || (self.horizontal && input.right);
        !(len > 0 && input.focused && forward) || c2 < usize::MAX
    }

    pub fn new() -> (r: Self)
        ensures
            r.label@ == Seq::<char>::empty(),
            !r.horizontal,
            r.index == 0,
    {
        Action { label: String::new(), horizontal: false, index: 0 }
    }

    /// Applies what the user did during a frame and returns the items to run, in
    /// the order they are run. An empty list runs nothing and is left alone.
    pub fn draw<T: Executor>(&mut self, items: &Vec<T>, input: &ActionInput) -> (run: Vec<usize>)
        requires
            input.clicked matches Some(i) ==> i < items.len(),
            input.picked matches Some(i) ==> i < items.len(),
            items.len() > 0 && input.focused && steps_forward(old(self).horizontal, *input)
                ==> action_cursor_back(old(self).index as int, old(self).horizontal, *input)
                < usize::MAX,
        ensures
            final(self).label == old(self).label,
            final(self).horizontal == old(self).horizontal,
            items.len() == 0 ==> run@.len() == 0 && final(self).index == old(self).index,
            items.len() > 0 ==> index_seq(run@) == runs(
                old(self).index as int,
                *input,
                items.len() as int,
            ),
            items.len() > 0 ==> final(self).index == action_cursor(
                old(self).index as int,
                items.len() as int,
                old(self).horizontal,
                *input,
            ),
    {
        let mut run: Vec<usize> = Vec::new();
        let n = items.len();
        if n == 0 {
            return run;
        }
        let ghost start = self.index as int;
        let mut i: usize = 0;
        while i < n
            invariant
                n == items.len(),
                i <= n,
                self.label == old(self).label,
                self.horizontal == old(self).horizontal,
                start == old(self).index as int,
                self.index == cursor_at(start, *input, i as int),
                index_seq(run@) == runs(start, *input, i as int),
                input.picked matches Some(h) ==> h < n,
            decreases n - i,
        {
            let ghost before = run@;
            if input.clicked == Some(i) {
                run.push(i);
            }
            let ghost mid = run@;
            assert(index_seq(mid) =~= index_seq(before) + (if input.clicked == Some(i) {
                seq![i as int]
            } else {
                Seq::empty()
            }));
            if input.focused && i == self.index && input.space {
                run.push(i);
            }
            assert(index_seq(run@) =~= index_seq(mid) + (if input.focused && input.space
                && cursor_at(start, *input, i as int) == i {
                seq![i as int]
            } else {
                Seq::empty()
            }));
            if input.picked == Some(i) {
                self.index = i;
            }
            i = i + 1;
        }
        if input.focused {
            if (!self.horizontal && input.up) || (self.horizontal && input.left) {
                self.index = if self.index > 0 {
                    self.index - 1
                } else {
                    0
                };
            }
            if (!self.horizontal && input.down) || (self.horizontal && input.right) {
                self.index = if self.index + 1 < n - 1 {
                    self.index + 1
                } else {
                    n - 1
                };
            }
        }
        run
    }
}

/// The keyboard cursor stays on an item: from an item of a non-empty list, after
/// any frame whose pick is an item, the cursor is on an item.
pub proof fn law_action_cursor_in_bounds(index: int, n: int, horizontal: bool, input: ActionInput)
    requires
        0 <= index < n,
        input.picked matches Some(i) ==> i < n,
    ensures
        0 <= action_cursor(index, n, horizontal, input) < n,
{
}

/// How the cursor moves: with nothing picked, a step back goes one item back and
/// stops at the first, a step forward goes one item on and stops at the last; with
/// no step, the cursor goes to the item picked with the mouse.
pub proof fn law_action_cursor_moves(index: int, n: int, horizontal: bool, input: ActionInput)
    requires
        0 <= index < n,
        input.picked matches Some(i) ==> i < n,
    ensures
        input.picked is None && input.focused && steps_back(horizontal, input) && !steps_forward(
            horizontal,
            input,
        ) ==> action_cursor(index, n, horizontal, input) == if index > 0 {
            index - 1
        } else {
            0
        },
        input.picked is None && input.focused && steps_forward(horizontal, input) && !steps_back(
            horizontal,
            input,
        ) ==> action_cursor(index, n, horizontal, input) == if index + 1 < n - 1 {
            index + 1
        } else {
            n - 1
        },
        !(input.focused && (steps_back(horizontal, input) || steps_forward(horizontal, input)))
            ==> action_cursor(index, n, horizontal, input) == match input.picked {
            Some(i) => i as int,
            None => index,
        },
{
}

/// Every item that a frame runs is an item of the list.
pub proof fn law_runs_are_items(index: int, input: ActionInput, count: int)
    requires
        0 <= count,
    ensures
        forall|k: int|
            0 <= k < runs(index, input, count).len() ==> 0 <= #[trigger] runs(index, input, count)[k]
                < count,
    decreases count,
{
    if count > 0 {
        law_runs_are_items(index, input, count - 1);
        let a = runs(index, input, count - 1);
        assert forall|k: int| 0 <= k < runs(index, input, count).len() implies 0 <= #[trigger] runs(
            index,
            input,
            count,
        )[k] < count by {
            if k < a.len() {
                assert(runs(index, input, count)[k] == a[k]);
            }
        }
    }
}

} // verus!
