//! A drop-down list of which exactly one item is selected.
use vstd::prelude::*;

verus! {

/// An item of a `List`: it has a name and can be selected.
pub trait ListItem {
    spec fn item_name(&self) -> Seq<char>;

    spec fn is_selected(&self) -> bool;

    fn name(&self) -> (r: &str)
        ensures
            r@ == self.item_name(),
    ;

    fn selected(&self) -> (r: bool)
        ensures
            r == self.is_selected(),
    ;

    fn set_selected(&mut self, value: bool)
        ensures
            final(self).is_selected() == value,
            final(self).item_name() == old(self).item_name(),
    ;
}

/// The turn of the mouse wheel over the list during a frame.
#[derive(PartialEq, Eq, Structural, Clone, Copy, Debug)]
pub enum Wheel {
    Up,
    Down,
    Still,
}

/// What the user did to a list during a frame.
pub struct ListInput {
    /// The entry chosen in the open drop-down, if any.
    pub chosen: Option<usize>,
    /// Whether the list's window has the focus.
    pub focused: bool,
    /// Whether the up or the down arrow key was pressed.
    pub arrow_pressed: bool,
    /// Whether the pointer is over the list.
    pub hovered: bool,
    /// How the wheel turned.
    pub wheel: Wheel,
}

/// A drop-down list.
pub struct List {
    pub label: String,
}

/// The index of the first `true` in `flags` from `from` on, or 0 where there is none.
pub open spec fn first_selected(flags: Seq<bool>, from: int) -> int
    decreases flags.len() - from,
{
    if from < 0 || from >= flags.len() {
        0
    } else if flags[from] {
        from
    } else {
        first_selected(flags, from + 1)
    }
}

/// The index before `i` in a list of `n`, wrapping from the first to the last.
pub open spec fn previous(i: int, n: int) -> int {
    if i == 0 {
        n - 1
    } else {
        i - 1
    }
}

/// The index that a list of `flags.len()` items, selected as `flags`, selects after `input`:
/// the selected item (the first one, or the first item where none is), then the entry
/// chosen in the drop-down, then one up for an arrow key (either arrow moves up),
/// then one up or down, wrapping around, for the wheel.
pub open spec fn list_choice(flags: Seq<bool>, input: ListInput) -> int {
    let n = flags.len() as int;
    let current = first_selected(flags, 0);
    let chosen = match input.chosen {
        Some(i) => i as int,
        None => current,
    };
    let keyed = if input.focused && input.arrow_pressed {
        previous(chosen, n)
    } else {
        chosen
    };
    if input.hovered {
        match input.wheel {
            Wheel::Up => previous(keyed, n),
            Wheel::Down => (keyed + 1) % n,
            Wheel::Still => keyed,
        }
    } else {
        keyed
    }
}

/// Whether the items are selected.
pub open spec fn selection<T: ListItem>(items: Seq<T>) -> Seq<bool> {
    items.map_values(|t: T| t.is_selected())
}

pub proof fn lemma_first_selected_bounds(flags: Seq<bool>, from: int)
    requires
        flags.len() > 0,
    ensures
        0 <= first_selected(flags, from) < flags.len(),
    decreases flags.len() - from,
{
    if from < 0 || from >= flags.len() {
    } else if flags[from] {
    } else {
        lemma_first_selected_bounds(flags, from + 1);
    }
}

impl List {
    /// Applies what the user did during a frame: afterwards exactly the item at
    /// `list_choice` is selected. An empty list is left alone.
    pub fn draw<T: ListItem>(&self, items: &mut Vec<T>, input: &ListInput)
        requires
            input.chosen matches Some(i) ==> i < old(items).len(),
        ensures
            final(items).len() == old(items).len(),
            old(items).len() > 0 ==> forall|i: int|
                0 <= i < final(items).len() ==> #[trigger] final(items)@[i].is_selected() == (i
                    == list_choice(selection(old(items)@), *input)),
            old(items).len() == 0 ==> final(items)@ == old(items)@,
            forall|i: int|
                0 <= i < final(items).len() ==> #[trigger] final(items)@[i].item_name() == old(
                    items,
                )@[i].item_name(),
    {
        let n = items.len();
        if n == 0 {
            return;
        }
        let ghost flags = selection(items@);
        let mut current: usize = 0;
        let mut k: usize = 0;
        let mut found = false;
        while k < n
            invariant
                n == items.len(),
                flags == selection(items@),
                k <= n,
                !found ==> first_selected(flags, 0) == first_selected(flags, k as int),
                found ==> current == first_selected(flags, 0),
                !found ==> current == 0,
                current < n,
            decreases n - k,
        {
            assert(flags[k as int] == items@[k as int].is_selected());
            if !found && items[k].selected() {
                current = k;
                found = true;
            }
            k = k + 1;
        }
        proof {
            lemma_first_selected_bounds(flags, 0);
        }
        let mut selected_index = match input.chosen {
            Some(i) => i,
            None => current,
        };
        if input.focused && input.arrow_pressed {
            selected_index = if selected_index == 0 {
                n - 1
            } else {
                selected_index - 1
            };
        }
        if input.hovered {
            match input.wheel {
                Wheel::Up => {
                    selected_index = if selected_index == 0 {
                        n - 1
                    } else {
                        selected_index - 1
                    };
                },
                Wheel::Down => {
                    selected_index = (selected_index + 1) % n;
                },
                Wheel::Still => {},
            }
        }
        assert(selected_index == list_choice(flags, *input));
        let ghost initial = items@;
        let mut i: usize = 0;
        while i < n
            invariant
                n == items.len(),
                n == initial.len(),
                selected_index < n,
                i <= n,
                forall|j: int| 0 <= j < i ==> #[trigger] items@[j].is_selected() == (j == selected_index),
                forall|j: int| i <= j < n ==> items@[j] == initial[j],
                forall|j: int| 0 <= j < n ==> #[trigger] items@[j].item_name() == initial[j].item_name(),
            decreases n - i,
        {
            items[i].set_selected(i == selected_index);
            i = i + 1;
        }
    }
}

/// After a frame, a non-empty list has exactly one selected item.
pub proof fn law_list_single_selection(flags: Seq<bool>, input: ListInput)
    requires
        flags.len() > 0,
        input.chosen matches Some(i) ==> i < flags.len(),
    ensures
        0 <= list_choice(flags, input) < flags.len(),
{
    lemma_first_selected_bounds(flags, 0);
}

/// After a frame, a non-empty list has exactly one selected item: where each item
/// `i` is selected as `i == list_choice(..)`, which `List::draw` makes so, one item
/// is selected and every other is not.
pub proof fn law_list_exactly_one(flags: Seq<bool>, input: ListInput, after: Seq<bool>)
    requires
        flags.len() > 0,
        input.chosen matches Some(i) ==> i < flags.len(),
        after.len() == flags.len(),
        forall|i: int| 0 <= i < after.len() ==> #[trigger] after[i] == (i == list_choice(flags, input)),
    ensures
        exists|k: int|
            0 <= k < after.len() && #[trigger] after[k] && forall|j: int|
                0 <= j < after.len() && #[trigger] after[j] ==> j == k,
{
    law_list_single_selection(flags, input);
    let k = list_choice(flags, input);
    assert(after[k]);
}

/// Whether a frame brings no choice, no arrow key and no turn of the wheel.
pub open spec fn no_list_input(input: ListInput) -> bool {
    &&& input.chosen is None
    &&& !input.arrow_pressed
    &&& input.wheel == Wheel::Still
}

proof fn lemma_first_selected_single(flags: Seq<bool>, k: int, from: int)
    requires
        0 <= from <= k < flags.len(),
        forall|i: int| 0 <= i < flags.len() ==> #[trigger] flags[i] == (i == k),
    ensures
        first_selected(flags, from) == k,
    decreases k - from,
{
    if from < k {
        lemma_first_selected_single(flags, k, from + 1);
    }
}

/// A frame with no input keeps the first selected item, or selects the first item
/// where none is; and a second such frame changes nothing: on the selection that
/// the first frame leaves, it chooses the same item.
pub proof fn law_list_no_input(flags: Seq<bool>, input: ListInput, after: Seq<bool>)
    requires
        flags.len() > 0,
        no_list_input(input),
        after.len() == flags.len(),
        forall|i: int| 0 <= i < after.len() ==> #[trigger] after[i] == (i == list_choice(flags, input)),
    ensures
        list_choice(flags, input) == first_selected(flags, 0),
        list_choice(after, input) == list_choice(flags, input),
{
    lemma_first_selected_bounds(flags, 0);
    let k = first_selected(flags, 0);
    lemma_first_selected_single(after, k, 0);
}

} // verus!
