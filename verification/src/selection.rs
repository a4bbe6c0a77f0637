//! Which entry of a list is selected, and how that changes.
use vstd::prelude::*;

use crate::model::{views, Monitor, MonitorView};
use crate::text::same_text;

verus! {

/// The selected entry of a list, if there is one.
#[derive(Clone, Copy, Debug)]
pub struct ListState {
    pub selected: Option<usize>,
}

impl View for ListState {
    type V = Option<usize>;

    open spec fn view(&self) -> Option<usize> {
        self.selected
    }
}

impl Default for ListState {
    /// Nothing is selected.
    fn default() -> (state: Self)
        ensures
            state@ is None,
    {
        ListState { selected: None }
    }
}

impl ListState {
    /// The index of the selected entry.
    pub fn selected(&self) -> (index: Option<usize>)
        ensures
            index == self@,
    {
        self.selected
    }

    /// Selects an entry, or none.
    pub fn select(&mut self, index: Option<usize>)
        ensures
            final(self)@ == index,
    {
        self.selected = index;
    }
}

/// The selection after a step down in a list of `len` entries: the last entry
/// is followed by the first, and so is a selection that lies outside the list.
pub open spec fn next_selection(selected: Option<usize>, len: nat) -> Option<usize> {
    if len == 0 {
        None
    } else {
        match selected {
            Some(index) if index + 1 < len => Some((index + 1) as usize),
            _ => Some(0),
        }
    }
}

/// The selection after a step up in a list of `len` entries: the first entry
/// follows the last, and without a selection the last entry is taken.
pub open spec fn previous_selection(selected: Option<usize>, len: nat) -> Option<usize> {
    if len == 0 {
        None
    } else {
        match selected {
            Some(index) if index > 0 => Some((index - 1) as usize),
            _ => Some((len - 1) as usize),
        }
    }
}

/// The index of the first element for which `holds` is true.
pub open spec fn position<A>(s: Seq<A>, holds: spec_fn(A) -> bool) -> Option<nat>
    decreases s.len(),
{
    if s.len() == 0 {
        None
    } else if holds(s[0]) {
        Some(0)
    } else {
        match position(s.drop_first(), holds) {
            Some(index) => Some(index + 1),
            None => None,
        }
    }
}

/// The predicate of being the name `target`.
pub open spec fn is_name(target: Seq<char>) -> spec_fn(Seq<char>) -> bool {
    |name: Seq<char>| name == target
}

/// The index of the first occurrence of a name.
pub open spec fn name_position(names: Seq<Seq<char>>, target: Seq<char>) -> Option<nat> {
    position(names, is_name(target))
}

/// The selection in a list with these names: the first that is named as the
/// selection was before, else the first of all.
pub open spec fn selection_by_name(names: Seq<Seq<char>>, previous: Option<Seq<char>>) -> Option<
    usize,
> {
    if names.len() == 0 {
        None
    } else {
        match previous {
            Some(target) => match name_position(names, target) {
                Some(index) => Some(index as usize),
                None => Some(0),
            },
            None => Some(0),
        }
    }
}

/// The names of monitors.
pub open spec fn monitor_names(monitors: Seq<MonitorView>) -> Seq<Seq<char>> {
    monitors.map_values(|monitor: MonitorView| monitor.name)
}

/// The predicate of having the focus.
pub open spec fn has_focus() -> spec_fn(MonitorView) -> bool {
    |monitor: MonitorView| monitor.focused
}

/// The index of the first monitor that has the focus.
pub open spec fn focus_position(monitors: Seq<MonitorView>) -> Option<nat> {
    position(monitors, has_focus())
}

/// The selection among monitors: the first that is named as the selection was
/// before, else the first that has the focus, else the first of all.
pub open spec fn monitor_selection(
    monitors: Seq<MonitorView>,
    previous: Option<Seq<char>>,
) -> Option<usize> {
    let same = match previous {
        Some(target) => name_position(monitor_names(monitors), target),
        None => None,
    };
    if monitors.len() == 0 {
        None
    } else if same is Some {
        Some(same->0 as usize)
    } else {
        match focus_position(monitors) {
            Some(index) => Some(index as usize),
            None => Some(0),
        }
    }
}

/// `position` finds an element for which `holds` is true, with none before it;
/// where it finds none, there is none.
pub proof fn position_is_first<A>(s: Seq<A>, holds: spec_fn(A) -> bool)
    ensures
        match position(s, holds) {
            Some(k) => k < s.len() && holds(s[k as int]) && forall|i: int|
                0 <= i < k ==> !holds(#[trigger] s[i]),
            None => forall|i: int| 0 <= i < s.len() ==> !holds(#[trigger] s[i]),
        },
    decreases s.len(),
{
    if s.len() > 0 && !holds(s[0]) {
        let rest = s.drop_first();
        position_is_first(rest, holds);
        match position(rest, holds) {
            Some(k) => {
                assert(rest[k as int] == s[k as int + 1]);
                assert forall|i: int| 0 <= i < k + 1 implies !holds(#[trigger] s[i]) by {
                    if i > 0 {
                        assert(s[i] == rest[i - 1]);
                    }
                }
            },
            None => {
                assert forall|i: int| 0 <= i < s.len() implies !holds(#[trigger] s[i]) by {
                    if i > 0 {
                        assert(s[i] == rest[i - 1]);
                    }
                }
            },
        }
    }
}

/// Where `holds` is first true is where `position` finds it.
pub proof fn lemma_position_is<A>(s: Seq<A>, holds: spec_fn(A) -> bool, k: int)
    requires
        0 <= k < s.len(),
        holds(s[k]),
        forall|i: int| 0 <= i < k ==> !holds(#[trigger] s[i]),
    ensures
        position(s, holds) == Some(k as nat),
{
    position_is_first(s, holds);
    match position(s, holds) {
        Some(p) => {
            if p < k {
                assert(!holds(s[p as int]));
            }
            if k < p {
                assert(!holds(s[k]));
            }
        },
        None => {
            assert(!holds(s[k]));
        },
    }
}

/// Where `holds` is never true, `position` finds nothing.
pub proof fn lemma_position_none<A>(s: Seq<A>, holds: spec_fn(A) -> bool)
    requires
        forall|i: int| 0 <= i < s.len() ==> !holds(#[trigger] s[i]),
    ensures
        position(s, holds) is None,
{
    position_is_first(s, holds);
}

/// Moves the selection one entry down.
pub fn select_next(state: &mut ListState, len: usize)
    ensures
        final(state)@ == next_selection(old(state)@, len as nat),
{
    if len == 0 {
        state.select(None);
        return;
    }
    let next: usize = match state.selected() {
        Some(index) if index < len - 1 => index + 1,
        _ => 0,
    };
    state.select(Some(next));
}

/// Moves the selection one entry up.
pub fn select_previous(state: &mut ListState, len: usize)
    ensures
        final(state)@ == previous_selection(old(state)@, len as nat),
{
    if len == 0 {
        state.select(None);
        return;
    }
    let previous: usize = match state.selected() {
        Some(0) | None => len - 1,
        Some(index) => index - 1,
    };
    state.select(Some(previous));
}

/// Selects the first item that is named `previous_name`, else the first item.
pub fn select_by_name<T>(
    state: &mut ListState,
    items: &[T],
    previous_name: Option<&str>,
    name: impl Fn(&T) -> &str,
)
    requires
        forall|i: int| 0 <= i < items@.len() ==> call_requires(name, (&#[trigger] items@[i],)),
    ensures
        forall|names: Seq<Seq<char>>| #[trigger]
            gives_names(items@, name, names) ==> final(state)@ == selection_by_name(
                names,
                text_of(previous_name),
            ),
{
    if items.len() == 0 {
        state.select(None);
        return;
    }
    let mut selected: usize = 0;
    if let Some(target) = previous_name {
        if let Some(index) = find_name(items, target, name) {
            selected = index;
        }
    }
    state.select(Some(selected));
}

/// The index of the first item that is named `target`.
fn find_name<T>(items: &[T], target: &str, name: impl Fn(&T) -> &str) -> (found: Option<usize>)
    requires
        forall|i: int| 0 <= i < items@.len() ==> call_requires(name, (&#[trigger] items@[i],)),
    ensures
        forall|names: Seq<Seq<char>>| #[trigger]
            gives_names(items@, name, names) ==> match name_position(names, target@) {
                Some(index) => found == Some(index as usize),
                None => found is None,
            },
{
    let mut index: usize = 0;
    while index < items.len()
        invariant
            index <= items@.len(),
            forall|i: int| 0 <= i < items@.len() ==> call_requires(name, (&#[trigger] items@[i],)),
            forall|names: Seq<Seq<char>>, i: int|
                gives_names(items@, name, names) && 0 <= i < index ==> #[trigger] names[i]
                    != target@,
        decreases items@.len() - index,
    {
        let label = name(&items[index]);
        if same_text(label, target) {
            proof {
                assert forall|names: Seq<Seq<char>>| #[trigger]
                    gives_names(items@, name, names) implies name_position(names, target@) == Some(
                    index as nat,
                ) by {
                    lemma_position_is(names, is_name(target@), index as int);
                }
            }
            return Some(index);
        }
        index = index + 1;
    }
    proof {
        assert forall|names: Seq<Seq<char>>| #[trigger]
            gives_names(items@, name, names) implies name_position(names, target@) is None by {
            lemma_position_none(names, is_name(target@));
        }
    }
    None
}

/// Selects the first monitor that is named `previous_name`, else the first that
/// has the focus, else the first monitor.
pub fn select_monitor(state: &mut ListState, monitors: &[Monitor], previous_name: Option<&str>)
    ensures
        final(state)@ == monitor_selection(views(monitors@), text_of(previous_name)),
{
    if monitors.len() == 0 {
        state.select(None);
        return;
    }
    if let Some(target) = previous_name {
        if let Some(index) = find_monitor(monitors, target) {
            state.select(Some(index));
            return;
        }
    }
    match find_focused(monitors) {
        Some(index) => state.select(Some(index)),
        None => state.select(Some(0)),
    }
}

fn find_monitor(monitors: &[Monitor], target: &str) -> (found: Option<usize>)
    ensures
        match name_position(monitor_names(views(monitors@)), target@) {
            Some(index) => found == Some(index as usize) && index < monitors@.len(),
            None => found is None,
        },
{
    let ghost names = monitor_names(views(monitors@));
    let ghost named = is_name(target@);
    let mut index: usize = 0;
    while index < monitors.len()
        invariant
            index <= monitors@.len(),
            names == monitor_names(views(monitors@)),
            named == is_name(target@),
            forall|i: int| 0 <= i < index ==> !named(#[trigger] names[i]),
        decreases monitors@.len() - index,
    {
        if same_text(monitors[index].name.as_str(), target) {
            proof {
                lemma_position_is(names, named, index as int);
            }
            return Some(index);
        }
        index = index + 1;
    }
    proof {
        lemma_position_none(names, named);
    }
    None
}

fn find_focused(monitors: &[Monitor]) -> (found: Option<usize>)
    ensures
        match focus_position(views(monitors@)) {
            Some(index) => found == Some(index as usize) && index < monitors@.len(),
            None => found is None,
        },
{
    let ghost all = views(monitors@);
    let ghost focused = has_focus();
    let mut index: usize = 0;
    while index < monitors.len()
        invariant
            index <= monitors@.len(),
            all == views(monitors@),
            focused == has_focus(),
            forall|i: int| 0 <= i < index ==> !focused(#[trigger] all[i]),
        decreases monitors@.len() - index,
    {
        if monitors[index].focused {
            proof {
                lemma_position_is(all, focused, index as int);
            }
            return Some(index);
        }
        index = index + 1;
    }
    proof {
        lemma_position_none(all, focused);
    }
    None
}

/// What a text holds, if there is one.
pub open spec fn text_of(text: Option<&str>) -> Option<Seq<char>> {
    match text {
        Some(t) => Some(t@),
        None => None,
    }
}

/// `name` yields `names[i]` for the item at `i`.
pub open spec fn gives_names<T, F: Fn(&T) -> &str>(
    items: Seq<T>,
    name: F,
    names: Seq<Seq<char>>,
) -> bool {
    &&& names.len() == items.len()
    &&& forall|i: int, found: &str|
        0 <= i < items.len() && #[trigger] call_ensures(name, (&items[i],), found) ==> found@
            == names[i]
}

/// Whether a selection lies inside a list of `len` entries.
pub open spec fn in_list(selected: Option<usize>, len: nat) -> bool {
    match selected {
        Some(index) => index < len,
        None => true,
    }
}

/// Inside a list, a step down and a step up undo each other.
pub proof fn steps_undo_each_other(index: usize, len: usize)
    requires
        index < len,
    ensures
        previous_selection(next_selection(Some(index), len as nat), len as nat) == Some(index),
        next_selection(previous_selection(Some(index), len as nat), len as nat) == Some(index),
{
}

/// A step down ends inside the list from wherever it starts, and so does a step
/// up that starts there; after either, something is selected unless the list is
/// empty.
pub proof fn steps_stay_in_list(selected: Option<usize>, len: usize)
    ensures
        in_list(next_selection(selected, len as nat), len as nat),
        in_list(selected, len as nat) ==> in_list(
            previous_selection(selected, len as nat),
            len as nat,
        ),
        next_selection(selected, len as nat) is None <==> len == 0,
        previous_selection(selected, len as nat) is None <==> len == 0,
{
}

/// The selection after `n` steps down.
pub open spec fn after_steps_down(selected: Option<usize>, len: nat, n: nat) -> Option<usize>
    decreases n,
{
    if n == 0 {
        selected
    } else {
        next_selection(after_steps_down(selected, len, (n - 1) as nat), len)
    }
}

/// Steps down walk round the list: `n` of them lead `n` entries on, and from
/// the last entry back to the first.
pub proof fn steps_down_walk_round(index: usize, len: usize, n: nat)
    requires
        index < len,
    ensures
        after_steps_down(Some(index), len as nat, n) == Some(((index + n) % (len as int)) as usize),
    decreases n,
{
    if n == 0 {
        vstd::arithmetic::div_mod::lemma_small_mod(index as nat, len as nat);
    } else {
        steps_down_walk_round(index, len, (n - 1) as nat);
        let before = index + n - 1;
        let l = len as int;
        vstd::arithmetic::div_mod::lemma_mod_bound(before, l);
        let r = before % l;
        let q = before / l;
        vstd::arithmetic::div_mod::lemma_fundamental_div_mod(before, l);
        assert(l * q == q * l) by (nonlinear_arith);
        if r + 1 < l {
            vstd::arithmetic::div_mod::lemma_fundamental_div_mod_converse(
                before + 1,
                l,
                q,
                r + 1,
            );
        } else {
            assert((q + 1) * l == q * l + l) by (nonlinear_arith);
            vstd::arithmetic::div_mod::lemma_fundamental_div_mod_converse(
                before + 1,
                l,
                q + 1,
                0,
            );
        }
    }
}

/// What is selected by name lies inside the list, and is nothing only in an
/// empty list. It bears the name of the selection before, if anything does.
pub proof fn selection_by_name_keeps_name(names: Seq<Seq<char>>, previous: Option<Seq<char>>)
    requires
        names.len() <= usize::MAX,
    ensures
        selection_by_name(names, previous) is None <==> names.len() == 0,
        in_list(selection_by_name(names, previous), names.len()),
        previous is Some && names.contains(previous->0) ==> names[selection_by_name(
            names,
            previous,
        )->0 as int] == previous->0,
        previous is Some && !names.contains(previous->0) && names.len() > 0 ==> selection_by_name(
            names,
            previous,
        ) == Some(0usize),
{
    if let Some(target) = previous {
        position_is_first(names, is_name(target));
    }
}

/// What is selected among monitors lies inside the list, and is nothing only in
/// an empty list. It bears the name of the selection before, if any monitor
/// does; else it has the focus, if any monitor has it.
pub proof fn monitor_selection_keeps_name(
    monitors: Seq<MonitorView>,
    previous: Option<Seq<char>>,
)
    requires
        monitors.len() <= usize::MAX,
    ensures
        monitor_selection(monitors, previous) is None <==> monitors.len() == 0,
        in_list(monitor_selection(monitors, previous), monitors.len()),
        previous is Some && monitor_names(monitors).contains(previous->0)
            ==> monitors[monitor_selection(monitors, previous)->0 as int].name == previous->0,
        (previous is None || !monitor_names(monitors).contains(previous->0)) && (exists|i: int|
            0 <= i < monitors.len() && (#[trigger] monitors[i]).focused)
            ==> monitors[monitor_selection(monitors, previous)->0 as int].focused,
{
    let names = monitor_names(monitors);
    if let Some(target) = previous {
        position_is_first(names, is_name(target));
    }
    position_is_first(monitors, has_focus());
}

/// A step down leads from entry `index` of `len` to `(index + 1) % len`, a step
/// up to `(index + len - 1) % len`. From nowhere, a step down leads to the first
/// entry and a step up to the last; in an empty list both lead nowhere.
pub proof fn steps_lead_to_the_neighbours(index: usize, len: usize)
    ensures
        index < len ==> next_selection(Some(index), len as nat) == Some(
            ((index + 1) % (len as int)) as usize,
        ),
        index < len ==> previous_selection(Some(index), len as nat) == Some(
            ((index + len - 1) % (len as int)) as usize,
        ),
        0 < len <= index ==> next_selection(Some(index), len as nat) == Some(0usize),
        0 < len <= index ==> previous_selection(Some(index), len as nat) == Some(
            (index - 1) as usize,
        ),
        len > 0 ==> next_selection(None, len as nat) == Some(0usize),
        len > 0 ==> previous_selection(None, len as nat) == Some((len - 1) as usize),
        len == 0 ==> next_selection(Some(index), 0) is None && next_selection(None, 0) is None,
        len == 0 ==> previous_selection(Some(index), 0) is None && previous_selection(
            None,
            0,
        ) is None,
{
    if index < len {
        let l = len as int;
        if index + 1 < len {
            vstd::arithmetic::div_mod::lemma_small_mod((index + 1) as nat, len as nat);
        } else {
            vstd::arithmetic::div_mod::lemma_mod_self_0(l);
        }
        if index > 0 {
            vstd::arithmetic::div_mod::lemma_fundamental_div_mod_converse(
                index + len - 1,
                l,
                1,
                index - 1,
            );
        } else {
            vstd::arithmetic::div_mod::lemma_small_mod((len - 1) as nat, len as nat);
        }
    }
}

/// Of the names that equal the one selected before, the first is selected; where
/// there is none, or nothing was selected, the first name of all.
pub proof fn first_of_the_name_is_selected(
    names: Seq<Seq<char>>,
    previous: Option<Seq<char>>,
    k: int,
)
    requires
        0 <= k < names.len() <= usize::MAX,
    ensures
        previous is Some && names[k] == previous->0 && (forall|i: int|
            0 <= i < k ==> #[trigger] names[i] != previous->0) ==> selection_by_name(
            names,
            previous,
        ) == Some(k as usize),
        previous is None || (forall|i: int|
            0 <= i < names.len() ==> #[trigger] names[i] != previous->0) ==> selection_by_name(
            names,
            previous,
        ) == Some(0usize),
{
    if let Some(target) = previous {
        let same = is_name(target);
        position_is_first(names, same);
        if names[k] == target && forall|i: int| 0 <= i < k ==> #[trigger] names[i] != target {
            assert forall|i: int| 0 <= i < k implies !same(#[trigger] names[i]) by {}
            lemma_position_is(names, same, k);
        }
        if forall|i: int| 0 <= i < names.len() ==> #[trigger] names[i] != target {
            assert forall|i: int| 0 <= i < names.len() implies !same(#[trigger] names[i]) by {}
            lemma_position_none(names, same);
        }
    }
}

/// Of the monitors with the name selected before, the first is selected; where
/// there is none, the first of those with the focus; where there is none either,
/// the first monitor.
pub proof fn first_monitor_is_selected(
    monitors: Seq<MonitorView>,
    previous: Option<Seq<char>>,
    k: int,
)
    requires
        0 <= k < monitors.len() <= usize::MAX,
    ensures
        ({
            let gone = previous is None || forall|i: int|
                0 <= i < monitors.len() ==> (#[trigger] monitors[i]).name != previous->0;
            let selected = monitor_selection(monitors, previous);
            &&& previous is Some && monitors[k].name == previous->0 && (forall|i: int|
                0 <= i < k ==> (#[trigger] monitors[i]).name != previous->0) ==> selected == Some(
                k as usize,
            )
            &&& gone && monitors[k].focused && (forall|i: int|
                0 <= i < k ==> !(#[trigger] monitors[i]).focused) ==> selected == Some(k as usize)
            &&& gone && (forall|i: int|
                0 <= i < monitors.len() ==> !(#[trigger] monitors[i]).focused) ==> selected == Some(
                0usize,
            )
        }),
{
    let names = monitor_names(monitors);
    let gone = previous is None || forall|i: int|
        0 <= i < monitors.len() ==> (#[trigger] monitors[i]).name != previous->0;
    if let Some(target) = previous {
        let same = is_name(target);
        if monitors[k].name == target && forall|i: int|
            0 <= i < k ==> (#[trigger] monitors[i]).name != target {
            assert forall|i: int| 0 <= i < k implies !same(#[trigger] names[i]) by {
                assert(names[i] == monitors[i].name);
            }
            lemma_position_is(names, same, k);
        }
        if gone {
            assert forall|i: int| 0 <= i < names.len() implies !same(#[trigger] names[i]) by {
                assert(names[i] == monitors[i].name);
            }
            lemma_position_none(names, same);
        }
    }
    let focused = has_focus();
    if monitors[k].focused && forall|i: int| 0 <= i < k ==> !(#[trigger] monitors[i]).focused {
        assert forall|i: int| 0 <= i < k implies !focused(#[trigger] monitors[i]) by {}
        lemma_position_is(monitors, focused, k);
    }
    if forall|i: int| 0 <= i < monitors.len() ==> !(#[trigger] monitors[i]).focused {
        assert forall|i: int| 0 <= i < monitors.len() implies !focused(#[trigger] monitors[i]) by {}
        lemma_position_none(monitors, focused);
    }
}

} // verus!
