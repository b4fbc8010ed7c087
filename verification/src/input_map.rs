//! Named input mapping profiles that remap or block keys and gamepad buttons
//! before they reach the platform injector.

use std::collections::HashMap;
use vstd::prelude::*;

verus! {

broadcast use vstd::std_specs::hash::group_hash_axioms;

/// A single key remapping rule.
#[derive(Debug, Clone, Copy, PartialEq, Eq, Structural)]
pub struct KeyRemap {
    /// Source keycode, as received from the client.
    pub from: u32,
    /// Keycode to inject instead, or `None` to block the key.
    pub to: Option<u32>,
}

/// A single gamepad button remapping rule.
#[derive(Debug, Clone, Copy, PartialEq, Eq, Structural)]
pub struct ButtonRemap {
    /// Source button index.
    pub from: u32,
    /// Button index to inject instead, or `None` to block the button.
    pub to: Option<u32>,
}

/// Where a table of rules sends `code`: its rule's target, or `code` itself
/// when no rule names it (`None` means blocked).
pub open spec fn resolved(rules: Map<u32, Option<u32>>, code: u32) -> Option<u32> {
    if rules.contains_key(code) {
        rules[code]
    } else {
        Some(code)
    }
}

/// Button events after the rules: each resolved, blocked ones dropped, order kept.
pub open spec fn mapped_buttons(rules: Map<u32, Option<u32>>, events: Seq<(u32, bool)>) -> Seq<
    (u32, bool),
>
    decreases events.len(),
{
    if events.len() == 0 {
        Seq::empty()
    } else {
        let rest = mapped_buttons(rules, events.drop_last());
        match resolved(rules, events.last().0) {
            Some(b) => rest.push((b, events.last().1)),
            None => rest,
        }
    }
}

/// Abstract state of an [`InputMap`].
pub ghost struct InputMapView {
    pub name: Seq<char>,
    pub keys: Map<u32, Option<u32>>,
    pub buttons: Map<u32, Option<u32>>,
}

/// A named mapping profile.
///
/// Left Ctrl (29) and Left Alt (56) can be swapped by remapping each to the
/// other, and the Windows key (125) blocked by remapping it to `None`.
#[derive(Debug, Clone)]
pub struct InputMap {
    /// Human-readable profile name.
    pub name: String,
    key_map: HashMap<u32, Option<u32>>,
    button_map: HashMap<u32, Option<u32>>,
}

impl View for InputMap {
    type V = InputMapView;

    closed spec fn view(&self) -> InputMapView {
        InputMapView { name: self.name@, keys: self.key_map@, buttons: self.button_map@ }
    }
}

impl Default for InputMap {
    fn default() -> (r: Self)
        ensures
            r@ == (InputMapView { name: Seq::empty(), keys: Map::empty(), buttons: Map::empty() }),
    {
        InputMap { name: String::new(), key_map: HashMap::new(), button_map: HashMap::new() }
    }
}

impl InputMap {
    /// An empty profile called `name`.
    pub fn new(name: &str) -> (r: Self)
        ensures
            r@ == (InputMapView { name: name@, keys: Map::empty(), buttons: Map::empty() }),
    {
        InputMap {
            name: crate::text::to_owned_string(name),
            key_map: HashMap::new(),
            button_map: HashMap::new(),
        }
    }

    /// Adds or replaces the rule for key `from`; `None` blocks it.
    pub fn remap_key(&mut self, from: u32, to: Option<u32>)
        ensures
            final(self)@ == (InputMapView { keys: old(self)@.keys.insert(from, to), ..old(self)@ }),
    {
        self.key_map.insert(from, to);
    }

    /// Adds or replaces the rule for button `from`; `None` blocks it.
    pub fn remap_button(&mut self, from: u32, to: Option<u32>)
        ensures
            final(self)@ == (InputMapView { buttons: old(self)@.buttons.insert(from, to), ..old(self)@ }),
    {
        self.button_map.insert(from, to);
    }

    /// The key to inject for `keycode`, or `None` when it is blocked.
    pub fn resolve_key(&self, keycode: u32) -> (r: Option<u32>)
        ensures
            r == resolved(self@.keys, keycode),
    {
        match self.key_map.get(&keycode) {
            Some(mapped) => *mapped,
            None => Some(keycode),
        }
    }

    /// The button to inject for `button`, or `None` when it is blocked.
    pub fn resolve_button(&self, button: u32) -> (r: Option<u32>)
        ensures
            r == resolved(self@.buttons, button),
    {
        match self.button_map.get(&button) {
            Some(mapped) => *mapped,
            None => Some(button),
        }
    }

    /// Whether the profile has no rules at all (pure pass-through).
    pub fn is_empty(&self) -> (b: bool)
        ensures
            b == (self@.keys =~= Map::empty() && self@.buttons =~= Map::empty()),
    {
        let r = self.key_map.is_empty() && self.button_map.is_empty();
        proof {
            if self.key_map@.is_empty() {
                assert(self.key_map@.dom() =~= Set::empty());
            }
            if self.button_map@.is_empty() {
                assert(self.button_map@.dom() =~= Set::empty());
            }
            if self@.keys =~= Map::empty() {
                assert(self.key_map@.dom() =~= Set::empty());
            }
            if self@.buttons =~= Map::empty() {
                assert(self.button_map@.dom() =~= Set::empty());
            }
        }
        r
    }

    /// The gamepad button events to inject for `events`: each button resolved,
    /// blocked ones dropped, order kept.
    pub fn map_gamepad_buttons(&self, events: &[(u32, bool)]) -> (r: Vec<(u32, bool)>)
        ensures
            r@ == mapped_buttons(self@.buttons, events@),
    {
        let mut r: Vec<(u32, bool)> = Vec::new();
        let mut i: usize = 0;
        while i < events.len()
            invariant
                i <= events@.len(),
                r@ == mapped_buttons(self@.buttons, events@.take(i as int)),
            decreases events@.len() - i,
        {
            let (btn, pressed) = events[i];
            proof {
                let t = events@.take(i + 1);
                assert(t.drop_last() =~= events@.take(i as int));
                assert(t.last() == (btn, pressed));
            }
            if let Some(b) = self.resolve_button(btn) {
                r.push((b, pressed));
            }
            i = i + 1;
        }
        proof {
            assert(events@.take(events@.len() as int) =~= events@);
        }
        r
    }
}

/// After a rule for `from` is set, `from` resolves to the rule's target and
/// every other code resolves as before.
pub proof fn law_remap_then_resolve(rules: Map<u32, Option<u32>>, from: u32, to: Option<u32>, other: u32)
    ensures
        resolved(rules.insert(from, to), from) == to,
        other != from ==> resolved(rules.insert(from, to), other) == resolved(rules, other),
{
}

/// A profile without rules passes every code through unchanged.
pub proof fn law_empty_passes_through(code: u32, events: Seq<(u32, bool)>)
    ensures
        resolved(Map::empty(), code) == Some(code),
        mapped_buttons(Map::empty(), events) == events,
    decreases events.len(),
{
    if events.len() > 0 {
        law_empty_passes_through(code, events.drop_last());
        assert(events.drop_last().push(events.last()) =~= events);
    }
}

/// A call that changes a profile's rules.
#[derive(Debug, Clone, Copy, PartialEq, Eq, Structural)]
pub enum RemapCall {
    /// `remap_key(from, to)`.
    Key(u32, Option<u32>),
    /// `remap_button(from, to)`.
    Button(u32, Option<u32>),
}

/// A profile after the calls `calls`, in order (each as `remap_key` or
/// `remap_button` states it).
pub open spec fn after_remaps(v: InputMapView, calls: Seq<RemapCall>) -> InputMapView
    decreases calls.len(),
{
    if calls.len() == 0 {
        v
    } else {
        let p = after_remaps(v, calls.drop_last());
        match calls.last() {
            RemapCall::Key(from, to) => InputMapView { keys: p.keys.insert(from, to), ..p },
            RemapCall::Button(from, to) => InputMapView { buttons: p.buttons.insert(from, to), ..p },
        }
    }
}

/// The target of the last `remap_button(button, _)` among `calls`, if any.
pub open spec fn last_button_target(calls: Seq<RemapCall>, button: u32) -> Option<Option<u32>>
    decreases calls.len(),
{
    if calls.len() == 0 {
        None
    } else {
        match calls.last() {
            RemapCall::Button(from, to) if from == button => Some(to),
            _ => last_button_target(calls.drop_last(), button),
        }
    }
}

/// The target of the last `remap_key(key, _)` among `calls`, if any.
pub open spec fn last_key_target(calls: Seq<RemapCall>, key: u32) -> Option<Option<u32>>
    decreases calls.len(),
{
    if calls.len() == 0 {
        None
    } else {
        match calls.last() {
            RemapCall::Key(from, to) if from == key => Some(to),
            _ => last_key_target(calls.drop_last(), key),
        }
    }
}

/// On a profile made by `InputMap::new` and then any remapping calls, a
/// button resolves to the target of the last `remap_button` for it, or to
/// itself when there was none (`None` meaning blocked), and a key to the
/// target of the last `remap_key` for it: key rules never change how
/// buttons resolve, nor button rules how keys do.
pub proof fn law_last_remap_wins(name: Seq<char>, calls: Seq<RemapCall>, code: u32)
    ensures
        resolved(
            after_remaps(InputMapView { name, keys: Map::empty(), buttons: Map::empty() }, calls).buttons,
            code,
        ) == match last_button_target(calls, code) {
            Some(t) => t,
            None => Some(code),
        },
        resolved(
            after_remaps(InputMapView { name, keys: Map::empty(), buttons: Map::empty() }, calls).keys,
            code,
        ) == match last_key_target(calls, code) {
            Some(t) => t,
            None => Some(code),
        },
    decreases calls.len(),
{
    if calls.len() > 0 {
        law_last_remap_wins(name, calls.drop_last(), code);
    }
}

/// `out` is `events` with each button replaced by where `rules` send it and
/// the blocked ones left out: `idx` gives, in increasing order, the position
/// of the event each output comes from, every unblocked event has one, and
/// each output keeps its event's pressed flag.
pub open spec fn relabels(
    rules: Map<u32, Option<u32>>,
    events: Seq<(u32, bool)>,
    out: Seq<(u32, bool)>,
    idx: Seq<int>,
) -> bool {
    &&& idx.len() == out.len()
    &&& forall|j: int|
        0 <= j < idx.len() ==> 0 <= #[trigger] idx[j] < events.len() && resolved(rules, events[idx[j]].0)
            == Some(out[j].0) && out[j].1 == events[idx[j]].1
    &&& forall|j: int, k: int| 0 <= j < k < idx.len() ==> #[trigger] idx[j] < #[trigger] idx[k]
    &&& forall|i: int|
        0 <= i < events.len() && resolved(rules, #[trigger] events[i].0) is Some ==> exists|j: int|
            0 <= j < idx.len() && idx[j] == i
}

proof fn mapped_sources(rules: Map<u32, Option<u32>>, events: Seq<(u32, bool)>) -> (idx: Seq<int>)
    ensures
        relabels(rules, events, mapped_buttons(rules, events), idx),
        forall|j: int| 0 <= j < idx.len() ==> #[trigger] idx[j] < events.len(),
    decreases events.len(),
{
    if events.len() == 0 {
        Seq::empty()
    } else {
        let d = events.drop_last();
        let p = mapped_sources(rules, d);
        let rest = mapped_buttons(rules, d);
        let out = mapped_buttons(rules, events);
        let n = events.len() - 1;
        let idx = match resolved(rules, events.last().0) {
            Some(b) => p.push(n),
            None => p,
        };
        assert forall|j: int| 0 <= j < idx.len() implies 0 <= #[trigger] idx[j] < events.len() && resolved(
            rules,
            events[idx[j]].0,
        ) == Some(out[j].0) && out[j].1 == events[idx[j]].1 by {
            if j < p.len() {
                assert(idx[j] == p[j]);
                assert(out[j] == rest[j]);
                assert(events[p[j]] == d[p[j]]);
            }
        }
        assert forall|j: int, k: int| 0 <= j < k < idx.len() implies #[trigger] idx[j] < #[trigger] idx[k] by {
            if k < p.len() {
                assert(idx[j] == p[j] && idx[k] == p[k]);
            } else {
                assert(idx[j] == p[j]);
            }
        }
        assert forall|i: int|
            0 <= i < events.len() && resolved(rules, #[trigger] events[i].0) is Some implies exists|j: int|
                0 <= j < idx.len() && idx[j] == i by {
            if i < n {
                assert(events[i] == d[i]);
                let j = choose|j: int| 0 <= j < p.len() && p[j] == i;
                assert(idx[j] == p[j]);
            } else {
                assert(idx[idx.len() - 1] == n);
            }
        }
        idx
    }
}

/// Remapping only relabels buttons: the events that come out are the events
/// that went in, in order, minus the blocked ones, each with its button
/// replaced by its resolution and its pressed flag kept.
pub proof fn law_mapping_keeps_pressed(rules: Map<u32, Option<u32>>, events: Seq<(u32, bool)>)
    ensures
        exists|idx: Seq<int>| relabels(rules, events, mapped_buttons(rules, events), idx),
{
    let idx = mapped_sources(rules, events);
}

} // verus!
