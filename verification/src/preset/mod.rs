//! Selectable style presets: the built-in ones followed by the user's own,
//! with at most one of them active. The presets' contents are the
//! application's; this module keeps the lists and the selection.

use vstd::prelude::*;

verus! {

/// The presets as a mathematical value: built-ins, custom presets, and the
/// selected index into the combined list (built-ins first).
pub struct PresetsView<T> {
    pub builtins: Seq<T>,
    pub custom: Seq<T>,
    pub active_index: Option<usize>,
}

/// The combined list, built-ins first.
pub open spec fn all_of<T>(v: PresetsView<T>) -> Seq<T> {
    v.builtins + v.custom
}

/// The active preset: the selected entry of the combined list, if the
/// selection is inside it.
pub open spec fn active_of<T>(v: PresetsView<T>) -> Option<T> {
    match v.active_index {
        Some(i) => if i < all_of(v).len() {
            Some(all_of(v)[i as int])
        } else {
            None
        },
        None => None,
    }
}

/// The selection after `set_active(index)`: changed only when the index is
/// inside the combined list.
pub open spec fn after_set_active<T>(v: PresetsView<T>, index: usize) -> PresetsView<T> {
    if index < all_of(v).len() {
        PresetsView { active_index: Some(index), ..v }
    } else {
        v
    }
}

/// The presets after `remove_custom(index)`: the custom preset is removed
/// when it exists, and a selection at or after it is cleared.
pub open spec fn after_remove_custom<T>(v: PresetsView<T>, index: usize) -> PresetsView<T> {
    if index < v.custom.len() {
        PresetsView {
            builtins: v.builtins,
            custom: v.custom.remove(index as int),
            active_index: match v.active_index {
                Some(a) => if a >= v.builtins.len() + index {
                    None
                } else {
                    Some(a)
                },
                None => None,
            },
        }
    } else {
        v
    }
}

/// Manages built-in and custom presets.
pub struct PresetManager<T> {
    builtins: Vec<T>,
    custom: Vec<T>,
    /// Index into the combined list (built-ins first, then custom).
    active_index: Option<usize>,
}

impl<T> View for PresetManager<T> {
    type V = PresetsView<T>;

    closed spec fn view(&self) -> PresetsView<T> {
        PresetsView { builtins: self.builtins@, custom: self.custom@, active_index: self.active_index }
    }
}

impl<T> PresetManager<T> {
    /// A manager holding the given built-in presets, no custom presets and
    /// no selection.
    pub fn new(builtins: Vec<T>) -> (r: Self)
        ensures
            r@.builtins == builtins@,
            r@.custom == Seq::<T>::empty(),
            r@.active_index is None,
    {
        PresetManager { builtins, custom: Vec::new(), active_index: None }
    }

    /// All presets, built-ins first, then custom.
    pub fn all_presets(&self) -> (r: Vec<&T>)
        ensures
            r@.len() == all_of(self@).len(),
            forall|i: int| 0 <= i < r@.len() ==> *r@[i] == all_of(self@)[i],
    {
        let mut r: Vec<&T> = Vec::new();
        let mut i: usize = 0;
        while i < self.builtins.len()
            invariant
                i <= self.builtins@.len(),
                r@.len() == i,
                forall|k: int| 0 <= k < i ==> *r@[k] == self.builtins@[k],
            decreases self.builtins@.len() - i,
        {
            r.push(&self.builtins[i]);
            i = i + 1;
        }
        let mut j: usize = 0;
        while j < self.custom.len()
            invariant
                j <= self.custom@.len(),
                r@.len() == self.builtins@.len() + j,
                forall|k: int| 0 <= k < self.builtins@.len() ==> *r@[k] == self.builtins@[k],
                forall|k: int| 0 <= k < j ==> *r@[self.builtins@.len() + k] == self.custom@[k],
            decreases self.custom@.len() - j,
        {
            r.push(&self.custom[j]);
            j = j + 1;
        }
        assert forall|i: int| 0 <= i < r@.len() implies *r@[i] == all_of(self@)[i] by {
            if i >= self.builtins@.len() {
                assert(*r@[self.builtins@.len() + (i - self.builtins@.len())] == self.custom@[i - self.builtins@.len()]);
            }
        }
        r
    }

    /// The currently active preset, if any.
    pub fn active(&self) -> (r: Option<&T>)
        ensures
            match active_of(self@) {
                Some(p) => r matches Some(q) && *q == p,
                None => r is None,
            },
    {
        match self.active_index {
            Some(idx) => {
                if idx < self.builtins.len() {
                    Some(&self.builtins[idx])
                } else if idx - self.builtins.len() < self.custom.len() {
                    Some(&self.custom[idx - self.builtins.len()])
                } else {
                    None
                }
            },
            None => None,
        }
    }

    /// Selects the preset at `index` in the combined list; an index past
    /// the end leaves the selection unchanged.
    pub fn set_active(&mut self, index: usize)
        requires
            old(self)@.builtins.len() + old(self)@.custom.len() <= usize::MAX,
        ensures
            final(self)@ == after_set_active(old(self)@, index),
    {
        let total = self.builtins.len() + self.custom.len();
        if index < total {
            self.active_index = Some(index);
        }
    }

    /// Adds a custom preset at the end of the list.
    pub fn add_custom(&mut self, preset: T)
        ensures
            final(self)@ == (PresetsView { custom: old(self)@.custom.push(preset), ..old(self)@ }),
    {
        self.custom.push(preset);
    }

    /// Removes the custom preset at `index` (within the custom list), if
    /// any; a selection that pointed at it or at a later preset is cleared.
    pub fn remove_custom(&mut self, index: usize)
        requires
            old(self)@.builtins.len() + old(self)@.custom.len() <= usize::MAX,
        ensures
            final(self)@ == after_remove_custom(old(self)@, index),
    {
        if index < self.custom.len() {
            self.custom.remove(index);
            if let Some(active) = self.active_index {
                let builtin_len = self.builtins.len();
                if active >= builtin_len + index {
                    self.active_index = None;
                }
            }
        }
    }

    /// The custom presets.
    pub fn custom_presets(&self) -> (r: &[T])
        ensures
            r@ == self@.custom,
    {
        self.custom.as_slice()
    }

    /// Replaces all custom presets (as when loading them from storage).
    pub fn set_custom_presets(&mut self, presets: Vec<T>)
        ensures
            final(self)@ == (PresetsView { custom: presets@, ..old(self)@ }),
    {
        self.custom = presets;
    }
}

/// Selecting a preset inside the combined list makes it the active one.
pub proof fn lemma_set_active_selects<T>(v: PresetsView<T>, index: usize)
    requires
        index < all_of(v).len(),
    ensures
        active_of(after_set_active(v, index)) == Some(all_of(v)[index as int]),
{
}

/// Removing a custom preset never leaves a different preset active: the
/// active preset afterwards is the one active before, or there is none.
pub proof fn lemma_remove_keeps_or_clears_active<T>(v: PresetsView<T>, index: usize)
    ensures
        active_of(after_remove_custom(v, index)) is None || active_of(after_remove_custom(v, index))
            == active_of(v),
{
    let w = after_remove_custom(v, index);
    if index < v.custom.len() {
        if let Some(a) = w.active_index {
            if a < all_of(w).len() {
                assert(a < v.builtins.len() + index);
                if a < v.builtins.len() {
                    assert(all_of(w)[a as int] == v.builtins[a as int]);
                    assert(all_of(v)[a as int] == v.builtins[a as int]);
                } else {
                    assert(all_of(w)[a as int] == w.custom[a - v.builtins.len()]);
                    assert(w.custom[a - v.builtins.len()] == v.custom[a - v.builtins.len()]);
                    assert(all_of(v)[a as int] == v.custom[a - v.builtins.len()]);
                }
            }
        }
    }
}

} // verus!
