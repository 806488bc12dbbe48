//! The callbacks that load values of registered types onto entities, and
//! what a callback does with one update.
use vstd::prelude::*;

verus! {

/// A callback by the number under which it can be run.
#[derive(Debug, Clone, Copy, PartialEq, Eq, Structural)]
pub struct LoaderCallback {
    pub type_id: usize,
    pub command: u64,
}

/// The callbacks of the registered types, at most one for each type.
#[derive(Debug, Clone, PartialEq, Eq)]
pub struct LoaderCallbacks {
    pub callbacks: Vec<LoaderCallback>,
}

/// The index of the first callback at or after `from` for the type.
pub open spec fn callback_index(callbacks: Seq<LoaderCallback>, type_id: usize, from: int)
    -> Option<int>
    decreases callbacks.len() - from,
{
    if from < 0 || from >= callbacks.len() {
        None
    } else if callbacks[from].type_id == type_id {
        Some(from)
    } else {
        callback_index(callbacks, type_id, from + 1)
    }
}

impl Default for LoaderCallbacks {
    fn default() -> (r: Self)
        ensures
            r.callbacks@.len() == 0,
    {
        LoaderCallbacks { callbacks: Vec::new() }
    }
}

impl LoaderCallbacks {
    /// The callback of a type.
    pub fn get(&self, type_id: usize) -> (r: Option<u64>)
        ensures
            r == match callback_index(self.callbacks@, type_id, 0) {
                Some(i) => Some(self.callbacks@[i].command),
                None => None,
            },
    {
        let mut i: usize = 0;
        while i < self.callbacks.len()
            invariant
                0 <= i <= self.callbacks@.len(),
                callback_index(self.callbacks@, type_id, 0) == callback_index(
                    self.callbacks@,
                    type_id,
                    i as int,
                ),
            decreases self.callbacks@.len() - i,
        {
            if self.callbacks[i].type_id == type_id {
                return Some(self.callbacks[i].command);
            }
            i += 1;
        }
        None
    }

    /// Registers the callback of a type unless the type has one. Returns
    /// whether it was registered.
    pub fn register(&mut self, type_id: usize, command: u64) -> (r: bool)
        ensures
            r == (callback_index(old(self).callbacks@, type_id, 0) is None),
            final(self).callbacks@ == if r {
                old(self).callbacks@.push(LoaderCallback { type_id, command })
            } else {
                old(self).callbacks@
            },
    {
        if self.get(type_id).is_some() {
            return false;
        }
        self.callbacks.push(LoaderCallback { type_id, command });
        true
    }

    /// The callbacks to run for values of the given types, in order. A
    /// type without a callback is passed over.
    pub fn scheduled(&self, types: &Vec<usize>) -> (r: Vec<u64>)
        ensures
            r@ == commands_for(self.callbacks@, types@, 0),
    {
        let mut out: Vec<u64> = Vec::new();
        let mut i: usize = 0;
        proof {
            assert(out@ + commands_for(self.callbacks@, types@, 0) =~= commands_for(
                self.callbacks@,
                types@,
                0,
            ));
        }
        while i < types.len()
            invariant
                0 <= i <= types@.len(),
                commands_for(self.callbacks@, types@, 0) == out@ + commands_for(
                    self.callbacks@,
                    types@,
                    i as int,
                ),
            decreases types@.len() - i,
        {
            let ghost before = out@;
            match self.get(types[i]) {
                Some(command) => {
                    out.push(command);
                    proof {
                        assert(before + (seq![command] + commands_for(
                            self.callbacks@,
                            types@,
                            i + 1,
                        )) =~= out@ + commands_for(self.callbacks@, types@, i + 1));
                    }
                },
                None => {},
            }
            i += 1;
        }
        proof {
            assert(out@ + Seq::<u64>::empty() =~= out@);
        }
        out
    }
}

/// The callbacks for the types from `from` on, in order.
pub open spec fn commands_for(callbacks: Seq<LoaderCallback>, types: Seq<usize>, from: int) -> Seq<
    u64,
>
    decreases types.len() - from,
{
    if from < 0 || from >= types.len() {
        Seq::empty()
    } else {
        match callback_index(callbacks, types[from], 0) {
            Some(i) => seq![callbacks[i].command] + commands_for(callbacks, types, from + 1),
            None => commands_for(callbacks, types, from + 1),
        }
    }
}

/// What a callback does with a value for an entity.
#[derive(Debug, Clone, Copy, PartialEq, Eq, Structural)]
pub enum LoaderAction {
    /// Nothing: the entity is gone, or no value could be read.
    Nothing,
    /// The value takes the place of the component that the entity has.
    Replace,
    /// The value is inserted on the entity.
    Insert,
}

/// What the callback of a reactive component does: it needs the entity and
/// a value, and replaces the component where the entity has one.
pub fn reactive_loader(entity_exists: bool, has_value: bool, has_component: bool) -> (r:
    LoaderAction)
    ensures
        r == if !entity_exists || !has_value {
            LoaderAction::Nothing
        } else if has_component {
            LoaderAction::Replace
        } else {
            LoaderAction::Insert
        },
{
    if !entity_exists {
        return LoaderAction::Nothing;
    }
    if !has_value {
        return LoaderAction::Nothing;
    }
    if has_component {
        LoaderAction::Replace
    } else {
        LoaderAction::Insert
    }
}

/// What the callback of a bundle does: it needs a value and the entity, and
/// inserts the bundle.
pub fn bundle_loader(has_value: bool, entity_exists: bool) -> (r: LoaderAction)
    ensures
        r == if has_value && entity_exists {
            LoaderAction::Insert
        } else {
            LoaderAction::Nothing
        },
{
    if !has_value {
        return LoaderAction::Nothing;
    }
    if !entity_exists {
        return LoaderAction::Nothing;
    }
    LoaderAction::Insert
}

} // verus!
