//! The sheet of loaded values: what was loaded at which path, which entities
//! wait for what is loaded at a path, and which of them have to be told.
//!
//! A value that is loaded again at a path is recorded, and its subscribers
//! told, only where it differs from what was there, whatever its formatting.
use vstd::prelude::*;
use vstd::utf8::encode_utf8;
use crate::json::same_text;
use crate::strip::value_stripped;
use crate::typed::TypedError;
use crate::value::{CafValue, ValueModel};

verus! {

/// A path in a file.
#[derive(Debug, Clone, PartialEq, Eq)]
pub struct LoadableRef {
    pub file: String,
    pub path: String,
}

/// The model of a [`LoadableRef`].
pub struct RefModel {
    pub file: Seq<u8>,
    pub path: Seq<u8>,
}

impl View for LoadableRef {
    type V = RefModel;

    open spec fn view(&self) -> RefModel {
        RefModel { file: encode_utf8(self.file@), path: encode_utf8(self.path@) }
    }
}

impl LoadableRef {
    /// Whether two paths are the same.
    pub fn same(&self, other: &Self) -> (r: bool)
        ensures
            r == (self@ == other@),
    {
        same_text(self.file.as_str(), other.file.as_str()) && same_text(
            self.path.as_str(),
            other.path.as_str(),
        )
    }

    /// A copy of the path.
    pub fn duplicate(&self) -> (r: Self)
        ensures
            r@ == self@,
    {
        LoadableRef { file: self.file.clone(), path: self.path.clone() }
    }
}

/// What was loaded for a type at a path: a value, or the reason why none
/// could be read.
#[derive(Debug, Clone, PartialEq)]
pub enum ReflectedLoadable {
    Value(CafValue),
    DeserializationFailed(TypedError),
}

/// The model of a [`ReflectedLoadable`].
pub enum LoadableModel {
    Value(ValueModel),
    DeserializationFailed(TypedError),
}

impl View for ReflectedLoadable {
    type V = LoadableModel;

    open spec fn view(&self) -> LoadableModel {
        match self {
            ReflectedLoadable::Value(v) => LoadableModel::Value(v@),
            ReflectedLoadable::DeserializationFailed(e) => LoadableModel::DeserializationFailed(
                *e,
            ),
        }
    }
}

/// Whether what was loaded is a value, and the same value as `other`,
/// whatever their fill. What failed to load is the same as nothing.
pub open spec fn loadable_same(a: LoadableModel, b: LoadableModel) -> bool {
    match (a, b) {
        (LoadableModel::Value(x), LoadableModel::Value(y)) => value_stripped(x) == value_stripped(
            y,
        ),
        _ => false,
    }
}

impl ReflectedLoadable {
    /// Whether two loadables hold the same value. Values can always be
    /// compared, so the answer is never `None`.
    pub fn equals(&self, other: &ReflectedLoadable) -> (r: Option<bool>)
        ensures
            r == Some(loadable_same(self@, other@)),
    {
        match (self, other) {
            (ReflectedLoadable::Value(this), ReflectedLoadable::Value(other)) => Some(
                this.eq_ignore_whitespace(other),
            ),
            _ => Some(false),
        }
    }

    /// The value, where one was loaded.
    pub fn get_value(&self) -> (r: Option<&CafValue>)
        ensures
            match *self {
                ReflectedLoadable::Value(v) => r matches Some(found) && *found == v,
                ReflectedLoadable::DeserializationFailed(_) => r is None,
            },
    {
        match self {
            ReflectedLoadable::Value(loadable) => Some(loadable),
            ReflectedLoadable::DeserializationFailed(_) => None,
        }
    }

    /// A copy of the loadable.
    pub fn duplicate(&self) -> (r: Self)
        ensures
            r@ == self@,
    {
        match self {
            ReflectedLoadable::Value(v) => ReflectedLoadable::Value(v.duplicate()),
            ReflectedLoadable::DeserializationFailed(e) => {
                ReflectedLoadable::DeserializationFailed(*e)
            },
        }
    }
}

/// What was loaded for one type at one path.
#[derive(Debug, Clone, PartialEq)]
pub struct ErasedLoadable {
    pub key: LoadableRef,
    pub type_id: usize,
    pub loadable: ReflectedLoadable,
}

/// The model of an [`ErasedLoadable`].
pub struct LoadedModel {
    pub key: RefModel,
    pub type_id: usize,
    pub loadable: LoadableModel,
}

impl View for ErasedLoadable {
    type V = LoadedModel;

    open spec fn view(&self) -> LoadedModel {
        LoadedModel { key: self.key@, type_id: self.type_id, loadable: self.loadable@ }
    }
}

/// An entity that waits for what is loaded at a path.
#[derive(Debug, Clone, PartialEq, Eq)]
pub struct RefSubscription {
    pub key: LoadableRef,
    pub entity: u64,
}

/// The model of a [`RefSubscription`].
pub struct SubscriptionModel {
    pub key: RefModel,
    pub entity: u64,
}

impl View for RefSubscription {
    type V = SubscriptionModel;

    open spec fn view(&self) -> SubscriptionModel {
        SubscriptionModel { key: self.key@, entity: self.entity }
    }
}

/// A value that entities have to be told of.
#[derive(Debug, Clone, PartialEq)]
pub struct PendingUpdate {
    pub type_id: usize,
    pub loadable: ReflectedLoadable,
    pub key: LoadableRef,
    pub entities: Vec<u64>,
}

/// The model of a [`PendingUpdate`].
pub struct PendingModel {
    pub type_id: usize,
    pub loadable: LoadableModel,
    pub key: RefModel,
    pub entities: Seq<u64>,
}

impl View for PendingUpdate {
    type V = PendingModel;

    open spec fn view(&self) -> PendingModel {
        PendingModel {
            type_id: self.type_id,
            loadable: self.loadable@,
            key: self.key@,
            entities: self.entities@,
        }
    }
}

/// Manages the values that were loaded from sheets.
#[derive(Debug, Clone, PartialEq)]
pub struct LoadableSheet {
    /// What was loaded, at most one value for a type at a path.
    pub loadables: Vec<ErasedLoadable>,
    /// The files that have not been read yet.
    pub pending: Vec<String>,
    /// The total number of sheets that should load.
    pub total_expected_sheets: usize,
    /// The entities that wait for what is loaded at a path.
    pub subscriptions: Vec<RefSubscription>,
    /// For every entity the path that it subscribed to last.
    pub subscriptions_rev: Vec<RefSubscription>,
    /// The values that entities have to be told of.
    pub needs_updates: Vec<PendingUpdate>,
}

/// The model of a [`LoadableSheet`].
pub struct SheetModel {
    pub loadables: Seq<LoadedModel>,
    pub pending: Seq<Seq<u8>>,
    pub total_expected_sheets: usize,
    pub subscriptions: Seq<SubscriptionModel>,
    pub subscriptions_rev: Seq<SubscriptionModel>,
    pub needs_updates: Seq<PendingModel>,
}

pub open spec fn loadables_view(s: Seq<ErasedLoadable>) -> Seq<LoadedModel> {
    s.map_values(|x: ErasedLoadable| x@)
}

pub open spec fn subscriptions_view(s: Seq<RefSubscription>) -> Seq<SubscriptionModel> {
    s.map_values(|x: RefSubscription| x@)
}

pub open spec fn updates_view(s: Seq<PendingUpdate>) -> Seq<PendingModel> {
    s.map_values(|x: PendingUpdate| x@)
}

pub open spec fn files_view(s: Seq<String>) -> Seq<Seq<u8>> {
    s.map_values(|x: String| encode_utf8(x@))
}

impl View for LoadableSheet {
    type V = SheetModel;

    open spec fn view(&self) -> SheetModel {
        SheetModel {
            loadables: loadables_view(self.loadables@),
            pending: files_view(self.pending@),
            total_expected_sheets: self.total_expected_sheets,
            subscriptions: subscriptions_view(self.subscriptions@),
            subscriptions_rev: subscriptions_view(self.subscriptions_rev@),
            needs_updates: updates_view(self.needs_updates@),
        }
    }
}

/// The index of the first file at or after `from` that is `file`.
pub open spec fn pending_index(pending: Seq<Seq<u8>>, file: Seq<u8>, from: int) -> Option<int>
    decreases pending.len() - from,
{
    if from < 0 || from >= pending.len() {
        None
    } else if pending[from] == file {
        Some(from)
    } else {
        pending_index(pending, file, from + 1)
    }
}

/// The index of the first loadable at or after `from` for the type at the path.
pub open spec fn loaded_index(loadables: Seq<LoadedModel>, key: RefModel, type_id: usize, from: int)
    -> Option<int>
    decreases loadables.len() - from,
{
    if from < 0 || from >= loadables.len() {
        None
    } else if loadables[from].key == key && loadables[from].type_id == type_id {
        Some(from)
    } else {
        loaded_index(loadables, key, type_id, from + 1)
    }
}

/// The entities that wait at the path, from the subscription `from` on.
pub open spec fn entities_at(subs: Seq<SubscriptionModel>, key: RefModel, from: int) -> Seq<u64>
    decreases subs.len() - from,
{
    if from < 0 || from >= subs.len() {
        Seq::empty()
    } else if subs[from].key == key {
        seq![subs[from].entity] + entities_at(subs, key, from + 1)
    } else {
        entities_at(subs, key, from + 1)
    }
}

/// The index of the first subscription at or after `from` of the entity.
pub open spec fn entity_index(subs: Seq<SubscriptionModel>, entity: u64, from: int) -> Option<int>
    decreases subs.len() - from,
{
    if from < 0 || from >= subs.len() {
        None
    } else if subs[from].entity == entity {
        Some(from)
    } else {
        entity_index(subs, entity, from + 1)
    }
}

/// The index of the first subscription at or after `from` of the entity at the path.
pub open spec fn subscription_index(
    subs: Seq<SubscriptionModel>,
    key: RefModel,
    entity: u64,
    from: int,
) -> Option<int>
    decreases subs.len() - from,
{
    if from < 0 || from >= subs.len() {
        None
    } else if subs[from].key == key && subs[from].entity == entity {
        Some(from)
    } else {
        subscription_index(subs, key, entity, from + 1)
    }
}

/// The sheet after a value was loaded for a type at a path, and whether
/// entities have to be told. A value that is the same as what was there
/// changes nothing. Any other value takes the place of what was there, or
/// is added, and the entities that wait at the path have to be told of it.
pub open spec fn after_insert(
    sheet: SheetModel,
    key: RefModel,
    loadable: LoadableModel,
    type_id: usize,
) -> (SheetModel, bool) {
    let new = LoadedModel { key, type_id, loadable };
    match loaded_index(sheet.loadables, key, type_id, 0) {
        Some(i) => if loadable_same(sheet.loadables[i].loadable, loadable) {
            (sheet, false)
        } else {
            tell(SheetModel { loadables: sheet.loadables.update(i, new), ..sheet }, new)
        },
        None => tell(SheetModel { loadables: sheet.loadables.push(new), ..sheet }, new),
    }
}

/// The sheet with the entities that wait at the path of `new` to be told of
/// it, and whether there are any.
pub open spec fn tell(sheet: SheetModel, new: LoadedModel) -> (SheetModel, bool) {
    let entities = entities_at(sheet.subscriptions, new.key, 0);
    if entities.len() == 0 {
        (sheet, false)
    } else {
        (
            SheetModel {
                needs_updates: sheet.needs_updates.push(
                    PendingModel {
                        type_id: new.type_id,
                        loadable: new.loadable,
                        key: new.key,
                        entities,
                    },
                ),
                ..sheet
            },
            true,
        )
    }
}

/// What `entity` has to be told when it starts to wait at a path: every
/// value that is loaded there, from the loadable `from` on.
pub open spec fn loaded_at(loadables: Seq<LoadedModel>, key: RefModel, entity: u64, from: int)
    -> Seq<PendingModel>
    decreases loadables.len() - from,
{
    if from < 0 || from >= loadables.len() {
        Seq::empty()
    } else if loadables[from].key == key {
        seq![
            PendingModel {
                type_id: loadables[from].type_id,
                loadable: loadables[from].loadable,
                key,
                entities: seq![entity],
            },
        ] + loaded_at(loadables, key, entity, from + 1)
    } else {
        loaded_at(loadables, key, entity, from + 1)
    }
}

/// The subscriptions with the one of `entity` set to `key`: in the place of
/// the one it had, or at the end.
pub open spec fn reverse_set(rev: Seq<SubscriptionModel>, key: RefModel, entity: u64) -> Seq<
    SubscriptionModel,
> {
    match entity_index(rev, entity, 0) {
        Some(i) => rev.update(i, SubscriptionModel { key, entity }),
        None => rev.push(SubscriptionModel { key, entity }),
    }
}

/// The sheet after an entity started to wait at a path.
pub open spec fn after_track(sheet: SheetModel, entity: u64, key: RefModel) -> SheetModel {
    SheetModel {
        subscriptions: sheet.subscriptions.push(SubscriptionModel { key, entity }),
        subscriptions_rev: reverse_set(sheet.subscriptions_rev, key, entity),
        needs_updates: sheet.needs_updates + loaded_at(sheet.loadables, key, entity, 0),
        ..sheet
    }
}

/// The sheet after an entity was removed: it no longer waits at the path
/// that it subscribed to last.
pub open spec fn after_remove(sheet: SheetModel, dead: u64) -> SheetModel {
    match entity_index(sheet.subscriptions_rev, dead, 0) {
        None => sheet,
        Some(i) => {
            let key = sheet.subscriptions_rev[i].key;
            let rev = sheet.subscriptions_rev.remove(i);
            match subscription_index(sheet.subscriptions, key, dead, 0) {
                None => SheetModel { subscriptions_rev: rev, ..sheet },
                Some(j) => SheetModel {
                    subscriptions_rev: rev,
                    subscriptions: sheet.subscriptions.remove(j),
                    ..sheet
                },
            }
        },
    }
}

/// One entity that is told of one value.
#[derive(Debug, Clone, PartialEq)]
pub struct UpdateCall {
    pub entity: u64,
    pub key: LoadableRef,
    pub loadable: ReflectedLoadable,
}

/// The model of an [`UpdateCall`].
pub struct CallModel {
    pub entity: u64,
    pub key: RefModel,
    pub loadable: LoadableModel,
}

impl View for UpdateCall {
    type V = CallModel;

    open spec fn view(&self) -> CallModel {
        CallModel { entity: self.entity, key: self.key@, loadable: self.loadable@ }
    }
}

pub open spec fn calls_view(s: Seq<UpdateCall>) -> Seq<CallModel> {
    s.map_values(|x: UpdateCall| x@)
}

/// The calls for one update: one for each of its entities, in order.
pub open spec fn calls_of(update: PendingModel) -> Seq<CallModel> {
    Seq::new(
        update.entities.len(),
        |i: int| CallModel { entity: update.entities[i], key: update.key, loadable: update.loadable },
    )
}

/// The calls for the updates of a type, from the update `from` on.
pub open spec fn calls_for(needs: Seq<PendingModel>, type_id: usize, from: int) -> Seq<CallModel>
    decreases needs.len() - from,
{
    if from < 0 || from >= needs.len() {
        Seq::empty()
    } else if needs[from].type_id == type_id {
        calls_of(needs[from]) + calls_for(needs, type_id, from + 1)
    } else {
        calls_for(needs, type_id, from + 1)
    }
}

/// The updates of all other types, from the update `from` on.
pub open spec fn updates_left(needs: Seq<PendingModel>, type_id: usize, from: int) -> Seq<
    PendingModel,
>
    decreases needs.len() - from,
{
    if from < 0 || from >= needs.len() {
        Seq::empty()
    } else if needs[from].type_id == type_id {
        updates_left(needs, type_id, from + 1)
    } else {
        seq![needs[from]] + updates_left(needs, type_id, from + 1)
    }
}

impl Default for LoadableSheet {
    fn default() -> (r: Self)
        ensures
            r@ == (SheetModel {
                loadables: Seq::empty(),
                pending: Seq::empty(),
                total_expected_sheets: 0,
                subscriptions: Seq::empty(),
                subscriptions_rev: Seq::empty(),
                needs_updates: Seq::empty(),
            }),
    {
        let r = LoadableSheet {
            loadables: Vec::new(),
            pending: Vec::new(),
            total_expected_sheets: 0,
            subscriptions: Vec::new(),
            subscriptions_rev: Vec::new(),
            needs_updates: Vec::new(),
        };
        proof {
            assert(r@.loadables =~= Seq::<LoadedModel>::empty());
            assert(r@.pending =~= Seq::<Seq<u8>>::empty());
            assert(r@.subscriptions =~= Seq::<SubscriptionModel>::empty());
            assert(r@.subscriptions_rev =~= Seq::<SubscriptionModel>::empty());
            assert(r@.needs_updates =~= Seq::<PendingModel>::empty());
        }
        r
    }
}

/// Copies a list of entities.
fn copy_entities(entities: &Vec<u64>) -> (r: Vec<u64>)
    ensures
        r@ == entities@,
{
    let mut out: Vec<u64> = Vec::new();
    let mut i: usize = 0;
    while i < entities.len()
        invariant
            0 <= i <= entities@.len(),
            out@ == entities@.subrange(0, i as int),
        decreases entities@.len() - i,
    {
        out.push(entities[i]);
        proof {
            assert(out@ =~= entities@.subrange(0, i + 1));
        }
        i += 1;
    }
    proof {
        assert(entities@.subrange(0, entities@.len() as int) =~= entities@);
    }
    out
}

impl LoadableSheet {
    fn find_pending(&self, file: &str) -> (r: Option<usize>)
        ensures
            match r {
                Some(i) => pending_index(self@.pending, encode_utf8(file@), 0) == Some(i as int)
                    && i < self.pending@.len(),
                None => pending_index(self@.pending, encode_utf8(file@), 0) is None,
            },
    {
        let mut i: usize = 0;
        while i < self.pending.len()
            invariant
                0 <= i <= self.pending@.len(),
                pending_index(self@.pending, encode_utf8(file@), 0) == pending_index(
                    self@.pending,
                    encode_utf8(file@),
                    i as int,
                ),
            decreases self.pending@.len() - i,
        {
            if same_text(self.pending[i].as_str(), file) {
                return Some(i);
            }
            i += 1;
        }
        None
    }

    /// Prepares a file: it is expected, and has not been read yet.
    pub fn prepare_file(&mut self, file: String)
        requires
            old(self).total_expected_sheets < usize::MAX,
        ensures
            final(self)@ == (SheetModel {
                pending: match pending_index(old(self)@.pending, encode_utf8(file@), 0) {
                    Some(_) => old(self)@.pending,
                    None => old(self)@.pending.push(encode_utf8(file@)),
                },
                total_expected_sheets: (old(self)@.total_expected_sheets + 1) as usize,
                ..old(self)@
            }),
    {
        if self.find_pending(file.as_str()).is_none() {
            self.pending.push(file);
            proof {
                assert(self@.pending =~= old(self)@.pending.push(encode_utf8(file@)));
            }
        }
        self.total_expected_sheets += 1;
    }

    /// Initializes a file: it has been read.
    pub fn initialize_file(&mut self, file: &str)
        ensures
            final(self)@ == (SheetModel {
                pending: match pending_index(old(self)@.pending, encode_utf8(file@), 0) {
                    Some(i) => old(self)@.pending.remove(i),
                    None => old(self)@.pending,
                },
                ..old(self)@
            }),
    {
        match self.find_pending(file) {
            Some(i) => {
                let _ = self.pending.remove(i);
                proof {
                    assert(self@.pending =~= old(self)@.pending.remove(i as int));
                }
            },
            None => {},
        }
    }

    /// Gets the loading progress on startup.
    ///
    /// Returns `(num uninitialized files, num total files)`.
    pub fn loading_progress(&self) -> (r: (usize, usize))
        ensures
            r.0 == self@.pending.len(),
            r.1 == self@.total_expected_sheets,
    {
        (self.pending.len(), self.total_expected_sheets)
    }

    fn find_loaded(&self, key: &LoadableRef, type_id: usize) -> (r: Option<usize>)
        ensures
            match r {
                Some(i) => loaded_index(self@.loadables, key@, type_id, 0) == Some(i as int) && i
                    < self.loadables@.len(),
                None => loaded_index(self@.loadables, key@, type_id, 0) is None,
            },
    {
        let mut i: usize = 0;
        while i < self.loadables.len()
            invariant
                0 <= i <= self.loadables@.len(),
                loaded_index(self@.loadables, key@, type_id, 0) == loaded_index(
                    self@.loadables,
                    key@,
                    type_id,
                    i as int,
                ),
            decreases self.loadables@.len() - i,
        {
            if self.loadables[i].type_id == type_id && self.loadables[i].key.same(key) {
                return Some(i);
            }
            i += 1;
        }
        None
    }

    /// The entities that wait at a path.
    pub fn subscribers(&self, key: &LoadableRef) -> (r: Vec<u64>)
        ensures
            r@ == entities_at(self@.subscriptions, key@, 0),
    {
        let ghost subs = self@.subscriptions;
        let mut out: Vec<u64> = Vec::new();
        let mut i: usize = 0;
        proof {
            assert(out@ + entities_at(subs, key@, 0) =~= entities_at(subs, key@, 0));
        }
        while i < self.subscriptions.len()
            invariant
                0 <= i <= self.subscriptions@.len(),
                subs == self@.subscriptions,
                entities_at(subs, key@, 0) == out@ + entities_at(subs, key@, i as int),
            decreases self.subscriptions@.len() - i,
        {
            let ghost before = out@;
            if self.subscriptions[i].key.same(key) {
                out.push(self.subscriptions[i].entity);
                proof {
                    assert(before + (seq![subs[i as int].entity] + entities_at(
                        subs,
                        key@,
                        i + 1,
                    )) =~= out@ + entities_at(subs, key@, i + 1));
                }
            }
            i += 1;
        }
        proof {
            assert(out@ + Seq::<u64>::empty() =~= out@);
        }
        out
    }

    /// Inserts a loadable at the specified path if its value will change.
    ///
    /// Returns `true` if this method added any pending subscriber updates.
    pub fn insert(&mut self, loadable_ref: &LoadableRef, loadable: ReflectedLoadable, type_id: usize)
        -> (r: bool)
        ensures
            (final(self)@, r) == after_insert(old(self)@, loadable_ref@, loadable@, type_id),
    {
        let stored = ErasedLoadable {
            key: loadable_ref.duplicate(),
            type_id,
            loadable: loadable.duplicate(),
        };
        match self.find_loaded(loadable_ref, type_id) {
            Some(i) => {
                // Insert if the loadable value changed.
                match self.loadables[i].loadable.equals(&loadable) {
                    Some(true) => {
                        return false;
                    },
                    _ => {
                        // Replace the existing value.
                        let _ = self.loadables.remove(i);
                        self.loadables.insert(i, stored);
                        proof {
                            assert(self@.loadables =~= old(self)@.loadables.update(
                                i as int,
                                stored@,
                            ));
                        }
                    },
                }
            },
            None => {
                self.loadables.push(stored);
                proof {
                    assert(self@.loadables =~= old(self)@.loadables.push(stored@));
                }
            },
        }
        // Identify entities that should update.
        let entities = self.subscribers(loadable_ref);
        if entities.len() == 0 {
            return false;
        }
        let ghost before = self@.needs_updates;
        let update = PendingUpdate {
            type_id,
            loadable,
            key: loadable_ref.duplicate(),
            entities,
        };
        self.needs_updates.push(update);
        proof {
            assert(self@.needs_updates =~= before.push(update@));
        }
        true
    }

    fn find_reverse(&self, entity: u64) -> (r: Option<usize>)
        ensures
            match r {
                Some(i) => entity_index(self@.subscriptions_rev, entity, 0) == Some(i as int) && i
                    < self.subscriptions_rev@.len(),
                None => entity_index(self@.subscriptions_rev, entity, 0) is None,
            },
    {
        let mut i: usize = 0;
        while i < self.subscriptions_rev.len()
            invariant
                0 <= i <= self.subscriptions_rev@.len(),
                entity_index(self@.subscriptions_rev, entity, 0) == entity_index(
                    self@.subscriptions_rev,
                    entity,
                    i as int,
                ),
            decreases self.subscriptions_rev@.len() - i,
        {
            if self.subscriptions_rev[i].entity == entity {
                return Some(i);
            }
            i += 1;
        }
        None
    }

    /// Adds an entity to the tracking context: it waits at the path, and
    /// has to be told of every value that is loaded there already.
    ///
    /// Returns the types of those values, in order.
    pub fn track_entity(&mut self, entity: u64, loadable_ref: &LoadableRef) -> (r: Vec<usize>)
        ensures
            final(self)@ == after_track(old(self)@, entity, loadable_ref@),
            r@.len() == loaded_at(old(self)@.loadables, loadable_ref@, entity, 0).len(),
            forall|i: int|
                0 <= i < r@.len() ==> #[trigger] r@[i] == loaded_at(
                    old(self)@.loadables,
                    loadable_ref@,
                    entity,
                    0,
                )[i].type_id,
    {
        // Add to subscriptions.
        self.subscriptions.push(RefSubscription { key: loadable_ref.duplicate(), entity });
        let entry = RefSubscription { key: loadable_ref.duplicate(), entity };
        match self.find_reverse(entity) {
            Some(i) => {
                let _ = self.subscriptions_rev.remove(i);
                self.subscriptions_rev.insert(i, entry);
                proof {
                    assert(self@.subscriptions_rev =~= old(self)@.subscriptions_rev.update(
                        i as int,
                        entry@,
                    ));
                }
            },
            None => {
                self.subscriptions_rev.push(entry);
                proof {
                    assert(self@.subscriptions_rev =~= old(self)@.subscriptions_rev.push(entry@));
                }
            },
        }
        proof {
            assert(self@.subscriptions =~= old(self)@.subscriptions.push(
                SubscriptionModel { key: loadable_ref@, entity },
            ));
        }
        // Schedule updates for each loadable that is loaded already.
        let ghost loaded = self@.loadables;
        let ghost whole = loaded_at(loaded, loadable_ref@, entity, 0);
        let ghost start = self@.needs_updates;
        let mut types: Vec<usize> = Vec::new();
        let ghost mut added: Seq<PendingModel> = Seq::empty();
        proof {
            assert(start + added =~= start);
            assert(added + whole =~= whole);
        }
        let mut i: usize = 0;
        while i < self.loadables.len()
            invariant
                0 <= i <= self.loadables@.len(),
                loaded == self@.loadables,
                loaded == old(self)@.loadables,
                self@.subscriptions == old(self)@.subscriptions.push(
                    SubscriptionModel { key: loadable_ref@, entity },
                ),
                self@.subscriptions_rev == reverse_set(
                    old(self)@.subscriptions_rev,
                    loadable_ref@,
                    entity,
                ),
                self@.pending == old(self)@.pending,
                self@.total_expected_sheets == old(self)@.total_expected_sheets,
                start == old(self)@.needs_updates,
                self@.needs_updates == start + added,
                whole == loaded_at(loaded, loadable_ref@, entity, 0),
                whole == added + loaded_at(loaded, loadable_ref@, entity, i as int),
                types@.len() == added.len(),
                forall|j: int| 0 <= j < types@.len() ==> #[trigger] types@[j] == added[j].type_id,
            decreases self.loadables@.len() - i,
        {
            if self.loadables[i].key.same(loadable_ref) {
                let mut one: Vec<u64> = Vec::new();
                one.push(entity);
                let update = PendingUpdate {
                    type_id: self.loadables[i].type_id,
                    loadable: self.loadables[i].loadable.duplicate(),
                    key: loadable_ref.duplicate(),
                    entities: one,
                };
                let ghost before = self@.needs_updates;
                let ghost before_added = added;
                proof {
                    assert(one@ =~= seq![entity]);
                    added = added.push(update@);
                    assert(before_added + (seq![update@] + loaded_at(
                        loaded,
                        loadable_ref@,
                        entity,
                        i + 1,
                    )) =~= added + loaded_at(loaded, loadable_ref@, entity, i + 1));
                }
                types.push(self.loadables[i].type_id);
                self.needs_updates.push(update);
                proof {
                    assert(self@.needs_updates =~= before.push(update@));
                    assert(before.push(update@) =~= start + added);
                }
            }
            i += 1;
        }
        proof {
            assert(added + Seq::<PendingModel>::empty() =~= added);
        }
        types
    }

    /// Cleans up a despawned entity.
    pub fn remove_entity(&mut self, dead_entity: u64)
        ensures
            final(self)@ == after_remove(old(self)@, dead_entity),
    {
        let Some(at) = self.find_reverse(dead_entity) else {
            return ;
        };
        let reverse = self.subscriptions_rev.remove(at);
        proof {
            assert(self@.subscriptions_rev =~= old(self)@.subscriptions_rev.remove(at as int));
            assert(reverse@ == old(self)@.subscriptions_rev[at as int]);
        }
        let mut i: usize = 0;
        while i < self.subscriptions.len()
            invariant
                0 <= i <= self.subscriptions@.len(),
                self.subscriptions == old(self).subscriptions,
                self.loadables == old(self).loadables,
                self.pending == old(self).pending,
                self.needs_updates == old(self).needs_updates,
                self.total_expected_sheets == old(self).total_expected_sheets,
                at < old(self)@.subscriptions_rev.len(),
                entity_index(old(self)@.subscriptions_rev, dead_entity, 0) == Some(at as int),
                reverse@ == old(self)@.subscriptions_rev[at as int],
                self@.subscriptions_rev == old(self)@.subscriptions_rev.remove(at as int),
                subscription_index(self@.subscriptions, reverse@.key, dead_entity, 0)
                    == subscription_index(
                    self@.subscriptions,
                    reverse@.key,
                    dead_entity,
                    i as int,
                ),
            decreases self.subscriptions@.len() - i,
        {
            if self.subscriptions[i].entity == dead_entity && self.subscriptions[i].key.same(
                &reverse.key,
            ) {
                let _ = self.subscriptions.remove(i);
                proof {
                    assert(self@.subscriptions =~= old(self)@.subscriptions.remove(i as int));
                }
                return ;
            }
            i += 1;
        }
    }

    /// Cleans up pending updates that failed to be processed. Returns
    /// whether there were any.
    pub fn cleanup_pending(&mut self) -> (r: bool)
        ensures
            r == (old(self)@.needs_updates.len() > 0),
            final(self)@ == (SheetModel { needs_updates: Seq::empty(), ..old(self)@ }),
    {
        let r = self.needs_updates.len() > 0;
        self.needs_updates.clear();
        proof {
            assert(self@.needs_updates =~= Seq::<PendingModel>::empty());
        }
        r
    }

    /// Takes the pending updates of a type out of the sheet. Returns one
    /// call for each entity that has to be told, in order.
    pub fn update_loadables(&mut self, type_id: usize) -> (r: Vec<UpdateCall>)
        ensures
            calls_view(r@) == calls_for(old(self)@.needs_updates, type_id, 0),
            final(self)@ == (SheetModel {
                needs_updates: updates_left(old(self)@.needs_updates, type_id, 0),
                ..old(self)@
            }),
    {
        let ghost needs = self@.needs_updates;
        let mut all: Vec<PendingUpdate> = Vec::new();
        core::mem::swap(&mut all, &mut self.needs_updates);
        let mut calls: Vec<UpdateCall> = Vec::new();
        proof {
            assert(updates_view(all@) == needs);
            assert(self@.needs_updates =~= Seq::<PendingModel>::empty());
            assert(calls_view(calls@) =~= Seq::<CallModel>::empty());
            assert(calls_view(calls@) + calls_for(needs, type_id, 0) =~= calls_for(
                needs,
                type_id,
                0,
            ));
            assert(self@.needs_updates + updates_left(needs, type_id, 0) =~= updates_left(
                needs,
                type_id,
                0,
            ));
        }
        let mut i: usize = 0;
        while i < all.len()
            invariant
                0 <= i <= all@.len(),
                needs == updates_view(all@),
                self.loadables == old(self).loadables,
                self.pending == old(self).pending,
                self.subscriptions == old(self).subscriptions,
                self.subscriptions_rev == old(self).subscriptions_rev,
                self.total_expected_sheets == old(self).total_expected_sheets,
                calls_for(needs, type_id, 0) == calls_view(calls@) + calls_for(
                    needs,
                    type_id,
                    i as int,
                ),
                updates_left(needs, type_id, 0) == self@.needs_updates + updates_left(
                    needs,
                    type_id,
                    i as int,
                ),
            decreases all@.len() - i,
        {
            let update = &all[i];
            assert(needs[i as int] == update@);
            if update.type_id == type_id {
                let ghost before = calls_view(calls@);
                let mut j: usize = 0;
                proof {
                    assert(calls_of(update@).subrange(0, 0) =~= Seq::<CallModel>::empty());
                    assert(before + calls_of(update@).subrange(0, 0) =~= before);
                }
                while j < update.entities.len()
                    invariant
                        0 <= j <= update.entities@.len(),
                        calls_of(update@).len() == update.entities@.len(),
                        calls_view(calls@) == before + calls_of(update@).subrange(0, j as int),
                    decreases update.entities@.len() - j,
                {
                    let call = UpdateCall {
                        entity: update.entities[j],
                        key: update.key.duplicate(),
                        loadable: update.loadable.duplicate(),
                    };
                    let ghost old_calls = calls_view(calls@);
                    calls.push(call);
                    proof {
                        assert(call@ == calls_of(update@)[j as int]);
                        assert(calls_view(calls@) =~= old_calls.push(call@));
                        assert(calls_view(calls@) =~= before + calls_of(update@).subrange(
                            0,
                            j + 1,
                        ));
                    }
                    j += 1;
                }
                proof {
                    assert(calls_of(update@).subrange(0, update.entities@.len() as int)
                        =~= calls_of(update@));
                    assert(before + (calls_of(update@) + calls_for(needs, type_id, i + 1))
                        =~= calls_view(calls@) + calls_for(needs, type_id, i + 1));
                }
            } else {
                let kept = PendingUpdate {
                    type_id: update.type_id,
                    loadable: update.loadable.duplicate(),
                    key: update.key.duplicate(),
                    entities: copy_entities(&update.entities),
                };
                let ghost before = self@.needs_updates;
                self.needs_updates.push(kept);
                proof {
                    assert(kept@ == update@);
                    assert(self@.needs_updates =~= before.push(kept@));
                    assert(before + (seq![update@] + updates_left(needs, type_id, i + 1))
                        =~= self@.needs_updates + updates_left(needs, type_id, i + 1));
                }
            }
            i += 1;
        }
        proof {
            assert(calls_view(calls@) + Seq::<CallModel>::empty() =~= calls_view(calls@));
            assert(self@.needs_updates + Seq::<PendingModel>::empty() =~= self@.needs_updates);
        }
        calls
    }
}

} // verus!
