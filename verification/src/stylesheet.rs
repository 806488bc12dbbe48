//! Style sheets: a document whose branches hold styles.
//!
//! The root of a style sheet is a map. An entry whose key starts with an
//! upper-case letter is a style: the key names a type and the value is the
//! style's value. Any other entry is a branch, and its value a map of the
//! same kind. The very first entry may be `using`, with a list of long
//! names to stand for their short names in the rest of the file.
//!
//! A style whose value is the string `inherited` takes the value that the
//! same style last had in the branch or in a branch around it.
use vstd::prelude::*;
use vstd::string::StringSliceAdditionalSpecFns;
use vstd::utf8::{decode_utf8, encode_utf8};
use crate::json::same_text;
use crate::names::name_as_str;
use crate::registry::{path_index, TypeRegistry};
use crate::style::{char_is_uppercase, is_style_entry, is_using_entry, using_text};
use crate::to_json::string_json;
use crate::typed::{resolved, shortcut_index, NameShortcuts, Shortcut};
use crate::value::{
    entries_view, lemma_entries_view, lemma_values_view, values_view, CafEnumVariant, CafMapEntry,
    CafMapKey, CafValue, EnumVariantModel, MapEntryModel, MapKeyModel, ValueModel,
};

verus! {

/// A style as it was loaded: the keys of the branches that lead to it, the
/// type that its key names, and its value.
#[derive(Debug, Clone, PartialEq)]
pub struct LoadedStyle {
    pub path: Vec<String>,
    pub type_id: usize,
    pub value: CafValue,
}

/// The model of a [`LoadedStyle`].
pub struct LoadedModel {
    pub path: Seq<Seq<u8>>,
    pub type_id: usize,
    pub value: ValueModel,
}

/// The bytes of the keys of a path.
pub open spec fn path_view(path: Seq<String>) -> Seq<Seq<u8>> {
    path.map_values(|key: String| encode_utf8(key@))
}

impl View for LoadedStyle {
    type V = LoadedModel;

    open spec fn view(&self) -> LoadedModel {
        LoadedModel { path: path_view(self.path@), type_id: self.type_id, value: self.value@ }
    }
}

/// The models of the styles of a sheet.
pub open spec fn styles_view(styles: Seq<LoadedStyle>) -> Seq<LoadedModel> {
    styles.map_values(|style: LoadedStyle| style@)
}

/// The text of a key that can name a style or a branch: a field name, a
/// bare word that starts with an upper-case letter, or a string.
pub open spec fn key_name(key: MapKeyModel) -> Option<Seq<u8>> {
    match key {
        MapKeyModel::FieldName { fill, name } => Some(name),
        MapKeyModel::Value(ValueModel::EnumVariant(EnumVariantModel::Unit { id })) => Some(
            id.name,
        ),
        MapKeyModel::Value(ValueModel::String(s)) => Some(string_json(s.raw)),
        _ => None,
    }
}

/// Whether a key names a style: its first character is upper case.
pub open spec fn is_style_key(key: Seq<u8>) -> bool {
    decode_utf8(key).len() > 0 && char_is_uppercase(decode_utf8(key)[0])
}

/// Whether a value is the marker `"inherited"`.
pub open spec fn is_inherited(v: ValueModel) -> bool {
    v matches ValueModel::String(s) && string_json(s.raw) == "inherited".spec_bytes()
}

/// The shortcuts with those of a `using` list added: one for each item that
/// is a string and the long name of a registered type.
pub open spec fn using_shortcuts(items: Seq<ValueModel>, reg: TypeRegistry, shortcuts: Seq<
    Shortcut,
>) -> Seq<Shortcut>
    decreases items.len(),
{
    if items.len() == 0 {
        shortcuts
    } else {
        let next = match items[0] {
            ValueModel::String(s) => match path_index(reg.types@, string_json(s.raw), 0) {
                Some(i) => shortcut_set(
                    shortcuts,
                    Shortcut { short: reg.types@[i].ident, long: reg.types@[i].path },
                ),
                None => shortcuts,
            },
            _ => shortcuts,
        };
        using_shortcuts(items.drop_first(), reg, next)
    }
}

/// The shortcuts with one set: in the place of the one for the same short
/// name, or at the end.
pub open spec fn shortcut_set(shortcuts: Seq<Shortcut>, shortcut: Shortcut) -> Seq<Shortcut> {
    match shortcut_index(shortcuts, encode_utf8(shortcut.short@), 0) {
        Some(i) => shortcuts.update(i, shortcut),
        None => shortcuts.push(shortcut),
    }
}

/// What has been gathered while a sheet is read.
pub struct Progress {
    pub shortcuts: Seq<Shortcut>,
    pub styles: Seq<LoadedModel>,
}

/// What is gathered from the entries of a branch from `index` on. `stacks`
/// holds, for every type, the values that its style has had in this branch
/// and the branches around it, the last at the end.
pub open spec fn branch_styles(
    entries: Seq<MapEntryModel>,
    index: int,
    path: Seq<Seq<u8>>,
    top: bool,
    reg: TypeRegistry,
    stacks: Seq<Seq<ValueModel>>,
    progress: Progress,
) -> Progress
    decreases entries, entries.len() - index,
{
    if index < 0 || index >= entries.len() {
        progress
    } else {
        match entries[index] {
            MapEntryModel::KeyValue(kv) => match key_name(kv.key) {
                Some(key) => if top && index == 0 && key == using_text() {
                    let shortcuts = match kv.value {
                        ValueModel::Array(l) => using_shortcuts(
                            l.entries,
                            reg,
                            progress.shortcuts,
                        ),
                        _ => progress.shortcuts,
                    };
                    branch_styles(
                        entries,
                        index + 1,
                        path,
                        top,
                        reg,
                        stacks,
                        Progress { shortcuts, styles: progress.styles },
                    )
                } else if is_style_key(key) {
                    match style_value(kv.value, key, reg, stacks, progress.shortcuts) {
                        Some((ty, value)) => branch_styles(
                            entries,
                            index + 1,
                            path,
                            top,
                            reg,
                            stacks.update(ty as int, stacks[ty as int].push(value)),
                            Progress {
                                shortcuts: progress.shortcuts,
                                styles: progress.styles.push(
                                    LoadedModel { path, type_id: ty, value },
                                ),
                            },
                        ),
                        None => branch_styles(entries, index + 1, path, top, reg, stacks, progress),
                    }
                } else {
                    let inner = match kv.value {
                        ValueModel::Mapping(m) => branch_styles(
                            m.entries,
                            0,
                            path.push(key),
                            false,
                            reg,
                            stacks,
                            progress,
                        ),
                        _ => progress,
                    };
                    branch_styles(entries, index + 1, path, top, reg, stacks, inner)
                },
                None => branch_styles(entries, index + 1, path, top, reg, stacks, progress),
            },
            MapEntryModel::MacroParam => branch_styles(
                entries,
                index + 1,
                path,
                top,
                reg,
                stacks,
                progress,
            ),
        }
    }
}

/// The type and the value of a style: the type that its key names, and its
/// own value, or the value that the style last had where it is marked as
/// inherited. A key that names no type, and a style that has nothing to
/// inherit, give nothing.
pub open spec fn style_value(
    value: ValueModel,
    key: Seq<u8>,
    reg: TypeRegistry,
    stacks: Seq<Seq<ValueModel>>,
    shortcuts: Seq<Shortcut>,
) -> Option<(usize, ValueModel)> {
    match resolved(reg.types@, shortcuts, key) {
        Some(ty) => if !(0 <= ty < stacks.len()) {
            None
        } else if is_inherited(value) {
            if stacks[ty].len() > 0 {
                Some((ty as usize, stacks[ty].last()))
            } else {
                None
            }
        } else {
            Some((ty as usize, value))
        },
        None => None,
    }
}

/// The styles of a sheet whose root is `v`. A root that is no map holds none.
pub open spec fn sheet_styles(v: ValueModel, reg: TypeRegistry) -> Seq<LoadedModel> {
    match v {
        ValueModel::Mapping(m) => branch_styles(
            m.entries,
            0,
            Seq::empty(),
            true,
            reg,
            Seq::new(reg.types@.len(), |i: int| Seq::empty()),
            Progress { shortcuts: Seq::empty(), styles: Seq::empty() },
        ).styles,
        _ => Seq::empty(),
    }
}

/// The stacks of the styles, as models.
pub open spec fn stacks_view(stacks: Seq<Vec<CafValue>>) -> Seq<Seq<ValueModel>> {
    Seq::new(stacks.len(), |i: int| values_view(stacks[i]@))
}

/// The text of a key that can name a style or a branch.
fn key_text(key: &CafMapKey) -> (r: Option<String>)
    ensures
        match r {
            Some(text) => key_name(key@) == Some(encode_utf8(text@)),
            None => key_name(key@) is None,
        },
{
    match key {
        CafMapKey::FieldName { name, .. } => Some(name_as_str(name).to_owned()),
        CafMapKey::Value(value) => {
            assert(key@ == MapKeyModel::Value(value@));
            match value {
                CafValue::EnumVariant(variant) => {
                    assert(value@ == ValueModel::EnumVariant(variant@));
                    match variant {
                        CafEnumVariant::Unit { id } => {
                            assert(variant@ == (EnumVariantModel::Unit { id: id@ }));
                            Some(name_as_str(&id.name).to_owned())
                        },
                        _ => {
                            assert(!(variant@ is Unit));
                            None
                        },
                    }
                },
                CafValue::String(string) => {
                    assert(value@ == ValueModel::String(string@));
                    Some(string.text())
                },
                _ => {
                    assert(!(value@ is EnumVariant) && !(value@ is String));
                    None
                },
            }
        },
    }
}

/// Whether a value is the marker `"inherited"`.
fn inherited(value: &CafValue) -> (r: bool)
    ensures
        r == is_inherited(value@),
{
    match value {
        CafValue::String(string) => {
            assert(value@ == ValueModel::String(string@));
            let text = string.text();
            same_text(text.as_str(), "inherited")
        },
        _ => {
            assert(!(value@ is String));
            false
        },
    }
}

/// Adds the shortcuts of a `using` list.
fn handle_using_entry(registry: &TypeRegistry, items: &Vec<CafValue>, shortcuts: &mut NameShortcuts)
    ensures
        final(shortcuts).entries@ == using_shortcuts(
            values_view(items@),
            *registry,
            old(shortcuts).entries@,
        ),
{
    let ghost models = values_view(items@);
    proof {
        lemma_values_view(items@);
        assert(models.subrange(0, models.len() as int) =~= models);
    }
    let mut i: usize = 0;
    while i < items.len()
        invariant
            0 <= i <= items@.len(),
            models == values_view(items@),
            models.len() == items@.len(),
            forall|j: int| 0 <= j < items@.len() ==> #[trigger] models[j] == items@[j]@,
            using_shortcuts(models, *registry, old(shortcuts).entries@) == using_shortcuts(
                models.subrange(i as int, models.len() as int),
                *registry,
                shortcuts.entries@,
            ),
        decreases items@.len() - i,
    {
        let ghost rest = models.subrange(i as int, models.len() as int);
        proof {
            assert(rest[0] == items@[i as int]@);
            assert(rest.drop_first() =~= models.subrange(i + 1, models.len() as int));
        }
        match &items[i] {
            CafValue::String(longname) => {
                assert(items@[i as int]@ == ValueModel::String(longname@));
                let text = longname.text();
                match registry.get_with_type_path(text.as_str()) {
                    Some(at) => {
                        let registration = &registry.types[at];
                        shortcuts.insert(registration.ident.clone(), registration.path.clone());
                    },
                    None => {},
                }
            },
            _ => {
                assert(!(items@[i as int]@ is String));
            },
        }
        i += 1;
    }
}

/// The sheet being loaded.
pub struct StyleLoader {
    pub shortcuts: NameShortcuts,
    /// For every type, the values that its style has had so far.
    pub stacks: Vec<Vec<CafValue>>,
    pub styles: Vec<LoadedStyle>,
}

impl StyleLoader {
    pub open spec fn progress(&self) -> Progress {
        Progress { shortcuts: self.shortcuts.entries@, styles: styles_view(self.styles@) }
    }
}

/// Copies a path.
fn copy_path(path: &Vec<String>) -> (r: Vec<String>)
    ensures
        r@ == path@,
{
    let mut out: Vec<String> = Vec::new();
    let mut i: usize = 0;
    while i < path.len()
        invariant
            0 <= i <= path@.len(),
            out@ == path@.subrange(0, i as int),
        decreases path@.len() - i,
    {
        out.push(path[i].clone());
        proof {
            assert(out@ =~= path@.subrange(0, i + 1));
        }
        i += 1;
    }
    proof {
        assert(path@.subrange(0, path@.len() as int) =~= path@);
    }
    out
}

/// Reads the entries of one branch.
fn parse_branch(
    registry: &TypeRegistry,
    loader: &mut StyleLoader,
    path: &Vec<String>,
    entries: &Vec<CafMapEntry>,
    top: bool,
)
    requires
        old(loader).stacks@.len() == registry.types@.len(),
    ensures
        final(loader).stacks@.len() == registry.types@.len(),
        stacks_view(final(loader).stacks@) == stacks_view(old(loader).stacks@),
        final(loader).progress() == branch_styles(
            entries_view(entries@),
            0,
            path_view(path@),
            top,
            *registry,
            stacks_view(old(loader).stacks@),
            old(loader).progress(),
        ),
    decreases entries,
{
    let ghost models = entries_view(entries@);
    let ghost whole = branch_styles(
        models,
        0,
        path_view(path@),
        top,
        *registry,
        stacks_view(loader.stacks@),
        loader.progress(),
    );
    let ghost start = stacks_view(loader.stacks@);
    proof {
        lemma_entries_view(entries@);
    }
    let mut lens: Vec<usize> = Vec::new();
    let mut t: usize = 0;
    while t < loader.stacks.len()
        invariant
            0 <= t <= loader.stacks@.len(),
            loader.stacks@ == old(loader).stacks@,
            lens@.len() == t,
            forall|j: int| 0 <= j < t ==> #[trigger] lens@[j] == loader.stacks@[j]@.len(),
        decreases loader.stacks@.len() - t,
    {
        lens.push(loader.stacks[t].len());
        t += 1;
    }
    proof {
        assert forall|j: int| 0 <= j < lens@.len() implies #[trigger] lens@[j] == start[j].len()
            && lens@[j] <= loader.stacks@[j]@.len() && values_view(loader.stacks@[j]@).subrange(
            0,
            lens@[j] as int,
        ) == start[j] by {
            lemma_values_view(loader.stacks@[j]@);
            assert(values_view(loader.stacks@[j]@).subrange(0, lens@[j] as int) =~= values_view(
                loader.stacks@[j]@,
            ));
        }
    }
    let mut i: usize = 0;
    while i < entries.len()
        invariant
            0 <= i <= entries@.len(),
            models == entries_view(entries@),
            models.len() == entries@.len(),
            forall|j: int| 0 <= j < entries@.len() ==> #[trigger] models[j] == entries@[j]@,
            loader.stacks@.len() == registry.types@.len(),
            lens@.len() == loader.stacks@.len(),
            start == stacks_view(old(loader).stacks@),
            start.len() == loader.stacks@.len(),
            forall|j: int|
                0 <= j < lens@.len() ==> #[trigger] lens@[j] == start[j].len() && lens@[j]
                    <= loader.stacks@[j]@.len() && values_view(loader.stacks@[j]@).subrange(
                    0,
                    lens@[j] as int,
                ) == start[j],
            whole == branch_styles(
                models,
                i as int,
                path_view(path@),
                top,
                *registry,
                stacks_view(loader.stacks@),
                loader.progress(),
            ),
        decreases entries@.len() - i,
    {
        let ghost stacks_now = stacks_view(loader.stacks@);
        let ghost progress_now = loader.progress();
        match &entries[i] {
            CafMapEntry::KeyValue(kv) => {
                assert(entries@[i as int]@ == MapEntryModel::KeyValue(kv@));
                assert(kv@.key == kv.key@ && kv@.value == kv.value@);
                match key_text(&kv.key) {
                    Some(key) => {
                        proof {
                            vstd::utf8::encode_utf8_decode_utf8(key@);
                        }
                        if is_using_entry(
                            if top {
                                0
                            } else {
                                1
                            },
                            i,
                            key.as_str(),
                        ) {
                            match &kv.value {
                                CafValue::Array(list) => {
                                    assert(kv.value@ == ValueModel::Array(list@));
                                    handle_using_entry(
                                        registry,
                                        &list.entries,
                                        &mut loader.shortcuts,
                                    );
                                },
                                _ => {
                                    assert(!(kv.value@ is Array));
                                },
                            }
                        } else if is_style_entry(key.as_str()) {
                            match registry.resolve(key.as_str(), &loader.shortcuts) {
                                Ok(ty) => {
                                    let found = if inherited(&kv.value) {
                                        let stack = &loader.stacks[ty];
                                        proof {
                                            lemma_values_view(stack@);
                                        }
                                        if stack.len() > 0 {
                                            Some(stack[stack.len() - 1].duplicate())
                                        } else {
                                            None
                                        }
                                    } else {
                                        Some(kv.value.duplicate())
                                    };
                                    match found {
                                        Some(value) => {
                                            let ghost v = value@;
                                            let ghost before = loader.stacks@;
                                            let ghost before_styles = loader.styles@;
                                            let style = LoadedStyle {
                                                path: copy_path(path),
                                                type_id: ty,
                                                value: value.duplicate(),
                                            };
                                            loader.stacks[ty].push(value);
                                            loader.styles.push(style);
                                            proof {
                                                lemma_stack_pushed(before, loader.stacks@, ty as int, v);
                                                assert(styles_view(loader.styles@)
                                                    =~= styles_view(before_styles).push(style@));
                                                assert forall|j: int|
                                                    0 <= j < lens@.len() implies #[trigger] lens@[j]
                                                    == start[j].len() && lens@[j]
                                                    <= loader.stacks@[j]@.len() && values_view(
                                                    loader.stacks@[j]@,
                                                ).subrange(0, lens@[j] as int) == start[j] by {
                                                    if j == ty {
                                                        lemma_values_view(before[j]@);
                                                        lemma_values_view(loader.stacks@[j]@);
                                                        assert(values_view(before[j]@).subrange(
                                                            0,
                                                            lens@[j] as int,
                                                        ) == start[j]);
                                                        assert(values_view(
                                                            loader.stacks@[j]@,
                                                        ).subrange(0, lens@[j] as int)
                                                            =~= values_view(before[j]@).subrange(
                                                            0,
                                                            lens@[j] as int,
                                                        ));
                                                    } else {
                                                        assert(loader.stacks@[j] == before[j]);
                                                    }
                                                }
                                            }
                                        },
                                        None => {},
                                    }
                                },
                                Err(_) => {},
                            }
                        } else {
                            match &kv.value {
                                CafValue::Mapping(map) => {
                                    assert(kv.value@ == ValueModel::Mapping(map@));
                                    let mut extended = copy_path(path);
                                    extended.push(key);
                                    proof {
                                        assert(path_view(extended@) =~= path_view(path@).push(
                                            encode_utf8(key@),
                                        ));
                                        assert(decreases_to!(*entries => entries[i as int]));
                                    }
                                    let ghost before = loader.stacks@;
                                    parse_branch(registry, loader, &extended, &map.entries, false);
                                    proof {
                                        assert forall|j: int|
                                            0 <= j < lens@.len() implies #[trigger] lens@[j]
                                            == start[j].len() && lens@[j]
                                            <= loader.stacks@[j]@.len() && values_view(
                                            loader.stacks@[j]@,
                                        ).subrange(0, lens@[j] as int) == start[j] by {
                                            assert(stacks_view(loader.stacks@)[j] == stacks_view(
                                                before,
                                            )[j]);
                                            lemma_values_view(loader.stacks@[j]@);
                                            lemma_values_view(before[j]@);
                                        }
                                    }
                                },
                                _ => {
                                    assert(!(kv.value@ is Mapping));
                                },
                            }
                        }
                    },
                    None => {},
                }
            },
            CafMapEntry::MacroParam(_) => {
                assert(entries@[i as int]@ is MacroParam);
            },
        }
        i += 1;
    }
    // Clear styles tracked for inheritance.
    let mut t: usize = 0;
    while t < loader.stacks.len()
        invariant
            0 <= t <= loader.stacks@.len(),
            loader.stacks@.len() == registry.types@.len(),
            lens@.len() == loader.stacks@.len(),
            start == stacks_view(old(loader).stacks@),
            start.len() == loader.stacks@.len(),
            loader.progress() == whole,
            forall|j: int|
                t <= j < lens@.len() ==> #[trigger] lens@[j] == start[j].len() && lens@[j]
                    <= loader.stacks@[j]@.len() && values_view(loader.stacks@[j]@).subrange(
                    0,
                    lens@[j] as int,
                ) == start[j],
            forall|j: int| 0 <= j < t ==> values_view(#[trigger] loader.stacks@[j]@) == start[j],
        decreases loader.stacks@.len() - t,
    {
        let ghost before = loader.stacks@;
        proof {
            lemma_values_view(before[t as int]@);
        }
        loader.stacks[t].truncate(lens[t]);
        proof {
            lemma_values_view(loader.stacks@[t as int]@);
            assert(values_view(loader.stacks@[t as int]@) =~= values_view(
                before[t as int]@,
            ).subrange(0, lens@[t as int] as int));
            assert forall|j: int| 0 <= j < t + 1 implies values_view(
                #[trigger] loader.stacks@[j]@,
            ) == start[j] by {
                if j < t {
                    assert(loader.stacks@[j] == before[j]);
                }
            }
            assert forall|j: int| t + 1 <= j < lens@.len() implies #[trigger] lens@[j]
                == start[j].len() && lens@[j] <= loader.stacks@[j]@.len() && values_view(
                loader.stacks@[j]@,
            ).subrange(0, lens@[j] as int) == start[j] by {
                assert(loader.stacks@[j] == before[j]);
            }
        }
        t += 1;
    }
    proof {
        assert(stacks_view(loader.stacks@) =~= start);
    }
}

/// Pushing a value on one stack changes that stack in the model and no other.
proof fn lemma_stack_pushed(before: Seq<Vec<CafValue>>, after: Seq<Vec<CafValue>>, ty: int, v: ValueModel)
    requires
        0 <= ty < before.len(),
        after.len() == before.len(),
        forall|j: int| 0 <= j < before.len() && j != ty ==> after[j] == before[j],
        after[ty]@.len() == before[ty]@.len() + 1,
        forall|k: int| 0 <= k < before[ty]@.len() ==> after[ty]@[k] == before[ty]@[k],
        after[ty]@[before[ty]@.len() as int]@ == v,
    ensures
        stacks_view(after) == stacks_view(before).update(ty, stacks_view(before)[ty].push(v)),
{
    lemma_values_view(after[ty]@);
    lemma_values_view(before[ty]@);
    assert(values_view(after[ty]@) =~= values_view(before[ty]@).push(v));
    assert(stacks_view(after) =~= stacks_view(before).update(
        ty,
        stacks_view(before)[ty].push(v),
    ));
}

/// The styles of a style sheet.
#[derive(Debug, Clone, PartialEq)]
pub struct StyleSheet {
    pub styles: Vec<LoadedStyle>,
}

/// Reads the styles of a style sheet whose root is `data`.
pub fn parse_stylesheet_file(registry: &TypeRegistry, data: &CafValue) -> (r: StyleSheet)
    ensures
        styles_view(r.styles@) == sheet_styles(data@, *registry),
{
    let CafValue::Mapping(map) = data else {
        assert(!(data@ is Mapping));
        let styles: Vec<LoadedStyle> = Vec::new();
        assert(styles_view(styles@) =~= Seq::<LoadedModel>::empty());
        return StyleSheet { styles };
    };
    assert(data@ == ValueModel::Mapping(map@));
    let mut stacks: Vec<Vec<CafValue>> = Vec::new();
    let mut t: usize = 0;
    while t < registry.types.len()
        invariant
            0 <= t <= registry.types@.len(),
            stacks@.len() == t,
            forall|j: int| 0 <= j < t ==> (#[trigger] stacks@[j])@.len() == 0,
        decreases registry.types@.len() - t,
    {
        stacks.push(Vec::new());
        t += 1;
    }
    let mut loader = StyleLoader { shortcuts: NameShortcuts::new(), stacks, styles: Vec::new() };
    let path: Vec<String> = Vec::new();
    proof {
        assert(stacks_view(loader.stacks@) =~= Seq::new(
            registry.types@.len(),
            |i: int| Seq::<ValueModel>::empty(),
        )) by {
            assert forall|j: int| 0 <= j < loader.stacks@.len() implies stacks_view(
                loader.stacks@,
            )[j] == Seq::<ValueModel>::empty() by {
                assert(values_view(loader.stacks@[j]@) =~= Seq::<ValueModel>::empty());
            }
        }
        assert(styles_view(loader.styles@) =~= Seq::<LoadedModel>::empty());
        assert(path_view(path@) =~= Seq::<Seq<u8>>::empty());
        assert(loader.shortcuts.entries@ =~= Seq::<Shortcut>::empty());
    }
    parse_branch(registry, &mut loader, &path, &map.entries, true);
    StyleSheet { styles: loader.styles }
}

} // verus!
