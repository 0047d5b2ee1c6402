//! Display transforms of items: found along the chain of a model's parents, and kept.
use vstd::prelude::*;
use vstd::string::*;

use crate::text::strip_prefix_or_all;
use crate::text_map::TextMap;

verus! {

/// Models looked at on the way up from an item's own.
pub const MODEL_PARENT_LIMIT: u32 = 16;

/// A member of a JSON object, as far as it matters here.
pub enum JsonPart {
    Text(String),
    /// An object, as JSON text.
    Object(String),
    Other,
}

/// What a [`JsonPart`] holds.
pub enum JsonView {
    Text(Seq<char>),
    Object(Seq<char>),
    Other,
}

/// The view of an optional part.
pub open spec fn part_view(part: Option<JsonPart>) -> Option<JsonView> {
    match part {
        Some(JsonPart::Text(t)) => Some(JsonView::Text(t@)),
        Some(JsonPart::Object(t)) => Some(JsonView::Object(t@)),
        Some(JsonPart::Other) => Some(JsonView::Other),
        None => None,
    }
}

/// A JSON text as it is written out once it was parsed, if it is one.
pub uninterp spec fn parsed(text: Seq<char>) -> Option<Seq<char>>;

/// Parses with `serde_json::from_str` into a `Value` and writes it out with
/// `Value::to_string`. What comes out depends on the text alone; which texts parse is
/// not stated.
#[verifier::external_body]
fn parse_json(text: &str) -> (value: Option<String>)
    ensures
        crate::text::opt_text(value) == parsed(text@),
{
    let value: serde_json::Value = serde_json::from_str(text).ok()?;
    Some(value.to_string())
}

/// The member of a JSON object by its name, if the value written out in the text is an
/// object with one.
pub uninterp spec fn member(value: Seq<char>, name: Seq<char>) -> Option<JsonView>;

/// Looks a member up with `Value::get` in the `serde_json::Value` that `value` is written
/// out from; an object comes back as the text `Value::to_string` gives it. What comes out
/// depends on the value and the name alone; how values are written out is not stated.
#[verifier::external_body]
fn json_member(value: &str, name: &str) -> (part: Option<JsonPart>)
    ensures
        part_view(part) == member(value@, name@),
{
    let value: serde_json::Value = serde_json::from_str(value).ok()?;
    let part = value.get(name)?;
    Some(match part {
        serde_json::Value::String(s) => JsonPart::Text(s.to_owned()),
        serde_json::Value::Object(_) => JsonPart::Object(part.to_string()),
        _ => JsonPart::Other,
    })
}

/// The model of an item, from the contents of its definition, if it could be read. One
/// that is no JSON names none; of another, `first_ref` says which it names first.
pub fn resolve_item_model_path<F: Fn(&String) -> Option<String>>(
    file: Option<&str>,
    first_ref: F,
) -> (path: Option<String>)
    requires
        forall|value: String| #[trigger] call_requires(first_ref, (&value,)),
    ensures
        match file {
            None => path is None,
            Some(text) => match parsed(text@) {
                None => path is None,
                Some(v) => exists|value: String|
                    value@ == v && #[trigger] call_ensures(first_ref, (&value,), path),
            },
        },
{
    match file {
        Some(text) => match parse_json(text) {
            Some(value) => first_ref(&value),
            None => None,
        },
        None => None,
    }
}

/// The transform an item model states under a key, as JSON text. One that is no JSON
/// states none.
pub open spec fn own_display(text: Seq<char>, key: Seq<char>) -> Option<Seq<char>> {
    match parsed(text) {
        None => None,
        Some(value) => match member(value, "display"@) {
            Some(JsonView::Object(d)) => match member(d, key) {
                Some(JsonView::Object(t)) => Some(t),
                _ => None,
            },
            _ => None,
        },
    }
}

/// The parent a model names. One that is no JSON names none.
pub open spec fn parent_of(text: Seq<char>) -> Option<Seq<char>> {
    match parsed(text) {
        None => None,
        Some(value) => match member(value, "parent"@) {
            Some(JsonView::Text(p)) => Some(crate::text::trim_prefix(p, "minecraft:"@)),
            _ => None,
        },
    }
}

/// What a walk up the parents does next.
pub enum WalkStep {
    /// Read the model of this name and hand its contents in.
    Read(String),
    /// The transform, as the JSON text of an object.
    Found(String),
    /// There is none.
    Nothing,
}

/// A walk over the models of an item.
pub struct DisplayWalk {
    pub key: String,
    /// Models asked for.
    pub depth: u32,
}

/// What a step and the models asked for after it come to.
pub open spec fn step_view(step: WalkStep, depth: u32) -> (Option<Seq<char>>, Option<Seq<char>>, u32) {
    match step {
        WalkStep::Read(k) => (Some(k@), None, depth),
        WalkStep::Found(t) => (None, Some(t@), depth),
        WalkStep::Nothing => (None, None, depth),
    }
}

/// The step after a model: the model to read, the transform found, and the models asked
/// for.
pub open spec fn next_step(key: Seq<char>, depth: u32, file: Option<Seq<char>>) -> (
    Option<Seq<char>>,
    Option<Seq<char>>,
    u32,
) {
    match file {
        None => (None, None, depth),
        Some(text) => match own_display(text, key) {
            Some(t) => (None, Some(t), depth),
            None => match parent_of(text) {
                Some(parent) => if depth >= MODEL_PARENT_LIMIT {
                    (None, None, depth)
                } else {
                    (Some(parent), None, (depth + 1) as u32)
                },
                None => (None, None, depth),
            },
        },
    }
}

impl DisplayWalk {
    /// Begins a walk at the model an item's definition names; without one there is
    /// nothing to find.
    pub fn begin(model: Option<String>, key: &str) -> (started: (Self, WalkStep))
        ensures
            started.0.key@ == key@,
            started.0.depth == 1,
            step_view(started.1, started.0.depth) == (crate::text::opt_text(model), None::<Seq<char>>, 1u32),
    {
        let step = match model {
            Some(path) => WalkStep::Read(path),
            None => WalkStep::Nothing,
        };
        (DisplayWalk { key: key.to_owned(), depth: 1 }, step)
    }

    /// Goes on with the contents of the model that was asked for.
    pub fn feed(&mut self, file: Option<&str>) -> (step: WalkStep)
        ensures
            final(self).key == old(self).key,
            step_view(step, final(self).depth) == next_step(
                old(self).key@,
                old(self).depth,
                crate::text::opt_str(file),
            ),
    {
        let text = match file {
            Some(text) => text,
            None => {
                return WalkStep::Nothing;
            },
        };
        let value = match parse_json(text) {
            Some(value) => value,
            None => {
                return WalkStep::Nothing;
            },
        };
        if let Some(JsonPart::Object(display)) = json_member(value.as_str(), "display") {
            if let Some(JsonPart::Object(entry)) = json_member(display.as_str(), self.key.as_str())
            {
                return WalkStep::Found(entry);
            }
        }
        match json_member(value.as_str(), "parent") {
            Some(JsonPart::Text(parent)) => {
                if self.depth >= MODEL_PARENT_LIMIT {
                    WalkStep::Nothing
                } else {
                    self.depth = self.depth + 1;
                    WalkStep::Read(strip_prefix_or_all(parent.as_str(), "minecraft:"))
                }
            },
            _ => WalkStep::Nothing,
        }
    }
}

/// The first transform along the parents of a model, `depth` models up from the
/// item's own, given what each model holds.
pub open spec fn display_from(
    models: spec_fn(Seq<char>) -> Option<Seq<char>>,
    path: Seq<char>,
    key: Seq<char>,
    depth: nat,
) -> Option<Seq<char>>
    decreases 16 - depth,
{
    if depth >= MODEL_PARENT_LIMIT {
        None
    } else {
        match models(path) {
            None => None,
            Some(text) => match own_display(text, key) {
                Some(t) => Some(t),
                None => match parent_of(text) {
                    Some(parent) => display_from(models, parent, key, depth + 1),
                    None => None,
                },
            },
        }
    }
}

/// The transform of an item, given the model its definition names and what each model
/// holds.
pub open spec fn item_display(
    models: spec_fn(Seq<char>) -> Option<Seq<char>>,
    model: Option<Seq<char>>,
    key: Seq<char>,
) -> Option<Seq<char>> {
    match model {
        Some(path) => display_from(models, path, key, 0),
        None => None,
    }
}

/// Where a walk ends that asked for `read` as its `depth`-th model, when each model it
/// asks for is handed in.
pub open spec fn walked(
    models: spec_fn(Seq<char>) -> Option<Seq<char>>,
    key: Seq<char>,
    depth: u32,
    read: Option<Seq<char>>,
    fuel: nat,
) -> Option<Seq<char>>
    decreases fuel,
{
    match read {
        None => None,
        Some(path) => if fuel == 0 {
            None
        } else {
            let (again, found, next) = next_step(key, depth, models(path));
            if again is Some {
                walked(models, key, next, again, (fuel - 1) as nat)
            } else {
                found
            }
        },
    }
}

proof fn lemma_walk_models(
    models: spec_fn(Seq<char>) -> Option<Seq<char>>,
    path: Seq<char>,
    key: Seq<char>,
    depth: u32,
    fuel: nat,
)
    requires
        1 <= depth <= 16,
        fuel >= 17 - depth,
    ensures
        walked(models, key, depth, Some(path), fuel) == display_from(
            models,
            path,
            key,
            (depth - 1) as nat,
        ),
    decreases 17 - depth,
{
    match models(path) {
        None => {},
        Some(text) => {
            if own_display(text, key) is None {
                if let Some(parent) = parent_of(text) {
                    if depth < 16 {
                        lemma_walk_models(
                            models,
                            parent,
                            key,
                            (depth + 1) as u32,
                            (fuel - 1) as nat,
                        );
                    }
                }
            }
        },
    }
}

/// A walk that is handed every model it asks for ends, after at most sixteen of them,
/// with the first transform along the parents, and with none if there is none.
pub proof fn law_walk_finds_the_first_display(
    models: spec_fn(Seq<char>) -> Option<Seq<char>>,
    model: Option<Seq<char>>,
    key: Seq<char>,
    fuel: nat,
)
    requires
        fuel >= 16,
    ensures
        walked(models, key, 1, model, fuel) == item_display(models, model, key),
{
    if let Some(path) = model {
        lemma_walk_models(models, path, key, 1, fuel);
    }
}

/// The last of the first `n` packs that holds an asset.
pub open spec fn last_holder(holds: Seq<bool>, n: int) -> Option<int>
    decreases n,
{
    if n <= 0 {
        None
    } else if holds[n - 1] {
        Some(n - 1)
    } else {
        last_holder(holds, n - 1)
    }
}

/// The pack an asset is read from, given which packs hold it; none if it is the game's
/// own. A later pack wins, and an asset it holds is read from it even if that fails.
pub fn winning_pack(holds: &Vec<bool>) -> (pack: Option<usize>)
    ensures
        match pack {
            Some(i) => last_holder(holds@, holds@.len() as int) == Some(i as int),
            None => last_holder(holds@, holds@.len() as int) is None,
        },
{
    let mut n: usize = holds.len();
    while n > 0
        invariant
            n <= holds@.len(),
            last_holder(holds@, holds@.len() as int) == last_holder(holds@, n as int),
        decreases n,
    {
        if holds[n - 1] {
            return Some(n - 1);
        }
        n = n - 1;
    }
    None
}

/// Files by asset; a file that cannot be read has no text.
pub type AssetFiles = Map<Seq<char>, Option<Seq<char>>>;

/// The game's own assets and the packs over them, the last on top.
pub struct AssetLayers {
    pub base: AssetFiles,
    pub packs: Seq<AssetFiles>,
}

impl AssetLayers {
    /// Which packs hold an asset.
    pub open spec fn holds(self, asset: Seq<char>) -> Seq<bool> {
        Seq::new(self.packs.len(), |i: int| self.packs[i].dom().contains(asset))
    }

    /// The text of an asset: that of the pack it is read from, or of the game's own.
    pub open spec fn text_of(self, asset: Seq<char>) -> Option<Seq<char>> {
        match last_holder(self.holds(asset), self.packs.len() as int) {
            Some(i) => self.packs[i][asset],
            None => if self.base.dom().contains(asset) {
                self.base[asset]
            } else {
                None
            },
        }
    }

    /// What each model holds, given the asset of a model's name.
    pub open spec fn models(self, asset_of: spec_fn(Seq<char>) -> Seq<char>) -> spec_fn(
        Seq<char>,
    ) -> Option<Seq<char>> {
        |path: Seq<char>| self.text_of(asset_of(path))
    }

    /// The layers with one more pack on top.
    pub open spec fn with(self, pack: AssetFiles) -> AssetLayers {
        AssetLayers { base: self.base, packs: self.packs.push(pack) }
    }
}

proof fn lemma_holder_prefix(a: Seq<bool>, b: Seq<bool>, n: int)
    requires
        forall|i: int| 0 <= i < n ==> a[i] == b[i],
    ensures
        last_holder(a, n) == last_holder(b, n),
        last_holder(a, n) matches Some(i) ==> 0 <= i < n,
    decreases n,
{
    if n > 0 {
        lemma_holder_prefix(a, b, n - 1);
    }
}

/// A pack on top answers for each file it holds, readable or not, and for no other.
pub proof fn law_the_top_pack_wins_file_by_file(
    layers: AssetLayers,
    pack: AssetFiles,
    asset: Seq<char>,
)
    ensures
        layers.with(pack).text_of(asset) == (if pack.dom().contains(asset) {
            pack[asset]
        } else {
            layers.text_of(asset)
        }),
{
    let n = layers.packs.len() as int;
    lemma_holder_prefix(layers.with(pack).holds(asset), layers.holds(asset), n);
}

/// Along the parents of a model, at any height, the pack on top answers for the models
/// it holds, and the packs below for the others. A model that cannot be read or is no
/// JSON ends the walk without a transform, whatever lower packs hold.
pub proof fn law_packs_win_through_the_parents(
    layers: AssetLayers,
    pack: AssetFiles,
    asset_of: spec_fn(Seq<char>) -> Seq<char>,
    path: Seq<char>,
    key: Seq<char>,
    depth: nat,
)
    requires
        depth < MODEL_PARENT_LIMIT,
    ensures
        ({
            let models = layers.with(pack).models(asset_of);
            let asset = asset_of(path);
            let file = if pack.dom().contains(asset) {
                pack[asset]
            } else {
                layers.text_of(asset)
            };
            &&& display_from(models, path, key, depth) == match file {
                None => None,
                Some(text) => match own_display(text, key) {
                    Some(t) => Some(t),
                    None => match parent_of(text) {
                        Some(parent) => display_from(models, parent, key, depth + 1),
                        None => None,
                    },
                },
            }
            &&& file is None || parsed(file->0) is None ==> display_from(
                models,
                path,
                key,
                depth,
            ) is None
        }),
{
    law_the_top_pack_wins_file_by_file(layers, pack, asset_of(path));
}

/// The model a definition's text names, given what `first_ref` says of a parsed one.
pub open spec fn named_model(
    file: Option<Seq<char>>,
    first_ref: spec_fn(Seq<char>) -> Option<Seq<char>>,
) -> Option<Seq<char>> {
    match file {
        None => None,
        Some(text) => match parsed(text) {
            None => None,
            Some(value) => first_ref(value),
        },
    }
}

/// The same for an item: its definition, too, is the top pack's where it holds one, and
/// a walk that is handed the winning files ends with the transform they name. A
/// definition that cannot be read or is no JSON gives no transform, whatever lower packs
/// hold. `first_ref` gives the model a parsed definition names first.
pub proof fn law_items_follow_the_winning_files(
    layers: AssetLayers,
    pack: AssetFiles,
    asset_of: spec_fn(Seq<char>) -> Seq<char>,
    first_ref: spec_fn(Seq<char>) -> Option<Seq<char>>,
    item_asset: Seq<char>,
    key: Seq<char>,
    fuel: nat,
)
    requires
        fuel >= 16,
    ensures
        ({
            let over = layers.with(pack);
            let file = if pack.dom().contains(item_asset) {
                pack[item_asset]
            } else {
                layers.text_of(item_asset)
            };
            let model = named_model(over.text_of(item_asset), first_ref);
            let found = walked(over.models(asset_of), key, 1, model, fuel);
            &&& found == match named_model(file, first_ref) {
                Some(path) => display_from(over.models(asset_of), path, key, 0),
                None => None,
            }
            &&& file is None || parsed(file->0) is None ==> found is None
        }),
{
    let over = layers.with(pack);
    law_the_top_pack_wins_file_by_file(layers, pack, item_asset);
    let model = named_model(over.text_of(item_asset), first_ref);
    law_walk_finds_the_first_display(over.models(asset_of), model, key, fuel);
}

/// The transforms found so far under one key.
pub struct DisplayResolver<T> {
    pub key: &'static str,
    pub cache: TextMap<T>,
}

impl<T: Copy> DisplayResolver<T> {
    /// The transforms kept, by item.
    pub open spec fn kept(self) -> Map<Seq<char>, T> {
        self.cache@
    }

    /// The cache is sound.
    pub open spec fn wf(self) -> bool {
        self.cache.wf()
    }

    pub fn new(key: &'static str) -> (resolver: Self)
        ensures
            resolver.wf(),
            resolver.key == key,
            resolver.kept() == Map::<Seq<char>, T>::empty(),
    {
        DisplayResolver { key, cache: TextMap::new() }
    }

    /// Forgets everything, as new resources require.
    pub fn clear_cache(&mut self)
        ensures
            final(self).wf(),
            final(self).key == old(self).key,
            final(self).kept() == Map::<Seq<char>, T>::empty(),
    {
        self.cache.clear();
    }

    /// The transform kept for an item.
    pub fn cached(&self, item_name: &str) -> (transform: Option<T>)
        requires
            self.wf(),
        ensures
            transform == (if self.kept().dom().contains(item_name@) {
                Some(self.kept()[item_name@])
            } else {
                None
            }),
    {
        match self.cache.get(item_name) {
            Some(t) => Some(*t),
            None => None,
        }
    }

    /// Keeps what was found for an item, or its default, and returns it. One that
    /// is kept already stays.
    pub fn resolve(&mut self, item_name: &str, found: Option<T>, default: T) -> (transform: T)
        requires
            old(self).wf(),
        ensures
            final(self).wf(),
            final(self).key == old(self).key,
            transform == resolution(old(self).kept(), item_name@, found, default),
            final(self).kept() == old(self).kept().insert(item_name@, transform),
    {
        if let Some(t) = self.cached(item_name) {
            assert(self.kept().insert(item_name@, t) =~= self.kept());
            return t;
        }
        let transform = match found {
            Some(t) => t,
            None => default,
        };
        self.cache.insert(item_name.to_owned(), transform);
        transform
    }
}

/// The transform an item gets: the one kept for it, else the one found, else its
/// default.
pub open spec fn resolution<T>(
    kept: Map<Seq<char>, T>,
    item: Seq<char>,
    found: Option<T>,
    default: T,
) -> T {
    if kept.dom().contains(item) {
        kept[item]
    } else {
        match found {
            Some(t) => t,
            None => default,
        }
    }
}

/// An item resolved again gets the same transform, whatever is found for it by then
/// and whatever other items were resolved in between.
pub proof fn law_resolved_displays_stay<T>(
    kept: Map<Seq<char>, T>,
    item: Seq<char>,
    found: Option<T>,
    default: T,
    other: Seq<char>,
    other_found: Option<T>,
    other_default: T,
    again: Option<T>,
    again_default: T,
)
    ensures
        ({
            let first = resolution(kept, item, found, default);
            let after = kept.insert(item, first);
            let later = after.insert(
                other,
                resolution(after, other, other_found, other_default),
            );
            resolution(later, item, again, again_default) == first
        }),
{
}

/// An item keeps its transform while files change, and gets the one found then, or its
/// default, once the cache was cleared.
pub proof fn law_changes_show_once_the_cache_is_cleared<T>(
    kept: Map<Seq<char>, T>,
    item: Seq<char>,
    found: Option<T>,
    default: T,
    found_later: Option<T>,
    default_later: T,
)
    ensures
        ({
            let first = resolution(kept, item, found, default);
            let after = kept.insert(item, first);
            let cleared = Map::<Seq<char>, T>::empty();
            &&& resolution(after, item, found_later, default_later) == first
            &&& resolution(cleared, item, found_later, default_later) == match found_later {
                Some(t) => t,
                None => default_later,
            }
        }),
{
}

/// A model states a transform of its own exactly if it is JSON whose display has an object
/// under the key.
pub proof fn law_models_state_their_own_display(text: Seq<char>, key: Seq<char>, found: Seq<char>)
    ensures
        own_display(text, key) == Some(found) <==> exists|value: Seq<char>, display: Seq<char>|
            parsed(text) == Some(value) && #[trigger] member(value, "display"@) == Some(
                JsonView::Object(display),
            ) && #[trigger] member(display, key) == Some(JsonView::Object(found)),
{
    if own_display(text, key) == Some(found) {
        let value = parsed(text)->0;
        let display = member(value, "display"@)->0->Object_0;
        assert(member(value, "display"@) == Some(JsonView::Object(display)));
        assert(member(display, key) == Some(JsonView::Object(found)));
    }
}

/// A model's parent is the text it names under that word, without the game's own
/// namespace before it.
pub proof fn law_models_name_their_parent(text: Seq<char>, value: Seq<char>, name: Seq<char>)
    requires
        parsed(text) == Some(value),
        member(value, "parent"@) == Some(JsonView::Text(name)),
    ensures
        parent_of(text) is Some,
        forall|rest: Seq<char>| name == #[trigger] ("minecraft:"@ + rest) ==> parent_of(text)
            == Some(rest),
        (forall|rest: Seq<char>| name != #[trigger] ("minecraft:"@ + rest)) ==> parent_of(text)
            == Some(name),
{
    reveal_strlit("minecraft:");
    crate::text::law_prefixes_come_off(name, "minecraft:"@, name);
    assert forall|rest: Seq<char>| name == #[trigger] ("minecraft:"@ + rest) implies parent_of(text)
        == Some(rest) by {
        crate::text::law_prefixes_come_off(name, "minecraft:"@, rest);
    }
}

/// The file of the model `n` parents up from `path`, if every model on the way can be
/// read and names its parent.
pub open spec fn ancestor(
    models: spec_fn(Seq<char>) -> Option<Seq<char>>,
    path: Seq<char>,
    n: nat,
) -> Option<Seq<char>>
    decreases n,
{
    if n == 0 {
        models(path)
    } else {
        match models(path) {
            Some(text) => match parent_of(text) {
                Some(parent) => ancestor(models, parent, (n - 1) as nat),
                None => None,
            },
            None => None,
        }
    }
}

/// A model states a transform under a key.
pub open spec fn states(file: Option<Seq<char>>, key: Seq<char>) -> bool {
    file matches Some(text) && own_display(text, key) is Some
}

proof fn lemma_nearest_model(
    models: spec_fn(Seq<char>) -> Option<Seq<char>>,
    path: Seq<char>,
    key: Seq<char>,
    depth: nat,
    n: nat,
)
    requires
        depth + n < 16,
        states(ancestor(models, path, n), key),
        forall|m: nat| m < n ==> !states(#[trigger] ancestor(models, path, m), key),
    ensures
        display_from(models, path, key, depth) == own_display(ancestor(models, path, n)->0, key),
    decreases n,
{
    if n > 0 {
        assert(!states(ancestor(models, path, 0), key));
        let text = models(path)->0;
        let parent = parent_of(text)->0;
        assert forall|m: nat| m < n - 1 implies !states(
            #[trigger] ancestor(models, parent, m),
            key,
        ) by {
            assert(!states(ancestor(models, path, m + 1), key));
        }
        lemma_nearest_model(models, parent, key, depth + 1, (n - 1) as nat);
    }
}

/// Of an item's model and its parents, sixteen models in all, the nearest that states a
/// transform gives it.
pub proof fn law_the_nearest_model_gives_the_display(
    models: spec_fn(Seq<char>) -> Option<Seq<char>>,
    path: Seq<char>,
    key: Seq<char>,
    n: nat,
)
    requires
        n < 16,
        states(ancestor(models, path, n), key),
        forall|m: nat| m < n ==> !states(#[trigger] ancestor(models, path, m), key),
    ensures
        item_display(models, Some(path), key) == own_display(ancestor(models, path, n)->0, key),
{
    lemma_nearest_model(models, path, key, 0, n);
}

/// Where none of those models states a transform there is none.
pub proof fn law_no_model_gives_no_display(
    models: spec_fn(Seq<char>) -> Option<Seq<char>>,
    path: Seq<char>,
    key: Seq<char>,
    depth: nat,
)
    requires
        depth <= 16,
        forall|m: nat| m < 16 - depth ==> !states(#[trigger] ancestor(models, path, m), key),
    ensures
        display_from(models, path, key, depth) is None,
        depth == 0 ==> item_display(models, Some(path), key) is None,
        item_display(models, None, key) is None,
    decreases 16 - depth,
{
    if depth < 16 {
        assert(!states(ancestor(models, path, 0), key));
        if let Some(text) = models(path) {
            if let Some(parent) = parent_of(text) {
                assert forall|m: nat| m < 16 - (depth + 1) implies !states(
                    #[trigger] ancestor(models, parent, m),
                    key,
                ) by {
                    assert(!states(ancestor(models, path, m + 1), key));
                }
                law_no_model_gives_no_display(models, parent, key, depth + 1);
            }
        }
    }
}

/// An asset is read from the last pack that holds it.
pub proof fn law_the_last_holder_wins(holds: Seq<bool>, n: int)
    requires
        0 <= n <= holds.len(),
    ensures
        match last_holder(holds, n) {
            Some(i) => 0 <= i < n && holds[i] && forall|k: int| i < k < n ==> !#[trigger] holds[k],
            None => forall|k: int| 0 <= k < n ==> !#[trigger] holds[k],
        },
    decreases n,
{
    if n > 0 {
        law_the_last_holder_wins(holds, n - 1);
    }
}

} // verus!
