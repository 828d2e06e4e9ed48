//! The deduplicating resource registry's data and its mathematical model.
//!
//! Models and textures are shared resources keyed by asset path; objects refer
//! to them by index into the registry lists. The spec functions here describe
//! the registry over sequences of views: `find_model` / `find_texture` give
//! the first index holding a path, and `add_model` / `add_index` give the
//! list and index that deduplicating insertion produces. The `Scene` methods
//! are specified against these, and the registry laws (idempotence,
//! last-writer-wins for offsets, path uniqueness) are proved of them.

use vstd::prelude::*;

verus! {

/// A shared model resource: the asset path that keys it in the registry, and
/// an optional spatial offset applied to every instance referencing it. The
/// GPU-resident resource itself is owned by the instantiator, which keys it
/// by the same registry index; the offset-vector type `V` is an opaque
/// payload here.
#[derive(Clone, PartialEq, Debug)]
pub struct Model<V> {
    pub path: String,
    pub offset: Option<V>,
}

/// A shared texture resource: the asset path that keys it in the registry.
/// As with models, the GPU-resident resource is owned by the instantiator.
#[derive(Clone, PartialEq, Debug)]
pub struct Texture {
    pub path: String,
}

/// The mathematical value of a `Model`: its path as a character sequence,
/// with the offset payload.
#[verifier::ext_equal]
pub ghost struct ModelView<V> {
    pub path: Seq<char>,
    pub offset: Option<V>,
}

impl<V> View for Model<V> {
    type V = ModelView<V>;

    open spec fn view(&self) -> ModelView<V> {
        ModelView { path: self.path@, offset: self.offset }
    }
}

impl View for Texture {
    type V = Seq<char>;

    open spec fn view(&self) -> Seq<char> {
        self.path@
    }
}

impl<V> Model<V> {
    /// A fresh model under the given path, with no offset applied yet.
    pub fn new(path: String) -> (r: Model<V>)
        ensures
            r@ == (ModelView::<V> { path: path@, offset: None }),
    {
        Model { path, offset: None }
    }

    /// Overwrites the model's offset.
    pub fn set_offset(&mut self, offset: V)
        ensures
            final(self)@ == (ModelView { path: old(self)@.path, offset: Some(offset) }),
    {
        self.offset = Some(offset);
    }
}

/// The first index in `models` whose path is `path`, if any.
pub open spec fn find_model<V>(models: Seq<ModelView<V>>, path: Seq<char>) -> Option<int>
    decreases models.len(),
{
    if models.len() == 0 {
        None
    } else if models[0].path == path {
        Some(0int)
    } else {
        match find_model(models.drop_first(), path) {
            Some(i) => Some(i + 1),
            None => None,
        }
    }
}

/// The first index in `textures` whose path is `path`, if any.
pub open spec fn find_texture(textures: Seq<Seq<char>>, path: Seq<char>) -> Option<int>
    decreases textures.len(),
{
    if textures.len() == 0 {
        None
    } else if textures[0] == path {
        Some(0int)
    } else {
        match find_texture(textures.drop_first(), path) {
            Some(i) => Some(i + 1),
            None => None,
        }
    }
}

/// The model with `offset` written over it, where one is supplied.
pub open spec fn apply_offset<V>(m: ModelView<V>, offset: Option<V>) -> ModelView<V> {
    match offset {
        Some(v) => ModelView { path: m.path, offset: Some(v) },
        None => m,
    }
}

/// The index that deduplicating insertion of `path` yields: the existing
/// entry's index on a hit, the appended entry's index on a miss.
pub open spec fn add_index<V>(models: Seq<ModelView<V>>, path: Seq<char>) -> int {
    match find_model(models, path) {
        Some(i) => i,
        None => models.len() as int,
    }
}

/// The model list that deduplicating insertion produces: on a hit the
/// existing entry keeps its place, with the offset overwritten where one is
/// supplied; on a miss a fresh entry carrying `path` and `offset` is appended.
pub open spec fn add_model<V>(
    models: Seq<ModelView<V>>,
    path: Seq<char>,
    offset: Option<V>,
) -> Seq<ModelView<V>> {
    match find_model(models, path) {
        Some(i) => models.update(i, apply_offset(models[i], offset)),
        None => models.push(ModelView { path, offset }),
    }
}

/// No two entries share a path.
pub open spec fn paths_unique<V>(models: Seq<ModelView<V>>) -> bool {
    forall|i: int, j: int|
        0 <= i < models.len() && 0 <= j < models.len() && i != j
            ==> (#[trigger] models[i]).path != (#[trigger] models[j]).path
}

/// No two texture entries share a path.
pub open spec fn texture_paths_unique(textures: Seq<Seq<char>>) -> bool {
    forall|i: int, j: int|
        0 <= i < textures.len() && 0 <= j < textures.len() && i != j
            ==> #[trigger] textures[i] != #[trigger] textures[j]
}

/// `find_model` returns the first index holding `path`: on `Some(i)` the
/// entry at `i` holds it and no earlier entry does, on `None` no entry does.
pub proof fn lemma_find_model<V>(models: Seq<ModelView<V>>, path: Seq<char>)
    ensures
        match find_model(models, path) {
            Some(i) => 0 <= i < models.len() && models[i].path == path && (forall|j: int|
                0 <= j < i ==> (#[trigger] models[j]).path != path),
            None => forall|j: int|
                0 <= j < models.len() ==> (#[trigger] models[j]).path != path,
        },
    decreases models.len(),
{
    if models.len() == 0 {
    } else if models[0].path == path {
    } else {
        lemma_find_model(models.drop_first(), path);
        assert(forall|j: int|
            1 <= j < models.len() ==> models[j] == models.drop_first()[j - 1]);
    }
}

/// `find_texture` returns the first index holding `path`, in the same sense.
pub proof fn lemma_find_texture(textures: Seq<Seq<char>>, path: Seq<char>)
    ensures
        match find_texture(textures, path) {
            Some(i) => 0 <= i < textures.len() && textures[i] == path && (forall|j: int|
                0 <= j < i ==> #[trigger] textures[j] != path),
            None => forall|j: int| 0 <= j < textures.len() ==> #[trigger] textures[j] != path,
        },
    decreases textures.len(),
{
    if textures.len() == 0 {
    } else if textures[0] == path {
    } else {
        lemma_find_texture(textures.drop_first(), path);
        assert(forall|j: int|
            1 <= j < textures.len() ==> textures[j] == textures.drop_first()[j - 1]);
    }
}

/// Conversely, an index whose entry holds `path` while no earlier entry does
/// is exactly what `find_model` returns.
pub proof fn lemma_find_model_at<V>(models: Seq<ModelView<V>>, path: Seq<char>, i: int)
    requires
        0 <= i < models.len(),
        models[i].path == path,
        forall|j: int| 0 <= j < i ==> (#[trigger] models[j]).path != path,
    ensures
        find_model(models, path) == Some(i),
{
    lemma_find_model(models, path);
    match find_model(models, path) {
        Some(k) => {
            if k < i {
                assert(models[k].path != path);
            } else if i < k {
                assert(models[i].path != path);
            }
        },
        None => {
            assert(models[i].path != path);
        },
    }
}

/// Conversely, an index whose entry holds `path` while no earlier entry does
/// is exactly what `find_texture` returns.
pub proof fn lemma_find_texture_at(textures: Seq<Seq<char>>, path: Seq<char>, i: int)
    requires
        0 <= i < textures.len(),
        textures[i] == path,
        forall|j: int| 0 <= j < i ==> #[trigger] textures[j] != path,
    ensures
        find_texture(textures, path) == Some(i),
{
    lemma_find_texture(textures, path);
    match find_texture(textures, path) {
        Some(k) => {
            if k < i {
                assert(textures[k] != path);
            } else if i < k {
                assert(textures[i] != path);
            }
        },
        None => {
            assert(textures[i] != path);
        },
    }
}

/// Idempotence of deduplicating insertion without an offset: inserting a
/// path a second time yields the same index as the first insertion and
/// leaves the model list exactly as the first insertion left it.
pub proof fn lemma_add_model_idempotent<V>(models: Seq<ModelView<V>>, path: Seq<char>)
    ensures
        ({
            let once = add_model(models, path, None);
            &&& add_index(once, path) == add_index(models, path)
            &&& add_model(once, path, None) == once
        }),
{
    lemma_find_model(models, path);
    let once = add_model(models, path, None);
    match find_model(models, path) {
        Some(i) => {
            assert(once =~= models);
        },
        None => {
            let n = models.len() as int;
            assert(once[n].path == path);
            assert(forall|j: int| 0 <= j < n ==> (#[trigger] once[j]).path != path);
            lemma_find_model_at(once, path, n);
            assert(add_model(once, path, None) =~= once);
        },
    }
}

/// Last-writer-wins for offsets: inserting a path with one offset and then
/// with another lands on the same index both times and leaves the entry's
/// offset at the second value, its path unchanged.
pub proof fn lemma_add_model_last_writer_wins<V>(
    models: Seq<ModelView<V>>,
    path: Seq<char>,
    v1: V,
    v2: V,
)
    ensures
        ({
            let once = add_model(models, path, Some(v1));
            let twice = add_model(once, path, Some(v2));
            let i = add_index(models, path);
            &&& add_index(once, path) == i
            &&& twice[i].path == path
            &&& twice[i].offset == Some(v2)
        }),
{
    lemma_find_model(models, path);
    let once = add_model(models, path, Some(v1));
    let i = add_index(models, path);
    match find_model(models, path) {
        Some(k) => {
            assert(once[i].path == path);
            assert(forall|j: int| 0 <= j < i ==> (#[trigger] once[j]).path != path);
            lemma_find_model_at(once, path, i);
        },
        None => {
            assert(once[i].path == path);
            assert(forall|j: int| 0 <= j < i ==> (#[trigger] once[j]).path != path);
            lemma_find_model_at(once, path, i);
        },
    }
}

/// The model list left by a whole sequence of deduplicating insertions,
/// applied in order.
pub open spec fn add_model_sequence<V>(
    models: Seq<ModelView<V>>,
    inserts: Seq<(Seq<char>, Option<V>)>,
) -> Seq<ModelView<V>>
    decreases inserts.len(),
{
    if inserts.len() == 0 {
        models
    } else {
        add_model_sequence(
            add_model(models, inserts[0].0, inserts[0].1),
            inserts.drop_first(),
        )
    }
}

/// Path uniqueness after any sequence of deduplicating insertions: starting
/// from a list with no duplicate paths — the empty list in particular — no
/// sequence of insertions ever produces two entries sharing a path.
pub proof fn lemma_add_model_sequence_unique<V>(
    models: Seq<ModelView<V>>,
    inserts: Seq<(Seq<char>, Option<V>)>,
)
    requires
        paths_unique(models),
    ensures
        paths_unique(add_model_sequence(models, inserts)),
    decreases inserts.len(),
{
    if inserts.len() != 0 {
        lemma_add_model_preserves_unique(models, inserts[0].0, inserts[0].1);
        lemma_add_model_sequence_unique(
            add_model(models, inserts[0].0, inserts[0].1),
            inserts.drop_first(),
        );
    }
}

/// Deduplicating insertion preserves path uniqueness: a hit only rewrites an
/// entry's offset, and a miss appends a path that no entry held.
pub proof fn lemma_add_model_preserves_unique<V>(
    models: Seq<ModelView<V>>,
    path: Seq<char>,
    offset: Option<V>,
)
    requires
        paths_unique(models),
    ensures
        paths_unique(add_model(models, path, offset)),
{
    lemma_find_model(models, path);
    let after = add_model(models, path, offset);
    match find_model(models, path) {
        Some(i) => {
            assert(forall|j: int|
                0 <= j < after.len() ==> (#[trigger] after[j]).path == models[j].path);
        },
        None => {
            assert(forall|j: int|
                0 <= j < models.len() ==> (#[trigger] after[j]).path == models[j].path);
        },
    }
}

} // verus!
