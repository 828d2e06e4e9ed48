//! The scene: camera, UI overlay, resource registry and object table.
//!
//! `Scene` is the facade other subsystems call into to mutate object state by
//! entity identity: it resolves an identity to an object slot, resolves an
//! asset path to a registry index (creating and deduplicating models as
//! needed, only looking textures up), and records the link. A renderer later
//! iterates `objects`, dereferencing the `model` / `texture` indices into the
//! registry lists.
//!
//! The generic parameters are opaque payloads the scene stores but never
//! inspects: `S` the scalar of the two projections, `W` the camera's view
//! transform, `V` a model's offset vector, `P` an object's similarity
//! transform.

use vstd::prelude::*;

use crate::camera::Camera;
use crate::entity::EntityId;
use crate::registry::add_index;
use crate::registry::add_model;
use crate::registry::find_model;
use crate::registry::find_texture;
use crate::registry::lemma_find_model;
use crate::registry::lemma_find_model_at;
use crate::registry::lemma_find_texture;
use crate::registry::lemma_find_texture_at;
use crate::registry::lemma_add_model_preserves_unique;
use crate::registry::paths_unique;
use crate::registry::texture_paths_unique;
use crate::registry::Model;
use crate::registry::ModelView;
use crate::registry::Texture;
use crate::ui::UI;

verus! {

/// A scene object: an externally issued identity, optional back-references
/// into the registry's model and texture lists, and a similarity transform.
/// Objects are created and inserted by an external collaborator; this crate
/// only mutates them in place.
#[derive(Clone, PartialEq, Debug)]
pub struct Object<P> {
    pub id: EntityId,
    pub model: Option<usize>,
    pub texture: Option<usize>,
    pub position: P,
}

/// The renderable state of one frame's world.
#[derive(Clone, PartialEq, Debug)]
pub struct Scene<S, W, V, P> {
    pub camera: Camera<S, W>,
    pub ui: UI<S>,
    pub models: Vec<Model<V>>,
    pub objects: Vec<Object<P>>,
    pub textures: Vec<Texture>,
}

/// The first object slot holding identity `id`, if any.
pub open spec fn find_object<P>(objects: Seq<Object<P>>, id: EntityId) -> Option<int>
    decreases objects.len(),
{
    if objects.len() == 0 {
        None
    } else if objects[0].id == id {
        Some(0int)
    } else {
        match find_object(objects.drop_first(), id) {
            Some(i) => Some(i + 1),
            None => None,
        }
    }
}

/// `find_object` returns the first slot holding `id`: on `Some(i)` the slot
/// at `i` holds it and no earlier slot does, on `None` no slot does.
pub proof fn lemma_find_object<P>(objects: Seq<Object<P>>, id: EntityId)
    ensures
        match find_object(objects, id) {
            Some(i) => 0 <= i < objects.len() && objects[i].id == id && (forall|j: int|
                0 <= j < i ==> (#[trigger] objects[j]).id != id),
            None => forall|j: int| 0 <= j < objects.len() ==> (#[trigger] objects[j]).id != id,
        },
    decreases objects.len(),
{
    if objects.len() == 0 {
    } else if objects[0].id == id {
    } else {
        lemma_find_object(objects.drop_first(), id);
        assert(forall|j: int|
            1 <= j < objects.len() ==> objects[j] == objects.drop_first()[j - 1]);
    }
}

/// Conversely, a slot holding `id` with no earlier slot holding it is
/// exactly what `find_object` returns.
pub proof fn lemma_find_object_at<P>(objects: Seq<Object<P>>, id: EntityId, i: int)
    requires
        0 <= i < objects.len(),
        objects[i].id == id,
        forall|j: int| 0 <= j < i ==> (#[trigger] objects[j]).id != id,
    ensures
        find_object(objects, id) == Some(i),
{
    lemma_find_object(objects, id);
    match find_object(objects, id) {
        Some(k) => {
            if k < i {
                assert(objects[k].id != id);
            } else if i < k {
                assert(objects[i].id != id);
            }
        },
        None => {
            assert(objects[i].id != id);
        },
    }
}

/// A registry back-reference is valid when it stays inside the list it
/// indexes.
pub open spec fn index_ok(index: Option<usize>, len: nat) -> bool {
    match index {
        Some(i) => (i as nat) < len,
        None => true,
    }
}

impl<S, W, V, P> Scene<S, W, V, P> {
    /// The registry's model list as mathematical values.
    pub open spec fn models_view(&self) -> Seq<ModelView<V>> {
        self.models@.map_values(|m: Model<V>| m@)
    }

    /// The registry's texture paths as character sequences.
    pub open spec fn textures_view(&self) -> Seq<Seq<char>> {
        self.textures@.map_values(|t: Texture| t@)
    }

    /// Scene well-formedness: every model / texture back-reference held by an
    /// object is a valid index into the respective registry list, and within
    /// each registry list paths are unique. Mutation preserves it, as each
    /// mutating method's contract states.
    pub open spec fn wf(&self) -> bool {
        &&& forall|k: int|
            0 <= k < self.objects@.len() ==> index_ok(
                (#[trigger] self.objects@[k]).model,
                self.models@.len(),
            )
        &&& forall|k: int|
            0 <= k < self.objects@.len() ==> index_ok(
                (#[trigger] self.objects@[k]).texture,
                self.textures@.len(),
            )
        &&& paths_unique(self.models_view())
        &&& texture_paths_unique(self.textures_view())
    }

    /// Resolves an entity identity to the first object slot holding it, by a
    /// linear scan.
    fn object_by_id(&self, id: EntityId) -> (r: Option<usize>)
        ensures
            match find_object(self.objects@, id) {
                Some(i) => r == Some(i as usize),
                None => r is None,
            },
    {
        let n = self.objects.len();
        let mut i: usize = 0;
        while i < n
            invariant
                n == self.objects.len(),
                i <= n,
                forall|j: int| 0 <= j < i ==> (#[trigger] self.objects@[j]).id != id,
            decreases n - i,
        {
            if self.objects[i].id == id {
                proof {
                    lemma_find_object_at(self.objects@, id, i as int);
                }
                return Some(i);
            }
            i += 1;
        }
        proof {
            lemma_find_object(self.objects@, id);
        }
        None
    }

    /// Looks a texture up by path, by a linear scan; returns its registry
    /// index, or nothing if the path is absent. The lookup never creates:
    /// texture insertion happens elsewhere and is only referenced here.
    pub fn get_texture(&self, path: &String) -> (r: Option<usize>)
        ensures
            match find_texture(self.textures_view(), path@) {
                Some(i) => r == Some(i as usize),
                None => r is None,
            },
    {
        let n = self.textures.len();
        let mut i: usize = 0;
        while i < n
            invariant
                n == self.textures.len(),
                i <= n,
                forall|j: int| 0 <= j < i ==> #[trigger] self.textures_view()[j] != path@,
            decreases n - i,
        {
            if self.textures[i].path == *path {
                proof {
                    lemma_find_texture_at(self.textures_view(), path@, i as int);
                }
                return Some(i);
            }
            i += 1;
        }
        proof {
            lemma_find_texture(self.textures_view(), path@);
        }
        None
    }

    /// Resolves a model path to its registry slot, by a linear scan.
    fn model_by_path(&self, path: &String) -> (r: Option<usize>)
        ensures
            match find_model(self.models_view(), path@) {
                Some(i) => r == Some(i as usize),
                None => r is None,
            },
    {
        let n = self.models.len();
        let mut i: usize = 0;
        while i < n
            invariant
                n == self.models.len(),
                i <= n,
                forall|j: int| 0 <= j < i ==> (#[trigger] self.models_view()[j]).path != path@,
            decreases n - i,
        {
            if self.models[i].path == *path {
                proof {
                    lemma_find_model_at(self.models_view(), path@, i as int);
                }
                return Some(i);
            }
            i += 1;
        }
        proof {
            lemma_find_model(self.models_view(), path@);
        }
        None
    }

    /// Deduplicating model insertion: resolves `path` to the existing entry's
    /// index, overwriting its offset where one is supplied (last writer
    /// wins), or appends a fresh model and returns the new last index. At
    /// most one model per distinct path ever exists in the list.
    pub fn add_or_get_model(&mut self, path: &String, offset: Option<V>) -> (r: usize)
        ensures
            r as int == add_index(old(self).models_view(), path@),
            final(self).models_view() == add_model(old(self).models_view(), path@, offset),
            r < final(self).models.len(),
            final(self).models.len() == (match find_model(old(self).models_view(), path@) {
                Some(_) => old(self).models.len() as int,
                None => old(self).models.len() + 1,
            }),
            final(self).objects == old(self).objects,
            final(self).textures == old(self).textures,
            final(self).camera == old(self).camera,
            final(self).ui == old(self).ui,
            old(self).wf() ==> final(self).wf(),
    {
        proof {
            lemma_find_model(old(self).models_view(), path@);
            if old(self).wf() {
                lemma_add_model_preserves_unique(old(self).models_view(), path@, offset);
            }
        }
        match self.model_by_path(path) {
            Some(i) => {
                proof {
                    assert(old(self).models.len() == old(self).models@.len());
                    assert(find_model(old(self).models_view(), path@) == Some(i as int));
                }
                match offset {
                    Some(v) => {
                        let kept = self.models[i].path.clone();
                        self.models[i] = Model { path: kept, offset: Some(v) };
                    },
                    None => {},
                }
                proof {
                    assert(self.models_view() =~= add_model(
                        old(self).models_view(),
                        path@,
                        offset,
                    ));
                }
                i
            },
            None => {
                let mut model = Model::new(path.clone());
                if let Some(v) = offset {
                    model.set_offset(v);
                }
                self.models.push(model);
                proof {
                    assert(self.models_view() =~= add_model(
                        old(self).models_view(),
                        path@,
                        offset,
                    ));
                }
                self.models.len() - 1
            },
        }
    }

    /// Resolves `id` to an object slot and links that object to the model
    /// under `path`, creating or deduplicating the model as `add_or_get_model`
    /// does. Returns `false`, mutating nothing, when no object holds `id`.
    pub fn set_model(&mut self, id: EntityId, path: &String, offset: Option<V>) -> (r: bool)
        ensures
            r == (find_object(old(self).objects@, id) is Some),
            !r ==> *final(self) == *old(self),
            r ==> ({
                let k = find_object(old(self).objects@, id).unwrap();
                &&& final(self).models_view() == add_model(old(self).models_view(), path@, offset)
                &&& final(self).models.len() == (match find_model(
                    old(self).models_view(),
                    path@,
                ) {
                    Some(_) => old(self).models.len() as int,
                    None => old(self).models.len() + 1,
                })
                &&& final(self).objects@ == old(self).objects@.update(
                    k,
                    (Object {
                        model: Some(add_index(old(self).models_view(), path@) as usize),
                        ..old(self).objects@[k]
                    }),
                )
                &&& final(self).textures == old(self).textures
                &&& final(self).camera == old(self).camera
                &&& final(self).ui == old(self).ui
            }),
            old(self).wf() ==> final(self).wf(),
    {
        proof {
            lemma_find_object(old(self).objects@, id);
            assert(old(self).objects.len() == old(self).objects@.len());
        }
        match self.object_by_id(id) {
            Some(index) => {
                proof {
                    assert(find_object(old(self).objects@, id) == Some(index as int));
                }
                let model = self.add_or_get_model(path, offset);
                let object = &mut self.objects[index];
                object.model = Some(model);
                proof {
                    if old(self).wf() {
                        assert forall|k: int|
                            0 <= k < self.objects@.len() implies index_ok(
                            (#[trigger] self.objects@[k]).model,
                            self.models@.len(),
                        ) by {
                            if k != index as int {
                                assert(self.objects@[k] == old(self).objects@[k]);
                            }
                        }
                        assert forall|k: int|
                            0 <= k < self.objects@.len() implies index_ok(
                            (#[trigger] self.objects@[k]).texture,
                            self.textures@.len(),
                        ) by {
                            if k != index as int {
                                assert(self.objects@[k] == old(self).objects@[k]);
                            }
                        }
                    }
                }
                true
            },
            None => false,
        }
    }

    /// Resolves `id` to an object slot and links that object to the texture
    /// under `path`. The texture is looked up, never created: when either the
    /// identity or the texture path is unknown, nothing is mutated and
    /// `false` is returned.
    pub fn set_texture(&mut self, id: EntityId, path: &String) -> (r: bool)
        ensures
            r == (find_object(old(self).objects@, id) is Some && find_texture(
                old(self).textures_view(),
                path@,
            ) is Some),
            !r ==> *final(self) == *old(self),
            r ==> ({
                let k = find_object(old(self).objects@, id).unwrap();
                let t = find_texture(old(self).textures_view(), path@).unwrap();
                &&& final(self).objects@ == old(self).objects@.update(
                    k,
                    (Object { texture: Some(t as usize), ..old(self).objects@[k] }),
                )
                &&& final(self).models == old(self).models
                &&& final(self).textures == old(self).textures
                &&& final(self).camera == old(self).camera
                &&& final(self).ui == old(self).ui
            }),
            old(self).wf() ==> final(self).wf(),
    {
        proof {
            lemma_find_object(old(self).objects@, id);
            lemma_find_texture(old(self).textures_view(), path@);
            assert(old(self).objects.len() == old(self).objects@.len());
            assert(old(self).textures.len() == old(self).textures@.len());
        }
        match self.object_by_id(id) {
            Some(index) => {
                let texture = self.get_texture(path);
                if texture.is_none() {
                    return false;
                }
                let texture = texture.unwrap();
                proof {
                    assert(find_object(old(self).objects@, id) == Some(index as int));
                    assert(find_texture(old(self).textures_view(), path@) == Some(
                        texture as int,
                    ));
                }
                let object = &mut self.objects[index];
                object.texture = Some(texture);
                proof {
                    if old(self).wf() {
                        assert forall|k: int|
                            0 <= k < self.objects@.len() implies index_ok(
                            (#[trigger] self.objects@[k]).model,
                            self.models@.len(),
                        ) by {
                            if k != index as int {
                                assert(self.objects@[k] == old(self).objects@[k]);
                            }
                        }
                        assert forall|k: int|
                            0 <= k < self.objects@.len() implies index_ok(
                            (#[trigger] self.objects@[k]).texture,
                            self.textures@.len(),
                        ) by {
                            if k != index as int {
                                assert(self.objects@[k] == old(self).objects@[k]);
                            }
                        }
                    }
                }
                true
            },
            None => false,
        }
    }

    /// Resolves `id` to an object slot and overwrites that object's
    /// similarity transform unconditionally. Returns `false`, mutating
    /// nothing, when no object holds `id`.
    pub fn set_position(&mut self, id: EntityId, position: P) -> (r: bool)
        ensures
            r == (find_object(old(self).objects@, id) is Some),
            !r ==> *final(self) == *old(self),
            r ==> ({
                let k = find_object(old(self).objects@, id).unwrap();
                &&& final(self).objects@ == old(self).objects@.update(
                    k,
                    (Object { position, ..old(self).objects@[k] }),
                )
                &&& final(self).models == old(self).models
                &&& final(self).textures == old(self).textures
                &&& final(self).camera == old(self).camera
                &&& final(self).ui == old(self).ui
            }),
            old(self).wf() ==> final(self).wf(),
    {
        proof {
            lemma_find_object(old(self).objects@, id);
            assert(old(self).objects.len() == old(self).objects@.len());
        }
        match self.object_by_id(id) {
            Some(index) => {
                proof {
                    assert(find_object(old(self).objects@, id) == Some(index as int));
                }
                let object = &mut self.objects[index];
                object.position = position;
                proof {
                    if old(self).wf() {
                        assert forall|k: int|
                            0 <= k < self.objects@.len() implies index_ok(
                            (#[trigger] self.objects@[k]).model,
                            self.models@.len(),
                        ) by {
                            if k != index as int {
                                assert(self.objects@[k] == old(self).objects@[k]);
                            }
                        }
                        assert forall|k: int|
                            0 <= k < self.objects@.len() implies index_ok(
                            (#[trigger] self.objects@[k]).texture,
                            self.textures@.len(),
                        ) by {
                            if k != index as int {
                                assert(self.objects@[k] == old(self).objects@[k]);
                            }
                        }
                    }
                }
                true
            },
            None => false,
        }
    }

    /// Read-only model lookup by path, independent of index, for
    /// collaborators that need to inspect a model without knowing its slot.
    pub fn get_model<'a>(&'a self, path: &str) -> (r: Option<&'a Model<V>>)
        ensures
            match find_model(self.models_view(), path@) {
                Some(i) => r is Some && *r.unwrap() == self.models@[i],
                None => r is None,
            },
    {
        let owned: String = path.to_owned();
        let n = self.models.len();
        let mut i: usize = 0;
        while i < n
            invariant
                owned@ == path@,
                n == self.models.len(),
                i <= n,
                forall|j: int| 0 <= j < i ==> (#[trigger] self.models_view()[j]).path != path@,
            decreases n - i,
        {
            if self.models[i].path == owned {
                proof {
                    lemma_find_model_at(self.models_view(), path@, i as int);
                }
                return Some(&self.models[i]);
            }
            i += 1;
        }
        proof {
            lemma_find_model(self.models_view(), path@);
        }
        None
    }
}

} // verus!
