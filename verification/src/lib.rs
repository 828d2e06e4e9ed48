//! Renderable state of a single frame's world: a camera with its
//! view/projection transforms, an orthographic overlay projection for the UI,
//! and a flat registry of scene objects, each referencing shared model and
//! texture resources by index.
//!
//! Scalars, transforms and offset vectors are opaque payloads here: the
//! registry and object table never inspect them, so the types are generic over
//! them and a caller instantiates them with its own linear-algebra types.

pub mod camera;
pub mod entity;
pub mod registry;
pub mod scene;
pub mod ui;

pub use camera::Camera;
pub use camera::Perspective;
pub use entity::EntityId;
pub use registry::Model;
pub use registry::ModelView;
pub use registry::Texture;
pub use scene::Object;
pub use scene::Scene;
pub use ui::UiProjection;
pub use ui::UI;
