//! Audio tag mapping: reads a tag container's items and pictures into one uniform model, and
//! writes that model back, with cover-front pictures kept first.

pub mod api;
pub mod engine;
pub mod laws;
pub mod lofty_specs;
pub mod model;
pub mod text;

pub use api::{ApiAudioImageType, ApiPosition};
pub use engine::{add_cover_image, normalize, replace_all_pictures};
pub use lofty_specs::StoredPicture;
pub use model::{AudioImageType, AudioTags, Image, Position};
