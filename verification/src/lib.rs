//! Photo library model for a self-hosted gallery: album and photo discovery,
//! EXIF metadata normalisation, date-range captions, path safety and the
//! rules of the thumbnail cache.

pub mod album;
pub mod dates;
pub mod metadata;
pub mod paths;
pub mod sorting;
pub mod text;
pub mod thumbnail;
