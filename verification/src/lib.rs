//! Domain logic of the comic database server: identifiers, item kinds,
//! colors, navigation ordering, storyline segmentation, statistics shaping,
//! request validation and the decisions behind each editing endpoint.

pub mod ids;
pub mod item_type;
pub mod storylines;
pub mod text;
pub mod color;
pub mod image_type;
pub mod mime;
pub mod unescape;
pub mod counting;
pub mod navigation;
pub mod items;
pub mod stats;
pub mod stats_rows;
pub mod comics;
pub mod dates;
pub mod requests;
pub mod editing;
pub mod images;
pub mod tokens;
pub mod log_paging;
pub mod advance;
