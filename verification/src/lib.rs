//! Verified core of a full-screen photo frame slideshow for Synology Photos and Immich shared
//! albums: layout arithmetic, share-link grammars, slideshow sequencing and the display loop's
//! decisions.

pub mod api_client;
pub mod api_photos;
pub mod asset;
pub mod cli;
pub mod frame;
pub mod img;
pub mod info_box;
pub mod logging;
pub mod metadata;
pub mod rand;
pub mod share_link;
pub mod slideshow;
pub mod test_helpers;
pub mod text;
pub mod transition;
pub mod update;
