//! JSON answers of the Synology Photos API.

use vstd::prelude::*;

verus! {

/// Envelope of every Synology API answer.
#[derive(Debug)]
pub struct ApiResponse<T> {
    pub success: bool,
    pub error: Option<ApiError>,
    pub data: Option<T>,
}

#[derive(Debug, Clone, Copy, PartialEq, Eq, Structural)]
pub struct ApiError {
    pub code: i32,
}

#[derive(Debug, Clone, Copy, PartialEq, Eq, Structural)]
pub struct Login {}

#[derive(Debug)]
pub struct List<T> {
    pub list: Vec<T>,
}

#[derive(Debug, Clone, Copy, PartialEq, Eq, Structural)]
pub struct Album {
    pub item_count: u32,
}

#[derive(Debug)]
pub struct Photo {
    pub id: i32,
    pub additional: Additional,
}

#[derive(Debug)]
pub struct Additional {
    pub thumbnail: Thumbnail,
}

#[derive(Debug)]
pub struct Thumbnail {
    pub cache_key: String,
}

} // verus!
