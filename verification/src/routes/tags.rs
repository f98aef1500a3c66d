//! Tag listing responses.

use vstd::prelude::*;

verus! {

#[derive(Debug)]
pub struct TagInfo {
    pub tag: String,
    pub count: i64,
}

#[derive(Debug)]
pub struct TagsResponse {
    pub tags: Vec<TagInfo>,
    pub total: usize,
}

} // verus!
