//! Coercion of optional request parameters to the values the repository
//! operations take.

use vstd::prelude::*;
use crate::models::UpdatePost;

verus! {

/// The publication flag an update applies: the patched value, or `false`
/// when the patch leaves it out.
pub open spec fn published_of(patch: Option<bool>) -> bool {
    match patch {
        Some(v) => v,
        None => false,
    }
}

/// Applies the list-query defaults: posts are listed as published unless
/// asked otherwise, and five at a time.
pub fn read_params(is_published: Option<bool>, limit: Option<i64>) -> (r: (bool, i64))
    ensures
        r.0 == (match is_published {
            Some(v) => v,
            None => true,
        }),
        r.1 == (match limit {
            Some(v) => v,
            None => 5,
        }),
{
    let flag = match is_published {
        Some(v) => v,
        None => true,
    };
    let limit = match limit {
        Some(v) => v,
        None => 5,
    };
    (flag, limit)
}

/// The publication flag that an update with this patch will store.
pub fn patch_published(patch: &UpdatePost) -> (b: bool)
    ensures
        b == published_of(patch.published),
{
    match patch.published {
        Some(v) => v,
        None => false,
    }
}

} // verus!
