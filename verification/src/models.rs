//! The post entity and the transient inputs of the repository operations.

use vstd::prelude::*;

verus! {

/// Mathematical value of a post: its id and field contents.
pub ghost struct PostView {
    pub id: int,
    pub title: Seq<char>,
    pub body: Seq<char>,
    pub published: bool,
}

/// A blog post: a unique id assigned at creation, two required text fields,
/// and a publication flag that defaults to `false`.
#[derive(Debug)]
pub struct Post {
    pub id: i32,
    pub title: String,
    pub body: String,
    pub published: bool,
}

impl View for Post {
    type V = PostView;

    open spec fn view(&self) -> PostView {
        PostView {
            id: self.id as int,
            title: self.title@,
            body: self.body@,
            published: self.published,
        }
    }
}

impl Clone for Post {
    fn clone(&self) -> (r: Self)
        ensures
            r@ == self@,
    {
        Post {
            id: self.id,
            title: self.title.clone(),
            body: self.body.clone(),
            published: self.published,
        }
    }
}

/// Input for creating a post: both text fields are required; the id and the
/// publication flag are chosen by the store.
#[derive(Debug)]
pub struct NewPost {
    pub title: String,
    pub body: String,
}

/// Patch accepted by the update operation. Only `published` is applied, and a
/// missing value resets the flag to `false`; `title` and `body` are accepted
/// in the shape but never persisted.
#[derive(Debug)]
pub struct UpdatePost {
    pub title: Option<String>,
    pub body: Option<String>,
    pub published: Option<bool>,
}

/// Typed failure of a repository operation.
#[derive(Debug, Clone, Copy, PartialEq, Eq, Structural)]
pub enum RepoError {
    /// No row carries the requested id.
    NotFound,
}

} // verus!
