//! The post table and its five repository operations, verified against a
//! sequence-of-views model.

use vstd::prelude::*;
use crate::models::{NewPost, Post, PostView, RepoError, UpdatePost};
use crate::params::published_of;

verus! {

/// No two posts of the sequence carry the same id.
pub open spec fn unique_ids(s: Seq<PostView>) -> bool {
    forall|i: int, j: int|
        0 <= i < s.len() && 0 <= j < s.len() && i != j ==> #[trigger] s[i].id != #[trigger] s[j].id
}

/// Every id of the sequence is at least 1 and below `bound`.
pub open spec fn ids_below(s: Seq<PostView>, bound: int) -> bool {
    forall|i: int| 0 <= i < s.len() ==> 1 <= (#[trigger] s[i]).id < bound
}

/// Some post of the sequence carries `id`.
pub open spec fn contains_id(s: Seq<PostView>, id: int) -> bool {
    exists|i: int| 0 <= i < s.len() && (#[trigger] s[i]).id == id
}

/// The index of the post carrying `id`; meaningful only when `contains_id`
/// holds, and unique under `unique_ids`.
pub open spec fn idx_of(s: Seq<PostView>, id: int) -> int {
    choose|i: int| 0 <= i < s.len() && (#[trigger] s[i]).id == id
}

/// The post of the sequence carrying `id`, if any.
pub open spec fn find_post(s: Seq<PostView>, id: int) -> Option<PostView> {
    if contains_id(s, id) {
        Some(s[idx_of(s, id)])
    } else {
        None
    }
}

/// The subsequence of posts whose publication flag equals `is_published`,
/// in table order.
pub open spec fn filtered(s: Seq<PostView>, is_published: bool) -> Seq<PostView>
    decreases s.len(),
{
    if s.len() == 0 {
        Seq::empty()
    } else if s.last().published == is_published {
        filtered(s.drop_last(), is_published).push(s.last())
    } else {
        filtered(s.drop_last(), is_published)
    }
}

/// The first `limit` posts of the sequence, or all of them when fewer.
pub open spec fn limited(s: Seq<PostView>, limit: int) -> Seq<PostView> {
    if s.len() <= limit {
        s
    } else {
        s.take(limit)
    }
}

/// What a list query returns: matching posts in table order, capped at
/// `limit`.
pub open spec fn listed(s: Seq<PostView>, is_published: bool, limit: int) -> Seq<PostView> {
    limited(filtered(s, is_published), limit)
}

/// The views of a sequence of posts.
pub open spec fn views_of(s: Seq<Post>) -> Seq<PostView> {
    s.map_values(|p: Post| p@)
}

/// In-memory post table: rows in insertion order and the id the next created
/// post will receive.
pub struct PostStore {
    posts: Vec<Post>,
    next_id: i32,
}

impl View for PostStore {
    type V = Seq<PostView>;

    closed spec fn view(&self) -> Seq<PostView> {
        views_of(self.posts@)
    }
}

impl PostStore {
    /// The id the next created post will receive.
    pub closed spec fn fresh_id(&self) -> int {
        self.next_id as int
    }

    /// Well-formedness: ids are unique, positive, and all below the next
    /// fresh id.
    pub open spec fn wf(&self) -> bool {
        &&& unique_ids(self@)
        &&& ids_below(self@, self.fresh_id())
        &&& 1 <= self.fresh_id()
    }

    /// An empty table whose first created post will receive id 1.
    pub fn new() -> (s: PostStore)
        ensures
            s.wf(),
            s@ == Seq::<PostView>::empty(),
            s.fresh_id() == 1,
    {
        PostStore { posts: Vec::new(), next_id: 1 }
    }

    /// Inserts a new row with the given text fields. The row receives the
    /// next fresh id, previously carried by no row, and is created
    /// unpublished.
    pub fn create(&mut self, new_post: NewPost) -> (p: Post)
        requires
            old(self).wf(),
            old(self).fresh_id() < i32::MAX,
        ensures
            final(self).wf(),
            p@.id == old(self).fresh_id(),
            p@.title == new_post.title@,
            p@.body == new_post.body@,
            p@.published == false,
            !contains_id(old(self)@, p@.id),
            final(self)@ == old(self)@.push(p@),
            final(self).fresh_id() == old(self).fresh_id() + 1,
    {
        let p = Post {
            id: self.next_id,
            title: new_post.title,
            body: new_post.body,
            published: false,
        };
        let stored = p.clone();
        proof {
            assert(!contains_id(self@, p@.id)) by {
                assert(forall|i: int|
                    0 <= i < self@.len() ==> (#[trigger] self@[i]).id != p@.id);
            }
        }
        self.posts.push(stored);
        self.next_id = self.next_id + 1;
        proof {
            assert(self@ =~= old(self)@.push(p@));
        }
        p
    }

    /// Returns the rows whose publication flag equals `is_published`, in
    /// table order, at most `limit` of them. An empty result is not an
    /// error. A negative `limit` is left out: the storage engine rejects a
    /// negative row limit.
    pub fn list(&self, is_published: bool, limit: i64) -> (r: Vec<Post>)
        requires
            self.wf(),
            limit >= 0,
        ensures
            views_of(r@) == listed(self@, is_published, limit as int),
            r@.len() <= limit,
            forall|k: int| 0 <= k < r@.len() ==> (#[trigger] r@[k])@.published == is_published,
    {
        let mut out: Vec<Post> = Vec::new();
        let mut i: usize = 0;
        proof {
            assert(self@.take(0) =~= Seq::<PostView>::empty());
        }
        while i < self.posts.len()
            invariant
                self.wf(),
                limit >= 0,
                i <= self@.len(),
                self.posts@.len() == self@.len(),
                views_of(out@) == listed(self@.take(i as int), is_published, limit as int),
                out@.len() <= limit,
            decreases self@.len() - i,
        {
            let ghost prefix = self@.take(i as int);
            let ghost f = filtered(prefix, is_published);
            proof {
                assert(self@[i as int] == self.posts@[i as int]@);
                assert(self@.take(i as int + 1) =~= prefix.push(self@[i as int]));
                lemma_filtered_push(prefix, is_published, self@[i as int]);
                lemma_limited_push(f, self@[i as int], limit as int);
                assert(views_of(out@).len() == limited(f, limit as int).len());
            }
            if self.posts[i].published == is_published && (out.len() as i64) < limit {
                let ghost out0 = out@;
                out.push(self.posts[i].clone());
                proof {
                    assert(views_of(out@) =~= views_of(out0).push(self@[i as int]));
                    assert(f.len() < limit as int);
                }
            }
            i = i + 1;
        }
        proof {
            assert(self@.take(self@.len() as int) =~= self@);
            lemma_filtered_published(self@, is_published);
            assert forall|k: int| 0 <= k < out@.len() implies (#[trigger] out@[k])@.published
                == is_published by {
                assert(views_of(out@)[k] == listed(self@, is_published, limit as int)[k]);
                assert(listed(self@, is_published, limit as int)[k] == filtered(
                    self@,
                    is_published,
                )[k]);
            }
        }
        out
    }

    /// The position of the row carrying `id`, if any.
    fn find_index(&self, id: i32) -> (r: Option<usize>)
        requires
            self.wf(),
        ensures
            match r {
                Some(i) => {
                    &&& i < self@.len()
                    &&& contains_id(self@, id as int)
                    &&& idx_of(self@, id as int) == i as int
                    &&& self@[i as int].id == id as int
                },
                None => !contains_id(self@, id as int),
            },
    {
        let mut i: usize = 0;
        while i < self.posts.len()
            invariant
                self.wf(),
                i <= self.posts@.len(),
                self.posts@.len() == self@.len(),
                forall|j: int| 0 <= j < i ==> (#[trigger] self@[j]).id != id as int,
            decreases self.posts@.len() - i,
        {
            if self.posts[i].id == id {
                proof {
                    assert(self@[i as int] == self.posts@[i as int]@);
                    lemma_found_at(self@, id as int, i as int);
                }
                return Some(i);
            }
            i = i + 1;
        }
        proof {
            assert(!contains_id(self@, id as int));
        }
        None
    }

    /// Looks up the single row carrying `id`; fails with `NotFound` exactly
    /// when no row does.
    pub fn get_by_id(&self, id: i32) -> (r: Result<Post, RepoError>)
        requires
            self.wf(),
        ensures
            match r {
                Ok(p) => find_post(self@, id as int) == Some(p@),
                Err(e) => e == RepoError::NotFound && find_post(self@, id as int) is None,
            },
    {
        match self.find_index(id) {
            Some(i) => Ok(self.posts[i].clone()),
            None => Err(RepoError::NotFound),
        }
    }

    /// Applies a patch to the row carrying `id` and returns the row's state
    /// after the update. Only `published` is applied, and a patch without it
    /// resets the flag to `false`; the patch's `title` and `body` are never
    /// persisted. Fails with `NotFound`, leaving the table unchanged, exactly
    /// when no row carries `id`.
    pub fn update(&mut self, id: i32, patch: UpdatePost) -> (r: Result<Post, RepoError>)
        requires
            old(self).wf(),
        ensures
            final(self).wf(),
            final(self).fresh_id() == old(self).fresh_id(),
            match r {
                Ok(p) => {
                    &&& contains_id(old(self)@, id as int)
                    &&& p@.id == id as int
                    &&& p@.title == old(self)@[idx_of(old(self)@, id as int)].title
                    &&& p@.body == old(self)@[idx_of(old(self)@, id as int)].body
                    &&& p@.published == published_of(patch.published)
                    &&& final(self)@ == old(self)@.update(idx_of(old(self)@, id as int), p@)
                },
                Err(e) => {
                    &&& e == RepoError::NotFound
                    &&& !contains_id(old(self)@, id as int)
                    &&& final(self)@ == old(self)@
                },
            },
    {
        match self.find_index(id) {
            Some(i) => {
                let current = self.posts.remove(i);
                let flag = match patch.published {
                    Some(v) => v,
                    None => false,
                };
                let updated = Post {
                    id: current.id,
                    title: current.title,
                    body: current.body,
                    published: flag,
                };
                let result = updated.clone();
                self.posts.insert(i, updated);
                proof {
                    assert(self@ =~= old(self)@.update(i as int, result@));
                    assert(forall|j: int|
                        0 <= j < self@.len() ==> (#[trigger] self@[j]).id == old(self)@[j].id);
                }
                Ok(result)
            },
            None => Err(RepoError::NotFound),
        }
    }

    /// Deletes the single row carrying `id` and returns its state as of
    /// deletion; afterwards no row carries `id`. Fails with `NotFound`,
    /// leaving the table unchanged, exactly when no row carries `id`.
    pub fn delete(&mut self, id: i32) -> (r: Result<Post, RepoError>)
        requires
            old(self).wf(),
        ensures
            final(self).wf(),
            final(self).fresh_id() == old(self).fresh_id(),
            match r {
                Ok(p) => {
                    &&& find_post(old(self)@, id as int) == Some(p@)
                    &&& final(self)@ == old(self)@.remove(idx_of(old(self)@, id as int))
                    &&& !contains_id(final(self)@, id as int)
                },
                Err(e) => {
                    &&& e == RepoError::NotFound
                    &&& !contains_id(old(self)@, id as int)
                    &&& final(self)@ == old(self)@
                },
            },
    {
        match self.find_index(id) {
            Some(i) => {
                let p = self.posts.remove(i);
                proof {
                    assert(self@ =~= old(self)@.remove(i as int));
                    lemma_delete_then_get(old(self)@, i as int);
                    lemma_remove_keeps_ids(old(self)@, i as int, old(self).fresh_id());
                }
                Ok(p)
            },
            None => Err(RepoError::NotFound),
        }
    }
}

/// The row found at `i` is the one that `idx_of` names: under unique ids a
/// matching index is the only one.
proof fn lemma_found_at(s: Seq<PostView>, id: int, i: int)
    requires
        unique_ids(s),
        0 <= i < s.len(),
        s[i].id == id,
    ensures
        contains_id(s, id),
        idx_of(s, id) == i,
{
    assert(contains_id(s, id));
    let j = idx_of(s, id);
    assert(0 <= j < s.len() && s[j].id == id);
    if j != i {
        assert(s[j].id != s[i].id);
    }
}

/// Removing a row keeps every other row's id: ids stay unique and bounded.
proof fn lemma_remove_keeps_ids(s: Seq<PostView>, i: int, bound: int)
    requires
        unique_ids(s),
        ids_below(s, bound),
        0 <= i < s.len(),
    ensures
        unique_ids(s.remove(i)),
        ids_below(s.remove(i), bound),
{
    let r = s.remove(i);
    assert forall|j: int| 0 <= j < r.len() implies 1 <= (#[trigger] r[j]).id < bound by {
        if j < i {
            assert(r[j] == s[j]);
        } else {
            assert(r[j] == s[j + 1]);
        }
    }
    assert forall|j: int, k: int|
        0 <= j < r.len() && 0 <= k < r.len() && j != k implies #[trigger] r[j].id
            != #[trigger] r[k].id by {
        let j2: int = if j < i { j } else { j + 1 };
        let k2: int = if k < i { k } else { k + 1 };
        assert(r[j] == s[j2]);
        assert(r[k] == s[k2]);
        assert(s[j2].id != s[k2].id);
    }
}

/// Filtering one more row keeps the earlier selection and appends the row
/// exactly when its flag matches.
proof fn lemma_filtered_push(s: Seq<PostView>, is_published: bool, x: PostView)
    ensures
        filtered(s.push(x), is_published) == (if x.published == is_published {
            filtered(s, is_published).push(x)
        } else {
            filtered(s, is_published)
        }),
{
    assert(s.push(x).drop_last() =~= s);
    assert(s.push(x).last() == x);
}

/// Capping one more row: below the cap the row is appended, at the cap the
/// capped selection is unchanged.
proof fn lemma_limited_push(s: Seq<PostView>, x: PostView, limit: int)
    requires
        0 <= limit,
    ensures
        s.len() < limit ==> limited(s.push(x), limit) == limited(s, limit).push(x),
        s.len() >= limit ==> limited(s.push(x), limit) == limited(s, limit),
{
    if s.len() >= limit {
        assert(s.push(x).take(limit) =~= limited(s, limit));
    }
}

/// Every filtered row carries the requested publication flag.
proof fn lemma_filtered_published(s: Seq<PostView>, is_published: bool)
    ensures
        forall|k: int|
            0 <= k < filtered(s, is_published).len() ==> (#[trigger] filtered(s, is_published)[k]).published
                == is_published,
    decreases s.len(),
{
    if s.len() != 0 {
        lemma_filtered_published(s.drop_last(), is_published);
        let prev = filtered(s.drop_last(), is_published);
        let f = filtered(s, is_published);
        assert forall|k: int| 0 <= k < f.len() implies (#[trigger] f[k]).published == is_published by {
            if s.last().published == is_published {
                assert(f == prev.push(s.last()));
                if k < prev.len() {
                    assert(f[k] == prev[k]);
                } else {
                    assert(f[k] == s.last());
                }
            } else {
                assert(f == prev);
            }
        }
    }
}

/// Law: a post created under a previously-unused id is afterwards found
/// under that id, with exactly the state it was created with.
pub proof fn lemma_create_then_get(s: Seq<PostView>, p: PostView)
    requires
        !contains_id(s, p.id),
    ensures
        find_post(s.push(p), p.id) == Some(p),
{
    let t = s.push(p);
    assert(t[s.len() as int] == p);
    assert(contains_id(t, p.id));
    let j = idx_of(t, p.id);
    assert(0 <= j < t.len() && t[j].id == p.id);
    if j < s.len() {
        assert(t[j] == s[j]);
        assert(contains_id(s, p.id));
    }
}

/// Law: after the row at `i` is replaced by a row `p` with the same id, a
/// lookup of that id returns exactly `p`: the last applied state.
pub proof fn lemma_update_then_get(s: Seq<PostView>, i: int, p: PostView)
    requires
        unique_ids(s),
        0 <= i < s.len(),
        p.id == s[i].id,
    ensures
        find_post(s.update(i, p), p.id) == Some(p),
{
    let t = s.update(i, p);
    assert(t[i] == p);
    assert(contains_id(t, p.id));
    let j = idx_of(t, p.id);
    assert(0 <= j < t.len() && t[j].id == p.id);
    if j != i {
        assert(t[j] == s[j]);
        assert(s[j].id != s[i].id);
    }
}

/// Law: after the row at `i` is removed, no row carries its id: a lookup of
/// a deleted id finds nothing.
pub proof fn lemma_delete_then_get(s: Seq<PostView>, i: int)
    requires
        unique_ids(s),
        0 <= i < s.len(),
    ensures
        find_post(s.remove(i), s[i].id) is None,
{
    let r = s.remove(i);
    assert forall|j: int| 0 <= j < r.len() implies (#[trigger] r[j]).id != s[i].id by {
        if j < i {
            assert(r[j] == s[j]);
        } else {
            assert(r[j] == s[j + 1]);
        }
    }
}

/// Law: a row updated to a published state is seen as published by a
/// subsequent lookup of its id.
pub proof fn lemma_publish_then_get(s: Seq<PostView>, i: int, p: PostView)
    requires
        unique_ids(s),
        0 <= i < s.len(),
        p.id == s[i].id,
        p.published,
    ensures
        find_post(s.update(i, p), p.id) == Some(p) && p.published,
{
    lemma_update_then_get(s, i, p);
}

} // verus!
