use blog_posts::models::{NewPost, Post, RepoError, UpdatePost};
use blog_posts::store::PostStore;

fn new_post(title: &str, body: &str) -> NewPost {
    NewPost { title: title.to_string(), body: body.to_string() }
}

fn patch(title: Option<&str>, body: Option<&str>, published: Option<bool>) -> UpdatePost {
    UpdatePost {
        title: title.map(|t| t.to_string()),
        body: body.map(|b| b.to_string()),
        published,
    }
}

fn assert_post(p: &Post, id: i32, title: &str, body: &str, published: bool) {
    assert_eq!(p.id, id);
    assert_eq!(p.title, title);
    assert_eq!(p.body, body);
    assert_eq!(p.published, published);
}

#[test]
fn create_assigns_fresh_ids_and_defaults_unpublished() {
    let mut store = PostStore::new();
    let first = store.create(new_post("first", "one"));
    let second = store.create(new_post("second", "two"));
    assert_post(&first, 1, "first", "one", false);
    assert_post(&second, 2, "second", "two", false);
    assert_ne!(first.id, second.id);
}

#[test]
fn get_returns_last_applied_state() {
    let mut store = PostStore::new();
    let created = store.create(new_post("title", "body"));
    let fetched = store.get_by_id(created.id).unwrap();
    assert_post(&fetched, created.id, "title", "body", false);

    store.update(created.id, patch(None, None, Some(true))).unwrap();
    let fetched = store.get_by_id(created.id).unwrap();
    assert_post(&fetched, created.id, "title", "body", true);
}

#[test]
fn get_missing_id_is_not_found() {
    let mut store = PostStore::new();
    assert_eq!(store.get_by_id(1).unwrap_err(), RepoError::NotFound);
    store.create(new_post("a", "b"));
    assert_eq!(store.get_by_id(2).unwrap_err(), RepoError::NotFound);
}

#[test]
fn list_filters_by_publication_flag() {
    let mut store = PostStore::new();
    let a = store.create(new_post("a", "-"));
    let b = store.create(new_post("b", "-"));
    store.create(new_post("c", "-"));
    store.update(a.id, patch(None, None, Some(true))).unwrap();
    store.update(b.id, patch(None, None, Some(true))).unwrap();

    let published = store.list(true, 5);
    assert_eq!(published.len(), 2);
    assert!(published.iter().all(|p| p.published));
    assert_eq!(published[0].id, a.id);
    assert_eq!(published[1].id, b.id);

    let drafts = store.list(false, 5);
    assert_eq!(drafts.len(), 1);
    assert!(drafts.iter().all(|p| !p.published));
    assert_eq!(drafts[0].title, "c");
}

#[test]
fn list_returns_at_most_limit_posts() {
    let mut store = PostStore::new();
    for i in 0..4 {
        store.create(new_post(&format!("p{}", i), "-"));
    }
    assert_eq!(store.list(false, 0).len(), 0);
    assert_eq!(store.list(false, 2).len(), 2);
    assert_eq!(store.list(false, 4).len(), 4);
    assert_eq!(store.list(false, 100).len(), 4);
    // the first `limit` matching rows, in table order
    let two = store.list(false, 2);
    assert_eq!(two[0].title, "p0");
    assert_eq!(two[1].title, "p1");
}

#[test]
fn list_of_empty_store_is_empty() {
    let store = PostStore::new();
    assert!(store.list(true, 5).is_empty());
    assert!(store.list(false, 5).is_empty());
}

#[test]
fn delete_then_get_is_not_found() {
    let mut store = PostStore::new();
    let a = store.create(new_post("a", "-"));
    let b = store.create(new_post("b", "-"));
    let deleted = store.delete(a.id).unwrap();
    assert_post(&deleted, a.id, "a", "-", false);
    assert_eq!(store.get_by_id(a.id).unwrap_err(), RepoError::NotFound);
    // the other row is untouched
    assert_eq!(store.get_by_id(b.id).unwrap().title, "b");
}

#[test]
fn delete_missing_id_is_not_found() {
    let mut store = PostStore::new();
    store.create(new_post("a", "-"));
    assert_eq!(store.delete(7).unwrap_err(), RepoError::NotFound);
    assert_eq!(store.list(false, 5).len(), 1);
}

#[test]
fn publish_then_get_sees_published() {
    let mut store = PostStore::new();
    let p = store.create(new_post("a", "-"));
    let updated = store.update(p.id, patch(None, None, Some(true))).unwrap();
    assert!(updated.published);
    assert!(store.get_by_id(p.id).unwrap().published);
}

#[test]
fn update_missing_id_is_not_found() {
    let mut store = PostStore::new();
    assert_eq!(
        store.update(1, patch(None, None, Some(true))).unwrap_err(),
        RepoError::NotFound
    );
}

#[test]
fn update_ignores_title_and_body() {
    let mut store = PostStore::new();
    let p = store.create(new_post("kept", "kept too"));
    let updated = store
        .update(p.id, patch(Some("dropped"), Some("dropped too"), Some(true)))
        .unwrap();
    assert_post(&updated, p.id, "kept", "kept too", true);
    let fetched = store.get_by_id(p.id).unwrap();
    assert_post(&fetched, p.id, "kept", "kept too", true);
}

#[test]
fn update_without_published_resets_the_flag() {
    let mut store = PostStore::new();
    let p = store.create(new_post("a", "-"));
    store.update(p.id, patch(None, None, Some(true))).unwrap();
    let updated = store.update(p.id, patch(None, None, None)).unwrap();
    assert!(!updated.published);
    assert!(!store.get_by_id(p.id).unwrap().published);
}

#[test]
fn full_crud_scenario() {
    let mut store = PostStore::new();
    let created = store.create(new_post("A", "B"));
    assert_post(&created, 1, "A", "B", false);

    let updated = store.update(1, patch(None, None, Some(true))).unwrap();
    assert_post(&updated, 1, "A", "B", true);

    let published = store.list(true, 5);
    assert!(published.iter().any(|p| p.id == 1));
    let drafts = store.list(false, 5);
    assert!(drafts.iter().all(|p| p.id != 1));

    let deleted = store.delete(1).unwrap();
    assert_post(&deleted, 1, "A", "B", true);
    assert_eq!(store.get_by_id(1).unwrap_err(), RepoError::NotFound);
}
