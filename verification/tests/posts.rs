use backend::error::Error;
use backend::model::{Post, PostDetails, RegisterInfo, User};
use backend::store::ContentStore;

fn register(store: &mut ContentStore, email: &str) -> u32 {
    let rinfo = RegisterInfo {
        email: email.to_string(),
        password: "pw".to_string(),
        display_name: "dummy".to_string(),
        real_name: "Some Dummy".to_string(),
    };
    store.create_user(&rinfo, "hash".to_string(), 1_600_000_000).unwrap()
}

fn details(id: u32, body: &str, created_at: i64, user_id: u32) -> PostDetails {
    PostDetails { id, body: body.to_string(), created_at, user_id }
}

#[test]
fn created_post_is_loaded_as_published() {
    let mut store = ContentStore::new();
    let a = register(&mut store, "a@x.com");
    assert_eq!(store.can_publish(a), Ok(1));
    let id = store.create_post("This is the body of a post!", a, 123).unwrap();
    assert_eq!(id, 1);
    assert_eq!(
        store.load_post_by_id(1),
        Ok(Post {
            id: 1,
            body: "This is the body of a post!".to_string(),
            created_at: 123,
            image: None,
            user_id: a,
        })
    );
    assert_eq!(store.can_publish(a), Ok(2));
    assert_eq!(store.create_post("second", a, 124), Ok(2));
}

#[test]
fn post_needs_an_existing_author() {
    let mut store = ContentStore::new();
    register(&mut store, "a@x.com");
    assert_eq!(store.can_publish(2), Err(Error::NotFound));
    assert_eq!(store.create_post("nobody wrote this", 2, 1), Err(Error::NotFound));
    assert_eq!(store.create_post("nobody wrote this", 0, 1), Err(Error::NotFound));
    assert_eq!(store.load_post_by_id(1), Err(Error::NotFound));
    assert!(store.load_recent_posts(10, None).is_empty());
}

#[test]
fn load_missing_post_is_not_found() {
    let mut store = ContentStore::new();
    let a = register(&mut store, "a@x.com");
    store.create_post("one", a, 1).unwrap();
    assert_eq!(store.load_post_by_id(0), Err(Error::NotFound));
    assert_eq!(store.load_post_by_id(2), Err(Error::NotFound));
    assert_eq!(store.get_post_image(2), Err(Error::NotFound));
}

#[test]
fn image_is_absent_until_set() {
    let mut store = ContentStore::new();
    let a = register(&mut store, "a@x.com");
    store.create_post("one", a, 1).unwrap();
    store.create_post("two", a, 2).unwrap();
    assert_eq!(store.get_post_image(1), Err(Error::NotFound));
    assert_eq!(store.set_post_image(1, &[1, 2, 3]), Ok(()));
    assert_eq!(store.get_post_image(1), Ok(vec![1, 2, 3]));
    assert_eq!(store.load_post_by_id(1).unwrap().image, Some(vec![1, 2, 3]));
    assert_eq!(store.load_post_by_id(1).unwrap().body, "one");
    assert_eq!(store.load_post_by_id(2).unwrap().image, None);
    assert_eq!(store.set_post_image(1, &[9]), Ok(()));
    assert_eq!(store.get_post_image(1), Ok(vec![9]));
}

#[test]
fn setting_the_image_of_a_missing_post_changes_nothing() {
    let mut store = ContentStore::new();
    let a = register(&mut store, "a@x.com");
    store.create_post("one", a, 1).unwrap();
    assert_eq!(store.set_post_image(5, &[1, 2, 3]), Ok(()));
    assert_eq!(store.load_post_by_id(1).unwrap().image, None);
    assert_eq!(store.load_post_by_id(5), Err(Error::NotFound));
}

#[test]
fn recent_posts_are_newest_first_and_limited() {
    let mut store = ContentStore::new();
    let a = register(&mut store, "a@x.com");
    let b = register(&mut store, "b@x.com");
    store.create_post("a1", a, 10).unwrap();
    store.create_post("b1", b, 11).unwrap();
    store.create_post("a2", a, 12).unwrap();
    store.create_post("b2", b, 13).unwrap();
    store.create_post("a3", a, 14).unwrap();

    assert_eq!(
        store.load_recent_posts(10, None),
        vec![
            details(5, "a3", 14, a),
            details(4, "b2", 13, b),
            details(3, "a2", 12, a),
            details(2, "b1", 11, b),
            details(1, "a1", 10, a),
        ]
    );
    assert_eq!(
        store.load_recent_posts(2, None),
        vec![details(5, "a3", 14, a), details(4, "b2", 13, b)]
    );
    assert_eq!(store.load_recent_posts(5, None).len(), 5);
    assert!(store.load_recent_posts(0, None).is_empty());
    assert_eq!(
        store.load_recent_posts(10, Some(b)),
        vec![details(4, "b2", 13, b), details(2, "b1", 11, b)]
    );
    assert_eq!(store.load_recent_posts(1, Some(b)), vec![details(4, "b2", 13, b)]);
    assert_eq!(
        store.load_recent_posts(2, Some(a)),
        vec![details(5, "a3", 14, a), details(3, "a2", 12, a)]
    );
    assert!(store.load_recent_posts(10, Some(3)).is_empty());
    // No user has the id 0.
    assert!(store.load_recent_posts(10, Some(0)).is_empty());
    assert_eq!(store.load_recent_posts(u32::MAX, None).len(), 5);
}

#[test]
fn listing_by_ids_leaves_out_what_is_not_in_the_store() {
    let mut store = ContentStore::new();
    let a = register(&mut store, "a@x.com");
    store.create_post("one", a, 1).unwrap();
    store.create_post("two", a, 2).unwrap();
    store.create_post("three", a, 3).unwrap();
    assert_eq!(
        store.listing_of(&vec![3, 9, 1, 0, 3]),
        vec![details(3, "three", 3, a), details(1, "one", 1, a), details(3, "three", 3, a)]
    );
    assert!(store.listing_of(&vec![]).is_empty());
    assert!(store.listing_of(&vec![4, 5]).is_empty());
}

#[test]
fn details_are_the_post_without_its_image() {
    let post = Post {
        id: 3,
        body: "body".to_string(),
        created_at: 99,
        image: Some(vec![1, 2]),
        user_id: 8,
    };
    assert_eq!(PostDetails::of(&post), details(3, "body", 99, 8));
    assert_eq!(PostDetails::from(post), details(3, "body", 99, 8));
}

#[test]
fn restore_checks_posts_against_users() {
    let user = |id: u32, email: &str| User {
        user_id: id,
        hash: "h".to_string(),
        email: email.to_string(),
        created_at: 0,
        display_name: "d".to_string(),
        real_name: "r".to_string(),
        profile_pic: vec![],
    };
    let post = |id: u32, author: u32| Post {
        id,
        body: format!("post {}", id),
        created_at: 5,
        image: None,
        user_id: author,
    };
    let store = ContentStore::restore(
        vec![user(1, "a"), user(3, "b")],
        vec![post(2, 3), post(4, 1), post(9, 3)],
    )
    .ok()
    .unwrap();
    assert_eq!(store.posts().len(), 3);
    assert_eq!(store.load_post_by_id(4), Ok(post(4, 1)));
    assert_eq!(store.can_publish(3), Ok(10));
    assert_eq!(
        store.load_recent_posts(2, Some(3)),
        vec![details(9, "post 9", 5, 3), details(2, "post 2", 5, 3)]
    );
    assert_eq!(
        ContentStore::restore(vec![user(1, "a")], vec![post(1, 2)]).err(),
        Some(Error::DatabaseErr)
    );
    assert_eq!(
        ContentStore::restore(vec![user(1, "a")], vec![post(0, 1)]).err(),
        Some(Error::DatabaseErr)
    );
    assert_eq!(
        ContentStore::restore(vec![user(1, "a")], vec![post(2, 1), post(2, 1)]).err(),
        Some(Error::DatabaseErr)
    );
    assert_eq!(
        ContentStore::restore(vec![user(1, "a")], vec![post(3, 1), post(2, 1)]).err(),
        Some(Error::DatabaseErr)
    );
}

#[test]
fn ids_run_out_at_the_top() {
    let user = User {
        user_id: u32::MAX,
        hash: "h".to_string(),
        email: "a".to_string(),
        created_at: 0,
        display_name: "d".to_string(),
        real_name: "r".to_string(),
        profile_pic: vec![],
    };
    let post = Post { id: u32::MAX, body: "last".to_string(), created_at: 5, image: None, user_id: u32::MAX };
    let mut store = ContentStore::restore(vec![user], vec![post]).ok().unwrap();
    assert_eq!(store.can_publish(u32::MAX), Err(Error::DatabaseErr));
    assert_eq!(store.create_post("more", u32::MAX, 6), Err(Error::DatabaseErr));
    let rinfo = RegisterInfo {
        email: "b".to_string(),
        password: "pw".to_string(),
        display_name: "dummy".to_string(),
        real_name: "Some Dummy".to_string(),
    };
    assert_eq!(store.create_user(&rinfo, "hash".to_string(), 7), Err(Error::DatabaseErr));
    assert_eq!(store.load_user_by_email("b"), Err(Error::NotFound));
}
