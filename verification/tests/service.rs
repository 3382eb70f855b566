use backend::error::Error;
use backend::model::{LoginInfo, Post, PostCreationResponse, PostInfo, RegisterInfo, User, UserInfo};
use backend::search::SearchIndex;
use backend::service::{Backend, Identity, SEARCH_LIMIT};
use backend::session::SessionGate;
use backend::store::ContentStore;

fn gate() -> SessionGate {
    let secret: Vec<u8> = (0..64u8).collect();
    SessionGate::new(&secret).unwrap()
}

/// Stands in for the password hasher.
fn hash_password(password: &str) -> Option<String> {
    Some(format!("$plain${}", password))
}

/// Stands in for the hasher's check, as the caller of `login` makes it.
fn verdict(backend: &Backend, info: &LoginInfo) -> Option<bool> {
    backend.credential_for(&info.email).map(|hash| hash == format!("$plain${}", info.password))
}

fn create_dummy_user(backend: &mut Backend, email: String, password: String) -> Result<(UserInfo, String), Error> {
    let rinfo = RegisterInfo {
        email,
        password: password.clone(),
        display_name: "dummy".to_string(),
        real_name: "Some Dummy".to_string(),
    };
    backend.signup(&rinfo, hash_password(&password), 1_600_000_000)
}

fn login(backend: &Backend, email: String, password: String) -> Option<String> {
    let info = LoginInfo { email, password };
    backend.login(&info, verdict(backend, &info)).ok().map(|(_, token)| token)
}

fn png(width: u32, height: u32) -> Vec<u8> {
    let picture = image::RgbImage::from_fn(width, height, |x, y| {
        image::Rgb([(x * 16 % 256) as u8, (y * 16 % 256) as u8, 200])
    });
    let mut out = std::io::Cursor::new(Vec::new());
    image::DynamicImage::ImageRgb8(picture).write_to(&mut out, image::ImageFormat::Png).unwrap();
    out.into_inner()
}

#[test]
fn create_post_set_image() {
    let mut backend = Backend::new(gate()).unwrap();

    let email = "some_email@gmail.com".to_string();
    let password = "myAmazingPassw0rd!".to_string();
    create_dummy_user(&mut backend, email.clone(), password.clone()).unwrap();

    let login_cookie = login(&backend, email, password).expect("logged in");
    let user = match backend.identify(Some(&login_cookie)) {
        Identity::Known(user) => user,
        other => panic!("not logged in: {:?}", other),
    };

    let post_info = PostInfo { body: "This is the body of a post!".to_string() };

    let response = backend.create_post(user.user_id, &post_info, 1_600_000_001);
    assert!(response.is_ok());
    let created_post = response.unwrap();
    assert_eq!(created_post.post_id, 1);

    {
        let post = backend.store().load_post_by_id(1).unwrap();
        assert!(post.image.is_none());
        assert_eq!(&post.body, &post_info.body);
        assert_eq!(post.user_id, 1);
    }

    let favicon_buf = png(16, 16);

    let response = backend.set_post_image(1, &favicon_buf);
    assert_eq!(response, Ok(()));

    let post = backend.store().load_post_by_id(1).unwrap();

    assert!(post.image.is_some());
    // The image gets upscaled and re-encoded to JPEG, so it should be
    // significantly larger now
    assert!(post.image.unwrap().len() > favicon_buf.len());
}

#[test]
fn search_posts() {
    let mut backend = Backend::new(gate()).unwrap();

    let email = "some_email@gmail.com".to_string();
    let password = "myAmazingPassw0rd!".to_string();
    create_dummy_user(&mut backend, email.clone(), password.clone()).unwrap();

    let login_cookie = login(&backend, email, password).expect("logged in");
    let user = match backend.identify(Some(&login_cookie)) {
        Identity::Known(user) => user,
        other => panic!("not logged in: {:?}", other),
    };

    let body_1 = "Unicorns are amazing!!!".to_string();
    let body_2 = "Pink is the best color on the planet".to_string();
    let body_3 = "Rokt leeg is best video game".to_string();
    let body_4 = "Bunnies are pretty cool too I guess".to_string();
    let body_5 = "But did I mention unicorns are amazing?!?!?!?".to_string();

    let post_infos = vec![
        PostInfo { body: body_1.clone() },
        PostInfo { body: body_2.clone() },
        PostInfo { body: body_3.clone() },
        PostInfo { body: body_4.clone() },
        PostInfo { body: body_5.clone() },
    ];

    for post_info in post_infos {
        let response = backend.create_post(user.user_id, &post_info, 1_600_000_002);
        assert!(response.is_ok());
    }

    let search_results = backend.search_posts("unicorns").unwrap();

    assert!(&search_results[0].body == &body_1 || &search_results[1].body == &body_1);

    assert!(&search_results[0].body == &body_5 || &search_results[1].body == &body_5);

    let search_results = backend.search_posts("rokt leeg").unwrap();

    assert!(&search_results[0].body == &body_3);
}

#[test]
fn register_login_post_and_search() {
    let mut backend = Backend::new(gate()).unwrap();
    let a = RegisterInfo {
        email: "a@x.com".to_string(),
        password: "p1".to_string(),
        display_name: "A".to_string(),
        real_name: "User A".to_string(),
    };
    let (info, token) = backend.signup(&a, hash_password("p1"), 100).unwrap();
    assert_eq!(info, UserInfo { user_id: 1, display_name: "A".to_string(), real_name: "User A".to_string() });
    assert_eq!(backend.gate().resolve(Some(&token)), Some(1));
    let b = RegisterInfo {
        email: "b@x.com".to_string(),
        password: "other-pw".to_string(),
        display_name: "B".to_string(),
        real_name: "User B".to_string(),
    };
    let (info_b, _) = backend.signup(&b, hash_password("other-pw"), 101).unwrap();
    assert_eq!(info_b.user_id, 2);

    let right = LoginInfo { email: "a@x.com".to_string(), password: "p1".to_string() };
    let wrong = LoginInfo { email: "a@x.com".to_string(), password: "wrong".to_string() };
    let (logged_in, login_token) = backend.login(&right, verdict(&backend, &right)).unwrap();
    assert_eq!(logged_in, info);
    assert_eq!(backend.gate().resolve(Some(&login_token)), Some(1));
    assert_eq!(backend.login(&wrong, verdict(&backend, &wrong)), Err(Error::LoginFailed));

    let created = backend.create_post(1, &PostInfo { body: "hello world".to_string() }, 102);
    assert_eq!(created, Ok(PostCreationResponse { post_id: 1 }));

    let found = backend.search_posts("hello").unwrap();
    assert_eq!(found[0].id, 1);
    assert_eq!(found[0].body, "hello world");

    let has_it = |author: Option<u32>| {
        backend.store().load_recent_posts(10, author).iter().any(|p| p.id == 1)
    };
    assert!(has_it(None));
    assert!(has_it(Some(1)));
    assert!(!has_it(Some(2)));
}

#[test]
fn unknown_email_and_wrong_password_fail_alike() {
    let mut backend = Backend::new(gate()).unwrap();
    create_dummy_user(&mut backend, "a@x.com".to_string(), "pw-one".to_string()).unwrap();
    let unknown = LoginInfo { email: "nobody@x.com".to_string(), password: "pw-one".to_string() };
    let wrong = LoginInfo { email: "a@x.com".to_string(), password: "nope".to_string() };
    assert_eq!(backend.credential_for("nobody@x.com"), None);
    assert_eq!(backend.credential_for("a@x.com"), Some("$plain$pw-one".to_string()));
    assert_eq!(backend.login(&unknown, None), Err(Error::LoginFailed));
    assert_eq!(backend.login(&unknown, Some(true)), Err(Error::LoginFailed));
    assert_eq!(backend.login(&wrong, Some(false)), Err(Error::LoginFailed));
    assert_eq!(backend.login(&wrong, None), Err(Error::HashError));
}

#[test]
fn signup_without_a_hash_registers_nobody() {
    let mut backend = Backend::new(gate()).unwrap();
    let rinfo = RegisterInfo {
        email: "a@x.com".to_string(),
        password: "pw-one".to_string(),
        display_name: "A".to_string(),
        real_name: "User A".to_string(),
    };
    assert_eq!(backend.signup(&rinfo, None, 100), Err(Error::HashError));
    assert_eq!(backend.store().load_user_by_email("a@x.com"), Err(Error::NotFound));
    assert!(backend.signup(&rinfo, hash_password("pw-one"), 100).is_ok());
    assert_eq!(backend.signup(&rinfo, hash_password("pw-one"), 101).err(), Some(Error::UserAlreadyExists));
    assert_eq!(backend.store().load_user_by_id(2), Err(Error::NotFound));
}

#[test]
fn request_identity_follows_the_token() {
    let mut backend = Backend::new(gate()).unwrap();
    let (_, token) = create_dummy_user(&mut backend, "a@x.com".to_string(), "pw-one".to_string()).unwrap();
    assert_eq!(backend.identify(None), Identity::Anonymous);
    assert_eq!(backend.identify(Some("garbage")), Identity::Anonymous);
    assert_eq!(backend.identify(Some("1")), Identity::Anonymous);
    match backend.identify(Some(&token)) {
        Identity::Known(user) => {
            assert_eq!(user.user_id, 1);
            assert_eq!(user.email, "a@x.com");
        },
        other => panic!("unexpected identity {:?}", other),
    }
    // A token for a user that the store does not hold.
    let stray = backend.gate().issue(99);
    assert_eq!(backend.identify(Some(&stray)), Identity::Failed(Error::NotFound));
}

#[test]
fn post_by_unknown_user_leaves_no_trace() {
    let mut backend = Backend::new(gate()).unwrap();
    create_dummy_user(&mut backend, "a@x.com".to_string(), "pw-one".to_string()).unwrap();
    let info = PostInfo { body: "orphan words".to_string() };
    assert_eq!(backend.create_post(7, &info, 1), Err(Error::NotFound));
    assert_eq!(backend.search_posts("orphan"), Ok(vec![]));
    assert!(backend.store().load_recent_posts(10, None).is_empty());
    assert_eq!(backend.create_post(1, &info, 1), Ok(PostCreationResponse { post_id: 1 }));
}

#[test]
fn search_is_limited_and_rejects_malformed_queries() {
    let mut backend = Backend::new(gate()).unwrap();
    create_dummy_user(&mut backend, "a@x.com".to_string(), "pw-one".to_string()).unwrap();
    for n in 0..12 {
        let info = PostInfo { body: format!("shared words and number {}", n) };
        backend.create_post(1, &info, n).unwrap();
    }
    assert_eq!(SEARCH_LIMIT, 10);
    assert_eq!(backend.search_posts("shared").unwrap().len(), 10);
    assert_eq!(backend.search_posts("absent"), Ok(vec![]));
    assert_eq!(backend.search_posts("nosuchfield:shared"), Err(Error::QueryParseErr));
}

#[test]
fn refused_upload_changes_nothing() {
    let mut backend = Backend::new(gate()).unwrap();
    create_dummy_user(&mut backend, "a@x.com".to_string(), "pw-one".to_string()).unwrap();
    backend.create_post(1, &PostInfo { body: "with picture".to_string() }, 1).unwrap();
    assert_eq!(backend.set_post_image(1, b"no image"), Err(Error::ImageUploadFailed));
    assert_eq!(backend.store().load_post_by_id(1).unwrap().image, None);
    assert_eq!(backend.set_post_image(1, &png(8, 4)), Ok(()));
    let stored = backend.store().get_post_image(1).unwrap();
    let decoded = image::load_from_memory(&stored).unwrap();
    assert_eq!((decoded.width(), decoded.height()), (1000, 500));
    assert_eq!(backend.set_post_image(1, b"no image"), Err(Error::ImageUploadFailed));
    assert_eq!(backend.store().get_post_image(1), Ok(stored));
}

#[test]
fn restored_service_is_searchable() {
    let user = User {
        user_id: 4,
        hash: "$plain$p".to_string(),
        email: "a@x.com".to_string(),
        created_at: 1,
        display_name: "A".to_string(),
        real_name: "User A".to_string(),
        profile_pic: vec![1],
    };
    let posts = vec![
        Post { id: 2, body: "first words".to_string(), created_at: 2, image: None, user_id: 4 },
        Post { id: 6, body: "second words".to_string(), created_at: 3, image: Some(vec![7]), user_id: 4 },
    ];
    let mut backend = Backend::restore(gate(), vec![user.clone()], posts.clone()).ok().unwrap();
    assert_eq!(backend.search_posts("second").unwrap()[0].id, 6);
    assert_eq!(backend.search_posts("words").unwrap().len(), 2);
    assert_eq!(backend.create_post(4, &PostInfo { body: "third words".to_string() }, 4).unwrap().post_id, 7);
    assert_eq!(backend.search_posts("third").unwrap()[0].id, 7);
    assert_eq!(backend.repair(), Ok(()));
    assert_eq!(backend.search_posts("words").unwrap().len(), 3);
    assert_eq!(
        Backend::restore(gate(), vec![user], vec![posts[1].clone(), posts[0].clone()]).err(),
        Some(Error::DatabaseErr)
    );
}

#[test]
fn index_entry_without_a_post_is_never_listed() {
    let mut index = SearchIndex::new().unwrap();
    index.index_post(42, "ghost words", 1, 1).unwrap();
    index.index_post(1, "real words", 1, 1).unwrap();
    let mut store = ContentStore::new();
    let rinfo = RegisterInfo {
        email: "a@x.com".to_string(),
        password: "pw-one".to_string(),
        display_name: "A".to_string(),
        real_name: "User A".to_string(),
    };
    store.create_user(&rinfo, "h".to_string(), 1).unwrap();
    store.create_post("real words", 1, 1).unwrap();
    let ids = index.search("words", 10).unwrap();
    assert_eq!(ids.len(), 2);
    let listed = store.listing_of(&ids);
    assert_eq!(listed.len(), 1);
    assert_eq!(listed[0].id, 1);
}

#[test]
fn hash_that_is_the_password_is_refused() {
    let mut backend = Backend::new(gate()).unwrap();
    let rinfo = RegisterInfo {
        email: "a@x.com".to_string(),
        password: "open sesame".to_string(),
        display_name: "A".to_string(),
        real_name: "User A".to_string(),
    };
    assert_eq!(backend.signup(&rinfo, Some("open sesame".to_string()), 100), Err(Error::HashError));
    assert_eq!(backend.store().load_user_by_email("a@x.com"), Err(Error::NotFound));
    assert!(backend.signup(&rinfo, hash_password("open sesame"), 100).is_ok());
    let stored = backend.store().load_user_by_email("a@x.com").unwrap();
    assert_ne!(stored.hash, rinfo.password);
}

#[test]
fn post_with_a_time_that_the_index_cannot_hold_is_refused() {
    let mut backend = Backend::new(gate()).unwrap();
    create_dummy_user(&mut backend, "a@x.com".to_string(), "pw-one".to_string()).unwrap();
    let info = PostInfo { body: "far future".to_string() };
    assert_eq!(backend.create_post(1, &info, i64::MAX), Err(Error::SearchErr));
    assert_eq!(backend.create_post(1, &info, 9_223_372_037), Err(Error::SearchErr));
    assert!(backend.store().load_recent_posts(10, None).is_empty());
    assert_eq!(backend.search_posts("future"), Ok(vec![]));
    assert_eq!(backend.create_post(1, &info, 9_223_372_036), Ok(PostCreationResponse { post_id: 1 }));
    assert_eq!(backend.search_posts("future").unwrap()[0].id, 1);
    let user = backend.store().load_user_by_id(1).unwrap();
    let late = Post { id: 1, body: "late".to_string(), created_at: i64::MIN, image: None, user_id: 1 };
    assert_eq!(Backend::restore(gate(), vec![user], vec![late]).err(), Some(Error::SearchErr));
}

#[test]
fn decodable_upload_is_always_accepted() {
    let mut backend = Backend::new(gate()).unwrap();
    create_dummy_user(&mut backend, "a@x.com".to_string(), "pw-one".to_string()).unwrap();
    backend.create_post(1, &PostInfo { body: "with picture".to_string() }, 1).unwrap();
    for (w, h) in [(1u32, 1u32), (1, 700), (700, 1), (999, 1001), (64, 48)] {
        assert_eq!(backend.set_post_image(1, &png(w, h)), Ok(()));
        let stored = backend.store().get_post_image(1).unwrap();
        let decoded = image::load_from_memory(&stored).unwrap();
        assert!(1 <= decoded.width() && decoded.width() <= 1000);
        assert!(1 <= decoded.height() && decoded.height() <= 1000);
    }
}
