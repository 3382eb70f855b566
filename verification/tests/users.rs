use backend::avatar::profile_picture;
use backend::error::{Error, Status};
use backend::model::{LoginInfo, RegisterInfo, User, UserInfo};
use backend::store::ContentStore;

/// Stands in for the password hasher: the record names the scheme and the password.
fn hash_password(password: &str) -> String {
    format!("$plain${}", password)
}

/// Stands in for the hasher's check of a password against a record.
fn verify_password(hash: &str, password: &str) -> bool {
    hash == format!("$plain${}", password)
}

fn create_dummy_user(store: &mut ContentStore, email: String, password: String) -> Result<u32, Error> {
    let rinfo = RegisterInfo {
        email,
        password: password.clone(),
        display_name: "dummy".to_string(),
        real_name: "Some Dummy".to_string(),
    };
    store.create_user(&rinfo, hash_password(&password), 1_600_000_000)
}

#[test]
fn test_user_database() {
    let email = String::from("some_email@gmail.com");
    let display_name = String::from("display_name");
    let real_name = String::from("real_name");

    let data = profile_picture(&display_name, &email, &real_name).unwrap();

    let me = User {
        user_id: 1,
        hash: "kalnfdanf".to_string(),
        email,
        created_at: 1_600_000_000,
        display_name,
        real_name,
        profile_pic: data,
    };
    let store = ContentStore::restore(vec![me.clone()], vec![]).ok().unwrap();

    let user = store.load_user_by_id(1).unwrap();
    assert_eq!(&user, &me);

    let user = store.load_user_by_email(&me.email).unwrap();
    assert_eq!(&user, &me);

    let profile_pic = store.get_profile_picture(1).unwrap();
    assert_eq!(&me.profile_pic, &profile_pic);
}

#[test]
fn create_user_from_info() {
    let mut store = ContentStore::new();

    let password = "myAmazingPassw0rd!".to_string();
    let email = "some_email@gmail.com".to_string();
    create_dummy_user(&mut store, email.clone(), password.clone()).unwrap();

    let user = store.load_user_by_id(1).unwrap();
    let check = |info: LoginInfo| {
        let verdict = Some(verify_password(&user.hash, &info.password));
        user.auth(&info, verdict)
    };
    assert_eq!(check(LoginInfo { email: email.clone(), password: password.clone() }), Ok(true));
    assert_eq!(
        check(LoginInfo { email: "adifferentemail@gmail.com".to_string(), password }),
        Ok(false)
    );
    assert_eq!(
        check(LoginInfo { email: email.clone(), password: "thisisthewrongpassword".to_string() }),
        Ok(false)
    );
    assert_eq!(
        check(LoginInfo {
            email: "anotheremail@gmail.com".to_string(),
            password: "83quhejwdknas".to_string()
        }),
        Ok(false)
    );
}

#[test]
fn load_invalid_id() {
    let store = ContentStore::new();

    let res = store.load_user_by_id(1);

    assert!(res.is_err());
    assert_eq!(res, Err(Error::NotFound));
}

#[test]
fn load_unknown_email_is_not_found() {
    let mut store = ContentStore::new();
    create_dummy_user(&mut store, "a@x.com".to_string(), "pw-one".to_string()).unwrap();
    assert_eq!(store.load_user_by_email("b@x.com"), Err(Error::NotFound));
    assert_eq!(store.get_profile_picture(2), Err(Error::NotFound));
}

#[test]
fn user_ids_start_at_one_and_grow() {
    let mut store = ContentStore::new();
    assert_eq!(create_dummy_user(&mut store, "a@x.com".to_string(), "pw-one".to_string()), Ok(1));
    assert_eq!(create_dummy_user(&mut store, "b@x.com".to_string(), "pw-two".to_string()), Ok(2));
    assert_eq!(create_dummy_user(&mut store, "c@x.com".to_string(), "pw-three".to_string()), Ok(3));
    assert_eq!(store.load_user_by_email("b@x.com").unwrap().user_id, 2);
}

#[test]
fn created_user_holds_what_was_registered() {
    let mut store = ContentStore::new();
    let rinfo = RegisterInfo {
        email: "a@x.com".to_string(),
        password: "pw-one".to_string(),
        display_name: "Ann".to_string(),
        real_name: "Ann Example".to_string(),
    };
    let id = store.create_user(&rinfo, hash_password("pw-one"), 77).unwrap();
    let expected = User {
        user_id: id,
        hash: "$plain$pw-one".to_string(),
        email: "a@x.com".to_string(),
        created_at: 77,
        display_name: "Ann".to_string(),
        real_name: "Ann Example".to_string(),
        profile_pic: profile_picture("Ann", "a@x.com", "Ann Example").unwrap(),
    };
    assert_eq!(store.load_user_by_email("a@x.com"), Ok(expected.clone()));
    assert_eq!(store.load_user_by_id(id), Ok(expected));
    let loaded = store.load_user_by_email("a@x.com").unwrap();
    assert!(verify_password(&loaded.hash, "pw-one"));
    assert!(!verify_password(&loaded.hash, "other"));
}

#[test]
fn second_registration_with_same_email_is_refused() {
    let mut store = ContentStore::new();
    create_dummy_user(&mut store, "a@x.com".to_string(), "pw-one".to_string()).unwrap();
    let before = store.load_user_by_id(1).unwrap();
    assert_eq!(
        create_dummy_user(&mut store, "a@x.com".to_string(), "pw-two".to_string()),
        Err(Error::UserAlreadyExists)
    );
    assert_eq!(store.load_user_by_id(1), Ok(before));
    assert_eq!(store.load_user_by_id(2), Err(Error::NotFound));
    assert_eq!(create_dummy_user(&mut store, "b@x.com".to_string(), "pw-two".to_string()), Ok(2));
}

#[test]
fn emails_are_case_sensitive() {
    let mut store = ContentStore::new();
    create_dummy_user(&mut store, "a@x.com".to_string(), "pw-one".to_string()).unwrap();
    assert_eq!(create_dummy_user(&mut store, "A@x.com".to_string(), "pw-one".to_string()), Ok(2));
}

#[test]
fn profile_picture_is_a_png_drawn_from_the_text() {
    let one = profile_picture("dummy", "a@x.com", "Some Dummy").unwrap();
    let again = profile_picture("dummy", "a@x.com", "Some Dummy").unwrap();
    let other = profile_picture("dummy", "b@x.com", "Some Dummy").unwrap();
    assert_eq!(&one[..8], &[0x89u8, b'P', b'N', b'G', 0x0d, 0x0a, 0x1a, 0x0a][..]);
    assert_eq!(one, again);
    assert_ne!(one, other);
    // The three parts are joined without a separator.
    assert_eq!(profile_picture("du", "mmya@x.com", "Some Dummy").unwrap(), one);
    let decoded = image::load_from_memory(&one).unwrap();
    assert_eq!((decoded.width(), decoded.height()), (600, 600));
}

#[test]
fn restore_refuses_rows_that_break_the_rules() {
    let user = |id: u32, email: &str| User {
        user_id: id,
        hash: "h".to_string(),
        email: email.to_string(),
        created_at: 0,
        display_name: "d".to_string(),
        real_name: "r".to_string(),
        profile_pic: vec![1, 2, 3],
    };
    assert!(ContentStore::restore(vec![user(1, "a"), user(2, "b")], vec![]).is_ok());
    assert!(ContentStore::restore(vec![user(1, "a"), user(5, "b")], vec![]).is_ok());
    assert_eq!(
        ContentStore::restore(vec![user(0, "a")], vec![]).err(),
        Some(Error::DatabaseErr)
    );
    assert_eq!(
        ContentStore::restore(vec![user(2, "a"), user(1, "b")], vec![]).err(),
        Some(Error::DatabaseErr)
    );
    assert_eq!(
        ContentStore::restore(vec![user(1, "a"), user(1, "b")], vec![]).err(),
        Some(Error::DatabaseErr)
    );
    assert_eq!(
        ContentStore::restore(vec![user(1, "a"), user(2, "a")], vec![]).err(),
        Some(Error::DatabaseErr)
    );
}

#[test]
fn user_info_is_the_public_part() {
    let user = User {
        user_id: 7,
        hash: "h".to_string(),
        email: "a@x.com".to_string(),
        created_at: 0,
        display_name: "Ann".to_string(),
        real_name: "Ann Example".to_string(),
        profile_pic: vec![],
    };
    assert_eq!(
        UserInfo::from(user),
        UserInfo { user_id: 7, display_name: "Ann".to_string(), real_name: "Ann Example".to_string() }
    );
}

#[test]
fn auth_fails_with_hash_error_when_the_hash_cannot_be_checked() {
    let user = User {
        user_id: 7,
        hash: "broken".to_string(),
        email: "a@x.com".to_string(),
        created_at: 0,
        display_name: "Ann".to_string(),
        real_name: "Ann Example".to_string(),
        profile_pic: vec![],
    };
    let same = LoginInfo { email: "a@x.com".to_string(), password: "p".to_string() };
    let other = LoginInfo { email: "b@x.com".to_string(), password: "p".to_string() };
    assert!(user.needs_password_check(&same));
    assert!(!user.needs_password_check(&other));
    assert_eq!(user.auth(&same, None), Err(Error::HashError));
    assert_eq!(user.auth(&other, None), Ok(false));
    assert_eq!(user.auth(&other, Some(true)), Ok(false));
}

#[test]
fn failures_look_to_clients_as_documented() {
    let all = [
        Error::HashError,
        Error::DatabaseErr,
        Error::NotFound,
        Error::UserAlreadyExists,
        Error::SearchErr,
        Error::QueryParseErr,
        Error::LoginFailed,
        Error::ImageUploadFailed,
    ];
    assert_eq!(Error::NotFound.status(), Status::NotFound);
    assert_eq!(Error::NotFound.status().code(), 404);
    assert_eq!(Error::UserAlreadyExists.status().code(), 409);
    assert_eq!(Error::LoginFailed.status().code(), 401);
    assert_eq!(Error::QueryParseErr.status().code(), 400);
    assert_eq!(Error::ImageUploadFailed.status().code(), 422);
    for fault in [Error::HashError, Error::DatabaseErr, Error::SearchErr] {
        assert_eq!(fault.status(), Status::InternalServerError);
        assert_eq!(fault.status().code(), 500);
        assert!(fault.is_logged());
    }
    for a in all {
        for b in all {
            if a != b && !a.is_logged() {
                assert_ne!(a.status().code(), b.status().code());
            }
        }
    }
    assert!(!Error::LoginFailed.is_logged());
}
