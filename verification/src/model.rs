//! The entities of the service and the shapes exchanged with its clients.

use vstd::prelude::*;
use vstd::slice::slice_to_vec;
use vstd::std_specs::convert::FromSpec;
use vstd::std_specs::convert::FromSpecImpl;

verus! {

/// A registered user.
#[derive(Debug, PartialEq, Eq)]
pub struct User {
    /// Unique id, assigned in increasing order starting at 1.
    pub user_id: u32,
    /// The credential hash; it embeds its parameters and salt.
    pub hash: String,
    /// The email the user logs in with, unique among users.
    pub email: String,
    /// Creation time in seconds since the epoch.
    pub created_at: i64,
    /// The name shown with the user's posts.
    pub display_name: String,
    /// The user's real name.
    pub real_name: String,
    /// The PNG bytes of the profile picture.
    pub profile_pic: Vec<u8>,
}

/// The mathematical value of a [`User`].
pub struct UserView {
    pub user_id: u32,
    pub hash: Seq<char>,
    pub email: Seq<char>,
    pub created_at: i64,
    pub display_name: Seq<char>,
    pub real_name: Seq<char>,
    pub profile_pic: Seq<u8>,
}

impl View for User {
    type V = UserView;

    open spec fn view(&self) -> UserView {
        UserView {
            user_id: self.user_id,
            hash: self.hash@,
            email: self.email@,
            created_at: self.created_at,
            display_name: self.display_name@,
            real_name: self.real_name@,
            profile_pic: self.profile_pic@,
        }
    }
}

impl Clone for User {
    fn clone(&self) -> (r: User)
        ensures
            r@ == self@,
    {
        User {
            user_id: self.user_id,
            hash: self.hash.clone(),
            email: self.email.clone(),
            created_at: self.created_at,
            display_name: self.display_name.clone(),
            real_name: self.real_name.clone(),
            profile_pic: slice_to_vec(self.profile_pic.as_slice()),
        }
    }
}

/// A published post.
#[derive(Debug, PartialEq, Eq)]
pub struct Post {
    /// Unique id, assigned in increasing order starting at 1.
    pub id: u32,
    /// The text of the post.
    pub body: String,
    /// Creation time in seconds since the epoch.
    pub created_at: i64,
    /// The JPEG bytes of the attached image, once one is set.
    pub image: Option<Vec<u8>>,
    /// The id of the author.
    pub user_id: u32,
}

/// The mathematical value of a [`Post`].
pub struct PostView {
    pub id: u32,
    pub body: Seq<char>,
    pub created_at: i64,
    pub image: Option<Seq<u8>>,
    pub user_id: u32,
}

/// The view of an optional byte buffer.
pub open spec fn bytes_view(b: Option<Vec<u8>>) -> Option<Seq<u8>> {
    match b {
        Some(v) => Some(v@),
        None => None,
    }
}

impl View for Post {
    type V = PostView;

    open spec fn view(&self) -> PostView {
        PostView {
            id: self.id,
            body: self.body@,
            created_at: self.created_at,
            image: bytes_view(self.image),
            user_id: self.user_id,
        }
    }
}

impl Clone for Post {
    fn clone(&self) -> (r: Post)
        ensures
            r@ == self@,
    {
        let image = match &self.image {
            Some(v) => Some(slice_to_vec(v.as_slice())),
            None => None,
        };
        Post {
            id: self.id,
            body: self.body.clone(),
            created_at: self.created_at,
            image,
            user_id: self.user_id,
        }
    }
}

/// The values of a run of users.
pub open spec fn users_view(users: Seq<User>) -> Seq<UserView> {
    users.map_values(|u: User| u@)
}

/// The values of a run of posts.
pub open spec fn posts_view(posts: Seq<Post>) -> Seq<PostView> {
    posts.map_values(|p: Post| p@)
}

/// What a client sends to register.
#[derive(Debug, PartialEq, Eq)]
pub struct RegisterInfo {
    pub email: String,
    pub password: String,
    pub display_name: String,
    pub real_name: String,
}

/// What a client sends to publish a post.
#[derive(Debug, PartialEq, Eq)]
pub struct PostInfo {
    pub body: String,
}

/// What a client sends to log in.
#[derive(Debug, PartialEq, Eq)]
pub struct LoginInfo {
    pub email: String,
    pub password: String,
}

/// What a client receives after publishing a post.
#[derive(Debug, Clone, Copy, PartialEq, Eq, Structural)]
pub struct PostCreationResponse {
    pub post_id: u32,
}

/// A post as shown in listings and search results: all of it but the image.
#[derive(Debug, PartialEq, Eq)]
pub struct PostDetails {
    pub id: u32,
    pub body: String,
    pub created_at: i64,
    pub user_id: u32,
}

/// The mathematical value of a [`PostDetails`].
pub struct PostDetailsView {
    pub id: u32,
    pub body: Seq<char>,
    pub created_at: i64,
    pub user_id: u32,
}

impl View for PostDetails {
    type V = PostDetailsView;

    open spec fn view(&self) -> PostDetailsView {
        PostDetailsView {
            id: self.id,
            body: self.body@,
            created_at: self.created_at,
            user_id: self.user_id,
        }
    }
}

/// The listing entry of a post.
pub open spec fn details_of(p: PostView) -> PostDetailsView {
    PostDetailsView { id: p.id, body: p.body, created_at: p.created_at, user_id: p.user_id }
}

impl PostDetails {
    /// The listing entry of `post`, without consuming it.
    pub fn of(post: &Post) -> (r: PostDetails)
        ensures
            r@ == details_of(post@),
    {
        PostDetails {
            id: post.id,
            body: post.body.clone(),
            created_at: post.created_at,
            user_id: post.user_id,
        }
    }
}

impl From<Post> for PostDetails {
    fn from(post: Post) -> (r: PostDetails) {
        PostDetails {
            id: post.id,
            body: post.body,
            created_at: post.created_at,
            user_id: post.user_id,
        }
    }
}

impl FromSpecImpl<Post> for PostDetails {
    open spec fn obeys_from_spec() -> bool {
        true
    }

    open spec fn from_spec(post: Post) -> PostDetails {
        PostDetails {
            id: post.id,
            body: post.body,
            created_at: post.created_at,
            user_id: post.user_id,
        }
    }
}

/// What other users may see of a user.
#[derive(Debug, PartialEq, Eq)]
pub struct UserInfo {
    pub user_id: u32,
    pub display_name: String,
    pub real_name: String,
}

/// The mathematical value of a [`UserInfo`].
pub struct UserInfoView {
    pub user_id: u32,
    pub display_name: Seq<char>,
    pub real_name: Seq<char>,
}

impl View for UserInfo {
    type V = UserInfoView;

    open spec fn view(&self) -> UserInfoView {
        UserInfoView {
            user_id: self.user_id,
            display_name: self.display_name@,
            real_name: self.real_name@,
        }
    }
}

/// The public part of a user.
pub open spec fn info_of(u: UserView) -> UserInfoView {
    UserInfoView { user_id: u.user_id, display_name: u.display_name, real_name: u.real_name }
}

impl From<User> for UserInfo {
    fn from(user: User) -> (r: UserInfo) {
        UserInfo {
            user_id: user.user_id,
            display_name: user.display_name,
            real_name: user.real_name,
        }
    }
}

impl FromSpecImpl<User> for UserInfo {
    open spec fn obeys_from_spec() -> bool {
        true
    }

    open spec fn from_spec(user: User) -> UserInfo {
        UserInfo {
            user_id: user.user_id,
            display_name: user.display_name,
            real_name: user.real_name,
        }
    }
}

/// Converting a user keeps its id and names.
pub proof fn user_info_from_user(user: User)
    ensures
        <UserInfo as FromSpec<User>>::from_spec(user)@ == info_of(user@),
{
}

/// Converting a post keeps everything but the image.
pub proof fn details_from_post(post: Post)
    ensures
        <PostDetails as FromSpec<Post>>::from_spec(post)@ == details_of(post@),
{
}

} // verus!
