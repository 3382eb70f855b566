//! The content store: the tables of users and posts and the rules they obey.

use vstd::prelude::*;
use vstd::slice::slice_to_vec;
use vstd::string::StringExecFns;

use crate::avatar::{avatar_input, identicon_png, profile_picture};
use crate::error::Error;
use crate::model::{
    details_of, posts_view, users_view, Post, PostDetails, PostDetailsView, PostView,
    RegisterInfo, User, UserView,
};

verus! {

/// The mathematical value of a [`ContentStore`]: its two tables, oldest row first.
pub struct StoreView {
    pub users: Seq<UserView>,
    pub posts: Seq<PostView>,
}

/// Whether a user with this id is in the table.
pub open spec fn has_user(users: Seq<UserView>, id: u32) -> bool {
    exists|i: int| 0 <= i < users.len() && (#[trigger] users[i]).user_id == id
}

/// The user with this id, if the table holds one.
pub open spec fn user_by_id(users: Seq<UserView>, id: u32) -> Option<UserView> {
    if has_user(users, id) {
        Some(users[choose|i: int| 0 <= i < users.len() && (#[trigger] users[i]).user_id == id])
    } else {
        None
    }
}

/// Whether a user with this email is in the table.
pub open spec fn email_taken(users: Seq<UserView>, email: Seq<char>) -> bool {
    exists|i: int| 0 <= i < users.len() && (#[trigger] users[i]).email == email
}

/// The user with this email, if the table holds one.
pub open spec fn user_by_email(users: Seq<UserView>, email: Seq<char>) -> Option<UserView> {
    if email_taken(users, email) {
        Some(users[choose|i: int| 0 <= i < users.len() && (#[trigger] users[i]).email == email])
    } else {
        None
    }
}

/// The id that the next user gets: one more than the newest user's, or 1.
pub open spec fn next_user_id(users: Seq<UserView>) -> int {
    if users.len() == 0 {
        1
    } else {
        users.last().user_id + 1
    }
}

/// The rules of the user table: ids start at 1 and grow from row to row, and
/// no two users share an email.
pub open spec fn users_valid(users: Seq<UserView>) -> bool {
    &&& forall|i: int| 0 <= i < users.len() ==> (#[trigger] users[i]).user_id >= 1
    &&& forall|i: int, j: int|
        0 <= i < j < users.len() ==> (#[trigger] users[i]).user_id < (#[trigger] users[j]).user_id
    &&& forall|i: int, j: int|
        0 <= i < j < users.len() ==> (#[trigger] users[i]).email != (#[trigger] users[j]).email
}

/// Whether a post with this id is in the table.
pub open spec fn has_post(posts: Seq<PostView>, id: u32) -> bool {
    exists|i: int| 0 <= i < posts.len() && (#[trigger] posts[i]).id == id
}

/// The post with this id, if the table holds one.
pub open spec fn post_by_id(posts: Seq<PostView>, id: u32) -> Option<PostView> {
    if has_post(posts, id) {
        Some(posts[choose|i: int| 0 <= i < posts.len() && (#[trigger] posts[i]).id == id])
    } else {
        None
    }
}

/// The id that the next post gets: one more than the newest post's, or 1.
pub open spec fn next_post_id(posts: Seq<PostView>) -> int {
    if posts.len() == 0 {
        1
    } else {
        posts.last().id + 1
    }
}

/// The rules of the post table: ids start at 1 and grow from row to row, and
/// every post has its author in the user table.
pub open spec fn posts_valid(users: Seq<UserView>, posts: Seq<PostView>) -> bool {
    &&& forall|i: int| 0 <= i < posts.len() ==> (#[trigger] posts[i]).id >= 1
    &&& forall|i: int, j: int|
        0 <= i < j < posts.len() ==> (#[trigger] posts[i]).id < (#[trigger] posts[j]).id
    &&& forall|i: int| 0 <= i < posts.len() ==> has_user(users, (#[trigger] posts[i]).user_id)
}

impl StoreView {
    /// Both tables obey their rules.
    pub open spec fn valid(self) -> bool {
        users_valid(self.users) && posts_valid(self.users, self.posts)
    }
}

/// The row that a registration adds to the user table.
pub open spec fn new_user_row(
    id: u32,
    rinfo: RegisterInfo,
    hash: Seq<char>,
    created_at: i64,
    picture: Seq<u8>,
) -> UserView {
    UserView {
        user_id: id,
        hash,
        email: rinfo.email@,
        created_at,
        display_name: rinfo.display_name@,
        real_name: rinfo.real_name@,
        profile_pic: picture,
    }
}

/// The picture drawn for a registration.
pub open spec fn picture_for(rinfo: RegisterInfo) -> Option<Seq<u8>> {
    identicon_png(avatar_input(rinfo.display_name@, rinfo.email@, rinfo.real_name@))
}

/// The row that publishing adds to the post table.
pub open spec fn new_post_row(id: u32, body: Seq<char>, created_at: i64, author: u32) -> PostView {
    PostView { id, body, created_at, image: None, user_id: author }
}

/// What a registration returns: the new id, or why the store refuses it.
pub open spec fn register_outcome(users: Seq<UserView>, rinfo: RegisterInfo) -> Result<u32, Error> {
    if email_taken(users, rinfo.email@) {
        Err(Error::UserAlreadyExists)
    } else if next_user_id(users) > u32::MAX {
        Err(Error::DatabaseErr)
    } else {
        Ok(next_user_id(users) as u32)
    }
}

/// The store after a registration: one more user where it succeeds, the same
/// store where it fails.
pub open spec fn register(s: StoreView, rinfo: RegisterInfo, hash: Seq<char>, created_at: i64) -> StoreView {
    match register_outcome(s.users, rinfo) {
        Ok(id) => StoreView {
            users: s.users.push(
                new_user_row(id, rinfo, hash, created_at, picture_for(rinfo)->Some_0),
            ),
            posts: s.posts,
        },
        Err(_) => s,
    }
}

/// What publishing returns: the new id, or why the store refuses it.
pub open spec fn publish_outcome(s: StoreView, author: u32) -> Result<u32, Error> {
    if !has_user(s.users, author) {
        Err(Error::NotFound)
    } else if next_post_id(s.posts) > u32::MAX {
        Err(Error::DatabaseErr)
    } else {
        Ok(next_post_id(s.posts) as u32)
    }
}

/// The store after publishing: one more post where it succeeds, the same
/// store where it fails.
pub open spec fn publish(s: StoreView, body: Seq<char>, author: u32, created_at: i64) -> StoreView {
    match publish_outcome(s, author) {
        Ok(id) => StoreView {
            users: s.users,
            posts: s.posts.push(new_post_row(id, body, created_at, author)),
        },
        Err(_) => s,
    }
}

/// The post table after the image of the post with this id is set. A table
/// without such a post stays as it is.
pub open spec fn with_image(posts: Seq<PostView>, id: u32, data: Seq<u8>) -> Seq<PostView> {
    posts.map_values(
        |p: PostView|
            if p.id == id {
                PostView { image: Some(data), ..p }
            } else {
                p
            },
    )
}

/// Whether a listing asked for with this author filter shows the post:
/// without a filter every post is shown, with one only the posts of that
/// author. No user has the id 0, so a filter for it shows nothing.
pub open spec fn listed(p: PostView, author: Option<u32>) -> bool {
    match author {
        Some(a) => p.user_id == a,
        None => true,
    }
}

/// The test that a listing with this author filter puts to a post.
pub open spec fn shows(author: Option<u32>) -> spec_fn(PostView) -> bool {
    |p: PostView| listed(p, author)
}

/// The last `limit` posts of a run, or all of it where it is shorter, as
/// listing entries, last post first.
pub open spec fn newest_first(posts: Seq<PostView>, limit: nat) -> Seq<PostDetailsView> {
    let n = if limit <= posts.len() {
        limit
    } else {
        posts.len()
    };
    Seq::new(n, |k: int| details_of(posts[posts.len() - 1 - k]))
}

/// The listing of recent posts: the newest `limit` posts that the filter
/// shows, newest first.
pub open spec fn recent_posts(posts: Seq<PostView>, limit: nat, author: Option<u32>) -> Seq<
    PostDetailsView,
> {
    newest_first(posts.filter(shows(author)), limit)
}

/// The listing entry of the post that an id names in a table, if it names one.
pub open spec fn listing_entry(posts: Seq<PostView>) -> spec_fn(u32) -> Option<PostDetailsView> {
    |id: u32|
        match post_by_id(posts, id) {
            Some(p) => Some(details_of(p)),
            None => None,
        }
}

/// The listing of the posts that the ids name, in the order of the ids. An
/// id that names no post of the table adds nothing.
pub open spec fn live_listing(posts: Seq<PostView>, ids: Seq<u32>) -> Seq<PostDetailsView> {
    ids.filter_map(listing_entry(posts))
}

/// The views of a vector of listing entries.
pub open spec fn details_view(v: Seq<PostDetails>) -> Seq<PostDetailsView> {
    v.map_values(|d: PostDetails| d@)
}

/// The value of a store that holds these rows.
pub open spec fn tables_view(users: Seq<User>, posts: Seq<Post>) -> StoreView {
    StoreView { users: users_view(users), posts: posts_view(posts) }
}

/// The users and posts of the service, each table ordered by id.
pub struct ContentStore {
    users: Vec<User>,
    posts: Vec<Post>,
}

impl View for ContentStore {
    type V = StoreView;

    closed spec fn view(&self) -> StoreView {
        tables_view(self.users@, self.posts@)
    }
}

impl ContentStore {
    /// The tables obey their rules. Every store that this module hands out
    /// does, and its methods keep it so.
    pub open spec fn wf(&self) -> bool {
        self@.valid()
    }

    /// A store with no users and no posts.
    pub fn new() -> (s: ContentStore)
        ensures
            s@.users.len() == 0,
            s@.posts.len() == 0,
            s.wf(),
    {
        ContentStore { users: Vec::new(), posts: Vec::new() }
    }

    /// Where in the table the user with this id stands. The ids grow along
    /// the table, so the search halves what is left at every step.
    fn user_position(&self, id: u32) -> (r: Option<usize>)
        requires
            self.wf(),
        ensures
            match r {
                Some(i) => i < self@.users.len() && self@.users[i as int].user_id == id,
                None => !has_user(self@.users, id),
            },
    {
        let mut low: usize = 0;
        let mut high: usize = self.users.len();
        while low < high
            invariant
                self.wf(),
                low <= high <= self.users.len(),
                self@.users.len() == self.users.len(),
                forall|k: int| 0 <= k < low ==> (#[trigger] self@.users[k]).user_id < id,
                forall|k: int|
                    high <= k < self@.users.len() ==> (#[trigger] self@.users[k]).user_id > id,
            decreases high - low,
        {
            let mid = low + (high - low) / 2;
            let found = self.users[mid].user_id;
            proof {
                assert(self@.users[mid as int].user_id == found);
                assert forall|k: int| 0 <= k < self@.users.len() && k != mid implies (k < mid
                    ==> (#[trigger] self@.users[k]).user_id < found) && (k > mid
                    ==> self@.users[k].user_id > found) by {
                    if k < mid {
                        assert(self@.users[k].user_id < self@.users[mid as int].user_id);
                    } else {
                        assert(self@.users[mid as int].user_id < self@.users[k].user_id);
                    }
                }
            }
            if found == id {
                return Some(mid);
            } else if found < id {
                low = mid + 1;
            } else {
                high = mid;
            }
        }
        None
    }

    /// Where in the table the user with this email stands.
    fn email_position(&self, email: &String) -> (r: Option<usize>)
        ensures
            match r {
                Some(i) => i < self@.users.len() && self@.users[i as int].email == email@,
                None => !email_taken(self@.users, email@),
            },
    {
        let mut i: usize = 0;
        while i < self.users.len()
            invariant
                i <= self.users.len(),
                self@.users.len() == self.users.len(),
                forall|k: int| 0 <= k < i ==> (#[trigger] self@.users[k]).email != email@,
            decreases self.users.len() - i,
        {
            if self.users[i].email == *email {
                return Some(i);
            }
            i += 1;
        }
        None
    }

    /// Loads the user with this id.
    pub fn load_user_by_id(&self, user_id: u32) -> (r: Result<User, Error>)
        requires
            self.wf(),
        ensures
            match user_by_id(self@.users, user_id) {
                Some(u) => r is Ok && r->Ok_0@ == u,
                None => r == Err::<User, Error>(Error::NotFound),
            },
    {
        match self.user_position(user_id) {
            Some(i) => Ok(self.users[i].clone()),
            None => Err(Error::NotFound),
        }
    }

    /// Loads the user with this email.
    pub fn load_user_by_email(&self, email: &str) -> (r: Result<User, Error>)
        requires
            self.wf(),
        ensures
            match user_by_email(self@.users, email@) {
                Some(u) => r is Ok && r->Ok_0@ == u,
                None => r == Err::<User, Error>(Error::NotFound),
            },
    {
        let wanted = String::from_str(email);
        match self.email_position(&wanted) {
            Some(i) => Ok(self.users[i].clone()),
            None => Err(Error::NotFound),
        }
    }

    /// Registers a user and returns the new id.
    ///
    /// The email must be new to the store; then the user gets the next id and
    /// a profile picture drawn from the names and the email. A registration
    /// that fails leaves the store as it was.
    pub fn create_user(&mut self, rinfo: &RegisterInfo, hash: String, created_at: i64) -> (r: Result<
        u32,
        Error,
    >)
        requires
            old(self).wf(),
        ensures
            final(self).wf(),
            r == register_outcome(old(self)@.users, *rinfo),
            final(self)@ == register(old(self)@, *rinfo, hash@, created_at),
    {
        if self.email_position(&rinfo.email).is_some() {
            return Err(Error::UserAlreadyExists);
        }
        let n = self.users.len();
        let last_id: u32 = if n == 0 {
            0
        } else {
            self.users[n - 1].user_id
        };
        if last_id == u32::MAX {
            return Err(Error::DatabaseErr);
        }
        let picture = match profile_picture(
            rinfo.display_name.as_str(),
            rinfo.email.as_str(),
            rinfo.real_name.as_str(),
        ) {
            Some(p) => p,
            // There is a picture for every user.
            None => {
                return Err(Error::DatabaseErr);
            },
        };
        let id: u32 = last_id + 1;
        let user = User {
            user_id: id,
            hash,
            email: rinfo.email.clone(),
            created_at,
            display_name: rinfo.display_name.clone(),
            real_name: rinfo.real_name.clone(),
            profile_pic: picture,
        };
        let ghost before = self@;
        self.users.push(user);
        proof {
            assert(self@.users =~= before.users.push(user@));
            assert(self@.posts =~= before.posts);
            assert forall|i: int, j: int| 0 <= i < j < self@.users.len() implies (
            #[trigger] self@.users[i]).user_id < (#[trigger] self@.users[j]).user_id
                && self@.users[i].email != self@.users[j].email by {
                if j == before.users.len() {
                    assert(before.users[i].user_id <= before.users.last().user_id);
                    assert(before.users[i].email != rinfo.email@);
                }
            }
            assert forall|i: int| 0 <= i < self@.posts.len() implies has_user(
                self@.users,
                (#[trigger] self@.posts[i]).user_id,
            ) by {
                let a = before.posts[i].user_id;
                let k = choose|k: int| 0 <= k < before.users.len() && (#[trigger] before.users[k]).user_id == a;
                assert(self@.users[k].user_id == a);
            }
        }
        Ok(id)
    }

    /// The profile picture of the user with this id.
    pub fn get_profile_picture(&self, user_id: u32) -> (r: Result<Vec<u8>, Error>)
        requires
            self.wf(),
        ensures
            match user_by_id(self@.users, user_id) {
                Some(u) => r is Ok && r->Ok_0@ == u.profile_pic,
                None => r == Err::<Vec<u8>, Error>(Error::NotFound),
            },
    {
        match self.user_position(user_id) {
            Some(i) => Ok(slice_to_vec(self.users[i].profile_pic.as_slice())),
            None => Err(Error::NotFound),
        }
    }

    /// Where in the table the post with this id stands. The ids grow along
    /// the table, so the search halves what is left at every step.
    fn post_position(&self, id: u32) -> (r: Option<usize>)
        requires
            self.wf(),
        ensures
            match r {
                Some(i) => i < self@.posts.len() && self@.posts[i as int].id == id,
                None => !has_post(self@.posts, id),
            },
    {
        let mut low: usize = 0;
        let mut high: usize = self.posts.len();
        while low < high
            invariant
                self.wf(),
                low <= high <= self.posts.len(),
                self@.posts.len() == self.posts.len(),
                forall|k: int| 0 <= k < low ==> (#[trigger] self@.posts[k]).id < id,
                forall|k: int| high <= k < self@.posts.len() ==> (#[trigger] self@.posts[k]).id > id,
            decreases high - low,
        {
            let mid = low + (high - low) / 2;
            let found = self.posts[mid].id;
            proof {
                assert(self@.posts[mid as int].id == found);
                assert forall|k: int| 0 <= k < self@.posts.len() && k != mid implies (k < mid
                    ==> (#[trigger] self@.posts[k]).id < found) && (k > mid
                    ==> self@.posts[k].id > found) by {
                    if k < mid {
                        assert(self@.posts[k].id < self@.posts[mid as int].id);
                    } else {
                        assert(self@.posts[mid as int].id < self@.posts[k].id);
                    }
                }
            }
            if found == id {
                return Some(mid);
            } else if found < id {
                low = mid + 1;
            } else {
                high = mid;
            }
        }
        None
    }

    /// Publishes a post by the user `author` and returns the new id. A
    /// publication that fails leaves the store as it was.
    pub fn create_post(&mut self, body: &str, author: u32, created_at: i64) -> (r: Result<
        u32,
        Error,
    >)
        requires
            old(self).wf(),
        ensures
            final(self).wf(),
            r == publish_outcome(old(self)@, author),
            final(self)@ == publish(old(self)@, body@, author, created_at),
    {
        if self.user_position(author).is_none() {
            return Err(Error::NotFound);
        }
        let n = self.posts.len();
        let last_id: u32 = if n == 0 {
            0
        } else {
            self.posts[n - 1].id
        };
        if last_id == u32::MAX {
            return Err(Error::DatabaseErr);
        }
        let id: u32 = last_id + 1;
        let post = Post {
            id,
            body: String::from_str(body),
            created_at,
            image: None,
            user_id: author,
        };
        let ghost before = self@;
        self.posts.push(post);
        proof {
            assert(self@.posts =~= before.posts.push(post@));
            assert(self@.users =~= before.users);
            assert forall|i: int, j: int| 0 <= i < j < self@.posts.len() implies (
            #[trigger] self@.posts[i]).id < (#[trigger] self@.posts[j]).id by {
                if j == before.posts.len() {
                    assert(before.posts[i].id <= before.posts.last().id);
                }
            }
        }
        Ok(id)
    }

    /// Sets the image of the post with this id. Where the store has no such
    /// post nothing changes.
    pub fn set_post_image(&mut self, post_id: u32, data: &[u8]) -> (r: Result<(), Error>)
        requires
            old(self).wf(),
        ensures
            final(self).wf(),
            r is Ok,
            final(self)@.users == old(self)@.users,
            final(self)@.posts == with_image(old(self)@.posts, post_id, data@),
    {
        let ghost before = self@;
        match self.post_position(post_id) {
            Some(i) => {
                let post = Post {
                    id: self.posts[i].id,
                    body: self.posts[i].body.clone(),
                    created_at: self.posts[i].created_at,
                    image: Some(slice_to_vec(data)),
                    user_id: self.posts[i].user_id,
                };
                self.posts.set(i, post);
                proof {
                    assert forall|k: int| 0 <= k < before.posts.len() && k != i implies (
                    #[trigger] before.posts[k]).id != post_id by {
                        if k < i {
                            assert(before.posts[k].id < before.posts[i as int].id);
                        } else {
                            assert(before.posts[i as int].id < before.posts[k].id);
                        }
                    }
                    assert(self@.posts =~= with_image(before.posts, post_id, data@));
                }
            },
            None => {
                proof {
                    assert(self@.posts =~= with_image(before.posts, post_id, data@));
                }
            },
        }
        Ok(())
    }

    /// The image of the post with this id. A post without an image has
    /// none to be found, like a post that the store does not hold.
    pub fn get_post_image(&self, post_id: u32) -> (r: Result<Vec<u8>, Error>)
        requires
            self.wf(),
        ensures
            match post_by_id(self@.posts, post_id) {
                Some(p) => match p.image {
                    Some(data) => r is Ok && r->Ok_0@ == data,
                    None => r == Err::<Vec<u8>, Error>(Error::NotFound),
                },
                None => r == Err::<Vec<u8>, Error>(Error::NotFound),
            },
    {
        match self.post_position(post_id) {
            Some(i) => match &self.posts[i].image {
                Some(data) => Ok(slice_to_vec(data.as_slice())),
                None => Err(Error::NotFound),
            },
            None => Err(Error::NotFound),
        }
    }

    /// Loads the post with this id.
    pub fn load_post_by_id(&self, post_id: u32) -> (r: Result<Post, Error>)
        requires
            self.wf(),
        ensures
            match post_by_id(self@.posts, post_id) {
                Some(p) => r is Ok && r->Ok_0@ == p,
                None => r == Err::<Post, Error>(Error::NotFound),
            },
    {
        match self.post_position(post_id) {
            Some(i) => Ok(self.posts[i].clone()),
            None => Err(Error::NotFound),
        }
    }

    /// Lists the newest `num` posts, newest first; with an author filter,
    /// only the posts of that author.
    pub fn load_recent_posts(&self, num: u32, user_id: Option<u32>) -> (r: Vec<PostDetails>)
        requires
            self.wf(),
        ensures
            details_view(r@) == recent_posts(self@.posts, num as nat, user_id),
    {
        let mut out: Vec<PostDetails> = Vec::new();
        let mut i: usize = self.posts.len();
        let ghost shown = self@.posts.filter(shows(user_id));
        proof {
            assert(self@.posts.take(i as int) =~= self@.posts);
        }
        while i > 0 && out.len() < num as usize
            invariant
                i <= self.posts.len(),
                self@.posts.len() == self.posts.len(),
                out.len() <= num,
                shown == self@.posts.filter(shows(user_id)),
                self@.posts.take(i as int).filter(shows(user_id)).is_prefix_of(shown),
                self@.posts.take(i as int).filter(shows(user_id)).len() + out.len() == shown.len(),
                forall|k: int|
                    0 <= k < out.len() ==> (#[trigger] out@[k])@ == details_of(
                        shown[shown.len() - 1 - k],
                    ),
            decreases i,
        {
            let ghost before = self@.posts.take(i as int);
            i -= 1;
            let ghost rest = self@.posts.take(i as int);
            let ghost newest = self@.posts[i as int];
            let ghost kept = rest.filter(shows(user_id));
            proof {
                assert(newest == self.posts[i as int]@);
                assert(shows(user_id)(newest) == listed(newest, user_id));
                assert(before =~= rest.push(newest));
                rest.lemma_filter_push(newest, shows(user_id));
                assert(before.filter(shows(user_id)) =~= shown.subrange(
                    0,
                    before.filter(shows(user_id)).len() as int,
                ));
                assert(kept =~= shown.subrange(0, kept.len() as int));
                if shows(user_id)(newest) {
                    assert(shown[kept.len() as int] == before.filter(shows(user_id))[kept.len() as int]);
                    assert(shown[kept.len() as int] == newest);
                }
            }
            let show = match user_id {
                Some(a) => self.posts[i].user_id == a,
                None => true,
            };
            if show {
                out.push(PostDetails::of(&self.posts[i]));
            }
        }
        proof {
            if i == 0 {
                self@.posts.take(0).lemma_filter_len(shows(user_id));
            }
            assert(details_view(out@) =~= recent_posts(self@.posts, num as nat, user_id));
        }
        out
    }

    /// The posts of the store, oldest first.
    pub fn posts(&self) -> (r: &Vec<Post>)
        ensures
            posts_view(r@) == self@.posts,
    {
        &self.posts
    }

    /// What publishing a post by `author` would return, without publishing.
    pub fn can_publish(&self, author: u32) -> (r: Result<u32, Error>)
        requires
            self.wf(),
        ensures
            r == publish_outcome(self@, author),
    {
        if self.user_position(author).is_none() {
            return Err(Error::NotFound);
        }
        let n = self.posts.len();
        if n > 0 && self.posts[n - 1].id == u32::MAX {
            return Err(Error::DatabaseErr);
        }
        if n == 0 {
            Ok(1)
        } else {
            Ok(self.posts[n - 1].id + 1)
        }
    }

    /// Whether these users obey the rules of the user table.
    fn users_in_order(users: &Vec<User>) -> (b: bool)
        ensures
            b == users_valid(tables_view(users@, Seq::empty()).users),
    {
        let ghost rows = tables_view(users@, Seq::empty()).users;
        let mut i: usize = 0;
        while i < users.len()
            invariant
                i <= users.len(),
                rows == tables_view(users@, Seq::empty()).users,
                rows.len() == users.len(),
                users_valid(rows.take(i as int)),
            decreases users.len() - i,
        {
            let ghost before = rows.take(i as int);
            let ghost after = rows.take(i + 1);
            proof {
                assert(forall|k: int| 0 <= k < i ==> before[k] == rows[k]);
                assert(forall|k: int| 0 <= k <= i ==> after[k] == rows[k]);
            }
            proof {
                assert(rows[i as int] == users[i as int]@);
                if i > 0 {
                    assert(rows[i - 1] == users[i - 1]@);
                }
            }
            if users[i].user_id < 1 {
                return false;
            }
            if i > 0 && users[i - 1].user_id >= users[i].user_id {
                return false;
            }
            let mut j: usize = 0;
            while j < i
                invariant
                    j <= i < users.len(),
                    rows == tables_view(users@, Seq::empty()).users,
                    rows.len() == users.len(),
                    forall|k: int| 0 <= k < j ==> (#[trigger] rows[k]).email != rows[i as int].email,
                decreases i - j,
            {
                proof {
                    assert(rows[j as int] == users[j as int]@);
                    assert(rows[i as int] == users[i as int]@);
                }
                if users[j].email == users[i].email {
                    return false;
                }
                j += 1;
            }
            proof {
                assert forall|a: int, b: int| 0 <= a < b < after.len() implies (#[trigger] after[a]).user_id
                    < (#[trigger] after[b]).user_id && after[a].email != after[b].email by {
                    if b == i {
                        if a < i - 1 {
                            assert(before[a].user_id < before[i - 1].user_id);
                        }
                    } else {
                        assert(before[a].user_id < before[b].user_id);
                        assert(before[a].email != before[b].email);
                    }
                }
                assert forall|a: int| 0 <= a < after.len() implies (#[trigger] after[a]).user_id >= 1 by {
                    if a < i {
                        assert(before[a].user_id >= 1);
                    }
                }
            }
            i += 1;
        }
        proof {
            assert(rows.take(i as int) =~= rows);
        }
        true
    }

    /// Builds a store from rows that were kept elsewhere. Rows that break
    /// the rules of the tables are refused.
    pub fn restore(users: Vec<User>, posts: Vec<Post>) -> (r: Result<ContentStore, Error>)
        ensures
            match r {
                Ok(s) => s.wf() && s@ == tables_view(users@, posts@),
                Err(e) => e == Error::DatabaseErr && !tables_view(users@, posts@).valid(),
            },
    {
        if !Self::users_in_order(&users) {
            return Err(Error::DatabaseErr);
        }
        let store = ContentStore { users, posts: Vec::new() };
        let ghost rows = tables_view(users@, posts@);
        let mut i: usize = 0;
        while i < posts.len()
            invariant
                i <= posts.len(),
                store.users@ == users@,
                store.wf(),
                rows == tables_view(users@, posts@),
                rows.posts.len() == posts.len(),
                users_valid(rows.users),
                posts_valid(rows.users, rows.posts.take(i as int)),
            decreases posts.len() - i,
        {
            let ghost before = rows.posts.take(i as int);
            let ghost after = rows.posts.take(i + 1);
            proof {
                assert(forall|k: int| 0 <= k < i ==> before[k] == rows.posts[k]);
                assert(forall|k: int| 0 <= k <= i ==> after[k] == rows.posts[k]);
            }
            proof {
                assert(rows.posts[i as int] == posts[i as int]@);
                if i > 0 {
                    assert(rows.posts[i - 1] == posts[i - 1]@);
                }
                assert(store@.users == rows.users);
            }
            if posts[i].id < 1 {
                return Err(Error::DatabaseErr);
            }
            if i > 0 && posts[i - 1].id >= posts[i].id {
                return Err(Error::DatabaseErr);
            }
            if store.user_position(posts[i].user_id).is_none() {
                return Err(Error::DatabaseErr);
            }
            proof {
                assert forall|a: int, b: int| 0 <= a < b < after.len() implies (#[trigger] after[a]).id < (
                #[trigger] after[b]).id by {
                    if b == i {
                        if a < i - 1 {
                            assert(before[a].id < before[i - 1].id);
                        }
                    } else {
                        assert(before[a].id < before[b].id);
                    }
                }
                assert forall|a: int| 0 <= a < after.len() implies (#[trigger] after[a]).id >= 1
                    && has_user(rows.users, after[a].user_id) by {
                    if a < i {
                        assert(before[a].id >= 1);
                        assert(has_user(rows.users, before[a].user_id));
                    }
                }
            }
            i += 1;
        }
        proof {
            assert(rows.posts.take(i as int) =~= rows.posts);
        }
        Ok(ContentStore { users: store.users, posts })
    }

    /// Lists the posts that the ids name, in the order of the ids, and leaves
    /// out every id that names no post.
    pub fn listing_of(&self, ids: &Vec<u32>) -> (r: Vec<PostDetails>)
        requires
            self.wf(),
        ensures
            details_view(r@) == live_listing(self@.posts, ids@),
    {
        let mut out: Vec<PostDetails> = Vec::new();
        let mut i: usize = 0;
        proof {
            assert(ids@.take(0) =~= Seq::<u32>::empty());
            assert(details_view(out@) =~= live_listing(self@.posts, ids@.take(0)));
        }
        while i < ids.len()
            invariant
                i <= ids.len(),
                self.wf(),
                details_view(out@) == live_listing(self@.posts, ids@.take(i as int)),
            decreases ids.len() - i,
        {
            let ghost shown = details_view(out@);
            proof {
                ids@.lemma_filter_map_take_succ(listing_entry(self@.posts), i as int);
            }
            match self.post_position(ids[i]) {
                Some(k) => {
                    let entry = PostDetails::of(&self.posts[k]);
                    out.push(entry);
                    proof {
                        crate::store_laws::post_id_names_one_row(self@.users, self@.posts, k as int);
                        assert(details_view(out@) =~= shown + seq![entry@]);
                    }
                },
                None => {
                    proof {
                        assert(shown + Seq::<PostDetailsView>::empty() =~= shown);
                    }
                },
            }
            i += 1;
        }
        proof {
            assert(ids@.take(i as int) =~= ids@);
        }
        out
    }
}

} // verus!
