//! What holds of the content store whatever it contains.

use vstd::prelude::*;

use crate::error::Error;
use crate::model::{details_of, PostDetailsView, PostView, RegisterInfo, UserView};
use crate::store::{
    email_taken, has_post, has_user, listed, listing_entry, live_listing, new_post_row,
    new_user_row, next_post_id, next_user_id, picture_for, post_by_id, posts_valid, publish,
    publish_outcome, recent_posts, register, register_outcome, shows, user_by_email, user_by_id,
    users_valid, with_image, StoreView,
};

verus! {

/// In a valid table an id names one user: looking up the id of a row finds that row.
pub proof fn user_id_names_one_row(users: Seq<UserView>, i: int)
    requires
        users_valid(users),
        0 <= i < users.len(),
    ensures
        user_by_id(users, users[i].user_id) == Some(users[i]),
{
    let id = users[i].user_id;
    assert(has_user(users, id));
    let k = choose|k: int| 0 <= k < users.len() && (#[trigger] users[k]).user_id == id;
    if k < i {
        assert(users[k].user_id < users[i].user_id);
    } else if i < k {
        assert(users[i].user_id < users[k].user_id);
    }
}

/// In a valid table an email names one user: looking up the email of a row finds that row.
pub proof fn email_names_one_row(users: Seq<UserView>, i: int)
    requires
        users_valid(users),
        0 <= i < users.len(),
    ensures
        user_by_email(users, users[i].email) == Some(users[i]),
{
    let email = users[i].email;
    assert(email_taken(users, email));
    let k = choose|k: int| 0 <= k < users.len() && (#[trigger] users[k]).email == email;
    if k < i {
        assert(users[k].email != users[i].email);
    } else if i < k {
        assert(users[i].email != users[k].email);
    }
}

/// In a valid table an id names one post: looking up the id of a row finds that row.
pub proof fn post_id_names_one_row(users: Seq<UserView>, posts: Seq<PostView>, i: int)
    requires
        posts_valid(users, posts),
        0 <= i < posts.len(),
    ensures
        post_by_id(posts, posts[i].id) == Some(posts[i]),
{
    let id = posts[i].id;
    assert(has_post(posts, id));
    let k = choose|k: int| 0 <= k < posts.len() && (#[trigger] posts[k]).id == id;
    if k < i {
        assert(posts[k].id < posts[i].id);
    } else if i < k {
        assert(posts[i].id < posts[k].id);
    }
}

/// Ids are never reused: the id that the next user gets is above every id in the table.
pub proof fn next_user_id_is_above_all(users: Seq<UserView>, i: int)
    requires
        users_valid(users),
        0 <= i < users.len(),
    ensures
        users[i].user_id < next_user_id(users),
{
    if i < users.len() - 1 {
        assert(users[i].user_id < users[users.len() - 1].user_id);
    }
}

/// Ids are never reused: the id that the next post gets is above every id in the table.
pub proof fn next_post_id_is_above_all(users: Seq<UserView>, posts: Seq<PostView>, i: int)
    requires
        posts_valid(users, posts),
        0 <= i < posts.len(),
    ensures
        posts[i].id < next_post_id(posts),
{
    if i < posts.len() - 1 {
        assert(posts[i].id < posts[posts.len() - 1].id);
    }
}

/// A registration, accepted or refused, leaves a valid store valid.
pub proof fn register_keeps_valid(s: StoreView, rinfo: RegisterInfo, hash: Seq<char>, created_at: i64)
    requires
        s.valid(),
    ensures
        register(s, rinfo, hash, created_at).valid(),
{
    let t = register(s, rinfo, hash, created_at);
    if let Ok(id) = register_outcome(s.users, rinfo) {
        assert forall|i: int, j: int| 0 <= i < j < t.users.len() implies (#[trigger] t.users[i]).user_id
            < (#[trigger] t.users[j]).user_id && t.users[i].email != t.users[j].email by {
            if j == s.users.len() {
                next_user_id_is_above_all(s.users, i);
                assert(s.users[i].email != rinfo.email@);
            }
        }
        assert forall|i: int| 0 <= i < t.posts.len() implies has_user(
            t.users,
            (#[trigger] t.posts[i]).user_id,
        ) by {
            let a = s.posts[i].user_id;
            let k = choose|k: int| 0 <= k < s.users.len() && (#[trigger] s.users[k]).user_id == a;
            assert(t.users[k].user_id == a);
        }
    }
}

/// After a registration is accepted, the user is found by the registered
/// email and by the new id, and the record holds the hash, the names and the
/// time that were handed in.
pub proof fn registered_user_is_found(
    s: StoreView,
    rinfo: RegisterInfo,
    hash: Seq<char>,
    created_at: i64,
)
    requires
        s.valid(),
        register_outcome(s.users, rinfo) is Ok,
    ensures
        ({
            let id = register_outcome(s.users, rinfo)->Ok_0;
            let t = register(s, rinfo, hash, created_at);
            let row = new_user_row(id, rinfo, hash, created_at, picture_for(rinfo)->Some_0);
            &&& user_by_email(t.users, rinfo.email@) == Some(row)
            &&& user_by_id(t.users, id) == Some(row)
            &&& row.hash == hash
            &&& row.email == rinfo.email@
        }),
{
    let t = register(s, rinfo, hash, created_at);
    register_keeps_valid(s, rinfo, hash, created_at);
    let last = t.users.len() - 1;
    user_id_names_one_row(t.users, last);
    email_names_one_row(t.users, last);
}

/// A registration leaves every user that was there before as it was.
pub proof fn register_keeps_users(
    s: StoreView,
    rinfo: RegisterInfo,
    hash: Seq<char>,
    created_at: i64,
    id: u32,
)
    requires
        s.valid(),
        has_user(s.users, id),
    ensures
        user_by_id(register(s, rinfo, hash, created_at).users, id) == user_by_id(s.users, id),
{
    let t = register(s, rinfo, hash, created_at);
    register_keeps_valid(s, rinfo, hash, created_at);
    let k = choose|k: int| 0 <= k < s.users.len() && (#[trigger] s.users[k]).user_id == id;
    user_id_names_one_row(s.users, k);
    assert(t.users[k] == s.users[k]);
    user_id_names_one_row(t.users, k);
}

/// Registering a second time with an email that was accepted before is
/// refused as a duplicate, and the refusal leaves no trace in the store.
pub proof fn second_registration_is_refused(
    s: StoreView,
    first: RegisterInfo,
    hash: Seq<char>,
    created_at: i64,
    second: RegisterInfo,
    second_hash: Seq<char>,
    second_created_at: i64,
)
    requires
        s.valid(),
        register_outcome(s.users, first) is Ok,
        second.email@ == first.email@,
    ensures
        ({
            let t = register(s, first, hash, created_at);
            &&& register_outcome(t.users, second) == Err::<u32, Error>(Error::UserAlreadyExists)
            &&& register(t, second, second_hash, second_created_at) == t
        }),
{
    let t = register(s, first, hash, created_at);
    assert(t.users[t.users.len() - 1].email == second.email@);
}

/// A registration is refused as a duplicate exactly when its email is in the store.
pub proof fn duplicate_means_email_taken(users: Seq<UserView>, rinfo: RegisterInfo)
    ensures
        register_outcome(users, rinfo) == Err::<u32, Error>(Error::UserAlreadyExists)
            <==> email_taken(users, rinfo.email@),
{
}

/// Registrations under different emails do not stand in each other's way:
/// one of them takes only its own email.
pub proof fn other_emails_stay_free(
    s: StoreView,
    first: RegisterInfo,
    hash: Seq<char>,
    created_at: i64,
    email: Seq<char>,
)
    requires
        email != first.email@,
    ensures
        email_taken(register(s, first, hash, created_at).users, email) == email_taken(
            s.users,
            email,
        ),
{
    let t = register(s, first, hash, created_at);
    if email_taken(s.users, email) {
        let k = choose|k: int| 0 <= k < s.users.len() && (#[trigger] s.users[k]).email == email;
        assert(t.users[k].email == email);
    }
    if email_taken(t.users, email) {
        let k = choose|k: int| 0 <= k < t.users.len() && (#[trigger] t.users[k]).email == email;
        assert(s.users[k].email == email);
    }
}

/// Publishing, accepted or refused, leaves a valid store valid.
pub proof fn publish_keeps_valid(s: StoreView, body: Seq<char>, author: u32, created_at: i64)
    requires
        s.valid(),
    ensures
        publish(s, body, author, created_at).valid(),
{
    let t = publish(s, body, author, created_at);
    if let Ok(id) = publish_outcome(s, author) {
        assert forall|i: int, j: int| 0 <= i < j < t.posts.len() implies (#[trigger] t.posts[i]).id < (
        #[trigger] t.posts[j]).id by {
            if j == s.posts.len() {
                next_post_id_is_above_all(s.users, s.posts, i);
            }
        }
    }
}

/// After publishing is accepted, the post is found by its new id, with the
/// body, author and time that were handed in and without an image.
pub proof fn published_post_is_found(s: StoreView, body: Seq<char>, author: u32, created_at: i64)
    requires
        s.valid(),
        publish_outcome(s, author) is Ok,
    ensures
        ({
            let id = publish_outcome(s, author)->Ok_0;
            let t = publish(s, body, author, created_at);
            post_by_id(t.posts, id) == Some(new_post_row(id, body, created_at, author))
        }),
{
    let t = publish(s, body, author, created_at);
    publish_keeps_valid(s, body, author, created_at);
    post_id_names_one_row(t.users, t.posts, t.posts.len() - 1);
}

/// Publishing leaves every post that was there before as it was.
pub proof fn publish_keeps_posts(
    s: StoreView,
    body: Seq<char>,
    author: u32,
    created_at: i64,
    id: u32,
)
    requires
        s.valid(),
        has_post(s.posts, id),
    ensures
        post_by_id(publish(s, body, author, created_at).posts, id) == post_by_id(s.posts, id),
{
    let t = publish(s, body, author, created_at);
    publish_keeps_valid(s, body, author, created_at);
    let k = choose|k: int| 0 <= k < s.posts.len() && (#[trigger] s.posts[k]).id == id;
    post_id_names_one_row(s.users, s.posts, k);
    assert(t.posts[k] == s.posts[k]);
    post_id_names_one_row(t.users, t.posts, k);
}

/// Setting an image leaves a valid table valid and changes no id, body,
/// author or time.
pub proof fn with_image_keeps_valid(users: Seq<UserView>, posts: Seq<PostView>, id: u32, data: Seq<u8>)
    requires
        posts_valid(users, posts),
    ensures
        posts_valid(users, with_image(posts, id, data)),
        with_image(posts, id, data).len() == posts.len(),
        forall|i: int|
            0 <= i < posts.len() ==> details_of(#[trigger] with_image(posts, id, data)[i])
                == details_of(posts[i]),
{
    let t = with_image(posts, id, data);
    assert forall|i: int| 0 <= i < t.len() implies has_user(users, (#[trigger] t[i]).user_id) by {
        assert(has_user(users, posts[i].user_id));
    }
}

/// After an image is set the post with that id holds it, and every other
/// post is as it was.
pub proof fn image_is_stored(
    users: Seq<UserView>,
    posts: Seq<PostView>,
    id: u32,
    data: Seq<u8>,
    other: u32,
)
    requires
        posts_valid(users, posts),
    ensures
        has_post(with_image(posts, id, data), other) == has_post(posts, other),
        has_post(posts, id) ==> post_by_id(with_image(posts, id, data), id)->Some_0.image == Some(
            data,
        ),
        other != id ==> post_by_id(with_image(posts, id, data), other) == post_by_id(posts, other),
{
    let t = with_image(posts, id, data);
    with_image_keeps_valid(users, posts, id, data);
    if has_post(posts, other) {
        let k = choose|k: int| 0 <= k < posts.len() && (#[trigger] posts[k]).id == other;
        assert(t[k].id == other);
        post_id_names_one_row(users, posts, k);
        post_id_names_one_row(users, t, k);
    }
    if has_post(t, other) {
        let k = choose|k: int| 0 <= k < t.len() && (#[trigger] t[k]).id == other;
        assert(posts[k].id == other);
    }
    if has_post(posts, id) {
        let k = choose|k: int| 0 <= k < posts.len() && (#[trigger] posts[k]).id == id;
        assert(t[k].id == id && t[k].image == Some(data));
        post_id_names_one_row(users, t, k);
    }
}

/// The posts that a filter shows are posts of the table, in the order of
/// the table: their ids grow from one to the next.
pub proof fn shown_posts_keep_order(users: Seq<UserView>, posts: Seq<PostView>, author: Option<u32>)
    requires
        posts_valid(users, posts),
    ensures
        forall|a: int, b: int|
            0 <= a < b < posts.filter(shows(author)).len() ==> (#[trigger] posts.filter(
                shows(author),
            )[a]).id < (#[trigger] posts.filter(shows(author))[b]).id,
        forall|a: int|
            0 <= a < posts.filter(shows(author)).len() ==> posts.contains(
                #[trigger] posts.filter(shows(author))[a],
            ) && listed(posts.filter(shows(author))[a], author),
    decreases posts.len(),
{
    let shown = posts.filter(shows(author));
    reveal(Seq::filter);
    if posts.len() > 0 {
        let rest = posts.drop_last();
        let kept = rest.filter(shows(author));
        assert(posts_valid(users, rest)) by {
            assert forall|a: int, b: int| 0 <= a < b < rest.len() implies (#[trigger] rest[a]).id < (
            #[trigger] rest[b]).id by {
                assert(rest[a] == posts[a] && rest[b] == posts[b]);
            }
            assert forall|a: int| 0 <= a < rest.len() implies (#[trigger] rest[a]).id >= 1
                && has_user(users, rest[a].user_id) by {
                assert(rest[a] == posts[a]);
            }
        }
        shown_posts_keep_order(users, rest, author);
        assert forall|a: int| 0 <= a < shown.len() implies posts.contains(#[trigger] shown[a])
            && listed(shown[a], author) by {
            if a < kept.len() {
                assert(shown[a] == kept[a]);
                let k = choose|k: int| 0 <= k < rest.len() && rest[k] == kept[a];
                assert(posts[k] == shown[a]);
            } else {
                assert(posts[posts.len() - 1] == shown[a]);
            }
        }
        assert forall|a: int, b: int| 0 <= a < b < shown.len() implies (#[trigger] shown[a]).id < (
        #[trigger] shown[b]).id by {
            assert(shown[a] == kept[a]);
            if b < kept.len() {
                assert(shown[b] == kept[b]);
            } else {
                let k = choose|k: int| 0 <= k < rest.len() && rest[k] == kept[a];
                assert(posts[k].id < posts[posts.len() - 1].id);
            }
        }
    }
}

/// A listing never holds more entries than were asked for, nor more than
/// there are posts.
pub proof fn recent_posts_within_limit(posts: Seq<PostView>, limit: nat, author: Option<u32>)
    ensures
        recent_posts(posts, limit, author).len() <= limit,
        recent_posts(posts, limit, author).len() <= posts.len(),
{
    posts.lemma_filter_len(shows(author));
}

/// Every entry of a listing is a post of the table that the filter shows.
pub proof fn recent_posts_come_from_table(
    users: Seq<UserView>,
    posts: Seq<PostView>,
    limit: nat,
    author: Option<u32>,
    k: int,
)
    requires
        posts_valid(users, posts),
        0 <= k < recent_posts(posts, limit, author).len(),
    ensures
        exists|i: int|
            0 <= i < posts.len() && listed(#[trigger] posts[i], author) && details_of(posts[i])
                == recent_posts(posts, limit, author)[k],
{
    let shown = posts.filter(shows(author));
    shown_posts_keep_order(users, posts, author);
    let entry = shown[shown.len() - 1 - k];
    assert(posts.contains(entry));
    let i = choose|i: int| 0 <= i < posts.len() && posts[i] == entry;
    assert(listed(posts[i], author));
}

/// A listing is ordered by id, newest first: each entry has a greater id than the next.
pub proof fn recent_posts_descend(
    users: Seq<UserView>,
    posts: Seq<PostView>,
    limit: nat,
    author: Option<u32>,
    k: int,
)
    requires
        posts_valid(users, posts),
        0 <= k,
        k + 1 < recent_posts(posts, limit, author).len(),
    ensures
        recent_posts(posts, limit, author)[k].id > recent_posts(posts, limit, author)[k + 1].id,
{
    let shown = posts.filter(shows(author));
    shown_posts_keep_order(users, posts, author);
    assert(shown[shown.len() - 1 - (k + 1)].id < shown[shown.len() - 1 - k].id);
}

/// A listing leaves out a post that the filter shows only when it is full,
/// and then every entry is newer than the post left out.
pub proof fn recent_posts_leave_out_only_older(
    users: Seq<UserView>,
    posts: Seq<PostView>,
    limit: nat,
    author: Option<u32>,
    i: int,
)
    requires
        posts_valid(users, posts),
        0 <= i < posts.len(),
        listed(posts[i], author),
    ensures
        recent_posts(posts, limit, author).contains(details_of(posts[i])) || (recent_posts(
            posts,
            limit,
            author,
        ).len() == limit && forall|k: int|
            0 <= k < limit ==> (#[trigger] recent_posts(posts, limit, author)[k]).id > posts[i].id),
{
    let shown = posts.filter(shows(author));
    let listing = recent_posts(posts, limit, author);
    shown_posts_keep_order(users, posts, author);
    posts.lemma_filter_contains(shows(author), i);
    let j = choose|j: int| 0 <= j < shown.len() && shown[j] == posts[i];
    if shown.len() - 1 - j < listing.len() {
        assert(listing[shown.len() - 1 - j] == details_of(posts[i]));
    } else {
        assert forall|k: int| 0 <= k < limit implies (#[trigger] listing[k]).id > posts[i].id by {
            assert(shown[j].id < shown[shown.len() - 1 - k].id);
        }
    }
}

/// No user has the id 0, so nothing is listed for it.
pub proof fn nothing_is_listed_for_nobody(s: StoreView, limit: nat)
    requires
        s.valid(),
    ensures
        recent_posts(s.posts, limit, Some(0u32)).len() == 0,
{
    let shown = s.posts.filter(shows(Some(0u32)));
    shown_posts_keep_order(s.users, s.posts, Some(0u32));
    if shown.len() > 0 {
        assert(s.posts.contains(shown[0]));
        let i = choose|i: int| 0 <= i < s.posts.len() && s.posts[i] == shown[0];
        assert(has_user(s.users, s.posts[i].user_id));
        let k = choose|k: int| 0 <= k < s.users.len() && (#[trigger] s.users[k]).user_id == 0u32;
        assert(s.users[k].user_id >= 1);
    }
}

/// A post just published heads every listing that its author's filter, or no
/// filter, asks for; a listing filtered by another author does not hold it.
pub proof fn published_post_is_listed(
    s: StoreView,
    body: Seq<char>,
    author: u32,
    created_at: i64,
    limit: nat,
    filter: Option<u32>,
)
    requires
        s.valid(),
        publish_outcome(s, author) is Ok,
        limit > 0,
    ensures
        ({
            let id = publish_outcome(s, author)->Ok_0;
            let t = publish(s, body, author, created_at);
            let row = new_post_row(id, body, created_at, author);
            let listing = recent_posts(t.posts, limit, filter);
            &&& listed(row, filter) ==> listing.len() > 0 && listing[0] == details_of(row)
            &&& !listed(row, filter) ==> forall|k: int|
                0 <= k < listing.len() ==> (#[trigger] listing[k]).id != id
        }),
{
    let id = publish_outcome(s, author)->Ok_0;
    let t = publish(s, body, author, created_at);
    let row = new_post_row(id, body, created_at, author);
    let listing = recent_posts(t.posts, limit, filter);
    publish_keeps_valid(s, body, author, created_at);
    s.posts.lemma_filter_push(row, shows(filter));
    if !listed(row, filter) {
        assert forall|k: int| 0 <= k < listing.len() implies (#[trigger] listing[k]).id != id by {
            recent_posts_come_from_table(t.users, t.posts, limit, filter, k);
            let i = choose|i: int|
                0 <= i < t.posts.len() && listed(#[trigger] t.posts[i], filter) && details_of(
                    t.posts[i],
                ) == listing[k];
            if i < t.posts.len() - 1 {
                assert(t.posts[i].id < t.posts[t.posts.len() - 1].id);
            }
        }
    }
}

/// A listing by ids never holds more entries than ids.
pub proof fn live_listing_is_short(posts: Seq<PostView>, ids: Seq<u32>)
    ensures
        live_listing(posts, ids).len() <= ids.len(),
    decreases ids.len(),
{
    if ids.len() > 0 {
        live_listing_is_short(posts, ids.drop_last());
    }
}

/// A listing by ids shows only posts of the table, each under an id that was
/// asked for.
pub proof fn live_listing_is_live(posts: Seq<PostView>, ids: Seq<u32>, k: int)
    requires
        0 <= k < live_listing(posts, ids).len(),
    ensures
        exists|i: int|
            0 <= i < posts.len() && details_of(#[trigger] posts[i]) == live_listing(posts, ids)[k]
                && ids.contains(posts[i].id),
    decreases ids.len(),
{
    let rest = live_listing(posts, ids.drop_last());
    if k < rest.len() {
        live_listing_is_live(posts, ids.drop_last(), k);
        let i = choose|i: int|
            0 <= i < posts.len() && details_of(#[trigger] posts[i]) == rest[k]
                && ids.drop_last().contains(posts[i].id);
        let j = choose|j: int| 0 <= j < ids.drop_last().len() && ids.drop_last()[j] == posts[i].id;
        assert(ids[j] == posts[i].id);
    } else {
        let id = ids.last();
        assert(listing_entry(posts)(id) is Some);
        let i = choose|i: int| 0 <= i < posts.len() && (#[trigger] posts[i]).id == id;
        assert(ids[ids.len() - 1] == posts[i].id);
    }
}

/// A listing by ids that hold no id twice shows no post twice, and never
/// more entries than ids.
pub proof fn live_listing_keeps_distinct(users: Seq<UserView>, posts: Seq<PostView>, ids: Seq<u32>)
    requires
        posts_valid(users, posts),
        ids.no_duplicates(),
    ensures
        live_listing(posts, ids).len() <= ids.len(),
        forall|k: int|
            0 <= k < live_listing(posts, ids).len() ==> ids.contains(
                (#[trigger] live_listing(posts, ids)[k]).id,
            ),
        forall|i: int, j: int|
            0 <= i < j < live_listing(posts, ids).len() ==> (#[trigger] live_listing(posts, ids)[i]).id
                != (#[trigger] live_listing(posts, ids)[j]).id,
    decreases ids.len(),
{
    let all = live_listing(posts, ids);
    if ids.len() > 0 {
        let front = ids.drop_last();
        let rest = live_listing(posts, front);
        assert(front.no_duplicates()) by {
            assert forall|i: int, j: int| 0 <= i < front.len() && 0 <= j < front.len() && i
                != j implies front[i] != front[j] by {
                assert(front[i] == ids[i] && front[j] == ids[j]);
            }
        }
        live_listing_keeps_distinct(users, posts, front);
        assert forall|k: int| 0 <= k < all.len() implies ids.contains((#[trigger] all[k]).id) by {
            if k < rest.len() {
                assert(all[k] == rest[k]);
                assert(front.contains(rest[k].id));
                let j = choose|j: int| 0 <= j < front.len() && front[j] == rest[k].id;
                assert(ids[j] == rest[k].id);
            } else {
                assert(listing_entry(posts)(ids.last()) is Some);
                assert(ids[ids.len() - 1] == all[k].id);
            }
        }
        assert forall|i: int, j: int| 0 <= i < j < all.len() implies (#[trigger] all[i]).id != (
        #[trigger] all[j]).id by {
            assert(all[i] == rest[i]);
            if j < rest.len() {
                assert(all[j] == rest[j]);
            } else {
                assert(listing_entry(posts)(ids.last()) is Some);
                assert(all[j].id == ids.last());
                assert(front.contains(rest[i].id));
                let a = choose|a: int| 0 <= a < front.len() && front[a] == rest[i].id;
                assert(ids[a] != ids[ids.len() - 1]);
            }
        }
    }
}

/// Asking for an id that names a post of the table lists that post.
pub proof fn live_listing_of_one(users: Seq<UserView>, posts: Seq<PostView>, i: int)
    requires
        posts_valid(users, posts),
        0 <= i < posts.len(),
    ensures
        live_listing(posts, seq![posts[i].id]) == seq![details_of(posts[i])],
{
    let ids = seq![posts[i].id];
    post_id_names_one_row(users, posts, i);
    assert(ids.drop_last() =~= Seq::<u32>::empty());
    assert(live_listing(posts, ids.drop_last()) =~= Seq::<PostDetailsView>::empty());
    assert(live_listing(posts, ids) =~= seq![details_of(posts[i])]);
}

} // verus!
