//! The operations of the service: each ties the content store, the search
//! index and the session gate together as one step.

use vstd::prelude::*;

use crate::error::Error;
use crate::image_ingest::{
    decoded, ingest, normalized, ratio_kept, stored_size, within_cap, MAX_SIDE,
};
use crate::model::{
    info_of, LoginInfo, Post, PostCreationResponse, PostDetails, PostInfo, RegisterInfo, User,
    UserInfo, UserInfoView,
};
use crate::search::{
    all_indexable, entries_of, entry_of, indexable_time, query_parses, visible, SearchEntry,
    SearchIndex,
};
use crate::session::{identity, token_user_id, SessionGate};
use crate::store::{
    details_view, live_listing, new_post_row, publish, publish_outcome, register,
    register_outcome, tables_view, user_by_email, user_by_id, with_image, ContentStore,
    StoreView,
};
use crate::store_laws::live_listing_keeps_distinct;
use crate::store_laws::registered_user_is_found;
use crate::vault::{accept_hash, hash_outcome};

verus! {

/// The most results a search returns.
pub const SEARCH_LIMIT: usize = 10;

/// Who a request comes from.
#[derive(Debug, PartialEq, Eq)]
pub enum Identity {
    /// No token, or one that identifies nobody.
    Anonymous,
    /// The token identifies this user.
    Known(User),
    /// The token names a user, but loading the user failed.
    Failed(Error),
}

/// One service: its content store, its search index and its session gate.
pub struct Backend {
    store: ContentStore,
    index: SearchIndex,
    gate: SessionGate,
}

impl Backend {
    /// The users and posts of the service.
    pub closed spec fn content(&self) -> StoreView {
        self.store@
    }

    /// The server secret.
    pub closed spec fn secret(&self) -> Seq<u8> {
        self.gate.secret()
    }

    /// The search index of the service.
    pub closed spec fn search_index(&self) -> SearchIndex {
        self.index
    }

    /// Whether the search index is in order.
    pub open spec fn searchable(&self) -> bool {
        self.search_index().healthy()
    }

    /// The entries that the search index holds.
    pub open spec fn index_entries(&self) -> Seq<SearchEntry> {
        self.search_index().entries()
    }

    /// The tables obey their rules, and a search index that is in order
    /// holds and shows one entry for each post of the store and no other.
    /// Every service that this module hands out is so, and its methods keep
    /// it so.
    pub open spec fn wf(&self) -> bool {
        &&& self.content().valid()
        &&& self.search_index().wf()
        &&& self.searchable() ==> self.index_entries() == entries_of(self.content().posts)
    }

    /// A service without users or posts.
    pub fn new(gate: SessionGate) -> (r: Result<Backend, Error>)
        ensures
            match r {
                Ok(b) => b.wf() && b.content().users.len() == 0 && b.content().posts.len() == 0
                    && b.searchable() && b.secret() == gate.secret(),
                Err(e) => e == Error::SearchErr,
            },
    {
        match SearchIndex::new() {
            Ok(index) => {
                let store = ContentStore::new();
                proof {
                    assert(index.entries() =~= entries_of(store@.posts));
                }
                Ok(Backend { store, index, gate })
            },
            Err(e) => Err(e),
        }
    }

    /// A service over rows that were kept elsewhere, with an index built from
    /// the posts. Rows that break the rules of the tables are refused.
    pub fn restore(gate: SessionGate, users: Vec<User>, posts: Vec<Post>) -> (r: Result<
        Backend,
        Error,
    >)
        ensures
            r is Err && r->Err_0 == Error::DatabaseErr <==> !tables_view(users@, posts@).valid(),
            !all_indexable(tables_view(users@, posts@).posts) ==> r is Err,
            match r {
                Ok(b) => b.wf() && b.content() == tables_view(users@, posts@) && b.searchable()
                    && b.secret() == gate.secret(),
                Err(e) => e == Error::DatabaseErr || e == Error::SearchErr,
            },
    {
        let store = match ContentStore::restore(users, posts) {
            Ok(s) => s,
            Err(e) => { return Err(e); },
        };
        let mut index = match SearchIndex::new() {
            Ok(i) => i,
            Err(e) => { return Err(e); },
        };
        match index.reindex_all(store.posts()) {
            Ok(()) => Ok(Backend { store, index, gate }),
            Err(e) => Err(e),
        }
    }

    /// The content store, for reading.
    pub fn store(&self) -> (r: &ContentStore)
        ensures
            r@ == self.content(),
    {
        &self.store
    }

    /// The session gate.
    pub fn gate(&self) -> (r: &SessionGate)
        ensures
            r.secret() == self.secret(),
    {
        &self.gate
    }

    /// Rebuilds the search index from the content store.
    pub fn repair(&mut self) -> (r: Result<(), Error>)
        requires
            old(self).wf(),
        ensures
            final(self).wf(),
            final(self).content() == old(self).content(),
            final(self).secret() == old(self).secret(),
            r is Ok ==> final(self).searchable(),
            r is Err ==> r->Err_0 == Error::SearchErr,
            r is Err ==> final(self).searchable() == old(self).searchable(),
    {
        self.index.reindex_all(self.store.posts())
    }

    /// Who a request with this token comes from.
    ///
    /// Without a token, or with one that identifies nobody, the request is
    /// anonymous; that is no failure. A token for a user that the store does
    /// not hold is one.
    pub fn identify(&self, token: Option<&str>) -> (r: Identity)
        requires
            self.wf(),
        ensures
            match identity(self.secret(), token) {
                None => r is Anonymous,
                Some(id) => match user_by_id(self.content().users, id) {
                    Some(u) => r is Known && r->Known_0@ == u,
                    None => r is Failed && r->Failed_0 == Error::NotFound,
                },
            },
    {
        match self.gate.resolve(token) {
            None => Identity::Anonymous,
            Some(id) => match self.store.load_user_by_id(id) {
                Ok(user) => Identity::Known(user),
                Err(e) => Identity::Failed(e),
            },
        }
    }

    /// The hash that a login under this email has to be checked against, if
    /// a user has the email.
    pub fn credential_for(&self, email: &str) -> (r: Option<String>)
        requires
            self.wf(),
        ensures
            match user_by_email(self.content().users, email@) {
                Some(u) => r is Some && r->Some_0@ == u.hash,
                None => r is None,
            },
    {
        match self.store.load_user_by_email(email) {
            Ok(user) => Some(user.hash),
            Err(_) => None,
        }
    }

    /// Registers a user with the hash that the hasher derived from the
    /// password (`None` where it failed), and logs the user in: the result
    /// holds the user's public part and a session token.
    ///
    /// A hash that is the password itself is refused like a failure of the
    /// hasher: the record of a user never holds the raw password.
    pub fn signup(&mut self, rinfo: &RegisterInfo, derived: Option<String>, now: i64) -> (r: Result<
        (UserInfo, String),
        Error,
    >)
        requires
            old(self).wf(),
        ensures
            final(self).wf(),
            final(self).secret() == old(self).secret(),
            final(self).search_index() == old(self).search_index(),
            match hash_outcome(derived, rinfo.password@) {
                Err(e) => r is Err && r->Err_0 == e && final(self).content() == old(self).content(),
                Ok(hash) => final(self).content() == register(old(self).content(), *rinfo, hash, now)
                    && match register_outcome(old(self).content().users, *rinfo) {
                    Ok(id) => r is Ok && r->Ok_0.0@ == (UserInfoView {
                        user_id: id,
                        display_name: rinfo.display_name@,
                        real_name: rinfo.real_name@,
                    }) && token_user_id(old(self).secret(), r->Ok_0.1@) == Some(id),
                    Err(e) => r is Err && r->Err_0 == e,
                },
            },
            r is Ok ==> user_by_email(final(self).content().users, rinfo.email@) is Some
                && user_by_email(final(self).content().users, rinfo.email@)->Some_0.hash
                == derived->Some_0@ && derived->Some_0@ != rinfo.password@,
    {
        let hash = match accept_hash(derived, &rinfo.password) {
            Ok(h) => h,
            Err(e) => { return Err(e); },
        };
        let ghost before = self.store@;
        let ghost kept = hash@;
        let id = match self.store.create_user(rinfo, hash, now) {
            Ok(id) => id,
            Err(e) => { return Err(e); },
        };
        proof {
            registered_user_is_found(before, *rinfo, kept, now);
        }
        let info = UserInfo {
            user_id: id,
            display_name: rinfo.display_name.clone(),
            real_name: rinfo.real_name.clone(),
        };
        let token = self.gate.issue(id);
        Ok((info, token))
    }

    /// Logs a user in, given the hasher's verdict on the password against
    /// [`Backend::credential_for`] the email: `None` where the hash could not
    /// be checked or there was none to check.
    ///
    /// An unknown email and a wrong password fail alike.
    pub fn login(&self, login_info: &LoginInfo, verdict: Option<bool>) -> (r: Result<
        (UserInfo, String),
        Error,
    >)
        requires
            self.wf(),
        ensures
            match user_by_email(self.content().users, login_info.email@) {
                None => r is Err && r->Err_0 == Error::LoginFailed,
                Some(u) => match verdict {
                    Some(true) => r is Ok && r->Ok_0.0@ == info_of(u) && token_user_id(
                        self.secret(),
                        r->Ok_0.1@,
                    ) == Some(u.user_id),
                    Some(false) => r is Err && r->Err_0 == Error::LoginFailed,
                    None => r is Err && r->Err_0 == Error::HashError,
                },
            },
    {
        let user = match self.store.load_user_by_email(login_info.email.as_str()) {
            Ok(u) => u,
            Err(_) => { return Err(Error::LoginFailed); },
        };
        match user.auth(login_info, verdict) {
            Ok(true) => {
                let token = self.gate.issue(user.user_id);
                let info = UserInfo {
                    user_id: user.user_id,
                    display_name: user.display_name,
                    real_name: user.real_name,
                };
                Ok((info, token))
            },
            Ok(false) => Err(Error::LoginFailed),
            Err(e) => Err(e),
        }
    }

    /// Publishes a post by the user `user_id` and makes it searchable.
    ///
    /// An index that is out of order is rebuilt first. Then the entry goes
    /// into the index, and the row into the store only when the entry is
    /// searchable: on success both exist, on failure the store is as it was.
    pub fn create_post(&mut self, user_id: u32, post_info: &PostInfo, now: i64) -> (r: Result<
        PostCreationResponse,
        Error,
    >)
        requires
            old(self).wf(),
        ensures
            final(self).wf(),
            final(self).secret() == old(self).secret(),
            r is Err ==> final(self).content() == old(self).content(),
            r is Ok ==> final(self).searchable(),
            r is Ok ==> final(self).content() == publish(
                old(self).content(),
                post_info.body@,
                user_id,
                now,
            ),
            match publish_outcome(old(self).content(), user_id) {
                Err(e) => r is Err && r->Err_0 == e,
                Ok(id) => match r {
                    Ok(created) => created.post_id == id,
                    Err(e) => e == Error::SearchErr,
                },
            },
            publish_outcome(old(self).content(), user_id) is Err ==> final(self).searchable()
                == old(self).searchable(),
            !indexable_time(now) ==> r is Err,
    {
        let id = match self.store.can_publish(user_id) {
            Ok(id) => id,
            Err(e) => { return Err(e); },
        };
        if !self.index.is_healthy() {
            match self.index.reindex_all(self.store.posts()) {
                Ok(()) => {},
                Err(e) => { return Err(e); },
            }
        }
        match self.index.index_post(id, post_info.body.as_str(), user_id, now) {
            Ok(()) => {},
            Err(e) => { return Err(e); },
        }
        let ghost before = self.store@.posts;
        let ghost row = new_post_row(id, post_info.body@, now, user_id);
        proof {
            assert(entries_of(before.push(row)) =~= entries_of(before).push(entry_of(row)));
        }
        match self.store.create_post(post_info.body.as_str(), user_id, now) {
            Ok(post_id) => Ok(PostCreationResponse { post_id }),
            Err(e) => Err(e),
        }
    }

    /// Searches the post bodies and lists the best matches, best first: at
    /// most [`SEARCH_LIMIT`] of them, and no post twice.
    ///
    /// The index names the matches, ranked, and the store lists them: an
    /// entry of the index without a post in the store is never shown. A
    /// query that does not parse is refused as such, whatever the state of
    /// the index.
    pub fn search_posts(&self, query_string: &str) -> (r: Result<Vec<PostDetails>, Error>)
        requires
            self.wf(),
        ensures
            match self.search_index().search_outcome(query_string@, SEARCH_LIMIT as nat) {
                Ok(ids) => r is Ok && details_view(r->Ok_0@) == live_listing(
                    self.content().posts,
                    ids,
                ),
                Err(e) => r is Err && r->Err_0 == e,
            },
            !query_parses(query_string@) ==> r is Err && r->Err_0 == Error::QueryParseErr,
            query_parses(query_string@) && !self.searchable() ==> r is Err && r->Err_0
                == Error::SearchErr,
            r is Err ==> r->Err_0 == Error::QueryParseErr || r->Err_0 == Error::SearchErr,
            r is Ok ==> r->Ok_0@.len() <= SEARCH_LIMIT,
            r is Ok ==> forall|i: int, j: int|
                0 <= i < j < r->Ok_0@.len() ==> (#[trigger] r->Ok_0@[i]).id != (#[trigger] r->Ok_0@[j]).id,
    {
        match self.index.search(query_string, SEARCH_LIMIT) {
            Ok(ids) => {
                let listing = self.store.listing_of(&ids);
                proof {
                    live_listing_keeps_distinct(self.store@.users, self.store@.posts, ids@);
                    assert forall|i: int, j: int| 0 <= i < j < listing@.len() implies (
                    #[trigger] listing@[i]).id != (#[trigger] listing@[j]).id by {
                        assert(details_view(listing@)[i] == listing@[i]@);
                        assert(details_view(listing@)[j] == listing@[j]@);
                    }
                }
                Ok(listing)
            },
            Err(e) => Err(e),
        }
    }

    /// Sets the image of a post from uploaded bytes, which are normalized
    /// first. An upload that is refused changes nothing; neither does an
    /// upload for a post that the store does not hold.
    pub fn set_post_image(&mut self, post_id: u32, raw: &[u8]) -> (r: Result<(), Error>)
        requires
            old(self).wf(),
        ensures
            final(self).wf(),
            final(self).secret() == old(self).secret(),
            final(self).searchable() == old(self).searchable(),
            final(self).content().users == old(self).content().users,
            r is Ok <==> within_cap(raw@.len()) && decoded(raw@) is Some,
            r is Ok ==> 1 <= stored_size(raw@).0 <= MAX_SIDE && 1 <= stored_size(raw@).1
                <= MAX_SIDE,
            r is Ok ==> ratio_kept(raw@),
            match normalized(raw@) {
                Some(data) => r is Ok && final(self).content().posts == with_image(
                    old(self).content().posts,
                    post_id,
                    data,
                ),
                None => r == Err::<(), Error>(Error::ImageUploadFailed) && final(self).content()
                    == old(self).content(),
            },
    {
        let data = match ingest(raw) {
            Ok(d) => d,
            Err(e) => { return Err(e); },
        };
        proof {
            assert(entries_of(with_image(self.store@.posts, post_id, data@)) =~= entries_of(
                self.store@.posts,
            ));
        }
        self.store.set_post_image(post_id, data.as_slice())
    }
}

/// In a service whose index is in order, every post has its entry in the
/// index, at the place that the post has in its table, and the index holds
/// nothing else: no post is missing, none is entered twice, and no entry is
/// left over from a post that the store does not hold. What searches go
/// through is just these entries.
pub proof fn index_follows_store(service: Backend, i: int)
    requires
        service.wf(),
        service.searchable(),
        0 <= i < service.content().posts.len(),
    ensures
        visible(service.search_index().engine()) == service.index_entries(),
        service.index_entries().len() == service.content().posts.len(),
        service.index_entries()[i].post_id == service.content().posts[i].id,
        service.index_entries()[i].body == service.content().posts[i].body,
        service.index_entries()[i].author_id == service.content().posts[i].user_id,
        service.index_entries()[i].created_at == service.content().posts[i].created_at,
{
}

} // verus!
