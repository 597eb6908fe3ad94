//! Posts and replies as they are shown: with their authors, their likes
//! and, for a post, its replies.

use crate::entities::{
    PostResponse, PostStatus, ProfileWithStatsResponse, ReplyResponse, ReplyStatus, StoreError,
};
use crate::handlers::shows_reply;
use crate::identity::{AuthenticationWithAddress, Principal};
use crate::ordered::{enumerates, kept, map_keys, select};
use crate::policy::{get_user_roles, is_admin, lists_roles};
use crate::queries::identity_of;
use crate::relation::{items_of, sources_of, Relation};
use crate::state::State;
use crate::store_model::{
    lemma_owner_exists, lemma_owner_in, lemma_target_exists, lemma_target_in, owner_in, owns,
    StoreModel,
};
use vstd::prelude::*;

verus! {

/// Whether `list` holds, for each like in `like_ids`, the like's id and
/// the identity of the profile that gave it, by like id, smallest first.
/// `likers` holds `(profile, like)`.
pub open spec fn lists_likes(
    m: StoreModel,
    list: Seq<(u64, AuthenticationWithAddress)>,
    like_ids: Set<u64>,
    likers: Set<(u64, u64)>,
) -> bool {
    &&& enumerates(list.map_values(|l: (u64, AuthenticationWithAddress)| l.0), like_ids)
    &&& forall|i: int|
        0 <= i < list.len() ==> (#[trigger] list[i]).1 == m.identity_of(owner_in(likers, list[i].0))
}

/// The likes on a target with the identities of their givers.
fn likes_on(
    state: &State,
    likes: &Relation,
    likers: &Relation,
    target: u64,
    Ghost(like_ids): Ghost<Set<u64>>,
    Ghost(targets): Ghost<Set<u64>>,
) -> (list: Vec<(u64, AuthenticationWithAddress)>)
    requires
        likes.wf(),
        likers.wf(),
        owns(likes@, targets, like_ids),
        owns(likers@, state@.profiles.dom(), like_ids),
    ensures
        lists_likes(state@, list@, items_of(likes@, target), likers@),
{
    let ids = likes.forward(target);
    let mut list: Vec<(u64, AuthenticationWithAddress)> = Vec::new();
    let mut i: usize = 0;
    while i < ids.len()
        invariant
            likers.wf(),
            i <= ids.len(),
            list@.len() == i,
            enumerates(ids@, items_of(likes@, target)),
            owns(likes@, targets, like_ids),
            owns(likers@, state@.profiles.dom(), like_ids),
            forall|j: int| 0 <= j < i ==> (#[trigger] list@[j]).0 == ids@[j],
            forall|j: int|
                0 <= j < i ==> (#[trigger] list@[j]).1 == state@.identity_of(
                    owner_in(likers@, ids@[j]),
                ),
        decreases ids.len() - i,
    {
        let like = ids[i];
        proof {
            assert(ids@.contains(like));
            assert(likes@.contains((target, like)));
            assert(like_ids.contains(like));
            lemma_owner_exists(likers@, state@.profiles.dom(), like_ids, like);
        }
        match likers.first_backward(like) {
            Some(giver) => {
                proof {
                    lemma_owner_in(likers@, state@.profiles.dom(), like_ids, giver, like);
                }
                list.push((like, identity_of(state, giver)));
            },
            None => unreached(),
        }
        i = i + 1;
    }
    proof {
        assert(list@.map_values(|l: (u64, AuthenticationWithAddress)| l.0) =~= ids@);
    }
    list
}

/// The likes on a post with the identities of their givers.
pub fn likes_on_post(state: &State, post_id: u64) -> (list: Vec<(u64, AuthenticationWithAddress)>)
    requires
        state.wf(),
    ensures
        lists_likes(state@, list@, items_of(state@.post_likes, post_id), state@.post_likers),
{
    likes_on(
        state,
        &state.relations.post_id_to_liked_post_id,
        &state.relations.profile_id_to_liked_post_id,
        post_id,
        Ghost(state@.liked_posts.dom()),
        Ghost(state@.posts.dom()),
    )
}

/// The likes on a reply with the identities of their givers.
pub fn likes_on_reply(state: &State, reply_id: u64) -> (list: Vec<(u64, AuthenticationWithAddress)>)
    requires
        state.wf(),
    ensures
        lists_likes(state@, list@, items_of(state@.reply_likes, reply_id), state@.reply_likers),
{
    likes_on(
        state,
        &state.relations.reply_id_to_liked_reply_id,
        &state.relations.profile_id_to_liked_reply_id,
        reply_id,
        Ghost(state@.liked_replies.dom()),
        Ghost(state@.replies.dom()),
    )
}

/// Whether `response` shows the reply with its author, and its likes where
/// `with_likes` says so and no likes where it does not.
pub open spec fn shows_stored_reply(m: StoreModel, response: ReplyResponse, with_likes: bool) -> bool {
    let id = response.reply_id;
    &&& m.replies.contains_key(id)
    &&& shows_reply(response, id, m.replies[id], m.identity_of(m.reply_author(id)), response.likes@)
    &&& if with_likes {
        lists_likes(m, response.likes@, items_of(m.reply_likes, id), m.reply_likers)
    } else {
        response.likes@.len() == 0
    }
}

/// Whether `response` shows the post with its author, its likes where
/// `with_likes` says so and no likes where it does not. Nothing is said of
/// the replies.
pub open spec fn shows_stored_post(m: StoreModel, response: PostResponse, with_likes: bool) -> bool {
    let id = response.post_id;
    &&& m.posts.contains_key(id)
    &&& response.title == m.posts[id].title
    &&& response.description == m.posts[id].description
    &&& response.timestamp == m.posts[id].timestamp
    &&& response.status == m.posts[id].status
    &&& response.authentication == m.identity_of(m.post_author(id))
    &&& if with_likes {
        lists_likes(m, response.likes@, items_of(m.post_likes, id), m.post_likers)
    } else {
        response.likes@.len() == 0
    }
}

/// The reply as it is shown.
pub(crate) fn reply_response(state: &State, reply_id: u64, with_likes: bool) -> (response: ReplyResponse)
    requires
        state.wf(),
        state@.replies.contains_key(reply_id),
    ensures
        response.reply_id == reply_id,
        shows_stored_reply(state@, response, with_likes),
{
    let ghost m = state@;
    proof {
        lemma_owner_exists(m.reply_authors, m.profiles.dom(), m.replies.dom(), reply_id);
    }
    let author = match state.relations.profile_id_to_reply_id.first_backward(reply_id) {
        Some(a) => a,
        None => unreached(),
    };
    proof {
        lemma_owner_in(m.reply_authors, m.profiles.dom(), m.replies.dom(), author, reply_id);
    }
    let authentication = identity_of(state, author);
    let likes = if with_likes {
        likes_on_reply(state, reply_id)
    } else {
        Vec::new()
    };
    match state.replies.get(&reply_id) {
        Some(reply) => ReplyResponse {
            text: reply.text.clone(),
            timestamp: reply.timestamp,
            authentication,
            reply_id,
            likes,
            status: reply.status,
        },
        None => unreached(),
    }
}

/// The post as it is shown, with the given replies.
pub(crate) fn post_response(
    state: &State,
    post_id: u64,
    with_likes: bool,
    replies: Vec<ReplyResponse>,
) -> (response: PostResponse)
    requires
        state.wf(),
        state@.posts.contains_key(post_id),
    ensures
        response.post_id == post_id,
        response.replies == replies,
        shows_stored_post(state@, response, with_likes),
{
    let ghost m = state@;
    proof {
        lemma_owner_exists(m.post_authors, m.profiles.dom(), m.posts.dom(), post_id);
    }
    let author = match state.relations.profile_id_to_post_id.first_backward(post_id) {
        Some(a) => a,
        None => unreached(),
    };
    proof {
        lemma_owner_in(m.post_authors, m.profiles.dom(), m.posts.dom(), author, post_id);
    }
    let authentication = identity_of(state, author);
    let likes = if with_likes {
        likes_on_post(state, post_id)
    } else {
        Vec::new()
    };
    match state.posts.get(&post_id) {
        Some(post) => PostResponse {
            title: post.title.clone(),
            post_id,
            description: post.description.clone(),
            authentication,
            likes,
            timestamp: post.timestamp,
            status: post.status,
            replies,
        },
        None => unreached(),
    }
}

/// The replies to a post that the caller may see: all of them for an
/// admin, the ones that are not hidden for anyone else.
pub open spec fn replies_shown(m: StoreModel, admin: bool, post_id: u64) -> Set<u64> {
    Set::new(
        |r: u64|
            m.reply_posts.contains((r, post_id)) && (admin || m.replies[r].status
                != ReplyStatus::Hidden),
    )
}

/// Whether `list` shows the replies in `set` with their likes, by reply
/// id, smallest first.
pub open spec fn lists_replies(m: StoreModel, list: Seq<ReplyResponse>, set: Set<u64>) -> bool {
    &&& enumerates(list.map_values(|r: ReplyResponse| r.reply_id), set)
    &&& forall|i: int| 0 <= i < list.len() ==> shows_stored_reply(m, #[trigger] list[i], true)
}

/// The replies to a post that the caller may see, with their likes.
fn replies_of_post(state: &State, admin: bool, post_id: u64) -> (list: Vec<ReplyResponse>)
    requires
        state.wf(),
    ensures
        lists_replies(state@, list@, replies_shown(state@, admin, post_id)),
{
    let ghost m = state@;
    let ids = state.relations.reply_id_to_post_id.backward(post_id);
    proof {
        assert forall|j: int| 0 <= j < ids@.len() implies m.replies.contains_key(ids@[j]) by {
            assert(ids@.contains(ids@[j]));
            assert(m.reply_posts.contains((ids@[j], post_id)));
        }
    }
    let mut keep: Vec<bool> = Vec::new();
    let mut i: usize = 0;
    while i < ids.len()
        invariant
            i <= ids.len(),
            keep@.len() == i,
            m == state@,
            forall|j: int| 0 <= j < ids@.len() ==> m.replies.contains_key(ids@[j]),
            forall|j: int|
                0 <= j < i ==> keep@[j] == (admin || m.replies[ids@[j]].status
                    != ReplyStatus::Hidden),
        decreases ids.len() - i,
    {
        let shown = match state.replies.get(&ids[i]) {
            Some(reply) => admin || reply.status != ReplyStatus::Hidden,
            None => false,
        };
        keep.push(shown);
        i = i + 1;
    }
    let shown = select(&ids, &keep);
    let ghost set = replies_shown(m, admin, post_id);
    proof {
        assert forall|r: u64| kept(ids@, keep@).contains(r) <==> set.contains(r) by {
            if kept(ids@, keep@).contains(r) {
                let j = choose|j: int| 0 <= j < ids@.len() && #[trigger] ids@[j] == r && keep@[j];
                assert(ids@.contains(r));
                assert(sources_of(m.reply_posts, post_id).contains(r));
            }
            if set.contains(r) {
                assert(sources_of(m.reply_posts, post_id).contains(r));
                assert(ids@.contains(r));
                let j = choose|j: int| 0 <= j < ids@.len() && ids@[j] == r;
                assert(ids@[j] == r && keep@[j]);
            }
        }
        assert(kept(ids@, keep@) =~= set);
    }
    let mut list: Vec<ReplyResponse> = Vec::new();
    let mut k: usize = 0;
    while k < shown.len()
        invariant
            state.wf(),
            m == state@,
            k <= shown.len(),
            list@.len() == k,
            enumerates(shown@, set),
            set == replies_shown(m, admin, post_id),
            forall|j: int| 0 <= j < k ==> (#[trigger] list@[j]).reply_id == shown@[j],
            forall|j: int| 0 <= j < k ==> shows_stored_reply(m, #[trigger] list@[j], true),
        decreases shown.len() - k,
    {
        proof {
            assert(shown@.contains(shown@[k as int]));
            assert(set.contains(shown@[k as int]));
            assert(m.reply_posts.contains((shown@[k as int], post_id)));
        }
        list.push(reply_response(state, shown[k], true));
        k = k + 1;
    }
    proof {
        assert(list@.map_values(|r: ReplyResponse| r.reply_id) =~= shown@);
    }
    list
}

/// Why the post `post_id` is not shown to `caller`, if it is not.
pub open spec fn get_post_error(m: StoreModel, caller: Principal, post_id: u64) -> Option<StoreError> {
    if !m.posts.contains_key(post_id) {
        Some(StoreError::PostNotFound)
    } else if !m.is_admin(caller) && m.posts[post_id].status == PostStatus::Hidden {
        Some(StoreError::Hidden)
    } else {
        None
    }
}

/// A post with its likes and with the replies that the caller may see.
pub fn get_post(state: &State, caller: Principal, post_id: u64) -> (r: Result<
    PostResponse,
    StoreError,
>)
    requires
        state.wf(),
    ensures
        match get_post_error(state@, caller, post_id) {
            Some(e) => r matches Err(err) && err == e,
            None => r matches Ok(response) && {
                &&& response.post_id == post_id
                &&& shows_stored_post(state@, response, true)
                &&& lists_replies(
                    state@,
                    response.replies@,
                    replies_shown(state@, state@.is_admin(caller), post_id),
                )
            },
        },
{
    let admin = is_admin(state, &caller);
    let hidden = match state.posts.get(&post_id) {
        Some(post) => post.status == PostStatus::Hidden,
        None => {
            return Err(StoreError::PostNotFound);
        },
    };
    if !admin && hidden {
        return Err(StoreError::Hidden);
    }
    let replies = replies_of_post(state, admin, post_id);
    Ok(post_response(state, post_id, true, replies))
}

/// The posts that are hidden.
pub open spec fn hidden_posts(m: StoreModel) -> Set<u64> {
    Set::new(|p: u64| m.posts.contains_key(p) && m.posts[p].status != PostStatus::Visible)
}

/// The replies that are hidden.
pub open spec fn hidden_replies(m: StoreModel) -> Set<u64> {
    Set::new(|r: u64| m.replies.contains_key(r) && m.replies[r].status != ReplyStatus::Visible)
}

/// Whether `list` shows the posts in `set`, without likes and replies, by
/// post id, smallest first.
pub open spec fn lists_bare_posts(m: StoreModel, list: Seq<PostResponse>, set: Set<u64>) -> bool {
    &&& enumerates(list.map_values(|r: PostResponse| r.post_id), set)
    &&& forall|i: int|
        0 <= i < list.len() ==> shows_stored_post(m, #[trigger] list[i], false)
            && list[i].replies@.len() == 0
}

/// Whether `list` shows the replies in `set`, each with the id of its
/// post and without likes, by reply id, smallest first.
pub open spec fn lists_bare_replies(m: StoreModel, list: Seq<(u64, ReplyResponse)>, set: Set<u64>) -> bool {
    &&& enumerates(list.map_values(|r: (u64, ReplyResponse)| r.1.reply_id), set)
    &&& forall|i: int|
        0 <= i < list.len() ==> shows_stored_reply(m, (#[trigger] list[i]).1, false) && list[i].0
            == m.post_of_reply(list[i].1.reply_id)
}

/// The posts that are hidden, for an admin.
pub fn get_hidden_posts(state: &State, caller: Principal) -> (r: Result<Vec<PostResponse>, StoreError>)
    requires
        state.wf(),
    ensures
        match r {
            Ok(list) => state@.is_admin(caller) && lists_bare_posts(
                state@,
                list@,
                hidden_posts(state@),
            ),
            Err(e) => !state@.is_admin(caller) && e == StoreError::Unauthorized,
        },
{
    if !is_admin(state, &caller) {
        return Err(StoreError::Unauthorized);
    }
    let ghost m = state@;
    let ids = map_keys(&state.posts);
    let mut keep: Vec<bool> = Vec::new();
    let mut i: usize = 0;
    while i < ids.len()
        invariant
            i <= ids.len(),
            keep@.len() == i,
            m == state@,
            enumerates(ids@, m.posts.dom()),
            forall|j: int| 0 <= j < i ==> keep@[j] == (m.posts[ids@[j]].status != PostStatus::Visible),
        decreases ids.len() - i,
    {
        assert(ids@.contains(ids@[i as int]));
        let hidden = match state.posts.get(&ids[i]) {
            Some(post) => post.status != PostStatus::Visible,
            None => false,
        };
        keep.push(hidden);
        i = i + 1;
    }
    let shown = select(&ids, &keep);
    let ghost set = hidden_posts(m);
    proof {
        assert forall|p: u64| kept(ids@, keep@).contains(p) <==> set.contains(p) by {
            if kept(ids@, keep@).contains(p) {
                let j = choose|j: int| 0 <= j < ids@.len() && #[trigger] ids@[j] == p && keep@[j];
                assert(ids@.contains(p));
            }
            if set.contains(p) {
                assert(ids@.contains(p));
                let j = choose|j: int| 0 <= j < ids@.len() && ids@[j] == p;
                assert(ids@[j] == p && keep@[j]);
            }
        }
        assert(kept(ids@, keep@) =~= set);
    }
    let mut list: Vec<PostResponse> = Vec::new();
    let mut k: usize = 0;
    while k < shown.len()
        invariant
            state.wf(),
            m == state@,
            k <= shown.len(),
            list@.len() == k,
            enumerates(shown@, set),
            set == hidden_posts(m),
            forall|j: int| 0 <= j < k ==> (#[trigger] list@[j]).post_id == shown@[j],
            forall|j: int|
                0 <= j < k ==> shows_stored_post(m, #[trigger] list@[j], false)
                    && list@[j].replies@.len() == 0,
        decreases shown.len() - k,
    {
        proof {
            assert(shown@.contains(shown@[k as int]));
            assert(set.contains(shown@[k as int]));
        }
        list.push(post_response(state, shown[k], false, Vec::new()));
        k = k + 1;
    }
    proof {
        assert(list@.map_values(|r: PostResponse| r.post_id) =~= shown@);
    }
    Ok(list)
}

/// The post that a reply answers.
pub(crate) fn post_of_reply(state: &State, reply_id: u64) -> (post_id: u64)
    requires
        state.wf(),
        state@.replies.contains_key(reply_id),
    ensures
        post_id == state@.post_of_reply(reply_id),
        state@.posts.contains_key(post_id),
{
    let ghost m = state@;
    proof {
        lemma_target_exists(m.reply_posts, m.replies.dom(), m.posts.dom(), reply_id);
    }
    match state.relations.reply_id_to_post_id.first_forward(reply_id) {
        Some(post_id) => {
            proof {
                lemma_target_in(m.reply_posts, m.replies.dom(), m.posts.dom(), reply_id, post_id);
            }
            post_id
        },
        None => unreached(),
    }
}

/// The replies that are hidden, for an admin.
pub fn get_hidden_replies(state: &State, caller: Principal) -> (r: Result<
    Vec<(u64, ReplyResponse)>,
    StoreError,
>)
    requires
        state.wf(),
    ensures
        match r {
            Ok(list) => state@.is_admin(caller) && lists_bare_replies(
                state@,
                list@,
                hidden_replies(state@),
            ),
            Err(e) => !state@.is_admin(caller) && e == StoreError::Unauthorized,
        },
{
    if !is_admin(state, &caller) {
        return Err(StoreError::Unauthorized);
    }
    let ghost m = state@;
    let ids = map_keys(&state.replies);
    let mut keep: Vec<bool> = Vec::new();
    let mut i: usize = 0;
    while i < ids.len()
        invariant
            i <= ids.len(),
            keep@.len() == i,
            m == state@,
            enumerates(ids@, m.replies.dom()),
            forall|j: int|
                0 <= j < i ==> keep@[j] == (m.replies[ids@[j]].status != ReplyStatus::Visible),
        decreases ids.len() - i,
    {
        assert(ids@.contains(ids@[i as int]));
        let hidden = match state.replies.get(&ids[i]) {
            Some(reply) => reply.status != ReplyStatus::Visible,
            None => false,
        };
        keep.push(hidden);
        i = i + 1;
    }
    let shown = select(&ids, &keep);
    let ghost set = hidden_replies(m);
    proof {
        assert forall|p: u64| kept(ids@, keep@).contains(p) <==> set.contains(p) by {
            if kept(ids@, keep@).contains(p) {
                let j = choose|j: int| 0 <= j < ids@.len() && #[trigger] ids@[j] == p && keep@[j];
                assert(ids@.contains(p));
            }
            if set.contains(p) {
                assert(ids@.contains(p));
                let j = choose|j: int| 0 <= j < ids@.len() && ids@[j] == p;
                assert(ids@[j] == p && keep@[j]);
            }
        }
        assert(kept(ids@, keep@) =~= set);
    }
    let mut list: Vec<(u64, ReplyResponse)> = Vec::new();
    let mut k: usize = 0;
    while k < shown.len()
        invariant
            state.wf(),
            m == state@,
            k <= shown.len(),
            list@.len() == k,
            enumerates(shown@, set),
            set == hidden_replies(m),
            forall|j: int| 0 <= j < k ==> (#[trigger] list@[j]).1.reply_id == shown@[j],
            forall|j: int|
                0 <= j < k ==> shows_stored_reply(m, (#[trigger] list@[j]).1, false) && list@[j].0
                    == m.post_of_reply(list@[j].1.reply_id),
        decreases shown.len() - k,
    {
        proof {
            assert(shown@.contains(shown@[k as int]));
            assert(set.contains(shown@[k as int]));
        }
        let post_id = post_of_reply(state, shown[k]);
        list.push((post_id, reply_response(state, shown[k], false)));
        k = k + 1;
    }
    proof {
        assert(list@.map_values(|r: (u64, ReplyResponse)| r.1.reply_id) =~= shown@);
    }
    Ok(list)
}

/// The sum of two counts, or the largest count where the sum is larger.
pub open spec fn capped_sum(a: u64, b: u64) -> u64 {
    if a + b > u64::MAX {
        u64::MAX
    } else {
        (a + b) as u64
    }
}

/// Whether `response` shows the profile with its roles and its counts of
/// posts, replies and likes given.
pub open spec fn shows_profile_stats(
    state: &State,
    profile_id: u64,
    response: ProfileWithStatsResponse,
) -> bool {
    let m = state@;
    let profile = m.profiles[profile_id];
    &&& response.name == profile.name
    &&& response.description == profile.description
    &&& response.authentication == profile.authentication
    &&& response.active_principal == profile.active_principal
    &&& response.last_login == profile.last_login
    &&& response.join_date == profile.timestamp
    &&& response.total_posts == items_of(m.post_authors, profile_id).len() as u64
    &&& response.total_replies == items_of(m.reply_authors, profile_id).len() as u64
    &&& response.total_likes == capped_sum(
        items_of(m.post_likers, profile_id).len() as u64,
        items_of(m.reply_likers, profile_id).len() as u64,
    )
    &&& m.caller_profile(profile.active_principal) matches Some(acting) && lists_roles(
        state,
        acting,
        response.roles@,
    )
}

/// The profile of a verified identity with its roles and counts; `None`
/// when the identity has no profile, or when the principal that the
/// profile acts through is not known to the store.
pub fn get_profile_by_auth(state: &State, authentication: &AuthenticationWithAddress) -> (r: Option<
    ProfileWithStatsResponse,
>)
    requires
        state.wf(),
    ensures
        match r {
            Some(response) => state@.identities.contains_key(authentication@)
                && shows_profile_stats(state, state@.identities[authentication@], response),
            None => !state@.identities.contains_key(authentication@) || state@.caller_profile(
                state@.profiles[state@.identities[authentication@]].active_principal,
            ) is None,
        },
{
    let profile_id = match state.indexes.profile.get(authentication) {
        Some(id) => id,
        None => {
            return None;
        },
    };
    let profile = match state.profiles.get(&profile_id) {
        Some(p) => p,
        None => unreached(),
    };
    let roles = match get_user_roles(state, &profile.active_principal) {
        Some(roles) => roles,
        None => {
            return None;
        },
    };
    let total_posts = state.relations.profile_id_to_post_id.forward_len(profile_id) as u64;
    let total_replies = state.relations.profile_id_to_reply_id.forward_len(profile_id) as u64;
    let posts_likes = state.relations.profile_id_to_liked_post_id.forward_len(profile_id) as u64;
    let replies_likes = state.relations.profile_id_to_liked_reply_id.forward_len(profile_id) as u64;
    let total_likes = if posts_likes <= u64::MAX - replies_likes {
        posts_likes + replies_likes
    } else {
        u64::MAX
    };
    Some(
        ProfileWithStatsResponse {
            name: profile.name.clone(),
            description: profile.description.clone(),
            authentication: profile.authentication.clone(),
            active_principal: profile.active_principal,
            roles,
            last_login: profile.last_login,
            join_date: profile.timestamp,
            total_posts,
            total_replies,
            total_likes,
        },
    )
}

} // verus!
