//! What the store answers without changing.

use crate::entities::{Metadata, PostStatus, PostSummary, ProfileResponse, ReplyStatus, StoreError};

use crate::identity::{get_authentication_with_address, AuthenticationWithAddress, Principal};
use crate::ordered::{enumerates, kept, lemma_max_of, map_keys, max_of, select};
use crate::policy::{get_user_roles, is_admin, lists_roles, profile_of};
use crate::relation::{sources_of, Relation};
use crate::state::State;
use crate::store_model::{lemma_owner_exists, lemma_owner_in, owner_in, owns, StoreModel};
use vstd::prelude::*;

verus! {

/// The replies to a post that are not hidden.
pub open spec fn visible_replies(m: StoreModel, post_id: u64) -> Set<u64> {
    Set::new(
        |r: u64| m.reply_posts.contains((r, post_id)) && m.replies[r].status == ReplyStatus::Visible,
    )
}

/// Whether a reply to the post was written at `time`.
pub open spec fn replied_at(m: StoreModel, post_id: u64, time: u64) -> bool {
    exists|r: u64| #[trigger] m.reply_posts.contains((r, post_id)) && m.replies[r].timestamp == time
}

/// The times at which the replies to a post were written.
pub open spec fn reply_times(m: StoreModel, post_id: u64) -> Set<u64> {
    Set::new(|time: u64| replied_at(m, post_id, time))
}

/// When the newest reply to a post was written: the largest of the times
/// of its replies, hidden or not; 0 for a post without replies.
pub open spec fn last_activity(m: StoreModel, post_id: u64) -> u64 {
    if forall|r: u64| !m.reply_posts.contains((r, post_id)) {
        0
    } else {
        max_of(reply_times(m, post_id))
    }
}

/// The summary of a post.
pub open spec fn summary_of(m: StoreModel, post_id: u64) -> PostSummary {
    PostSummary {
        post_id,
        title: m.posts[post_id].title,
        description: m.posts[post_id].description,
        timestamp: m.posts[post_id].timestamp,
        authentication: m.identity_of(m.post_author(post_id)),
        replies_count: visible_replies(m, post_id).len() as u64,
        last_activity: last_activity(m, post_id),
        status: m.posts[post_id].status,
    }
}

/// Whether `list` holds the summaries of the posts in `set`, by post id,
/// smallest first.
pub open spec fn lists_summaries(m: StoreModel, list: Seq<PostSummary>, set: Set<u64>) -> bool {
    &&& enumerates(list.map_values(|s: PostSummary| s.post_id), set)
    &&& forall|i: int| 0 <= i < list.len() ==> list[i] == summary_of(m, (#[trigger] list[i]).post_id)
}

/// The verified identity of a profile.
pub(crate) fn identity_of(state: &State, profile_id: u64) -> (r: AuthenticationWithAddress)
    requires
        state@.profiles.contains_key(profile_id),
    ensures
        r == state@.identity_of(profile_id),
{
    match state.profiles.get(&profile_id) {
        Some(profile) => get_authentication_with_address(
            &profile.authentication,
            &profile.active_principal,
        ),
        None => unreached(),
    }
}

/// The identity of the one owner that `relation` gives to `item`.
fn owner_identity(state: &State, relation: &Relation, item: u64, Ghost(items): Ghost<Set<u64>>) -> (r:
    AuthenticationWithAddress)
    requires
        state.wf(),
        relation.wf(),
        owns(relation@, state@.profiles.dom(), items),
        items.contains(item),
    ensures
        r == state@.identity_of(owner_in(relation@, item)),
{
    proof {
        lemma_owner_exists(relation@, state@.profiles.dom(), items, item);
    }
    match relation.first_backward(item) {
        Some(owner) => {
            proof {
                lemma_owner_in(relation@, state@.profiles.dom(), items, owner, item);
            }
            identity_of(state, owner)
        },
        None => unreached(),
    }
}

/// For each of the given replies, whether it is not hidden.
fn visible_flags(state: &State, reply_ids: &Vec<u64>) -> (keep: Vec<bool>)
    requires
        forall|j: int| 0 <= j < reply_ids@.len() ==> state@.replies.contains_key(reply_ids@[j]),
    ensures
        keep@.len() == reply_ids@.len(),
        forall|j: int|
            0 <= j < keep@.len() ==> keep@[j] == (state@.replies[reply_ids@[j]].status
                == ReplyStatus::Visible),
{
    let mut keep: Vec<bool> = Vec::new();
    let mut i: usize = 0;
    while i < reply_ids.len()
        invariant
            i <= reply_ids.len(),
            keep@.len() == i,
            forall|j: int| 0 <= j < reply_ids@.len() ==> state@.replies.contains_key(reply_ids@[j]),
            forall|j: int|
                0 <= j < i ==> keep@[j] == (state@.replies[reply_ids@[j]].status
                    == ReplyStatus::Visible),
        decreases reply_ids.len() - i,
    {
        let shown = match state.replies.get(&reply_ids[i]) {
            Some(reply) => reply.status == ReplyStatus::Visible,
            None => false,
        };
        keep.push(shown);
        i = i + 1;
    }
    keep
}

/// The ids of the replies to a post, smallest first.
fn replies_to(state: &State, post_id: u64) -> (reply_ids: Vec<u64>)
    requires
        state.wf(),
    ensures
        enumerates(reply_ids@, sources_of(state@.reply_posts, post_id)),
        forall|j: int| 0 <= j < reply_ids@.len() ==> state@.replies.contains_key(reply_ids@[j]),
{
    let reply_ids = state.relations.reply_id_to_post_id.backward(post_id);
    proof {
        assert forall|j: int| 0 <= j < reply_ids@.len() implies state@.replies.contains_key(
            reply_ids@[j],
        ) by {
            assert(reply_ids@.contains(reply_ids@[j]));
            assert(state@.reply_posts.contains((reply_ids@[j], post_id)));
        }
    }
    reply_ids
}

/// How many replies to a post are not hidden.
fn count_visible_replies(state: &State, post_id: u64, reply_ids: &Vec<u64>) -> (n: u64)
    requires
        enumerates(reply_ids@, sources_of(state@.reply_posts, post_id)),
        forall|j: int| 0 <= j < reply_ids@.len() ==> state@.replies.contains_key(reply_ids@[j]),
    ensures
        n == visible_replies(state@, post_id).len() as u64,
{
    let ghost m = state@;
    let keep = visible_flags(state, reply_ids);
    let shown = select(reply_ids, &keep);
    proof {
        assert forall|r: u64| kept(reply_ids@, keep@).contains(r) <==> visible_replies(
            m,
            post_id,
        ).contains(r) by {
            if kept(reply_ids@, keep@).contains(r) {
                let j = choose|j: int|
                    0 <= j < reply_ids@.len() && #[trigger] reply_ids@[j] == r && keep@[j];
                assert(reply_ids@.contains(r));
                assert(sources_of(m.reply_posts, post_id).contains(r));
            }
            if visible_replies(m, post_id).contains(r) {
                assert(sources_of(m.reply_posts, post_id).contains(r));
                assert(reply_ids@.contains(r));
                let j = choose|j: int| 0 <= j < reply_ids@.len() && reply_ids@[j] == r;
                assert(reply_ids@[j] == r && keep@[j]);
            }
        }
        assert(kept(reply_ids@, keep@) =~= visible_replies(m, post_id));
    }
    shown.len() as u64
}

/// When the newest reply to a post was written.
fn newest_reply_time(state: &State, post_id: u64, reply_ids: &Vec<u64>) -> (t: u64)
    requires
        enumerates(reply_ids@, sources_of(state@.reply_posts, post_id)),
        forall|j: int| 0 <= j < reply_ids@.len() ==> state@.replies.contains_key(reply_ids@[j]),
    ensures
        t == last_activity(state@, post_id),
{
    let ghost m = state@;
    if reply_ids.len() == 0 {
        proof {
            assert forall|r: u64| !m.reply_posts.contains((r, post_id)) by {
                assert(sources_of(m.reply_posts, post_id).contains(r) <==> reply_ids@.contains(r));
            }
        }
        return 0;
    }
    let mut newest: u64 = 0;
    let ghost mut at: int = 0;
    let mut i: usize = 0;
    while i < reply_ids.len()
        invariant
            i <= reply_ids@.len(),
            m == state@,
            forall|j: int| 0 <= j < reply_ids@.len() ==> m.replies.contains_key(reply_ids@[j]),
            i > 0 ==> 0 <= at < i && m.replies[reply_ids@[at]].timestamp == newest,
            forall|j: int| 0 <= j < i ==> m.replies[reply_ids@[j]].timestamp <= newest,
        decreases reply_ids.len() - i,
    {
        let time = match state.replies.get(&reply_ids[i]) {
            Some(reply) => reply.timestamp,
            None => unreached(),
        };
        if i == 0 || time > newest {
            newest = time;
            proof {
                at = i as int;
            }
        }
        i = i + 1;
    }
    proof {
        let replies = sources_of(m.reply_posts, post_id);
        let times = reply_times(m, post_id);
        assert(reply_ids@.contains(reply_ids@[at]));
        assert(replies.contains(reply_ids@[at]));
        assert(m.reply_posts.contains((reply_ids@[at], post_id)));
        assert(replied_at(m, post_id, newest));
        assert(times.contains(newest));
        assert forall|time: u64| times.contains(time) implies time <= newest by {
            let r = choose|r: u64| #[trigger]
                m.reply_posts.contains((r, post_id)) && m.replies[r].timestamp == time;
            assert(replies.contains(r));
            assert(reply_ids@.contains(r));
            let j = choose|j: int| 0 <= j < reply_ids@.len() && reply_ids@[j] == r;
            assert(m.replies[reply_ids@[j]].timestamp <= newest);
        }
        lemma_max_of(times, newest);
    }
    newest
}

/// The identity of the author of a post.
fn post_author_identity(state: &State, post_id: u64) -> (r: AuthenticationWithAddress)
    requires
        state.wf(),
        state@.posts.contains_key(post_id),
    ensures
        r == state@.identity_of(state@.post_author(post_id)),
{
    owner_identity(
        state,
        &state.relations.profile_id_to_post_id,
        post_id,
        Ghost(state@.posts.dom()),
    )
}

/// The summary of a post that the store holds.
pub(crate) fn summarize(state: &State, post_id: u64) -> (r: PostSummary)
    requires
        state.wf(),
        state@.posts.contains_key(post_id),
    ensures
        r == summary_of(state@, post_id),
{
    let reply_ids = replies_to(state, post_id);
    let replies_count = count_visible_replies(state, post_id, &reply_ids);
    let last = newest_reply_time(state, post_id, &reply_ids);
    let authentication = post_author_identity(state, post_id);
    match state.posts.get(&post_id) {
        Some(post) => PostSummary {
            post_id,
            title: post.title.clone(),
            description: post.description.clone(),
            timestamp: post.timestamp,
            authentication,
            replies_count,
            last_activity: last,
            status: post.status,
        },
        None => unreached(),
    }
}

/// The summaries of the posts with the given ids, in their order.
fn summarize_all(state: &State, ids: &Vec<u64>, Ghost(set): Ghost<Set<u64>>) -> (list: Vec<
    PostSummary,
>)
    requires
        state.wf(),
        enumerates(ids@, set),
        forall|p: u64| set.contains(p) ==> state@.posts.contains_key(p),
    ensures
        lists_summaries(state@, list@, set),
        list@.len() == ids@.len(),
        forall|i: int| 0 <= i < list@.len() ==> (#[trigger] list@[i]).post_id == ids@[i],
{
    let mut list: Vec<PostSummary> = Vec::new();
    let mut i: usize = 0;
    while i < ids.len()
        invariant
            state.wf(),
            i <= ids.len(),
            list@.len() == i,
            enumerates(ids@, set),
            forall|p: u64| set.contains(p) ==> state@.posts.contains_key(p),
            forall|j: int| 0 <= j < i ==> (#[trigger] list@[j]).post_id == ids@[j],
            forall|j: int| 0 <= j < i ==> list@[j] == summary_of(state@, ids@[j]),
        decreases ids.len() - i,
    {
        assert(ids@.contains(ids@[i as int]));
        list.push(summarize(state, ids[i]));
        i = i + 1;
    }
    proof {
        assert(list@.map_values(|s: PostSummary| s.post_id) =~= ids@);
    }
    list
}

/// The summary of a post, if the store holds the post.
pub fn post_summary(state: &State, post_id: u64) -> (r: Option<PostSummary>)
    requires
        state.wf(),
    ensures
        r == (if state@.posts.contains_key(post_id) {
            Some(summary_of(state@, post_id))
        } else {
            None
        }),
{
    if state.posts.contains_key(&post_id) {
        Some(summarize(state, post_id))
    } else {
        None
    }
}

/// The posts that the caller may see: all of them for an admin, the ones
/// that are not hidden for anyone else.
pub open spec fn posts_shown_to(m: StoreModel, caller: Principal) -> Set<u64> {
    Set::new(
        |p: u64|
            m.posts.contains_key(p) && (m.is_admin(caller) || m.posts[p].status
                != PostStatus::Hidden),
    )
}

/// The summaries of the posts that the caller may see, by post id.
pub fn get_posts(state: &State, caller: Principal) -> (list: Vec<PostSummary>)
    requires
        state.wf(),
    ensures
        lists_summaries(state@, list@, posts_shown_to(state@, caller)),
{
    let admin = is_admin(state, &caller);
    let ids = map_keys(&state.posts);
    let mut keep: Vec<bool> = Vec::new();
    let mut i: usize = 0;
    while i < ids.len()
        invariant
            i <= ids.len(),
            keep@.len() == i,
            enumerates(ids@, state@.posts.dom()),
            forall|j: int|
                0 <= j < i ==> keep@[j] == (admin || state@.posts[ids@[j]].status
                    != PostStatus::Hidden),
        decreases ids.len() - i,
    {
        let shown = match state.posts.get(&ids[i]) {
            Some(post) => admin || post.status != PostStatus::Hidden,
            None => false,
        };
        assert(ids@.contains(ids@[i as int]));
        keep.push(shown);
        i = i + 1;
    }
    let shown = select(&ids, &keep);
    let ghost set = posts_shown_to(state@, caller);
    proof {
        assert forall|p: u64| kept(ids@, keep@).contains(p) <==> set.contains(p) by {
            if kept(ids@, keep@).contains(p) {
                let j = choose|j: int| 0 <= j < ids@.len() && #[trigger] ids@[j] == p && keep@[j];
                assert(ids@.contains(p));
            }
            if set.contains(p) {
                assert(ids@.contains(p));
                let j = choose|j: int| 0 <= j < ids@.len() && ids@[j] == p;
                assert(ids@[j] == p && keep@[j]);
            }
        }
        assert(kept(ids@, keep@) =~= set);
    }
    summarize_all(state, &shown, Ghost(set))
}

/// What the store runs: its version and the track that it follows.
pub fn get_metadata(state: &State) -> (r: Result<Metadata, StoreError>)
    ensures
        match r {
            Ok(meta) => state@.version == Some(meta.version) && state@.track == Some(meta.track),
            Err(e) => if state@.version is None {
                e == StoreError::VersionNotSet
            } else {
                state@.track is None && e == StoreError::TrackNotSet
            },
        },
{
    let version = match &state.version {
        Some(v) => v.clone(),
        None => {
            return Err(StoreError::VersionNotSet);
        },
    };
    let track = match &state.track {
        Some(t) => t.clone(),
        None => {
            return Err(StoreError::TrackNotSet);
        },
    };
    Ok(Metadata { version, track })
}

/// Whether `response` shows the caller's profile with its roles.
pub open spec fn shows_profile(state: &State, profile_id: u64, response: ProfileResponse) -> bool {
    let profile = state@.profiles[profile_id];
    &&& response.name == profile.name
    &&& response.description == profile.description
    &&& response.authentication == profile.authentication
    &&& response.active_principal == profile.active_principal
    &&& lists_roles(state, profile_id, response.roles@)
}

/// The caller's profile with its roles.
pub fn get_profile(state: &State, caller: Principal) -> (r: Result<ProfileResponse, StoreError>)
    requires
        state.wf(),
    ensures
        match r {
            Ok(response) => state@.caller_profile(caller) is Some && shows_profile(
                state,
                state@.caller_profile(caller).unwrap(),
                response,
            ),
            Err(e) => state@.caller_profile(caller) is None && e == StoreError::ProfileNotFound,
        },
{
    let profile_id = match profile_of(state, &caller) {
        Some(id) => id,
        None => {
            return Err(StoreError::ProfileNotFound);
        },
    };
    let roles = match get_user_roles(state, &caller) {
        Some(roles) => roles,
        None => unreached(),
    };
    match state.profiles.get(&profile_id) {
        Some(profile) => Ok(
            ProfileResponse {
                name: profile.name.clone(),
                description: profile.description.clone(),
                authentication: profile.authentication.clone(),
                active_principal: profile.active_principal,
                roles,
            },
        ),
        None => unreached(),
    }
}

} // verus!
