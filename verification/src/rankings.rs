//! The "most recent" and "most liked" listings of a profile.

use crate::entities::{PostResponse, PostStatus, PostSummary, ReplyResponse, StoreError};
use crate::identity::AuthenticationWithAddress;
use crate::listings::{
    post_of_reply, post_response, reply_response, shows_stored_post, shows_stored_reply,
};
use crate::ordered::enumerates;
use crate::policy::is_admin;
use crate::queries::{summarize, summary_of};
use crate::rank::{
    inverted, is_ranking, leading, placed_entries, rank_placed, scope_entries, take_leading,
    ValueEntry, TOP_K,
};
use crate::relation::items_of;
use crate::state::State;
use crate::store_model::{ranking_of, StoreModel};
use std::collections::BTreeSet;
use vstd::prelude::*;

verus! {

/// The posts of a profile that are listed as its most recent ones, each
/// with the time it was written: all of them where the principal that the
/// profile acts through is an admin, the ones that are not hidden
/// otherwise.
pub open spec fn recent_entries(m: StoreModel, profile_id: u64) -> Set<(u64, u64)> {
    Set::new(
        |e: (u64, u64)|
            m.post_authors.contains((profile_id, e.0)) && e.1 == m.posts[e.0].timestamp && (
            m.is_admin(m.profiles[profile_id].active_principal) || m.posts[e.0].status
                != PostStatus::Hidden),
    )
}

/// The ten most recent posts of the profile of a verified identity, the
/// newest first and, among posts of one time, the smallest id first.
pub fn get_most_recent_posts(state: &State, authentication: &AuthenticationWithAddress) -> (r:
    Result<Vec<PostSummary>, StoreError>)
    requires
        state.wf(),
    ensures
        match r {
            Ok(list) => {
                &&& state@.identities.contains_key(authentication@)
                &&& exists|full: Seq<(u64, u64)>|
                    #![trigger is_ranking(full, recent_entries(state@, state@.identities[authentication@]))]
                    is_ranking(full, recent_entries(state@, state@.identities[authentication@]))
                        && list@.map_values(|s: PostSummary| (s.post_id, s.timestamp)) == leading(
                        full,
                        TOP_K as nat,
                    )
                &&& forall|i: int|
                    0 <= i < list@.len() ==> list@[i] == summary_of(
                        state@,
                        (#[trigger] list@[i]).post_id,
                    )
            },
            Err(e) => !state@.identities.contains_key(authentication@) && e
                == StoreError::ProfileNotFound,
        },
{
    let ghost m = state@;
    let profile_id = match state.indexes.profile.get(authentication) {
        Some(id) => id,
        None => {
            return Err(StoreError::ProfileNotFound);
        },
    };
    proof {
        assert(m.identities.contains_key(authentication@));
        assert(m.profiles.contains_key(profile_id));
    }
    let admin = match state.profiles.get(&profile_id) {
        Some(profile) => is_admin(state, &profile.active_principal),
        None => unreached(),
    };
    assert(admin == m.is_admin(m.profiles[profile_id].active_principal));
    let ids = state.relations.profile_id_to_post_id.forward(profile_id);
    let mut placed: BTreeSet<(u64, u64)> = BTreeSet::new();
    let mut i: usize = 0;
    while i < ids.len()
        invariant
            i <= ids.len(),
            m == state@,
            state.wf(),
            enumerates(ids@, items_of(m.post_authors, profile_id)),
            forall|e: (u64, u64)|
                placed@.contains(e) <==> (exists|j: int|
                    0 <= j < i && #[trigger] ids@[j] == e.1 && e.0 == inverted(
                        m.posts[e.1].timestamp,
                    ) && (admin || m.posts[e.1].status != PostStatus::Hidden)),
        decreases ids.len() - i,
    {
        let id = ids[i];
        let ghost before = placed@;
        proof {
            assert(ids@.contains(id));
            assert(m.post_authors.contains((profile_id, id)));
        }
        match state.posts.get(&id) {
            Some(post) => {
                if admin || post.status != PostStatus::Hidden {
                    placed.insert((u64::MAX - post.timestamp, id));
                }
            },
            None => unreached(),
        }
        proof {
            assert forall|e: (u64, u64)|
                placed@.contains(e) <==> (exists|j: int|
                    0 <= j < i + 1 && #[trigger] ids@[j] == e.1 && e.0 == inverted(
                        m.posts[e.1].timestamp,
                    ) && (admin || m.posts[e.1].status != PostStatus::Hidden)) by {
                if before.contains(e) {
                    let j = choose|j: int|
                        0 <= j < i && #[trigger] ids@[j] == e.1 && e.0 == inverted(
                            m.posts[e.1].timestamp,
                        ) && (admin || m.posts[e.1].status != PostStatus::Hidden);
                    assert(0 <= j < i + 1 && ids@[j] == e.1);
                }
                if placed@.contains(e) && !before.contains(e) {
                    assert(ids@[i as int] == e.1);
                }
                if exists|j: int|
                    0 <= j < i + 1 && #[trigger] ids@[j] == e.1 && e.0 == inverted(
                        m.posts[e.1].timestamp,
                    ) && (admin || m.posts[e.1].status != PostStatus::Hidden) {
                    let j = choose|j: int|
                        0 <= j < i + 1 && #[trigger] ids@[j] == e.1 && e.0 == inverted(
                            m.posts[e.1].timestamp,
                        ) && (admin || m.posts[e.1].status != PostStatus::Hidden);
                    if j < i {
                        assert(before.contains(e));
                    }
                }
            }
        }
        i = i + 1;
    }
    let all = rank_placed(&placed);
    let ghost full = all@.map_values(|e: ValueEntry<u64, u64>| e.pair());
    proof {
        assert forall|e: (u64, u64)| placed_entries(placed@).contains(e) <==> recent_entries(
            m,
            profile_id,
        ).contains(e) by {
            if placed_entries(placed@).contains(e) {
                let j = choose|j: int|
                    0 <= j < ids@.len() && #[trigger] ids@[j] == e.0 && inverted(e.1) == inverted(
                        m.posts[e.0].timestamp,
                    ) && (admin || m.posts[e.0].status != PostStatus::Hidden);
                assert(ids@.contains(e.0));
                assert(items_of(m.post_authors, profile_id).contains(e.0));
            }
            if recent_entries(m, profile_id).contains(e) {
                assert(items_of(m.post_authors, profile_id).contains(e.0));
                assert(ids@.contains(e.0));
                let j = choose|j: int| 0 <= j < ids@.len() && ids@[j] == e.0;
                assert(ids@[j] == e.0);
                assert(placed@.contains((inverted(e.1), e.0)));
            }
        }
        assert(placed_entries(placed@) =~= recent_entries(m, profile_id));
    }
    let top = take_leading(&all, TOP_K);
    let mut list: Vec<PostSummary> = Vec::new();
    let mut k: usize = 0;
    while k < top.len()
        invariant
            state.wf(),
            m == state@,
            k <= top.len(),
            list@.len() == k,
            top@.len() <= all@.len(),
            forall|j: int| 0 <= j < top@.len() ==> top@[j] == all@[j],
            full == all@.map_values(|e: ValueEntry<u64, u64>| e.pair()),
            is_ranking(full, recent_entries(m, profile_id)),
            forall|j: int|
                0 <= j < k ==> (#[trigger] list@[j]).post_id == top@[j].0 && list@[j].timestamp
                    == top@[j].1,
            forall|j: int| 0 <= j < k ==> list@[j] == summary_of(m, (#[trigger] list@[j]).post_id),
        decreases top.len() - k,
    {
        let entry = top[k];
        proof {
            assert(full[k as int] == all@[k as int].pair());
            assert(full.contains(full[k as int]));
            assert(recent_entries(m, profile_id).contains(entry.pair()));
            assert(m.post_authors.contains((profile_id, entry.0)));
        }
        list.push(summarize(state, entry.0));
        k = k + 1;
    }
    proof {
        assert(list@.map_values(|s: PostSummary| (s.post_id, s.timestamp)) =~= top@.map_values(
            |e: ValueEntry<u64, u64>| e.pair(),
        ));
        assert(is_ranking(full, recent_entries(m, m.identities[authentication@])));
        assert(list@.map_values(|s: PostSummary| (s.post_id, s.timestamp)) == leading(
            full,
            TOP_K as nat,
        ));
    }
    Ok(list)
}

/// The ten most liked posts of the profile of a verified identity, with
/// their likes and without replies: the most liked first and, among posts
/// with as many likes, the smallest id first.
pub fn get_most_liked_posts(state: &State, authentication: &AuthenticationWithAddress) -> (r:
    Result<Vec<PostResponse>, StoreError>)
    requires
        state.wf(),
    ensures
        match r {
            Ok(list) => {
                &&& state@.identities.contains_key(authentication@)
                &&& exists|full: Seq<(u64, u64)>|
                    #![trigger leading(full, TOP_K as nat)]
                    is_ranking(
                        full,
                        scope_entries(
                            ranking_of(state@.post_authors, state@.post_likes),
                            state@.identities[authentication@],
                        ),
                    ) && list@.map_values(|p: PostResponse| p.post_id) == leading(
                        full,
                        TOP_K as nat,
                    ).map_values(|e: (u64, u64)| e.0)
                &&& forall|i: int|
                    0 <= i < list@.len() ==> shows_stored_post(state@, #[trigger] list@[i], true)
                        && list@[i].replies@.len() == 0
            },
            Err(e) => !state@.identities.contains_key(authentication@) && e
                == StoreError::ProfileNotFound,
        },
{
    let ghost m = state@;
    let profile_id = match state.indexes.profile.get(authentication) {
        Some(id) => id,
        None => {
            return Err(StoreError::ProfileNotFound);
        },
    };
    let top = state.indexes.most_liked_posts.top(profile_id, TOP_K);
    let ghost listed = top@.map_values(|e: ValueEntry<u64, u64>| e.pair());
    let mut list: Vec<PostResponse> = Vec::new();
    let mut k: usize = 0;
    while k < top.len()
        invariant
            state.wf(),
            m == state@,
            k <= top.len(),
            list@.len() == k,
            forall|j: int|
                0 <= j < top@.len() ==> state.indexes.most_liked_posts.entries(
                    profile_id,
                ).contains(top@[j].pair()),
            forall|j: int| 0 <= j < k ==> (#[trigger] list@[j]).post_id == top@[j].0,
            forall|j: int|
                0 <= j < k ==> shows_stored_post(m, #[trigger] list@[j], true)
                    && list@[j].replies@.len() == 0,
        decreases top.len() - k,
    {
        let entry = top[k];
        proof {
            assert(state.indexes.most_liked_posts.entries(profile_id).contains(entry.pair()));
            assert(ranking_of(m.post_authors, m.post_likes).contains_key((profile_id, entry.0)));
            assert(m.post_authors.contains((profile_id, entry.0)));
        }
        list.push(post_response(state, entry.0, true, Vec::new()));
        k = k + 1;
    }
    proof {
        assert(list@.map_values(|p: PostResponse| p.post_id) =~= listed.map_values(
            |e: (u64, u64)| e.0,
        ));
    }
    Ok(list)
}

/// The ten most liked replies of the profile of a verified identity, each
/// with the id of its post and with its likes: the most liked first and,
/// among replies with as many likes, the smallest id first.
pub fn get_most_liked_replies(state: &State, authentication: &AuthenticationWithAddress) -> (r:
    Result<Vec<(u64, ReplyResponse)>, StoreError>)
    requires
        state.wf(),
    ensures
        match r {
            Ok(list) => {
                &&& state@.identities.contains_key(authentication@)
                &&& exists|full: Seq<(u64, u64)>|
                    #![trigger leading(full, TOP_K as nat)]
                    is_ranking(
                        full,
                        scope_entries(
                            ranking_of(state@.reply_authors, state@.reply_likes),
                            state@.identities[authentication@],
                        ),
                    ) && list@.map_values(|p: (u64, ReplyResponse)| p.1.reply_id) == leading(
                        full,
                        TOP_K as nat,
                    ).map_values(|e: (u64, u64)| e.0)
                &&& forall|i: int|
                    0 <= i < list@.len() ==> shows_stored_reply(state@, (#[trigger] list@[i]).1, true)
                        && list@[i].0 == state@.post_of_reply(list@[i].1.reply_id)
            },
            Err(e) => !state@.identities.contains_key(authentication@) && e
                == StoreError::ProfileNotFound,
        },
{
    let ghost m = state@;
    let profile_id = match state.indexes.profile.get(authentication) {
        Some(id) => id,
        None => {
            return Err(StoreError::ProfileNotFound);
        },
    };
    let top = state.indexes.most_liked_replies.top(profile_id, TOP_K);
    let ghost listed = top@.map_values(|e: ValueEntry<u64, u64>| e.pair());
    let mut list: Vec<(u64, ReplyResponse)> = Vec::new();
    let mut k: usize = 0;
    while k < top.len()
        invariant
            state.wf(),
            m == state@,
            k <= top.len(),
            list@.len() == k,
            forall|j: int|
                0 <= j < top@.len() ==> state.indexes.most_liked_replies.entries(
                    profile_id,
                ).contains(top@[j].pair()),
            forall|j: int| 0 <= j < k ==> (#[trigger] list@[j]).1.reply_id == top@[j].0,
            forall|j: int|
                0 <= j < k ==> shows_stored_reply(m, (#[trigger] list@[j]).1, true) && list@[j].0
                    == m.post_of_reply(list@[j].1.reply_id),
        decreases top.len() - k,
    {
        let entry = top[k];
        proof {
            assert(state.indexes.most_liked_replies.entries(profile_id).contains(entry.pair()));
            assert(ranking_of(m.reply_authors, m.reply_likes).contains_key((profile_id, entry.0)));
            assert(m.reply_authors.contains((profile_id, entry.0)));
        }
        let post_id = post_of_reply(state, entry.0);
        list.push((post_id, reply_response(state, entry.0, true)));
        k = k + 1;
    }
    proof {
        assert(list@.map_values(|p: (u64, ReplyResponse)| p.1.reply_id) =~= listed.map_values(
            |e: (u64, u64)| e.0,
        ));
    }
    Ok(list)
}

} // verus!
