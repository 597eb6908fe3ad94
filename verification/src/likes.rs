//! Likes on posts and replies, and the rankings that follow them.

use crate::entities::{LikedPost, LikedReply, StoreError};
use crate::identity::Principal;
use crate::idgen::IdGenerator;
use crate::policy::profile_of;

use crate::state::{uuid, State};
use crate::store_model::{
    has_like, lemma_like_added, lemma_like_removed, lemma_owner_exists, lemma_owner_in,
    lemma_with_post_like_wf, lemma_with_reply_like_wf, lemma_without_post_like_wf,
    lemma_without_reply_like_wf, StoreModel,
};
use vstd::prelude::*;

verus! {

/// Why a like of `caller` on the post `post_id` is turned down, if it is.
pub open spec fn like_post_error(m: StoreModel, caller: Principal, post_id: u64) -> Option<
    StoreError,
> {
    match m.caller_profile(caller) {
        None => Some(StoreError::ProfileNotFound),
        Some(profile) => if !m.posts.contains_key(post_id) {
            Some(StoreError::PostNotFound)
        } else if has_like(m.post_likers, m.post_likes, profile, post_id) {
            Some(StoreError::AlreadyLiked)
        } else {
            None
        },
    }
}

/// Gives the post a like of the caller's profile and returns the like's
/// id. The post's entry in its author's ranking is brought up to date.
pub fn like_post(state: &mut State, caller: Principal, now: u64, post_id: u64) -> (r: Result<
    u64,
    StoreError,
>)
    requires
        old(state).wf(),
        old(state).spec_can_allocate(),
    ensures
        final(state).wf(),
        match like_post_error(old(state)@, caller, post_id) {
            Some(e) => {
                &&& r == Err::<u64, StoreError>(e)
                &&& *final(state) == *old(state)
            },
            None => {
                let id = old(state).next_id();
                &&& r == Ok::<u64, StoreError>(id)
                &&& IdGenerator::step(old(state).ids, final(state).ids, id)
                &&& final(state)@ == old(state)@.with_post_like(
                    old(state)@.caller_profile(caller).unwrap(),
                    post_id,
                    id,
                    LikedPost { timestamp: now },
                )
            },
        },
{
    let profile = match profile_of(state, &caller) {
        Some(id) => id,
        None => {
            return Err(StoreError::ProfileNotFound);
        },
    };
    if !state.posts.contains_key(&post_id) {
        return Err(StoreError::PostNotFound);
    }
    if state.indexes.has_liked_post.contains(&(profile, post_id)) {
        return Err(StoreError::AlreadyLiked);
    }
    let author = match state.relations.profile_id_to_post_id.first_backward(post_id) {
        Some(a) => a,
        None => {
            proof {
                lemma_owner_exists(
                    state@.post_authors,
                    state@.profiles.dom(),
                    state@.posts.dom(),
                    post_id,
                );
            }
            unreached()
        },
    };
    let id = uuid(state);
    let like = LikedPost { timestamp: now };
    state.liked_posts.insert(id, like);
    state.relations.post_id_to_liked_post_id.insert(post_id, id);
    state.relations.profile_id_to_liked_post_id.insert(profile, id);
    state.indexes.has_liked_post.insert((profile, post_id));
    let count = state.relations.post_id_to_liked_post_id.forward_len(post_id) as u64;
    proof {
        let m = old(state)@;
        state.relations.post_id_to_liked_post_id.lemma_finite(post_id, id);
        lemma_with_post_like_wf(m, profile, post_id, id, like);
        lemma_like_added(
            m.post_authors,
            m.post_likers,
            m.post_likes,
            m.profiles.dom(),
            m.posts.dom(),
            m.liked_posts.dom(),
            profile,
            post_id,
            id,
        );
        lemma_owner_in(m.post_authors, m.profiles.dom(), m.posts.dom(), author, post_id);
    }
    state.indexes.most_liked_posts.refresh(author, post_id, count);
    proof {
        assert(state@ =~= old(state)@.with_post_like(profile, post_id, id, like));
    }
    Ok(id)
}

/// Why taking back the like `like_id` on a post by `caller` is turned
/// down, if it is.
pub open spec fn unlike_post_error(m: StoreModel, caller: Principal, like_id: u64) -> Option<
    StoreError,
> {
    if !m.liked_posts.contains_key(like_id) {
        Some(StoreError::LikeNotFound)
    } else if m.caller_profile(caller) != Some(m.post_liker(like_id)) {
        Some(StoreError::Unauthorized)
    } else {
        None
    }
}

/// Takes back a like that the caller's profile gave to a post. The post's
/// entry in its author's ranking is brought up to date, and leaves the
/// ranking when no like is left.
pub fn unlike_post(state: &mut State, caller: Principal, liked_post_id: u64) -> (r: Result<
    (),
    StoreError,
>)
    requires
        old(state).wf(),
    ensures
        final(state).wf(),
        match unlike_post_error(old(state)@, caller, liked_post_id) {
            Some(e) => {
                &&& r == Err::<(), StoreError>(e)
                &&& *final(state) == *old(state)
            },
            None => {
                &&& r == Ok::<(), StoreError>(())
                &&& final(state).ids == old(state).ids
                &&& final(state)@ == old(state)@.without_post_like(liked_post_id)
            },
        },
{
    if !state.liked_posts.contains_key(&liked_post_id) {
        return Err(StoreError::LikeNotFound);
    }
    proof {
        let m = state@;
        lemma_owner_exists(m.post_likers, m.profiles.dom(), m.liked_posts.dom(), liked_post_id);
        lemma_owner_exists(m.post_likes, m.posts.dom(), m.liked_posts.dom(), liked_post_id);
        lemma_owner_exists(m.post_authors, m.profiles.dom(), m.posts.dom(), m.liked_post_of(liked_post_id));
    }
    let liker = match state.relations.profile_id_to_liked_post_id.first_backward(liked_post_id) {
        Some(a) => a,
        None => unreached(),
    };
    let post_id = match state.relations.post_id_to_liked_post_id.first_backward(liked_post_id) {
        Some(a) => a,
        None => unreached(),
    };
    proof {
        let m = state@;
        lemma_owner_in(m.post_likers, m.profiles.dom(), m.liked_posts.dom(), liker, liked_post_id);
        lemma_owner_in(m.post_likes, m.posts.dom(), m.liked_posts.dom(), post_id, liked_post_id);
    }
    match profile_of(state, &caller) {
        Some(p) => {
            if p != liker {
                return Err(StoreError::Unauthorized);
            }
        },
        None => {
            return Err(StoreError::Unauthorized);
        },
    }
    let author = match state.relations.profile_id_to_post_id.first_backward(post_id) {
        Some(a) => a,
        None => unreached(),
    };
    state.relations.post_id_to_liked_post_id.remove(post_id, liked_post_id);
    state.relations.profile_id_to_liked_post_id.remove(liker, liked_post_id);
    state.indexes.has_liked_post.remove(&(liker, post_id));
    state.liked_posts.remove(&liked_post_id);
    let count = state.relations.post_id_to_liked_post_id.forward_len(post_id) as u64;
    proof {
        let m = old(state)@;
        state.relations.post_id_to_liked_post_id.lemma_finite(post_id, liked_post_id);
        lemma_without_post_like_wf(m, liked_post_id);
        lemma_like_removed(
            m.post_authors,
            m.post_likers,
            m.post_likes,
            m.profiles.dom(),
            m.posts.dom(),
            m.liked_posts.dom(),
            liked_post_id,
        );
        lemma_owner_in(m.post_authors, m.profiles.dom(), m.posts.dom(), author, post_id);
    }
    state.indexes.most_liked_posts.refresh(author, post_id, count);
    proof {
        assert(state@ =~= old(state)@.without_post_like(liked_post_id));
    }
    Ok(())
}

/// Why a like of `caller` on the reply `reply_id` is turned down, if it
/// is.
pub open spec fn like_reply_error(m: StoreModel, caller: Principal, reply_id: u64) -> Option<
    StoreError,
> {
    match m.caller_profile(caller) {
        None => Some(StoreError::ProfileNotFound),
        Some(profile) => if !m.replies.contains_key(reply_id) {
            Some(StoreError::ReplyNotFound)
        } else if has_like(m.reply_likers, m.reply_likes, profile, reply_id) {
            Some(StoreError::AlreadyLiked)
        } else {
            None
        },
    }
}

/// Gives the reply a like of the caller's profile and returns the like's
/// id. The reply's entry in its author's ranking is brought up to date.
pub fn like_reply(state: &mut State, caller: Principal, now: u64, reply_id: u64) -> (r: Result<
    u64,
    StoreError,
>)
    requires
        old(state).wf(),
        old(state).spec_can_allocate(),
    ensures
        final(state).wf(),
        match like_reply_error(old(state)@, caller, reply_id) {
            Some(e) => {
                &&& r == Err::<u64, StoreError>(e)
                &&& *final(state) == *old(state)
            },
            None => {
                let id = old(state).next_id();
                &&& r == Ok::<u64, StoreError>(id)
                &&& IdGenerator::step(old(state).ids, final(state).ids, id)
                &&& final(state)@ == old(state)@.with_reply_like(
                    old(state)@.caller_profile(caller).unwrap(),
                    reply_id,
                    id,
                    LikedReply { timestamp: now },
                )
            },
        },
{
    let profile = match profile_of(state, &caller) {
        Some(id) => id,
        None => {
            return Err(StoreError::ProfileNotFound);
        },
    };
    if !state.replies.contains_key(&reply_id) {
        return Err(StoreError::ReplyNotFound);
    }
    if state.indexes.has_liked_reply.contains(&(profile, reply_id)) {
        return Err(StoreError::AlreadyLiked);
    }
    let author = match state.relations.profile_id_to_reply_id.first_backward(reply_id) {
        Some(a) => a,
        None => {
            proof {
                lemma_owner_exists(
                    state@.reply_authors,
                    state@.profiles.dom(),
                    state@.replies.dom(),
                    reply_id,
                );
            }
            unreached()
        },
    };
    let id = uuid(state);
    let like = LikedReply { timestamp: now };
    state.liked_replies.insert(id, like);
    state.relations.reply_id_to_liked_reply_id.insert(reply_id, id);
    state.relations.profile_id_to_liked_reply_id.insert(profile, id);
    state.indexes.has_liked_reply.insert((profile, reply_id));
    let count = state.relations.reply_id_to_liked_reply_id.forward_len(reply_id) as u64;
    proof {
        let m = old(state)@;
        state.relations.reply_id_to_liked_reply_id.lemma_finite(reply_id, id);
        lemma_with_reply_like_wf(m, profile, reply_id, id, like);
        lemma_like_added(
            m.reply_authors,
            m.reply_likers,
            m.reply_likes,
            m.profiles.dom(),
            m.replies.dom(),
            m.liked_replies.dom(),
            profile,
            reply_id,
            id,
        );
        lemma_owner_in(m.reply_authors, m.profiles.dom(), m.replies.dom(), author, reply_id);
    }
    state.indexes.most_liked_replies.refresh(author, reply_id, count);
    proof {
        assert(state@ =~= old(state)@.with_reply_like(profile, reply_id, id, like));
    }
    Ok(id)
}

/// Why taking back the like `like_id` on a reply by `caller` is turned
/// down, if it is.
pub open spec fn unlike_reply_error(m: StoreModel, caller: Principal, like_id: u64) -> Option<
    StoreError,
> {
    if !m.liked_replies.contains_key(like_id) {
        Some(StoreError::LikeNotFound)
    } else if m.caller_profile(caller) != Some(m.reply_liker(like_id)) {
        Some(StoreError::Unauthorized)
    } else {
        None
    }
}

/// Takes back a like that the caller's profile gave to a reply. The
/// reply's entry in its author's ranking is brought up to date, and leaves
/// the ranking when no like is left.
pub fn unlike_reply(state: &mut State, caller: Principal, liked_reply_id: u64) -> (r: Result<
    (),
    StoreError,
>)
    requires
        old(state).wf(),
    ensures
        final(state).wf(),
        match unlike_reply_error(old(state)@, caller, liked_reply_id) {
            Some(e) => {
                &&& r == Err::<(), StoreError>(e)
                &&& *final(state) == *old(state)
            },
            None => {
                &&& r == Ok::<(), StoreError>(())
                &&& final(state).ids == old(state).ids
                &&& final(state)@ == old(state)@.without_reply_like(liked_reply_id)
            },
        },
{
    if !state.liked_replies.contains_key(&liked_reply_id) {
        return Err(StoreError::LikeNotFound);
    }
    proof {
        let m = state@;
        lemma_owner_exists(
            m.reply_likers,
            m.profiles.dom(),
            m.liked_replies.dom(),
            liked_reply_id,
        );
        lemma_owner_exists(m.reply_likes, m.replies.dom(), m.liked_replies.dom(), liked_reply_id);
        lemma_owner_exists(
            m.reply_authors,
            m.profiles.dom(),
            m.replies.dom(),
            m.liked_reply_of(liked_reply_id),
        );
    }
    let liker = match state.relations.profile_id_to_liked_reply_id.first_backward(liked_reply_id) {
        Some(a) => a,
        None => unreached(),
    };
    let reply_id = match state.relations.reply_id_to_liked_reply_id.first_backward(liked_reply_id) {
        Some(a) => a,
        None => unreached(),
    };
    proof {
        let m = state@;
        lemma_owner_in(
            m.reply_likers,
            m.profiles.dom(),
            m.liked_replies.dom(),
            liker,
            liked_reply_id,
        );
        lemma_owner_in(
            m.reply_likes,
            m.replies.dom(),
            m.liked_replies.dom(),
            reply_id,
            liked_reply_id,
        );
    }
    match profile_of(state, &caller) {
        Some(p) => {
            if p != liker {
                return Err(StoreError::Unauthorized);
            }
        },
        None => {
            return Err(StoreError::Unauthorized);
        },
    }
    let author = match state.relations.profile_id_to_reply_id.first_backward(reply_id) {
        Some(a) => a,
        None => unreached(),
    };
    state.relations.reply_id_to_liked_reply_id.remove(reply_id, liked_reply_id);
    state.relations.profile_id_to_liked_reply_id.remove(liker, liked_reply_id);
    state.indexes.has_liked_reply.remove(&(liker, reply_id));
    state.liked_replies.remove(&liked_reply_id);
    let count = state.relations.reply_id_to_liked_reply_id.forward_len(reply_id) as u64;
    proof {
        let m = old(state)@;
        state.relations.reply_id_to_liked_reply_id.lemma_finite(reply_id, liked_reply_id);
        lemma_without_reply_like_wf(m, liked_reply_id);
        lemma_like_removed(
            m.reply_authors,
            m.reply_likers,
            m.reply_likes,
            m.profiles.dom(),
            m.replies.dom(),
            m.liked_replies.dom(),
            liked_reply_id,
        );
        lemma_owner_in(m.reply_authors, m.profiles.dom(), m.replies.dom(), author, reply_id);
    }
    state.indexes.most_liked_replies.refresh(author, reply_id, count);
    proof {
        assert(state@ =~= old(state)@.without_reply_like(liked_reply_id));
    }
    Ok(())
}

} // verus!
