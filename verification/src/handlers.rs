//! The operations that change the store.

use crate::entities::{
    Post, PostStatus, PostSummary, Profile, Reply, ReplyResponse, ReplyStatus, Role, StoreError,
    UserRole,
};
use crate::identity::{
    get_authentication_with_address, spec_authentication_with_address, Authentication,
    AuthenticationWithAddress, IcParams, Principal,
};
use crate::idgen::IdGenerator;
use crate::policy::{is_admin, profile_of};

use crate::state::{uuid, State};
use crate::store_model::{
    lemma_with_new_profile_wf, lemma_with_post_changed_wf, lemma_with_post_wf,
    lemma_with_principal_wf, lemma_with_profile_wf, lemma_with_reply_changed_wf,
    lemma_with_reply_wf, lemma_with_role_wf, StoreModel,
};
use vstd::prelude::*;

verus! {

/// The profile of an identity after a login at `now` by `caller`: the
/// login time is new, and so is the acting principal unless the identity
/// is the principal itself.
pub open spec fn after_login(
    before: Profile,
    caller: Principal,
    now: u64,
    authentication: Authentication,
) -> Profile {
    Profile {
        active_principal: if authentication is Ic {
            before.active_principal
        } else {
            caller
        },
        last_login: now,
        ..before
    }
}

/// Whether `profile` is what a first login at `now` by `caller` creates.
pub open spec fn is_new_profile(
    profile: Profile,
    caller: Principal,
    now: u64,
    authentication: Authentication,
) -> bool {
    &&& profile.authentication == authentication
    &&& profile.name@ == Seq::<char>::empty()
    &&& profile.description@ == Seq::<char>::empty()
    &&& profile.active_principal == caller
    &&& profile.timestamp == now
    &&& profile.last_login == now
}

/// Whether `after` is `before` after a login of the verified identity
/// `authentication` at `now` by `caller`, and `profile` the profile that
/// the login found or created.
pub open spec fn logged_in(
    before: State,
    after: State,
    caller: Principal,
    now: u64,
    authentication: Authentication,
    profile: Profile,
) -> bool {
    let key = spec_authentication_with_address(authentication, caller)@;
    if before@.identities.contains_key(key) {
        let id = before@.identities[key];
        &&& profile == after_login(before@.profiles[id], caller, now, authentication)
        &&& after.ids == before.ids
        &&& after@ == (if authentication is Ic {
            before@.with_profile(id, profile)
        } else {
            before@.with_profile(id, profile).with_principal(caller, id)
        })
    } else {
        &&& is_new_profile(profile, caller, now, authentication)
        &&& IdGenerator::step(before.ids, after.ids, before.next_id())
        &&& after@ == before@.with_new_profile(caller, before.next_id(), profile)
    }
}

/// Logs a verified identity in. The first login of an identity creates its
/// profile; a later one finds the profile again, whichever principal acts
/// for it by then, and neither the profile's id nor its identity changes.
pub fn log_in(
    state: &mut State,
    caller: Principal,
    now: u64,
    authentication: Authentication,
) -> (profile: Profile)
    requires
        old(state).wf(),
        old(state).spec_can_allocate(),
    ensures
        final(state).wf(),
        logged_in(*old(state), *final(state), caller, now, authentication, profile),
{
    let key = get_authentication_with_address(&authentication, &caller);
    match state.indexes.profile.get(&key) {
        Some(id) => {
            assert(state@.identities.contains_key(key@));
            let found = match state.profiles.get(&id) {
                Some(p) => p.clone(),
                None => unreached(),
            };
            let is_ic = authentication.is_ic();
            let profile = Profile {
                active_principal: if is_ic {
                    found.active_principal
                } else {
                    caller
                },
                last_login: now,
                ..found
            };
            if !is_ic {
                state.indexes.active_principal.insert(caller.key(), id);
            }
            state.profiles.insert(id, profile.clone());
            proof {
                let m = old(state)@;
                lemma_with_profile_wf(m, id, profile);
                if is_ic {
                    assert(state@ =~= m.with_profile(id, profile));
                } else {
                    lemma_with_principal_wf(m.with_profile(id, profile), caller, id);
                    assert(state@ =~= m.with_profile(id, profile).with_principal(caller, id));
                }
            }
            profile
        },
        None => {
            let id = uuid(state);
            let profile = new_profile(caller, now, authentication);
            state.indexes.profile.insert(key, id);
            state.indexes.active_principal.insert(caller.key(), id);
            state.profiles.insert(id, profile.clone());
            proof {
                let m = old(state)@;
                lemma_with_new_profile_wf(m, caller, id, profile);
                assert(state@ =~= m.with_new_profile(caller, id, profile));
            }
            profile
        },
    }
}

/// A login never changes the identity, the id or the time of creation of
/// a profile that exists, and never changes which profile an identity
/// leads to.
pub proof fn lemma_login_keeps_identity(
    before: State,
    after: State,
    caller: Principal,
    now: u64,
    authentication: Authentication,
    profile: Profile,
)
    requires
        logged_in(before, after, caller, now, authentication, profile),
        before@.identities.contains_key(spec_authentication_with_address(authentication, caller)@),
    ensures
        ({
            let id = before@.identities[spec_authentication_with_address(authentication, caller)@];
            &&& after@.identities == before@.identities
            &&& after@.profiles.dom() == before@.profiles.dom().insert(id)
            &&& after@.profiles[id].authentication == before@.profiles[id].authentication
            &&& after@.profiles[id].timestamp == before@.profiles[id].timestamp
            &&& after@.profiles[id].name == before@.profiles[id].name
            &&& after@.profiles[id].description == before@.profiles[id].description
            &&& forall|other: u64|
                other != id && before@.profiles.contains_key(other) ==> after@.profiles[other]
                    == before@.profiles[other]
        }),
{
    let id = before@.identities[spec_authentication_with_address(authentication, caller)@];
    assert(after@.profiles.dom() =~= before@.profiles.dom().insert(id));
}

/// A profile as a first login creates it.
fn new_profile(caller: Principal, now: u64, authentication: Authentication) -> (profile: Profile)
    ensures
        is_new_profile(profile, caller, now, authentication),
{
    Profile {
        name: String::new(),
        description: String::new(),
        authentication,
        active_principal: caller,
        timestamp: now,
        last_login: now,
    }
}

/// Creates, or finds again, the profile of a principal that is its own
/// identity, and returns the profile's id.
pub fn create_profile_by_principal(state: &mut State, principal: &Principal, now: u64) -> (id: u64)
    requires
        old(state).wf(),
        old(state).spec_can_allocate(),
    ensures
        final(state).wf(),
        final(state)@.profiles.contains_key(id),
        ({
            let key = spec_authentication_with_address(Authentication::Ic, *principal)@;
            if old(state)@.identities.contains_key(key) {
                &&& id == old(state)@.identities[key]
                &&& final(state).ids == old(state).ids
                &&& final(state)@ == old(state)@.with_profile(
                    id,
                    after_login(old(state)@.profiles[id], *principal, now, Authentication::Ic),
                )
            } else {
                &&& id == old(state).next_id()
                &&& IdGenerator::step(old(state).ids, final(state).ids, id)
                &&& is_new_profile(final(state)@.profiles[id], *principal, now, Authentication::Ic)
                &&& final(state)@ == old(state)@.with_new_profile(
                    *principal,
                    id,
                    final(state)@.profiles[id],
                )
            }
        }),
{
    let key = AuthenticationWithAddress::Ic(IcParams { principal: *principal });
    let known = state.indexes.profile.get(&key);
    let profile = log_in(state, *principal, now, Authentication::Ic);
    match known {
        Some(id) => id,
        None => {
            proof {
                assert(state@.principals.contains_key(principal.spec_key()));
            }
            match profile_of(state, principal) {
                Some(id) => id,
                None => unreached(),
            }
        },
    }
}

/// Gives a profile a role and returns the role's id.
pub fn add_profile_role(state: &mut State, profile_id: u64, role: UserRole, now: u64) -> (r: Result<
    u64,
    StoreError,
>)
    requires
        old(state).wf(),
        old(state).spec_can_allocate(),
    ensures
        final(state).wf(),
        match r {
            Ok(id) => {
                &&& old(state)@.profiles.contains_key(profile_id)
                &&& id == old(state).next_id()
                &&& IdGenerator::step(old(state).ids, final(state).ids, id)
                &&& final(state)@ == old(state)@.with_role(
                    profile_id,
                    id,
                    Role { timestamp: now, role },
                )
            },
            Err(e) => {
                &&& !old(state)@.profiles.contains_key(profile_id)
                &&& e == StoreError::ProfileNotFound
                &&& *final(state) == *old(state)
            },
        },
{
    if !state.profiles.contains_key(&profile_id) {
        return Err(StoreError::ProfileNotFound);
    }
    let id = uuid(state);
    let entry = Role { timestamp: now, role };
    state.roles.insert(id, entry);
    state.relations.profile_id_to_role_id.insert(profile_id, id);
    proof {
        let m = old(state)@;
        lemma_with_role_wf(m, profile_id, id, entry);
        assert(state@ =~= m.with_role(profile_id, id, entry));
    }
    Ok(id)
}

/// The summary of a post that was just written.
pub open spec fn fresh_summary(
    id: u64,
    post: Post,
    authentication: AuthenticationWithAddress,
) -> PostSummary {
    PostSummary {
        post_id: id,
        title: post.title,
        description: post.description,
        timestamp: post.timestamp,
        authentication,
        replies_count: 0,
        last_activity: post.timestamp,
        status: post.status,
    }
}

/// Writes a post for the caller's profile.
pub fn create_post(
    state: &mut State,
    caller: Principal,
    now: u64,
    title: String,
    description: String,
) -> (r: Result<PostSummary, StoreError>)
    requires
        old(state).wf(),
        old(state).spec_can_allocate(),
    ensures
        final(state).wf(),
        match old(state)@.caller_profile(caller) {
            Some(author) => {
                let id = old(state).next_id();
                let post = Post { title, description, timestamp: now, status: PostStatus::Visible };
                &&& IdGenerator::step(old(state).ids, final(state).ids, id)
                &&& final(state)@ == old(state)@.with_post(author, id, post)
                &&& r == Ok::<PostSummary, StoreError>(
                    fresh_summary(id, post, old(state)@.identity_of(author)),
                )
            },
            None => {
                &&& r == Err::<PostSummary, StoreError>(StoreError::ProfileNotFound)
                &&& *final(state) == *old(state)
            },
        },
{
    let author = match profile_of(state, &caller) {
        Some(id) => id,
        None => {
            return Err(StoreError::ProfileNotFound);
        },
    };
    let authentication = match state.profiles.get(&author) {
        Some(profile) => get_authentication_with_address(
            &profile.authentication,
            &profile.active_principal,
        ),
        None => unreached(),
    };
    let id = uuid(state);
    let post = Post { title, description, timestamp: now, status: PostStatus::Visible };
    let summary = PostSummary {
        post_id: id,
        title: post.title.clone(),
        description: post.description.clone(),
        timestamp: now,
        authentication,
        replies_count: 0,
        last_activity: now,
        status: PostStatus::Visible,
    };
    state.posts.insert(id, post);
    state.relations.profile_id_to_post_id.insert(author, id);
    proof {
        let m = old(state)@;
        lemma_with_post_wf(m, author, id, post);
        assert(state@ =~= m.with_post(author, id, post));
        crate::store_model::lemma_unliked_is_unranked(
            m.post_authors,
            m.post_likes,
            m.posts.dom(),
            m.liked_posts.dom(),
            author,
            id,
        );
    }
    Ok(summary)
}

/// Whether `response` shows the reply `reply` under the id `id`, written
/// by a profile with the identity `authentication`, with the likes
/// `likes`.
pub open spec fn shows_reply(
    response: ReplyResponse,
    id: u64,
    reply: Reply,
    authentication: AuthenticationWithAddress,
    likes: Seq<(u64, AuthenticationWithAddress)>,
) -> bool {
    &&& response.reply_id == id
    &&& response.text == reply.text
    &&& response.timestamp == reply.timestamp
    &&& response.status == reply.status
    &&& response.authentication == authentication
    &&& response.likes@ == likes
}

/// Why a reply to `post_id` by `caller` is turned down, if it is.
pub open spec fn reply_error(m: StoreModel, caller: Principal, post_id: u64) -> Option<StoreError> {
    if m.caller_profile(caller) is None {
        Some(StoreError::ProfileNotFound)
    } else if !m.posts.contains_key(post_id) {
        Some(StoreError::PostNotFound)
    } else {
        None
    }
}

/// Writes a reply to a post for the caller's profile.
pub fn create_reply(
    state: &mut State,
    caller: Principal,
    now: u64,
    post_id: u64,
    context: String,
) -> (r: Result<ReplyResponse, StoreError>)
    requires
        old(state).wf(),
        old(state).spec_can_allocate(),
    ensures
        final(state).wf(),
        match reply_error(old(state)@, caller, post_id) {
            Some(e) => {
                &&& r matches Err(err) && err == e
                &&& *final(state) == *old(state)
            },
            None => {
                let author = old(state)@.caller_profile(caller).unwrap();
                let id = old(state).next_id();
                let reply = Reply { text: context, timestamp: now, status: ReplyStatus::Visible };
                &&& IdGenerator::step(old(state).ids, final(state).ids, id)
                &&& final(state)@ == old(state)@.with_reply(author, post_id, id, reply)
                &&& r matches Ok(response) && shows_reply(
                    response,
                    id,
                    reply,
                    old(state)@.identity_of(author),
                    Seq::<(u64, AuthenticationWithAddress)>::empty(),
                )
            },
        },
{
    let author = match profile_of(state, &caller) {
        Some(id) => id,
        None => {
            return Err(StoreError::ProfileNotFound);
        },
    };
    if !state.posts.contains_key(&post_id) {
        return Err(StoreError::PostNotFound);
    }
    let authentication = match state.profiles.get(&author) {
        Some(profile) => get_authentication_with_address(
            &profile.authentication,
            &profile.active_principal,
        ),
        None => unreached(),
    };
    let id = uuid(state);
    let reply = Reply { text: context, timestamp: now, status: ReplyStatus::Visible };
    let response = ReplyResponse {
        text: reply.text.clone(),
        timestamp: now,
        authentication,
        reply_id: id,
        likes: Vec::new(),
        status: ReplyStatus::Visible,
    };
    state.replies.insert(id, reply);
    state.relations.profile_id_to_reply_id.insert(author, id);
    state.relations.reply_id_to_post_id.insert(id, post_id);
    proof {
        let m = old(state)@;
        lemma_with_reply_wf(m, author, post_id, id, reply);
        assert(state@ =~= m.with_reply(author, post_id, id, reply));
        crate::store_model::lemma_unliked_is_unranked(
            m.reply_authors,
            m.reply_likes,
            m.replies.dom(),
            m.liked_replies.dom(),
            author,
            id,
        );
    }
    Ok(response)
}

/// Why a change of the status of the post `post_id` by `caller` is turned
/// down, if it is.
pub open spec fn post_status_error(m: StoreModel, caller: Principal, post_id: u64) -> Option<
    StoreError,
> {
    if !m.is_admin(caller) {
        Some(StoreError::Unauthorized)
    } else if !m.posts.contains_key(post_id) {
        Some(StoreError::PostNotFound)
    } else {
        None
    }
}

/// Hides or shows a post. Only an admin may.
pub fn update_post_status(state: &mut State, caller: Principal, post_id: u64, status: PostStatus) -> (r:
    Result<(), StoreError>)
    requires
        old(state).wf(),
    ensures
        final(state).wf(),
        match post_status_error(old(state)@, caller, post_id) {
            Some(e) => {
                &&& r == Err::<(), StoreError>(e)
                &&& *final(state) == *old(state)
            },
            None => {
                &&& r == Ok::<(), StoreError>(())
                &&& final(state).ids == old(state).ids
                &&& final(state)@ == old(state)@.with_post_changed(
                    post_id,
                    Post { status, ..old(state)@.posts[post_id] },
                )
            },
        },
{
    if !is_admin(state, &caller) {
        return Err(StoreError::Unauthorized);
    }
    if !state.posts.contains_key(&post_id) {
        return Err(StoreError::PostNotFound);
    }
    let changed = match state.posts.remove(&post_id) {
        Some(post) => Post { status, ..post },
        None => unreached(),
    };
    state.posts.insert(post_id, changed);
    proof {
        let m = old(state)@;
        lemma_with_post_changed_wf(m, post_id, changed);
        assert(state@ =~= m.with_post_changed(post_id, changed));
    }
    Ok(())
}

/// Why a change of the status of the reply `reply_id` by `caller` is
/// turned down, if it is.
pub open spec fn reply_status_error(m: StoreModel, caller: Principal, reply_id: u64) -> Option<
    StoreError,
> {
    if !m.is_admin(caller) {
        Some(StoreError::Unauthorized)
    } else if !m.replies.contains_key(reply_id) {
        Some(StoreError::ReplyNotFound)
    } else {
        None
    }
}

/// Hides or shows a reply. Only an admin may.
pub fn update_reply_status(
    state: &mut State,
    caller: Principal,
    reply_id: u64,
    status: ReplyStatus,
) -> (r: Result<(), StoreError>)
    requires
        old(state).wf(),
    ensures
        final(state).wf(),
        match reply_status_error(old(state)@, caller, reply_id) {
            Some(e) => {
                &&& r == Err::<(), StoreError>(e)
                &&& *final(state) == *old(state)
            },
            None => {
                &&& r == Ok::<(), StoreError>(())
                &&& final(state).ids == old(state).ids
                &&& final(state)@ == old(state)@.with_reply_changed(
                    reply_id,
                    Reply { status, ..old(state)@.replies[reply_id] },
                )
            },
        },
{
    if !is_admin(state, &caller) {
        return Err(StoreError::Unauthorized);
    }
    if !state.replies.contains_key(&reply_id) {
        return Err(StoreError::ReplyNotFound);
    }
    let changed = match state.replies.remove(&reply_id) {
        Some(reply) => Reply { status, ..reply },
        None => unreached(),
    };
    state.replies.insert(reply_id, changed);
    proof {
        let m = old(state)@;
        lemma_with_reply_changed_wf(m, reply_id, changed);
        assert(state@ =~= m.with_reply_changed(reply_id, changed));
    }
    Ok(())
}

/// The profile `before` with the name and the description replaced where
/// new ones are given.
pub open spec fn renamed(before: Profile, name: Option<String>, description: Option<String>) -> Profile {
    Profile {
        name: match name {
            Some(n) => n,
            None => before.name,
        },
        description: match description {
            Some(d) => d,
            None => before.description,
        },
        ..before
    }
}

/// Gives the caller's profile another name, another description, or both.
/// The profile keeps its id and its identity.
pub fn update_profile(
    state: &mut State,
    caller: Principal,
    name: Option<String>,
    description: Option<String>,
) -> (r: Result<Profile, StoreError>)
    requires
        old(state).wf(),
    ensures
        final(state).wf(),
        match old(state)@.caller_profile(caller) {
            Some(id) => {
                &&& r == Ok::<Profile, StoreError>(
                    renamed(old(state)@.profiles[id], name, description),
                )
                &&& final(state).ids == old(state).ids
                &&& final(state)@ == old(state)@.with_profile(
                    id,
                    renamed(old(state)@.profiles[id], name, description),
                )
            },
            None => {
                &&& r == Err::<Profile, StoreError>(StoreError::ProfileNotFound)
                &&& *final(state) == *old(state)
            },
        },
{
    let id = match profile_of(state, &caller) {
        Some(id) => id,
        None => {
            return Err(StoreError::ProfileNotFound);
        },
    };
    assert(state@.principals.contains_key(caller.spec_key()));
    let before = match state.profiles.remove(&id) {
        Some(p) => p,
        None => unreached(),
    };
    let changed = Profile {
        name: match name {
            Some(n) => n,
            None => before.name,
        },
        description: match description {
            Some(d) => d,
            None => before.description,
        },
        authentication: before.authentication,
        active_principal: before.active_principal,
        timestamp: before.timestamp,
        last_login: before.last_login,
    };
    let shown = changed.clone();
    state.profiles.insert(id, changed);
    proof {
        let m = old(state)@;
        lemma_with_profile_wf(m, id, changed);
        assert(state@ =~= m.with_profile(id, changed));
    }
    Ok(shown)
}

} // verus!
