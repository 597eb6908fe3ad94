//! The store as plain values: the tables, the edges between their ids and
//! the two direct lookups, with what must hold of them together.

use crate::entities::{LikedPost, LikedReply, Post, Profile, Reply, Role, UserRole};
use crate::identity::{
    spec_authentication_with_address, AuthenticationWithAddress, IdentityKey, Principal,
    PrincipalKey,
};
use crate::ledger_model::LedgerModel;
use crate::relation::items_of;
use vstd::prelude::*;

verus! {

/// Every edge joins an owner and an item that exist, and every item has
/// exactly one owner. An edge is `(owner, item)`.
pub open spec fn owns(edges: Set<(u64, u64)>, owners: Set<u64>, items: Set<u64>) -> bool {
    &&& forall|a: u64, p: u64| #[trigger]
        edges.contains((a, p)) ==> owners.contains(a) && items.contains(p)
    &&& forall|p: u64| #[trigger] items.contains(p) ==> exists|a: u64| edges.contains((a, p))
    &&& forall|a: u64, b: u64, p: u64|
        #![trigger edges.contains((a, p)), edges.contains((b, p))]
        edges.contains((a, p)) && edges.contains((b, p)) ==> a == b
}

/// As [`owns`], for edges written `(item, owner)`.
pub open spec fn belongs(edges: Set<(u64, u64)>, items: Set<u64>, owners: Set<u64>) -> bool {
    &&& forall|p: u64, a: u64| #[trigger]
        edges.contains((p, a)) ==> owners.contains(a) && items.contains(p)
    &&& forall|p: u64| #[trigger] items.contains(p) ==> exists|a: u64| edges.contains((p, a))
    &&& forall|a: u64, b: u64, p: u64|
        #![trigger edges.contains((p, a)), edges.contains((p, b))]
        edges.contains((p, a)) && edges.contains((p, b)) ==> a == b
}

/// The owner of `item` in edges written `(owner, item)`.
pub open spec fn owner_in(edges: Set<(u64, u64)>, item: u64) -> u64 {
    choose|a: u64| edges.contains((a, item))
}

/// The owner of `item` in edges written `(item, owner)`.
pub open spec fn target_in(edges: Set<(u64, u64)>, item: u64) -> u64 {
    choose|a: u64| edges.contains((item, a))
}

pub proof fn lemma_owner_in(edges: Set<(u64, u64)>, owners: Set<u64>, items: Set<u64>, a: u64, p: u64)
    requires
        owns(edges, owners, items),
        edges.contains((a, p)),
    ensures
        owner_in(edges, p) == a,
{
    let b = owner_in(edges, p);
    assert(edges.contains((b, p)));
}

pub proof fn lemma_owner_exists(edges: Set<(u64, u64)>, owners: Set<u64>, items: Set<u64>, p: u64)
    requires
        owns(edges, owners, items),
        items.contains(p),
    ensures
        edges.contains((owner_in(edges, p), p)),
        owners.contains(owner_in(edges, p)),
{
}

pub proof fn lemma_target_in(edges: Set<(u64, u64)>, items: Set<u64>, owners: Set<u64>, p: u64, a: u64)
    requires
        belongs(edges, items, owners),
        edges.contains((p, a)),
    ensures
        target_in(edges, p) == a,
{
    let b = target_in(edges, p);
    assert(edges.contains((p, b)));
}

pub proof fn lemma_target_exists(edges: Set<(u64, u64)>, items: Set<u64>, owners: Set<u64>, p: u64)
    requires
        belongs(edges, items, owners),
        items.contains(p),
    ensures
        edges.contains((p, target_in(edges, p))),
        owners.contains(target_in(edges, p)),
{
}

/// Ownership is kept when an owner is added.
pub proof fn lemma_owns_more_owners(
    edges: Set<(u64, u64)>,
    owners: Set<u64>,
    items: Set<u64>,
    a: u64,
)
    requires
        owns(edges, owners, items),
    ensures
        owns(edges, owners.insert(a), items),
{
}

/// Ownership is kept when an item that is new enters with its owner.
pub proof fn lemma_owns_new_item(
    edges: Set<(u64, u64)>,
    owners: Set<u64>,
    items: Set<u64>,
    a: u64,
    p: u64,
)
    requires
        owns(edges, owners, items),
        owners.contains(a),
        !items.contains(p),
    ensures
        owns(edges.insert((a, p)), owners, items.insert(p)),
{
    let e2 = edges.insert((a, p));
    assert forall|q: u64| #[trigger] items.insert(p).contains(q) implies exists|b: u64|
        e2.contains((b, q)) by {
        if q == p {
            assert(e2.contains((a, p)));
        } else {
            let b = choose|b: u64| edges.contains((b, q));
            assert(e2.contains((b, q)));
        }
    }
}

/// Ownership is kept when an item leaves with its edge.
pub proof fn lemma_owns_item_leaves(
    edges: Set<(u64, u64)>,
    owners: Set<u64>,
    items: Set<u64>,
    a: u64,
    p: u64,
)
    requires
        owns(edges, owners, items),
        edges.contains((a, p)),
    ensures
        owns(edges.remove((a, p)), owners, items.remove(p)),
{
    let e2 = edges.remove((a, p));
    assert forall|q: u64| #[trigger] items.remove(p).contains(q) implies exists|b: u64|
        e2.contains((b, q)) by {
        let b = choose|b: u64| edges.contains((b, q));
        assert(e2.contains((b, q)));
    }
}

/// As [`lemma_owns_more_owners`], for edges written `(item, owner)`.
pub proof fn lemma_belongs_more_owners(
    edges: Set<(u64, u64)>,
    items: Set<u64>,
    owners: Set<u64>,
    a: u64,
)
    requires
        belongs(edges, items, owners),
    ensures
        belongs(edges, items, owners.insert(a)),
{
}

/// As [`lemma_owns_new_item`], for edges written `(item, owner)`.
pub proof fn lemma_belongs_new_item(
    edges: Set<(u64, u64)>,
    items: Set<u64>,
    owners: Set<u64>,
    p: u64,
    a: u64,
)
    requires
        belongs(edges, items, owners),
        owners.contains(a),
        !items.contains(p),
    ensures
        belongs(edges.insert((p, a)), items.insert(p), owners),
{
    let e2 = edges.insert((p, a));
    assert forall|q: u64| #[trigger] items.insert(p).contains(q) implies exists|b: u64|
        e2.contains((q, b)) by {
        if q == p {
            assert(e2.contains((p, a)));
        } else {
            let b = choose|b: u64| edges.contains((q, b));
            assert(e2.contains((q, b)));
        }
    }
}

/// No profile has two likes on one target. `likers` holds `(profile,
/// like)` and `likes` holds `(target, like)`.
pub open spec fn one_like_each(likers: Set<(u64, u64)>, likes: Set<(u64, u64)>) -> bool {
    forall|a: u64, p: u64, l1: u64, l2: u64|
        #![trigger likers.contains((a, l1)), likes.contains((p, l1)), likers.contains((a, l2)), likes.contains((p, l2))]
        likers.contains((a, l1)) && likes.contains((p, l1)) && likers.contains((a, l2))
            && likes.contains((p, l2)) ==> l1 == l2
}

/// The pairs `(profile, target)` such that the profile likes the target.
pub open spec fn liked_pairs(likers: Set<(u64, u64)>, likes: Set<(u64, u64)>) -> Set<(u64, u64)> {
    Set::new(|pair: (u64, u64)| has_like(likers, likes, pair.0, pair.1))
}

/// Whether `profile` gave a like that is on `target`.
pub open spec fn has_like(
    likers: Set<(u64, u64)>,
    likes: Set<(u64, u64)>,
    profile: u64,
    target: u64,
) -> bool {
    exists|l: u64| #[trigger] likers.contains((profile, l)) && likes.contains((target, l))
}

/// The ranking data that follows from who authored what and what is
/// liked: for every authored item with at least one like, its number of
/// likes, under the key `(author, item)`.
pub open spec fn ranking_of(authors: Set<(u64, u64)>, likes: Set<(u64, u64)>) -> Map<
    (u64, u64),
    u64,
> {
    Map::new(
        |key: (u64, u64)| authors.contains(key) && items_of(likes, key.1).len() > 0,
        |key: (u64, u64)| items_of(likes, key.1).len() as u64,
    )
}

/// The store as plain values.
#[verifier::ext_equal]
pub struct StoreModel {
    pub profiles: Map<u64, Profile>,
    pub posts: Map<u64, Post>,
    pub replies: Map<u64, Reply>,
    pub roles: Map<u64, Role>,
    pub liked_posts: Map<u64, LikedPost>,
    pub liked_replies: Map<u64, LikedReply>,
    /// `(profile, post)`: the profile wrote the post.
    pub post_authors: Set<(u64, u64)>,
    /// `(profile, reply)`: the profile wrote the reply.
    pub reply_authors: Set<(u64, u64)>,
    /// `(reply, post)`: the reply answers the post.
    pub reply_posts: Set<(u64, u64)>,
    /// `(profile, role)`: the profile holds the role.
    pub profile_roles: Set<(u64, u64)>,
    /// `(post, like)`: the like is on the post.
    pub post_likes: Set<(u64, u64)>,
    /// `(profile, like)`: the profile gave the like to a post.
    pub post_likers: Set<(u64, u64)>,
    /// `(reply, like)`: the like is on the reply.
    pub reply_likes: Set<(u64, u64)>,
    /// `(profile, like)`: the profile gave the like to a reply.
    pub reply_likers: Set<(u64, u64)>,
    /// The profile of each verified identity.
    pub identities: Map<IdentityKey, u64>,
    /// The profile that each principal acts for.
    pub principals: Map<PrincipalKey, u64>,
    /// The surrogate ids handed out so far.
    pub issued: Set<u64>,
    pub parent: Option<Principal>,
    pub version: Option<String>,
    pub track: Option<String>,
    pub ledger: LedgerModel,
}

impl StoreModel {
    /// The store without entities.
    pub open spec fn spec_empty(
        ledger: LedgerModel,
        parent: Option<Principal>,
        version: Option<String>,
        track: Option<String>,
    ) -> Self {
        StoreModel {
            profiles: Map::empty(),
            posts: Map::empty(),
            replies: Map::empty(),
            roles: Map::empty(),
            liked_posts: Map::empty(),
            liked_replies: Map::empty(),
            post_authors: Set::empty(),
            reply_authors: Set::empty(),
            reply_posts: Set::empty(),
            profile_roles: Set::empty(),
            post_likes: Set::empty(),
            post_likers: Set::empty(),
            reply_likes: Set::empty(),
            reply_likers: Set::empty(),
            identities: Map::empty(),
            principals: Map::empty(),
            issued: Set::empty(),
            parent,
            version,
            track,
            ledger,
        }
    }

    /// Every id in a table was handed out by the generator.
    pub open spec fn tables_issued(self) -> bool {
        &&& forall|id: u64| #[trigger] self.profiles.contains_key(id) ==> self.issued.contains(id)
        &&& forall|id: u64| #[trigger] self.posts.contains_key(id) ==> self.issued.contains(id)
        &&& forall|id: u64| #[trigger] self.replies.contains_key(id) ==> self.issued.contains(id)
        &&& forall|id: u64| #[trigger] self.roles.contains_key(id) ==> self.issued.contains(id)
        &&& forall|id: u64| #[trigger] self.liked_posts.contains_key(id) ==> self.issued.contains(id)
        &&& forall|id: u64| #[trigger]
            self.liked_replies.contains_key(id) ==> self.issued.contains(id)
    }

    /// The lookups lead to profiles that exist.
    pub open spec fn lookups_sound(self) -> bool {
        &&& forall|k: PrincipalKey| #[trigger]
            self.principals.contains_key(k) ==> self.profiles.contains_key(self.principals[k])
        &&& forall|k: IdentityKey| #[trigger]
            self.identities.contains_key(k) ==> self.profiles.contains_key(self.identities[k])
    }

    /// Every post and reply has one author, every reply answers one post,
    /// every role has one holder, every like has one target and one giver,
    /// and all of them exist.
    pub open spec fn references_sound(self) -> bool {
        &&& owns(self.post_authors, self.profiles.dom(), self.posts.dom())
        &&& owns(self.reply_authors, self.profiles.dom(), self.replies.dom())
        &&& belongs(self.reply_posts, self.replies.dom(), self.posts.dom())
        &&& owns(self.profile_roles, self.profiles.dom(), self.roles.dom())
        &&& owns(self.post_likes, self.posts.dom(), self.liked_posts.dom())
        &&& owns(self.post_likers, self.profiles.dom(), self.liked_posts.dom())
        &&& owns(self.reply_likes, self.replies.dom(), self.liked_replies.dom())
        &&& owns(self.reply_likers, self.profiles.dom(), self.liked_replies.dom())
    }

    pub open spec fn wf(self) -> bool {
        &&& self.ledger.wf()
        &&& self.tables_issued()
        &&& self.lookups_sound()
        &&& self.references_sound()
        &&& one_like_each(self.post_likers, self.post_likes)
        &&& one_like_each(self.reply_likers, self.reply_likes)
    }

    /// The profile that `caller` acts for, if there is one.
    pub open spec fn caller_profile(self, caller: Principal) -> Option<u64> {
        if self.principals.contains_key(caller.spec_key()) {
            Some(self.principals[caller.spec_key()])
        } else {
            None
        }
    }

    /// Whether the profile holds a role of the given kind.
    pub open spec fn has_role(self, profile_id: u64, kind: UserRole) -> bool {
        exists|r: u64| #[trigger]
            self.profile_roles.contains((profile_id, r)) && self.roles[r].role == kind
    }

    /// Whether `caller` acts for a profile that holds the role `Admin`.
    pub open spec fn is_admin(self, caller: Principal) -> bool {
        match self.caller_profile(caller) {
            Some(profile_id) => self.has_role(profile_id, UserRole::Admin),
            None => false,
        }
    }

    /// The verified identity of a profile.
    pub open spec fn identity_of(self, profile_id: u64) -> AuthenticationWithAddress {
        spec_authentication_with_address(
            self.profiles[profile_id].authentication,
            self.profiles[profile_id].active_principal,
        )
    }

    pub open spec fn post_author(self, post_id: u64) -> u64 {
        owner_in(self.post_authors, post_id)
    }

    pub open spec fn reply_author(self, reply_id: u64) -> u64 {
        owner_in(self.reply_authors, reply_id)
    }

    pub open spec fn post_of_reply(self, reply_id: u64) -> u64 {
        target_in(self.reply_posts, reply_id)
    }

    /// The post that the like is on.
    pub open spec fn liked_post_of(self, like_id: u64) -> u64 {
        owner_in(self.post_likes, like_id)
    }

    /// The profile that gave the like to a post.
    pub open spec fn post_liker(self, like_id: u64) -> u64 {
        owner_in(self.post_likers, like_id)
    }

    /// The reply that the like is on.
    pub open spec fn liked_reply_of(self, like_id: u64) -> u64 {
        owner_in(self.reply_likes, like_id)
    }

    /// The profile that gave the like to a reply.
    pub open spec fn reply_liker(self, like_id: u64) -> u64 {
        owner_in(self.reply_likers, like_id)
    }

    /// The store with a profile put under `id`.
    pub open spec fn with_profile(self, id: u64, profile: Profile) -> Self {
        StoreModel { profiles: self.profiles.insert(id, profile), ..self }
    }

    /// The store in which `caller` acts for the profile `id`.
    pub open spec fn with_principal(self, caller: Principal, id: u64) -> Self {
        StoreModel { principals: self.principals.insert(caller.spec_key(), id), ..self }
    }

    /// The store with a new profile under the fresh id `id`, found by its
    /// identity and acted for by `caller`.
    pub open spec fn with_new_profile(self, caller: Principal, id: u64, profile: Profile) -> Self {
        StoreModel {
            profiles: self.profiles.insert(id, profile),
            identities: self.identities.insert(
                spec_authentication_with_address(profile.authentication, caller)@,
                id,
            ),
            principals: self.principals.insert(caller.spec_key(), id),
            issued: self.issued.insert(id),
            ..self
        }
    }

    /// The store with a new post under the fresh id `id`.
    pub open spec fn with_post(self, author: u64, id: u64, post: Post) -> Self {
        StoreModel {
            posts: self.posts.insert(id, post),
            post_authors: self.post_authors.insert((author, id)),
            issued: self.issued.insert(id),
            ..self
        }
    }

    /// The store with a new reply to `post` under the fresh id `id`.
    pub open spec fn with_reply(self, author: u64, post: u64, id: u64, reply: Reply) -> Self {
        StoreModel {
            replies: self.replies.insert(id, reply),
            reply_authors: self.reply_authors.insert((author, id)),
            reply_posts: self.reply_posts.insert((id, post)),
            issued: self.issued.insert(id),
            ..self
        }
    }

    /// The store with a new role for `profile` under the fresh id `id`.
    pub open spec fn with_role(self, profile: u64, id: u64, role: Role) -> Self {
        StoreModel {
            roles: self.roles.insert(id, role),
            profile_roles: self.profile_roles.insert((profile, id)),
            issued: self.issued.insert(id),
            ..self
        }
    }

    /// The store with a new like of `profile` on `post` under the fresh id
    /// `id`.
    pub open spec fn with_post_like(self, profile: u64, post: u64, id: u64, like: LikedPost) -> Self {
        StoreModel {
            liked_posts: self.liked_posts.insert(id, like),
            post_likes: self.post_likes.insert((post, id)),
            post_likers: self.post_likers.insert((profile, id)),
            issued: self.issued.insert(id),
            ..self
        }
    }

    /// The store without the like `id` on a post.
    pub open spec fn without_post_like(self, id: u64) -> Self {
        StoreModel {
            liked_posts: self.liked_posts.remove(id),
            post_likes: self.post_likes.remove((self.liked_post_of(id), id)),
            post_likers: self.post_likers.remove((self.post_liker(id), id)),
            ..self
        }
    }

    /// The store with a new like of `profile` on `reply` under the fresh
    /// id `id`.
    pub open spec fn with_reply_like(self, profile: u64, reply: u64, id: u64, like: LikedReply) -> Self {
        StoreModel {
            liked_replies: self.liked_replies.insert(id, like),
            reply_likes: self.reply_likes.insert((reply, id)),
            reply_likers: self.reply_likers.insert((profile, id)),
            issued: self.issued.insert(id),
            ..self
        }
    }

    /// The store without the like `id` on a reply.
    pub open spec fn without_reply_like(self, id: u64) -> Self {
        StoreModel {
            liked_replies: self.liked_replies.remove(id),
            reply_likes: self.reply_likes.remove((self.liked_reply_of(id), id)),
            reply_likers: self.reply_likers.remove((self.reply_liker(id), id)),
            ..self
        }
    }

    /// The store with the post `id` replaced by `post`.
    pub open spec fn with_post_changed(self, id: u64, post: Post) -> Self {
        StoreModel { posts: self.posts.insert(id, post), ..self }
    }

    /// The store with the reply `id` replaced by `reply`.
    pub open spec fn with_reply_changed(self, id: u64, reply: Reply) -> Self {
        StoreModel { replies: self.replies.insert(id, reply), ..self }
    }

    /// The store with another ledger.
    pub open spec fn with_ledger(self, ledger: LedgerModel) -> Self {
        StoreModel { ledger, ..self }
    }
}

pub proof fn lemma_with_profile_wf(m: StoreModel, id: u64, profile: Profile)
    requires
        m.wf(),
        m.profiles.contains_key(id),
    ensures
        m.with_profile(id, profile).wf(),
{
    let n = m.with_profile(id, profile);
    assert(n.profiles.dom() =~= m.profiles.dom());
}

pub proof fn lemma_with_principal_wf(m: StoreModel, caller: Principal, id: u64)
    requires
        m.wf(),
        m.profiles.contains_key(id),
    ensures
        m.with_principal(caller, id).wf(),
{
}

pub proof fn lemma_with_new_profile_wf(m: StoreModel, caller: Principal, id: u64, profile: Profile)
    requires
        m.wf(),
        !m.issued.contains(id),
    ensures
        m.with_new_profile(caller, id, profile).wf(),
{
    let n = m.with_new_profile(caller, id, profile);
    assert(n.profiles.dom() =~= m.profiles.dom().insert(id));
    lemma_owns_more_owners(m.post_authors, m.profiles.dom(), m.posts.dom(), id);
    lemma_owns_more_owners(m.reply_authors, m.profiles.dom(), m.replies.dom(), id);
    lemma_owns_more_owners(m.profile_roles, m.profiles.dom(), m.roles.dom(), id);
    lemma_owns_more_owners(m.post_likers, m.profiles.dom(), m.liked_posts.dom(), id);
    lemma_owns_more_owners(m.reply_likers, m.profiles.dom(), m.liked_replies.dom(), id);
}

pub proof fn lemma_with_post_wf(m: StoreModel, author: u64, id: u64, post: Post)
    requires
        m.wf(),
        m.profiles.contains_key(author),
        !m.issued.contains(id),
    ensures
        m.with_post(author, id, post).wf(),
{
    let n = m.with_post(author, id, post);
    assert(n.posts.dom() =~= m.posts.dom().insert(id));
    lemma_owns_new_item(m.post_authors, m.profiles.dom(), m.posts.dom(), author, id);
    lemma_owns_more_owners(m.post_likes, m.posts.dom(), m.liked_posts.dom(), id);
    lemma_belongs_more_owners(m.reply_posts, m.replies.dom(), m.posts.dom(), id);
}

pub proof fn lemma_with_reply_wf(m: StoreModel, author: u64, post: u64, id: u64, reply: Reply)
    requires
        m.wf(),
        m.profiles.contains_key(author),
        m.posts.contains_key(post),
        !m.issued.contains(id),
    ensures
        m.with_reply(author, post, id, reply).wf(),
{
    let n = m.with_reply(author, post, id, reply);
    assert(n.replies.dom() =~= m.replies.dom().insert(id));
    lemma_owns_new_item(m.reply_authors, m.profiles.dom(), m.replies.dom(), author, id);
    lemma_belongs_new_item(m.reply_posts, m.replies.dom(), m.posts.dom(), id, post);
    lemma_owns_more_owners(m.reply_likes, m.replies.dom(), m.liked_replies.dom(), id);
}

pub proof fn lemma_with_role_wf(m: StoreModel, profile: u64, id: u64, role: Role)
    requires
        m.wf(),
        m.profiles.contains_key(profile),
        !m.issued.contains(id),
    ensures
        m.with_role(profile, id, role).wf(),
{
    let n = m.with_role(profile, id, role);
    assert(n.roles.dom() =~= m.roles.dom().insert(id));
    lemma_owns_new_item(m.profile_roles, m.profiles.dom(), m.roles.dom(), profile, id);
}

pub proof fn lemma_with_post_changed_wf(m: StoreModel, id: u64, post: Post)
    requires
        m.wf(),
        m.posts.contains_key(id),
    ensures
        m.with_post_changed(id, post).wf(),
{
    let n = m.with_post_changed(id, post);
    assert(n.posts.dom() =~= m.posts.dom());
}

pub proof fn lemma_with_reply_changed_wf(m: StoreModel, id: u64, reply: Reply)
    requires
        m.wf(),
        m.replies.contains_key(id),
    ensures
        m.with_reply_changed(id, reply).wf(),
{
    let n = m.with_reply_changed(id, reply);
    assert(n.replies.dom() =~= m.replies.dom());
}

/// What follows for the likes on one kind of target when a profile that
/// does not like the target yet gives it a like under a new id.
pub proof fn lemma_like_added(
    authors: Set<(u64, u64)>,
    likers: Set<(u64, u64)>,
    likes: Set<(u64, u64)>,
    profiles: Set<u64>,
    targets: Set<u64>,
    like_ids: Set<u64>,
    profile: u64,
    target: u64,
    id: u64,
)
    requires
        owns(authors, profiles, targets),
        owns(likes, targets, like_ids),
        owns(likers, profiles, like_ids),
        one_like_each(likers, likes),
        profiles.contains(profile),
        targets.contains(target),
        !like_ids.contains(id),
        !liked_pairs(likers, likes).contains((profile, target)),
        items_of(likes.insert((target, id)), target).finite(),
    ensures
        owns(likes.insert((target, id)), targets, like_ids.insert(id)),
        owns(likers.insert((profile, id)), profiles, like_ids.insert(id)),
        one_like_each(likers.insert((profile, id)), likes.insert((target, id))),
        liked_pairs(likers.insert((profile, id)), likes.insert((target, id))) == liked_pairs(
            likers,
            likes,
        ).insert((profile, target)),
        items_of(likes.insert((target, id)), target).len() > 0,
        ranking_of(authors, likes.insert((target, id))) == ranking_of(authors, likes).insert(
            (owner_in(authors, target), target),
            items_of(likes.insert((target, id)), target).len() as u64,
        ),
{
    let likes2 = likes.insert((target, id));
    let likers2 = likers.insert((profile, id));
    lemma_owns_new_item(likes, targets, like_ids, target, id);
    lemma_owns_new_item(likers, profiles, like_ids, profile, id);
    assert forall|a: u64, p: u64, l1: u64, l2: u64|
        #![trigger likers2.contains((a, l1)), likes2.contains((p, l1)), likers2.contains((a, l2)), likes2.contains((p, l2))]
        likers2.contains((a, l1)) && likes2.contains((p, l1)) && likers2.contains((a, l2))
            && likes2.contains((p, l2)) implies l1 == l2 by {
        if likers.contains((a, id)) {
            assert(like_ids.contains(id));
        }
        if likes.contains((p, id)) {
            assert(like_ids.contains(id));
        }
        if l1 == id && l2 != id {
            assert(a == profile && p == target);
            assert(likers.contains((profile, l2)) && likes.contains((target, l2)));
            assert(has_like(likers, likes, profile, target));
        } else if l2 == id && l1 != id {
            assert(a == profile && p == target);
            assert(likers.contains((profile, l1)) && likes.contains((target, l1)));
            assert(has_like(likers, likes, profile, target));
        } else if l1 != id && l2 != id {
            assert(likers.contains((a, l1)) && likes.contains((p, l1)) && likers.contains((a, l2))
                && likes.contains((p, l2)));
        }
    }
    assert forall|pair: (u64, u64)|
        liked_pairs(likers2, likes2).contains(pair) <==> liked_pairs(likers, likes).insert(
            (profile, target),
        ).contains(pair) by {
        if liked_pairs(likers2, likes2).contains(pair) {
            assert(has_like(likers2, likes2, pair.0, pair.1));
            let l = choose|l: u64| #[trigger]
                likers2.contains((pair.0, l)) && likes2.contains((pair.1, l));
            if l != id {
                assert(likers.contains((pair.0, l)) && likes.contains((pair.1, l)));
            }
        }
        if liked_pairs(likers, likes).contains(pair) {
            assert(has_like(likers, likes, pair.0, pair.1));
            let l = choose|l: u64| #[trigger]
                likers.contains((pair.0, l)) && likes.contains((pair.1, l));
            assert(likers2.contains((pair.0, l)) && likes2.contains((pair.1, l)));
            assert(has_like(likers2, likes2, pair.0, pair.1));
        }
        if pair == (profile, target) {
            assert(likers2.contains((pair.0, id)) && likes2.contains((pair.1, id)));
            assert(has_like(likers2, likes2, pair.0, pair.1));
        }
    }
    assert(liked_pairs(likers2, likes2) =~= liked_pairs(likers, likes).insert((profile, target)));
    assert(items_of(likes2, target).contains(id));
    lemma_owner_exists(authors, profiles, targets, target);
    let author = owner_in(authors, target);
    assert forall|key: (u64, u64)| key.1 != target implies items_of(likes2, key.1) == items_of(
        likes,
        key.1,
    ) by {
        assert(items_of(likes2, key.1) =~= items_of(likes, key.1));
    }
    assert forall|key: (u64, u64)| authors.contains(key) && key.1 == target implies key == (
        author,
        target,
    ) by {
        lemma_owner_in(authors, profiles, targets, key.0, target);
    }
    assert(ranking_of(authors, likes2) =~= ranking_of(authors, likes).insert(
        (author, target),
        items_of(likes2, target).len() as u64,
    ));
}

/// What follows for the likes on one kind of target when a like is taken
/// back.
pub proof fn lemma_like_removed(
    authors: Set<(u64, u64)>,
    likers: Set<(u64, u64)>,
    likes: Set<(u64, u64)>,
    profiles: Set<u64>,
    targets: Set<u64>,
    like_ids: Set<u64>,
    id: u64,
)
    requires
        owns(authors, profiles, targets),
        owns(likes, targets, like_ids),
        owns(likers, profiles, like_ids),
        one_like_each(likers, likes),
        like_ids.contains(id),
        items_of(likes.remove((owner_in(likes, id), id)), owner_in(likes, id)).finite(),
    ensures
        ({
            let target = owner_in(likes, id);
            let profile = owner_in(likers, id);
            let likes2 = likes.remove((target, id));
            let likers2 = likers.remove((profile, id));
            let left = items_of(likes2, target).len();
            &&& likes.contains((target, id))
            &&& likers.contains((profile, id))
            &&& targets.contains(target)
            &&& profiles.contains(profile)
            &&& owns(likes2, targets, like_ids.remove(id))
            &&& owns(likers2, profiles, like_ids.remove(id))
            &&& one_like_each(likers2, likes2)
            &&& liked_pairs(likers2, likes2) == liked_pairs(likers, likes).remove((profile, target))
            &&& ranking_of(authors, likes2) == (if left > 0 {
                ranking_of(authors, likes).insert((owner_in(authors, target), target), left as u64)
            } else {
                ranking_of(authors, likes).remove((owner_in(authors, target), target))
            })
        }),
{
    let target = owner_in(likes, id);
    let profile = owner_in(likers, id);
    lemma_owner_exists(likes, targets, like_ids, id);
    lemma_owner_exists(likers, profiles, like_ids, id);
    let likes2 = likes.remove((target, id));
    let likers2 = likers.remove((profile, id));
    lemma_owns_item_leaves(likes, targets, like_ids, target, id);
    lemma_owns_item_leaves(likers, profiles, like_ids, profile, id);
    assert forall|a: u64, p: u64, l1: u64, l2: u64|
        #![trigger likers2.contains((a, l1)), likes2.contains((p, l1)), likers2.contains((a, l2)), likes2.contains((p, l2))]
        likers2.contains((a, l1)) && likes2.contains((p, l1)) && likers2.contains((a, l2))
            && likes2.contains((p, l2)) implies l1 == l2 by {
        assert(likers.contains((a, l1)) && likes.contains((p, l1)) && likers.contains((a, l2))
            && likes.contains((p, l2)));
    }
    assert forall|pair: (u64, u64)|
        liked_pairs(likers2, likes2).contains(pair) <==> liked_pairs(likers, likes).remove(
            (profile, target),
        ).contains(pair) by {
        if liked_pairs(likers2, likes2).contains(pair) {
            assert(has_like(likers2, likes2, pair.0, pair.1));
            let l = choose|l: u64| #[trigger]
                likers2.contains((pair.0, l)) && likes2.contains((pair.1, l));
            assert(likers.contains((pair.0, l)) && likes.contains((pair.1, l)));
            if pair == (profile, target) {
                assert(likers.contains((profile, l)) && likes.contains((target, l))
                    && likers.contains((profile, id)) && likes.contains((target, id)));
            }
        }
        if liked_pairs(likers, likes).contains(pair) && pair != (profile, target) {
            assert(has_like(likers, likes, pair.0, pair.1));
            let l = choose|l: u64| #[trigger]
                likers.contains((pair.0, l)) && likes.contains((pair.1, l));
            if l == id {
                lemma_owner_in(likes, targets, like_ids, pair.1, id);
                lemma_owner_in(likers, profiles, like_ids, pair.0, id);
            }
            assert(likers2.contains((pair.0, l)) && likes2.contains((pair.1, l)));
            assert(has_like(likers2, likes2, pair.0, pair.1));
        }
    }
    assert(liked_pairs(likers2, likes2) =~= liked_pairs(likers, likes).remove((profile, target)));
    lemma_owner_exists(authors, profiles, targets, target);
    let author = owner_in(authors, target);
    assert forall|key: (u64, u64)| key.1 != target implies items_of(likes2, key.1) == items_of(
        likes,
        key.1,
    ) by {
        assert(items_of(likes2, key.1) =~= items_of(likes, key.1));
    }
    assert forall|key: (u64, u64)| authors.contains(key) && key.1 == target implies key == (
        author,
        target,
    ) by {
        lemma_owner_in(authors, profiles, targets, key.0, target);
    }
    let left = items_of(likes2, target).len();
    if left > 0 {
        assert(ranking_of(authors, likes2) =~= ranking_of(authors, likes).insert(
            (author, target),
            left as u64,
        ));
    } else {
        assert(ranking_of(authors, likes2) =~= ranking_of(authors, likes).remove((author, target)));
    }
}

/// An item without likes has no entry in the ranking.
pub proof fn lemma_unliked_is_unranked(
    authors: Set<(u64, u64)>,
    likes: Set<(u64, u64)>,
    targets: Set<u64>,
    like_ids: Set<u64>,
    author: u64,
    target: u64,
)
    requires
        owns(likes, targets, like_ids),
        !targets.contains(target),
    ensures
        !ranking_of(authors, likes).contains_key((author, target)),
        ranking_of(authors.insert((author, target)), likes) == ranking_of(authors, likes),
{
    assert(items_of(likes, target) =~= Set::<u64>::empty());
    assert(ranking_of(authors.insert((author, target)), likes) =~= ranking_of(authors, likes));
}

pub proof fn lemma_with_post_like_wf(m: StoreModel, profile: u64, post: u64, id: u64, like: LikedPost)
    requires
        m.wf(),
        m.profiles.contains_key(profile),
        m.posts.contains_key(post),
        !m.issued.contains(id),
        !liked_pairs(m.post_likers, m.post_likes).contains((profile, post)),
        items_of(m.post_likes.insert((post, id)), post).finite(),
    ensures
        m.with_post_like(profile, post, id, like).wf(),
{
    let n = m.with_post_like(profile, post, id, like);
    assert(n.liked_posts.dom() =~= m.liked_posts.dom().insert(id));
    lemma_like_added(
        m.post_authors,
        m.post_likers,
        m.post_likes,
        m.profiles.dom(),
        m.posts.dom(),
        m.liked_posts.dom(),
        profile,
        post,
        id,
    );
}

pub proof fn lemma_without_post_like_wf(m: StoreModel, id: u64)
    requires
        m.wf(),
        m.liked_posts.contains_key(id),
        items_of(m.post_likes.remove((m.liked_post_of(id), id)), m.liked_post_of(id)).finite(),
    ensures
        m.without_post_like(id).wf(),
{
    let n = m.without_post_like(id);
    assert(n.liked_posts.dom() =~= m.liked_posts.dom().remove(id));
    lemma_like_removed(
        m.post_authors,
        m.post_likers,
        m.post_likes,
        m.profiles.dom(),
        m.posts.dom(),
        m.liked_posts.dom(),
        id,
    );
}

pub proof fn lemma_with_reply_like_wf(
    m: StoreModel,
    profile: u64,
    reply: u64,
    id: u64,
    like: LikedReply,
)
    requires
        m.wf(),
        m.profiles.contains_key(profile),
        m.replies.contains_key(reply),
        !m.issued.contains(id),
        !liked_pairs(m.reply_likers, m.reply_likes).contains((profile, reply)),
        items_of(m.reply_likes.insert((reply, id)), reply).finite(),
    ensures
        m.with_reply_like(profile, reply, id, like).wf(),
{
    let n = m.with_reply_like(profile, reply, id, like);
    assert(n.liked_replies.dom() =~= m.liked_replies.dom().insert(id));
    lemma_like_added(
        m.reply_authors,
        m.reply_likers,
        m.reply_likes,
        m.profiles.dom(),
        m.replies.dom(),
        m.liked_replies.dom(),
        profile,
        reply,
        id,
    );
}

pub proof fn lemma_without_reply_like_wf(m: StoreModel, id: u64)
    requires
        m.wf(),
        m.liked_replies.contains_key(id),
        items_of(m.reply_likes.remove((m.liked_reply_of(id), id)), m.liked_reply_of(id)).finite(),
    ensures
        m.without_reply_like(id).wf(),
{
    let n = m.without_reply_like(id);
    assert(n.liked_replies.dom() =~= m.liked_replies.dom().remove(id));
    lemma_like_removed(
        m.reply_authors,
        m.reply_likers,
        m.reply_likes,
        m.profiles.dom(),
        m.replies.dom(),
        m.liked_replies.dom(),
        id,
    );
}

} // verus!
