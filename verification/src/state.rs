//! The store: the tables, the relations between their ids, the lookups
//! and caches over them, the ledger and the source of ids.

use crate::entities::{LikedPost, LikedReply, Post, Profile, Reply, Role};
use crate::identity::{Principal, PrincipalKey};
use crate::identity_index::IdentityIndex;
use crate::idgen::{mix, IdGenerator};
use crate::ledger::Ledger;
use crate::rank::RankIndex;
use crate::relation::Relation;
use crate::store_model::{liked_pairs, ranking_of, StoreModel};
use std::collections::BTreeMap;
use std::collections::BTreeSet;
use vstd::prelude::*;

verus! {

pub struct Relations {
    pub profile_id_to_post_id: Relation,
    pub profile_id_to_reply_id: Relation,
    pub reply_id_to_post_id: Relation,
    pub profile_id_to_role_id: Relation,
    pub post_id_to_liked_post_id: Relation,
    pub profile_id_to_liked_post_id: Relation,
    pub reply_id_to_liked_reply_id: Relation,
    pub profile_id_to_liked_reply_id: Relation,
}

pub struct Indexes {
    pub profile: IdentityIndex,
    pub active_principal: BTreeMap<PrincipalKey, u64>,
    pub has_liked_post: BTreeSet<(u64, u64)>,
    pub has_liked_reply: BTreeSet<(u64, u64)>,
    pub most_liked_replies: RankIndex,
    pub most_liked_posts: RankIndex,
}

pub struct State {
    pub profiles: BTreeMap<u64, Profile>,
    pub posts: BTreeMap<u64, Post>,
    pub replies: BTreeMap<u64, Reply>,
    pub roles: BTreeMap<u64, Role>,
    pub liked_posts: BTreeMap<u64, LikedPost>,
    pub liked_replies: BTreeMap<u64, LikedReply>,
    pub relations: Relations,
    pub indexes: Indexes,
    pub parent: Option<Principal>,
    pub version: Option<String>,
    pub track: Option<String>,
    pub ledger: Ledger,
    pub ids: IdGenerator,
}

impl Relations {
    pub open spec fn wf(&self) -> bool {
        &&& self.profile_id_to_post_id.wf()
        &&& self.profile_id_to_reply_id.wf()
        &&& self.reply_id_to_post_id.wf()
        &&& self.profile_id_to_role_id.wf()
        &&& self.post_id_to_liked_post_id.wf()
        &&& self.profile_id_to_liked_post_id.wf()
        &&& self.reply_id_to_liked_reply_id.wf()
        &&& self.profile_id_to_liked_reply_id.wf()
    }

    pub fn new() -> (r: Relations)
        ensures
            r.wf(),
            r.profile_id_to_post_id@ == Set::<(u64, u64)>::empty(),
            r.profile_id_to_reply_id@ == Set::<(u64, u64)>::empty(),
            r.reply_id_to_post_id@ == Set::<(u64, u64)>::empty(),
            r.profile_id_to_role_id@ == Set::<(u64, u64)>::empty(),
            r.post_id_to_liked_post_id@ == Set::<(u64, u64)>::empty(),
            r.profile_id_to_liked_post_id@ == Set::<(u64, u64)>::empty(),
            r.reply_id_to_liked_reply_id@ == Set::<(u64, u64)>::empty(),
            r.profile_id_to_liked_reply_id@ == Set::<(u64, u64)>::empty(),
    {
        Relations {
            profile_id_to_post_id: Relation::new(),
            profile_id_to_reply_id: Relation::new(),
            reply_id_to_post_id: Relation::new(),
            profile_id_to_role_id: Relation::new(),
            post_id_to_liked_post_id: Relation::new(),
            profile_id_to_liked_post_id: Relation::new(),
            reply_id_to_liked_reply_id: Relation::new(),
            profile_id_to_liked_reply_id: Relation::new(),
        }
    }
}

impl View for State {
    type V = StoreModel;

    open spec fn view(&self) -> StoreModel {
        StoreModel {
            profiles: self.profiles@,
            posts: self.posts@,
            replies: self.replies@,
            roles: self.roles@,
            liked_posts: self.liked_posts@,
            liked_replies: self.liked_replies@,
            post_authors: self.relations.profile_id_to_post_id@,
            reply_authors: self.relations.profile_id_to_reply_id@,
            reply_posts: self.relations.reply_id_to_post_id@,
            profile_roles: self.relations.profile_id_to_role_id@,
            post_likes: self.relations.post_id_to_liked_post_id@,
            post_likers: self.relations.profile_id_to_liked_post_id@,
            reply_likes: self.relations.reply_id_to_liked_reply_id@,
            reply_likers: self.relations.profile_id_to_liked_reply_id@,
            identities: self.indexes.profile@,
            principals: self.indexes.active_principal@,
            issued: self.ids.issued(),
            parent: self.parent,
            version: self.version,
            track: self.track,
            ledger: self.ledger@,
        }
    }
}

impl State {
    /// The like lookups and the two rankings hold what follows from the
    /// relations, and nothing else.
    pub open spec fn caches_sound(&self) -> bool {
        &&& self.indexes.has_liked_post@ == liked_pairs(self@.post_likers, self@.post_likes)
        &&& self.indexes.has_liked_reply@ == liked_pairs(self@.reply_likers, self@.reply_likes)
        &&& self.indexes.most_liked_posts@ == ranking_of(self@.post_authors, self@.post_likes)
        &&& self.indexes.most_liked_replies@ == ranking_of(
            self@.reply_authors,
            self@.reply_likes,
        )
    }

    pub open spec fn wf(&self) -> bool {
        &&& self.relations.wf()
        &&& self.indexes.profile.wf()
        &&& self.indexes.most_liked_posts.wf()
        &&& self.indexes.most_liked_replies.wf()
        &&& self@.wf()
        &&& self.caches_sound()
    }

    /// The id that the next entity gets.
    pub open spec fn next_id(&self) -> u64 {
        mix((self.ids.count() + 1) as u64)
    }

    /// Whether another entity can be given an id.
    pub open spec fn spec_can_allocate(&self) -> bool {
        self.ids.count() < u64::MAX
    }

    #[verifier::when_used_as_spec(spec_can_allocate)]
    pub fn can_allocate(&self) -> (r: bool)
        ensures
            r == self.spec_can_allocate(),
    {
        self.ids.can_issue()
    }

    /// A store without entities, for the ledger identity `canister`.
    pub fn new(
        canister: Principal,
        parent: Option<Principal>,
        version: Option<String>,
        track: Option<String>,
    ) -> (state: State)
        ensures
            state.wf(),
            state.ids.count() == 0,
            state@ == StoreModel::spec_empty(Ledger::spec_empty(canister), parent, version, track),
    {
        let state = State {
            profiles: BTreeMap::new(),
            posts: BTreeMap::new(),
            replies: BTreeMap::new(),
            roles: BTreeMap::new(),
            liked_posts: BTreeMap::new(),
            liked_replies: BTreeMap::new(),
            relations: Relations::new(),
            indexes: Indexes {
                profile: IdentityIndex::new(),
                active_principal: BTreeMap::new(),
                has_liked_post: BTreeSet::new(),
                has_liked_reply: BTreeSet::new(),
                most_liked_replies: RankIndex::new(),
                most_liked_posts: RankIndex::new(),
            },
            parent,
            version,
            track,
            ledger: Ledger::new(canister),
            ids: IdGenerator::new(),
        };
        proof {
            let m = state@;
            assert(liked_pairs(m.post_likers, m.post_likes) =~= Set::<(u64, u64)>::empty());
            assert(liked_pairs(m.reply_likers, m.reply_likes) =~= Set::<(u64, u64)>::empty());
            assert(ranking_of(m.post_authors, m.post_likes) =~= Map::<(u64, u64), u64>::empty());
            assert(ranking_of(m.reply_authors, m.reply_likes) =~= Map::<
                (u64, u64),
                u64,
            >::empty());
            assert(m =~= StoreModel::spec_empty(
                Ledger::spec_empty(canister),
                parent,
                version,
                track,
            ));
        }
        state
    }
}

/// Draws the id for a new entity.
pub fn uuid(state: &mut State) -> (id: u64)
    requires
        old(state).spec_can_allocate(),
    ensures
        id == old(state).next_id(),
        IdGenerator::step(old(state).ids, final(state).ids, id),
        !old(state)@.issued.contains(id),
        *final(state) == (State { ids: final(state).ids, ..*old(state) }),
        final(state)@ == (StoreModel { issued: old(state)@.issued.insert(id), ..old(state)@ }),
{
    state.ids.next_id()
}

} // verus!
