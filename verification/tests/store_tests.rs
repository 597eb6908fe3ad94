use community_store::administration::{add_icrc7_token, authorize, burn, icrc7_transfer, init, mint, mint_batch};
use community_store::entities::{
    Post, PostStatus, PostSummary, Profile, ReplyStatus, StoreError, UserRole,
};
use community_store::handlers::{
    add_profile_role, create_post, create_profile_by_principal, create_reply, log_in,
    update_profile,
    update_post_status, update_reply_status,
};
use community_store::identity::{
    default_account, get_authentication_with_address, Account, Authentication,
    AuthenticationWithAddress, EvmParams, IcParams, Principal, SvmParams,
};
use community_store::ledger_model::{
    BatchRejection, BurnArg, BurnError, MintArg, MintError, TransferArg, TransferError,
};
use community_store::likes::{like_post, like_reply, unlike_post, unlike_reply};
use community_store::listings::{
    get_hidden_posts, get_hidden_replies, get_post, get_profile_by_auth, likes_on_post,
};
use community_store::policy::{get_user_roles, has_role, is_admin, profile_of};
use community_store::queries::{get_metadata, get_posts, get_profile, post_summary};
use community_store::rankings::{get_most_liked_posts, get_most_liked_replies, get_most_recent_posts};
use community_store::state::{uuid, State};

const ID1: u64 = 18397679291040277274;
const ID2: u64 = 18348614512665970229;
const ID3: u64 = 18299549734290172384;
const ID4: u64 = 18250484955917356139;

fn principal(n: u128) -> Principal {
    Principal { len: 2, high: 0, low: 0x0100 + n }
}

fn canister() -> Principal {
    principal(0)
}

fn parent() -> Principal {
    principal(90)
}

fn ic(p: Principal) -> AuthenticationWithAddress {
    AuthenticationWithAddress::Ic(IcParams { principal: p })
}

fn evm(address: &str) -> Authentication {
    Authentication::Evm(EvmParams { address: address.to_string() })
}

fn empty_store() -> State {
    State::new(canister(), Some(parent()), Some("1.0".to_string()), Some("default".to_string()))
}

/// A store with an admin (principal 1) and two members (principals 2, 3).
fn store_with_members() -> State {
    let mut state = init(canister(), parent(), 5, Some(principal(1)), None, None);
    log_in(&mut state, principal(2), 6, Authentication::Ic);
    log_in(&mut state, principal(3), 7, Authentication::Ic);
    state
}

fn post(state: &mut State, author: Principal, now: u64, title: &str) -> u64 {
    create_post(state, author, now, title.to_string(), "text".to_string()).unwrap().post_id
}

fn reply(state: &mut State, author: Principal, now: u64, post_id: u64, text: &str) -> u64 {
    create_reply(state, author, now, post_id, text.to_string()).unwrap().reply_id
}

#[test]
fn ids_come_from_the_counter() {
    let mut state = empty_store();
    assert!(state.can_allocate());
    assert_eq!(uuid(&mut state), ID1);
    assert_eq!(uuid(&mut state), ID2);
    assert_eq!(state.ids.issued_count(), 2);
}

#[test]
fn an_empty_store_knows_nobody() {
    let state = empty_store();
    assert_eq!(profile_of(&state, &principal(1)), None);
    assert_eq!(get_user_roles(&state, &principal(1)), None);
    assert!(!is_admin(&state, &principal(1)));
    assert_eq!(get_profile(&state, principal(1)), Err(StoreError::ProfileNotFound));
    assert_eq!(get_posts(&state, principal(1)), Vec::new());
    assert_eq!(get_profile_by_auth(&state, &ic(principal(1))), None);
    assert_eq!(
        get_most_recent_posts(&state, &ic(principal(1))),
        Err(StoreError::ProfileNotFound)
    );
    assert_eq!(get_most_liked_posts(&state, &ic(principal(1))), Err(StoreError::ProfileNotFound));
    assert_eq!(
        get_most_liked_replies(&state, &ic(principal(1))),
        Err(StoreError::ProfileNotFound)
    );
}

#[test]
fn set_up_without_an_admin_leaves_the_store_empty() {
    let state = init(canister(), parent(), 5, None, Some("1.0".to_string()), None);
    assert_eq!(state.parent, Some(parent()));
    assert_eq!(state.version, Some("1.0".to_string()));
    assert_eq!(state.track, None);
    assert_eq!(state.profiles.len(), 0);
    assert_eq!(state.ledger.supply(), 0);
    assert_eq!(state.ids.issued_count(), 0);
}

#[test]
fn set_up_with_an_admin_gives_it_a_profile_a_role_and_a_token() {
    let admin = principal(1);
    let state = init(canister(), parent(), 5, Some(admin), None, None);
    assert_eq!(profile_of(&state, &admin), Some(ID1));
    assert_eq!(get_user_roles(&state, &admin), Some(vec![UserRole::Admin]));
    assert!(is_admin(&state, &admin));
    assert!(has_role(&state, ID1, UserRole::Admin));
    assert_eq!(state.roles.len(), 1);
    assert_eq!(state.roles.get(&ID2).unwrap().timestamp, 5);
    assert_eq!(state.ledger.owner_of(ID3 as u128), Some(default_account(&admin)));
    assert_eq!(state.ledger.transactions().len(), 1);
    assert_eq!(state.ids.issued_count(), 3);
    let profile = state.profiles.get(&ID1).unwrap();
    assert_eq!(
        *profile,
        Profile {
            name: String::new(),
            description: String::new(),
            authentication: Authentication::Ic,
            active_principal: admin,
            timestamp: 5,
            last_login: 5,
        }
    );
}

#[test]
fn the_metadata_needs_version_and_track() {
    let state = empty_store();
    let meta = get_metadata(&state).unwrap();
    assert_eq!(meta.version, "1.0");
    assert_eq!(meta.track, "default");
    let state = State::new(canister(), None, None, Some("default".to_string()));
    assert_eq!(get_metadata(&state), Err(StoreError::VersionNotSet));
    let state = State::new(canister(), None, Some("1.0".to_string()), None);
    assert_eq!(get_metadata(&state), Err(StoreError::TrackNotSet));
    let state = State::new(canister(), None, None, None);
    assert_eq!(get_metadata(&state), Err(StoreError::VersionNotSet));
}

#[test]
fn the_identity_of_a_principal_is_the_principal() {
    let p = principal(4);
    assert_eq!(get_authentication_with_address(&Authentication::Ic, &p), ic(p));
    assert_eq!(
        get_authentication_with_address(&evm("0xAb"), &p),
        AuthenticationWithAddress::Evm(EvmParams { address: "0xAb".to_string() })
    );
    let svm = Authentication::Svm(SvmParams { address: "So1".to_string() });
    assert_eq!(
        get_authentication_with_address(&svm, &p),
        AuthenticationWithAddress::Svm(SvmParams { address: "So1".to_string() })
    );
    assert!(ic(p).same(&ic(p)));
    assert!(!ic(p).same(&ic(principal(5))));
    assert!(!ic(p).same(&get_authentication_with_address(&evm("0xAb"), &p)));
    assert!(!get_authentication_with_address(&evm("0xAb"), &p)
        .same(&get_authentication_with_address(&evm("0xAc"), &p)));
    assert!(!get_authentication_with_address(&evm("So1"), &p)
        .same(&get_authentication_with_address(&svm, &p)));
}

#[test]
fn a_first_login_creates_the_profile() {
    let mut state = empty_store();
    let profile = log_in(&mut state, principal(1), 10, evm("0xAb"));
    assert_eq!(
        profile,
        Profile {
            name: String::new(),
            description: String::new(),
            authentication: evm("0xAb"),
            active_principal: principal(1),
            timestamp: 10,
            last_login: 10,
        }
    );
    assert_eq!(profile_of(&state, &principal(1)), Some(ID1));
    assert_eq!(state.profiles.len(), 1);
    assert_eq!(get_user_roles(&state, &principal(1)), Some(Vec::new()));
    let shown = get_profile(&state, principal(1)).unwrap();
    assert_eq!(shown.authentication, evm("0xAb"));
    assert_eq!(shown.active_principal, principal(1));
    assert_eq!(shown.roles, Vec::new());
}

#[test]
fn a_later_login_finds_the_profile_again() {
    let mut state = empty_store();
    log_in(&mut state, principal(1), 10, evm("0xAb"));
    let again = log_in(&mut state, principal(2), 20, evm("0xAb"));
    assert_eq!(again.active_principal, principal(2));
    assert_eq!(again.timestamp, 10);
    assert_eq!(again.last_login, 20);
    assert_eq!(again.authentication, evm("0xAb"));
    assert_eq!(state.profiles.len(), 1);
    assert_eq!(profile_of(&state, &principal(2)), Some(ID1));
    assert_eq!(profile_of(&state, &principal(1)), Some(ID1));
    assert_eq!(state.ids.issued_count(), 1);
}

#[test]
fn a_later_login_of_a_principal_keeps_the_principal() {
    let mut state = empty_store();
    log_in(&mut state, principal(1), 10, Authentication::Ic);
    let again = log_in(&mut state, principal(1), 20, Authentication::Ic);
    assert_eq!(again.active_principal, principal(1));
    assert_eq!(again.last_login, 20);
    assert_eq!(state.profiles.len(), 1);
    let other = log_in(&mut state, principal(2), 30, Authentication::Ic);
    assert_eq!(other.active_principal, principal(2));
    assert_eq!(state.profiles.len(), 2);
    assert_eq!(profile_of(&state, &principal(2)), Some(ID2));
}

#[test]
fn a_profile_by_principal_is_made_once() {
    let mut state = empty_store();
    assert_eq!(create_profile_by_principal(&mut state, &principal(1), 10), ID1);
    assert_eq!(create_profile_by_principal(&mut state, &principal(1), 11), ID1);
    assert_eq!(create_profile_by_principal(&mut state, &principal(2), 12), ID2);
    assert_eq!(state.profiles.get(&ID1).unwrap().last_login, 11);
}

#[test]
fn a_role_needs_a_profile() {
    let mut state = empty_store();
    assert_eq!(
        add_profile_role(&mut state, 77, UserRole::Admin, 1),
        Err(StoreError::ProfileNotFound)
    );
    assert_eq!(state.ids.issued_count(), 0);
    let id = create_profile_by_principal(&mut state, &principal(1), 10);
    assert!(!has_role(&state, id, UserRole::Admin));
    assert_eq!(add_profile_role(&mut state, id, UserRole::Admin, 11), Ok(ID2));
    assert!(has_role(&state, id, UserRole::Admin));
    assert!(is_admin(&state, &principal(1)));
    assert_eq!(add_profile_role(&mut state, id, UserRole::Admin, 12), Ok(ID3));
    assert_eq!(
        get_user_roles(&state, &principal(1)),
        Some(vec![UserRole::Admin, UserRole::Admin])
    );
}

#[test]
fn a_post_needs_a_profile() {
    let mut state = empty_store();
    assert_eq!(
        create_post(&mut state, principal(1), 10, "t".to_string(), "d".to_string()),
        Err(StoreError::ProfileNotFound)
    );
    assert_eq!(state.posts.len(), 0);
    assert_eq!(state.ids.issued_count(), 0);
}

#[test]
fn a_post_is_created_visible_and_summarised() {
    let mut state = empty_store();
    log_in(&mut state, principal(1), 10, evm("0xAb"));
    let summary =
        create_post(&mut state, principal(1), 20, "title".to_string(), "body".to_string());
    assert_eq!(
        summary,
        Ok(PostSummary {
            post_id: ID2,
            title: "title".to_string(),
            description: "body".to_string(),
            timestamp: 20,
            authentication: AuthenticationWithAddress::Evm(EvmParams {
                address: "0xAb".to_string()
            }),
            replies_count: 0,
            last_activity: 20,
            status: PostStatus::Visible,
        })
    );
    assert_eq!(
        state.posts.get(&ID2),
        Some(&Post {
            title: "title".to_string(),
            description: "body".to_string(),
            timestamp: 20,
            status: PostStatus::Visible
        })
    );
    assert_eq!(state.relations.profile_id_to_post_id.forward(ID1), vec![ID2]);
    let listed = get_posts(&state, principal(1));
    assert_eq!(listed.len(), 1);
    assert_eq!(listed[0].post_id, ID2);
    assert_eq!(listed[0].last_activity, 0);
    assert_eq!(listed[0].replies_count, 0);
}

#[test]
fn a_reply_needs_a_profile_and_a_post() {
    let mut state = store_with_members();
    assert_eq!(
        create_reply(&mut state, principal(8), 10, 1, "r".to_string()),
        Err(StoreError::ProfileNotFound)
    );
    assert_eq!(
        create_reply(&mut state, principal(2), 10, 1, "r".to_string()),
        Err(StoreError::PostNotFound)
    );
    assert_eq!(state.replies.len(), 0);
}

#[test]
fn a_reply_belongs_to_its_post_and_its_author() {
    let mut state = store_with_members();
    let p = post(&mut state, principal(2), 10, "a");
    let response = create_reply(&mut state, principal(3), 11, p, "hello".to_string()).unwrap();
    assert_eq!(response.text, "hello");
    assert_eq!(response.timestamp, 11);
    assert_eq!(response.status, ReplyStatus::Visible);
    assert_eq!(response.authentication, ic(principal(3)));
    assert_eq!(response.likes, Vec::new());
    let r = response.reply_id;
    assert_eq!(state.relations.reply_id_to_post_id.backward(p), vec![r]);
    assert_eq!(
        state.relations.profile_id_to_reply_id.backward(r),
        vec![profile_of(&state, &principal(3)).unwrap()]
    );
    let summary = post_summary(&state, p).unwrap();
    assert_eq!(summary.replies_count, 1);
    assert_eq!(summary.last_activity, 11);
    assert_eq!(summary.authentication, ic(principal(2)));
    assert_eq!(post_summary(&state, r), None);
}

#[test]
fn only_an_admin_hides_and_shows() {
    let mut state = store_with_members();
    let p = post(&mut state, principal(2), 10, "a");
    let r = reply(&mut state, principal(3), 11, p, "hello");
    assert_eq!(
        update_post_status(&mut state, principal(2), p, PostStatus::Hidden),
        Err(StoreError::Unauthorized)
    );
    assert_eq!(
        update_reply_status(&mut state, principal(8), r, ReplyStatus::Hidden),
        Err(StoreError::Unauthorized)
    );
    assert_eq!(state.posts.get(&p).unwrap().status, PostStatus::Visible);
    assert_eq!(
        update_post_status(&mut state, principal(1), 1, PostStatus::Hidden),
        Err(StoreError::PostNotFound)
    );
    assert_eq!(
        update_reply_status(&mut state, principal(1), 1, ReplyStatus::Hidden),
        Err(StoreError::ReplyNotFound)
    );
    assert_eq!(update_post_status(&mut state, principal(1), p, PostStatus::Hidden), Ok(()));
    assert_eq!(update_reply_status(&mut state, principal(1), r, ReplyStatus::Hidden), Ok(()));
    assert_eq!(state.posts.get(&p).unwrap().status, PostStatus::Hidden);
    assert_eq!(state.posts.get(&p).unwrap().title, "a");
    assert_eq!(state.replies.get(&r).unwrap().status, ReplyStatus::Hidden);
    assert_eq!(state.replies.get(&r).unwrap().text, "hello");
    assert_eq!(update_post_status(&mut state, principal(1), p, PostStatus::Visible), Ok(()));
    assert_eq!(state.posts.get(&p).unwrap().status, PostStatus::Visible);
}

#[test]
fn hidden_posts_are_shown_to_admins_only() {
    let mut state = store_with_members();
    let a = post(&mut state, principal(2), 10, "a");
    let b = post(&mut state, principal(2), 11, "b");
    update_post_status(&mut state, principal(1), a, PostStatus::Hidden).unwrap();
    let mut both = vec![a, b];
    both.sort();
    let seen_by = |state: &State, who| -> Vec<u64> {
        get_posts(state, who).iter().map(|s| s.post_id).collect()
    };
    assert_eq!(seen_by(&state, principal(1)), both);
    assert_eq!(seen_by(&state, principal(2)), vec![b]);
    assert_eq!(seen_by(&state, principal(8)), vec![b]);
    assert_eq!(get_post(&state, principal(2), a), Err(StoreError::Hidden));
    assert_eq!(get_post(&state, principal(1), a).unwrap().post_id, a);
    assert_eq!(get_post(&state, principal(2), 1), Err(StoreError::PostNotFound));
    assert_eq!(get_hidden_posts(&state, principal(2)), Err(StoreError::Unauthorized));
    let hidden = get_hidden_posts(&state, principal(1)).unwrap();
    assert_eq!(hidden.len(), 1);
    assert_eq!(hidden[0].post_id, a);
    assert_eq!(hidden[0].title, "a");
    assert_eq!(hidden[0].status, PostStatus::Hidden);
    assert_eq!(hidden[0].authentication, ic(principal(2)));
    assert_eq!(hidden[0].likes, Vec::new());
    assert_eq!(hidden[0].replies, Vec::new());
}

#[test]
fn hidden_replies_are_shown_to_admins_only() {
    let mut state = store_with_members();
    let p = post(&mut state, principal(2), 10, "a");
    let one = reply(&mut state, principal(3), 11, p, "one");
    let two = reply(&mut state, principal(3), 12, p, "two");
    update_reply_status(&mut state, principal(1), one, ReplyStatus::Hidden).unwrap();
    let mut both = vec![one, two];
    both.sort();
    let for_member: Vec<u64> =
        get_post(&state, principal(2), p).unwrap().replies.iter().map(|r| r.reply_id).collect();
    assert_eq!(for_member, vec![two]);
    let for_admin: Vec<u64> =
        get_post(&state, principal(1), p).unwrap().replies.iter().map(|r| r.reply_id).collect();
    assert_eq!(for_admin, both);
    assert_eq!(post_summary(&state, p).unwrap().replies_count, 1);
    assert_eq!(get_hidden_replies(&state, principal(3)), Err(StoreError::Unauthorized));
    let hidden = get_hidden_replies(&state, principal(1)).unwrap();
    assert_eq!(hidden.len(), 1);
    assert_eq!(hidden[0].0, p);
    assert_eq!(hidden[0].1.reply_id, one);
    assert_eq!(hidden[0].1.text, "one");
    assert_eq!(hidden[0].1.likes, Vec::new());
}

#[test]
fn the_last_activity_is_the_largest_time_among_the_replies() {
    let mut state = store_with_members();
    let p = post(&mut state, principal(2), 10, "a");
    assert_eq!(post_summary(&state, p).unwrap().last_activity, 0);
    reply(&mut state, principal(3), 50, p, "one");
    assert_eq!(post_summary(&state, p).unwrap().last_activity, 50);
    reply(&mut state, principal(3), 40, p, "two");
    assert_eq!(post_summary(&state, p).unwrap().last_activity, 50);
    let late = reply(&mut state, principal(2), 60, p, "three");
    assert_eq!(post_summary(&state, p).unwrap().last_activity, 60);
    update_reply_status(&mut state, principal(1), late, ReplyStatus::Hidden).unwrap();
    assert_eq!(post_summary(&state, p).unwrap().last_activity, 60);
    assert_eq!(post_summary(&state, p).unwrap().replies_count, 2);
    let other = post(&mut state, principal(2), 11, "b");
    reply(&mut state, principal(3), 5, other, "early");
    assert_eq!(post_summary(&state, other).unwrap().last_activity, 5);
    assert_eq!(post_summary(&state, p).unwrap().last_activity, 60);
}

#[test]
fn a_like_needs_a_profile_a_target_and_no_like_yet() {
    let mut state = store_with_members();
    let p = post(&mut state, principal(2), 10, "a");
    let r = reply(&mut state, principal(2), 11, p, "one");
    assert_eq!(like_post(&mut state, principal(8), 12, p), Err(StoreError::ProfileNotFound));
    assert_eq!(like_post(&mut state, principal(3), 12, 1), Err(StoreError::PostNotFound));
    assert_eq!(like_reply(&mut state, principal(8), 12, r), Err(StoreError::ProfileNotFound));
    assert_eq!(like_reply(&mut state, principal(3), 12, 1), Err(StoreError::ReplyNotFound));
    let before = state.ids.issued_count();
    let l = like_post(&mut state, principal(3), 12, p).unwrap();
    assert_eq!(state.ids.issued_count(), before + 1);
    assert_eq!(like_post(&mut state, principal(3), 13, p), Err(StoreError::AlreadyLiked));
    let m = like_reply(&mut state, principal(3), 12, r).unwrap();
    assert_eq!(like_reply(&mut state, principal(3), 13, r), Err(StoreError::AlreadyLiked));
    assert_eq!(state.liked_posts.get(&l).unwrap().timestamp, 12);
    assert_eq!(state.liked_replies.get(&m).unwrap().timestamp, 12);
    assert_eq!(likes_on_post(&state, p), vec![(l, ic(principal(3)))]);
    let shown = get_post(&state, principal(2), p).unwrap();
    assert_eq!(shown.likes, vec![(l, ic(principal(3)))]);
    assert_eq!(shown.replies.len(), 1);
    assert_eq!(shown.replies[0].likes, vec![(m, ic(principal(3)))]);
    assert_eq!(shown.replies[0].authentication, ic(principal(2)));
    assert!(state.indexes.has_liked_post.contains(&(profile_of(&state, &principal(3)).unwrap(), p)));
}

#[test]
fn a_like_is_taken_back_by_its_giver_only() {
    let mut state = store_with_members();
    let p = post(&mut state, principal(2), 10, "a");
    let r = reply(&mut state, principal(2), 11, p, "one");
    let l = like_post(&mut state, principal(3), 12, p).unwrap();
    let m = like_reply(&mut state, principal(3), 12, r).unwrap();
    assert_eq!(unlike_post(&mut state, principal(3), 1), Err(StoreError::LikeNotFound));
    assert_eq!(unlike_reply(&mut state, principal(3), 1), Err(StoreError::LikeNotFound));
    assert_eq!(unlike_post(&mut state, principal(2), l), Err(StoreError::Unauthorized));
    assert_eq!(unlike_post(&mut state, principal(8), l), Err(StoreError::Unauthorized));
    assert_eq!(unlike_reply(&mut state, principal(1), m), Err(StoreError::Unauthorized));
    assert_eq!(likes_on_post(&state, p).len(), 1);
    assert_eq!(unlike_post(&mut state, principal(3), l), Ok(()));
    assert_eq!(unlike_reply(&mut state, principal(3), m), Ok(()));
    assert_eq!(likes_on_post(&state, p), Vec::new());
    assert_eq!(state.liked_posts.len(), 0);
    assert_eq!(state.liked_replies.len(), 0);
    assert!(state.indexes.has_liked_post.is_empty());
    assert!(state.indexes.has_liked_reply.is_empty());
    assert_eq!(unlike_post(&mut state, principal(3), l), Err(StoreError::LikeNotFound));
    assert!(like_post(&mut state, principal(3), 13, p).is_ok());
}

#[test]
fn the_most_liked_posts_follow_likes_and_unlikes() {
    let mut state = store_with_members();
    for n in 4..8 {
        log_in(&mut state, principal(n), 8, Authentication::Ic);
    }
    let author = principal(2);
    let first = post(&mut state, author, 10, "one");
    let second = post(&mut state, author, 11, "two");
    let a = like_post(&mut state, principal(3), 20, first).unwrap();
    let b = like_post(&mut state, principal(4), 20, first).unwrap();
    like_post(&mut state, principal(5), 20, first).unwrap();
    like_post(&mut state, principal(6), 20, second).unwrap();
    let ranked = |state: &State| -> Vec<u64> {
        get_most_liked_posts(state, &ic(author)).unwrap().iter().map(|p| p.post_id).collect()
    };
    assert_eq!(ranked(&state), vec![first, second]);
    let shown = get_most_liked_posts(&state, &ic(author)).unwrap();
    assert_eq!(shown[0].likes.len(), 3);
    assert_eq!(shown[1].likes.len(), 1);
    assert_eq!(shown[0].replies, Vec::new());
    assert_eq!(shown[0].title, "one");
    unlike_post(&mut state, principal(3), a).unwrap();
    unlike_post(&mut state, principal(4), b).unwrap();
    like_post(&mut state, principal(7), 21, second).unwrap();
    assert_eq!(ranked(&state), vec![second, first]);
    let author_id = profile_of(&state, &author).unwrap();
    assert_eq!(state.indexes.most_liked_posts.count_of(author_id, first), Some(1));
    assert_eq!(state.indexes.most_liked_posts.count_of(author_id, second), Some(2));
    assert_eq!(get_most_liked_posts(&state, &ic(principal(3))), Ok(Vec::new()));
}

#[test]
fn a_post_without_likes_leaves_the_ranking() {
    let mut state = store_with_members();
    let p = post(&mut state, principal(2), 10, "one");
    assert_eq!(get_most_liked_posts(&state, &ic(principal(2))), Ok(Vec::new()));
    let l = like_post(&mut state, principal(3), 20, p).unwrap();
    assert_eq!(get_most_liked_posts(&state, &ic(principal(2))).unwrap().len(), 1);
    unlike_post(&mut state, principal(3), l).unwrap();
    assert_eq!(get_most_liked_posts(&state, &ic(principal(2))), Ok(Vec::new()));
}

#[test]
fn posts_with_as_many_likes_rank_by_id() {
    let mut state = store_with_members();
    let first = post(&mut state, principal(2), 10, "one");
    let second = post(&mut state, principal(2), 11, "two");
    like_post(&mut state, principal(3), 20, first).unwrap();
    like_post(&mut state, principal(3), 20, second).unwrap();
    let mut by_id = vec![first, second];
    by_id.sort();
    let ranked: Vec<u64> = get_most_liked_posts(&state, &ic(principal(2)))
        .unwrap()
        .iter()
        .map(|p| p.post_id)
        .collect();
    assert_eq!(ranked, by_id);
}

#[test]
fn the_most_liked_replies_come_with_their_posts() {
    let mut state = store_with_members();
    let p = post(&mut state, principal(3), 10, "one");
    let one = reply(&mut state, principal(2), 11, p, "a");
    let two = reply(&mut state, principal(2), 12, p, "b");
    like_reply(&mut state, principal(3), 20, two).unwrap();
    like_reply(&mut state, principal(1), 20, two).unwrap();
    let l = like_reply(&mut state, principal(1), 20, one).unwrap();
    let ranked = get_most_liked_replies(&state, &ic(principal(2))).unwrap();
    assert_eq!(ranked.len(), 2);
    assert_eq!(ranked[0].0, p);
    assert_eq!(ranked[0].1.reply_id, two);
    assert_eq!(ranked[0].1.likes.len(), 2);
    assert_eq!(ranked[1].1.reply_id, one);
    assert_eq!(ranked[1].1.likes, vec![(l, ic(principal(1)))]);
    assert_eq!(ranked[1].1.text, "a");
}

#[test]
fn only_ten_of_the_most_liked_are_returned() {
    let mut state = store_with_members();
    let mut posts = Vec::new();
    for n in 0..12 {
        let p = post(&mut state, principal(2), 10 + n, "p");
        like_post(&mut state, principal(3), 50, p).unwrap();
        posts.push(p);
    }
    posts.sort();
    let ranked: Vec<u64> = get_most_liked_posts(&state, &ic(principal(2)))
        .unwrap()
        .iter()
        .map(|p| p.post_id)
        .collect();
    assert_eq!(ranked, posts[0..10].to_vec());
}

#[test]
fn the_most_recent_posts_are_the_newest_ten() {
    let mut state = store_with_members();
    let mut written = Vec::new();
    for n in 0..12u64 {
        written.push((post(&mut state, principal(2), 100 + n, "p"), 100 + n));
    }
    post(&mut state, principal(3), 500, "other");
    let recent = get_most_recent_posts(&state, &ic(principal(2))).unwrap();
    let listed: Vec<(u64, u64)> = recent.iter().map(|s| (s.post_id, s.timestamp)).collect();
    written.reverse();
    assert_eq!(listed, written[0..10].to_vec());
    assert_eq!(get_most_recent_posts(&state, &ic(principal(1))), Ok(Vec::new()));
}

#[test]
fn the_most_recent_posts_of_one_time_go_by_id() {
    let mut state = store_with_members();
    let first = post(&mut state, principal(2), 100, "a");
    let second = post(&mut state, principal(2), 100, "b");
    let third = post(&mut state, principal(2), 0, "c");
    let mut same = vec![first, second];
    same.sort();
    let listed: Vec<u64> = get_most_recent_posts(&state, &ic(principal(2)))
        .unwrap()
        .iter()
        .map(|s| s.post_id)
        .collect();
    assert_eq!(listed, vec![same[0], same[1], third]);
}

#[test]
fn the_most_recent_posts_leave_hidden_ones_out_unless_the_author_is_an_admin() {
    let mut state = store_with_members();
    let first = post(&mut state, principal(2), 100, "a");
    let second = post(&mut state, principal(2), 101, "b");
    let other = post(&mut state, principal(1), 100, "a");
    update_post_status(&mut state, principal(1), first, PostStatus::Hidden).unwrap();
    update_post_status(&mut state, principal(1), other, PostStatus::Hidden).unwrap();
    let of = |state: &State, who| -> Vec<u64> {
        get_most_recent_posts(state, &ic(who)).unwrap().iter().map(|s| s.post_id).collect()
    };
    assert_eq!(of(&state, principal(2)), vec![second]);
    assert_eq!(of(&state, principal(1)), vec![other]);
}

#[test]
fn the_statistics_of_a_profile_count_what_it_did() {
    let mut state = store_with_members();
    let p = post(&mut state, principal(2), 10, "a");
    post(&mut state, principal(2), 11, "b");
    let r = reply(&mut state, principal(2), 12, p, "r");
    reply(&mut state, principal(3), 13, p, "s");
    like_post(&mut state, principal(2), 14, p).unwrap();
    like_reply(&mut state, principal(2), 15, r).unwrap();
    let stats = get_profile_by_auth(&state, &ic(principal(2))).unwrap();
    assert_eq!(stats.total_posts, 2);
    assert_eq!(stats.total_replies, 1);
    assert_eq!(stats.total_likes, 2);
    assert_eq!(stats.join_date, 6);
    assert_eq!(stats.last_login, 6);
    assert_eq!(stats.roles, Vec::new());
    assert_eq!(stats.active_principal, principal(2));
    let admin = get_profile_by_auth(&state, &ic(principal(1))).unwrap();
    assert_eq!(admin.roles, vec![UserRole::Admin]);
    assert_eq!(admin.total_posts, 0);
    assert_eq!(admin.total_likes, 0);
}

fn mint_arg(to: Principal, token_id: u128) -> MintArg {
    MintArg {
        from_subaccount: None,
        to: Account { owner: to, subaccount: None },
        token_id: Some(token_id),
        memo: None,
        token_name: None,
        token_description: None,
        token_logo: None,
    }
}

#[test]
fn the_ledger_is_administered_by_controllers_and_admins() {
    let mut state = store_with_members();
    assert!(authorize(&state, &principal(1), false));
    assert!(authorize(&state, &principal(2), true));
    assert!(!authorize(&state, &principal(2), false));
    assert!(!authorize(&state, &principal(8), false));
    assert_eq!(
        mint(&mut state, principal(2), false, 10, &mint_arg(principal(2), 7)),
        Err(MintError::Unauthorized)
    );
    assert_eq!(mint(&mut state, principal(1), false, 10, &mint_arg(principal(2), 7)), Ok(2));
    assert_eq!(mint(&mut state, principal(3), true, 10, &mint_arg(principal(3), 8)), Ok(3));
    assert_eq!(
        mint(&mut state, Principal::anonymous(), true, 10, &mint_arg(principal(4), 9)),
        Err(MintError::AnonymousCaller)
    );
    assert_eq!(state.ledger.supply(), 3);
}

#[test]
fn a_batch_of_mints_by_the_anonymous_caller_changes_nothing() {
    let mut state = store_with_members();
    let before = state.ledger.supply();
    let results = mint_batch(
        &mut state,
        Principal::anonymous(),
        true,
        10,
        vec![mint_arg(principal(2), 7), mint_arg(principal(3), 8), mint_arg(principal(4), 9)],
    );
    let rejected = Some(Err(MintError::BatchRejected { reason: BatchRejection::AnonymousCaller }));
    assert_eq!(results, vec![rejected, rejected, rejected]);
    assert_eq!(state.ledger.supply(), before);
    assert_eq!(state.ledger.transactions().len(), 1);
}

#[test]
fn transfers_and_burns_go_through_the_policy() {
    let mut state = store_with_members();
    assert_eq!(mint(&mut state, principal(1), false, 10, &mint_arg(principal(2), 7)), Ok(2));
    let to_three = TransferArg {
        from_subaccount: None,
        to: Account { owner: principal(3), subaccount: None },
        token_id: 7,
        memo: None,
        created_at_time: None,
    };
    assert_eq!(
        icrc7_transfer(&mut state, principal(2), false, 11, vec![to_three.clone()]),
        vec![Some(Err(TransferError::BatchRejected {
            reason: BatchRejection::UnauthorizedCaller
        }))]
    );
    assert_eq!(
        icrc7_transfer(&mut state, principal(2), true, 11, vec![to_three]),
        vec![Some(Ok(3))]
    );
    let burn_seven = BurnArg { from_subaccount: None, token_id: 7, memo: None };
    assert_eq!(
        burn(&mut state, principal(3), false, 12, vec![burn_seven.clone()]),
        vec![Some(Err(BurnError::BatchRejected { reason: BatchRejection::UnauthorizedCaller }))]
    );
    assert_eq!(burn(&mut state, principal(3), true, 12, vec![burn_seven]), vec![Some(Ok(4))]);
    assert_eq!(state.ledger.owner_of(7), None);
    assert_eq!(
        mint(&mut state, principal(1), false, 13, &mint_arg(principal(3), 7)),
        Err(MintError::TokenIdAlreadyExist)
    );
}

#[test]
fn the_first_token_goes_to_the_admin() {
    let mut state = empty_store();
    assert_eq!(add_icrc7_token(&mut state, &principal(1), parent(), 5), Ok(1));
    assert_eq!(state.ledger.owner_of(ID1 as u128), Some(default_account(&principal(1))));
    assert_eq!(
        add_icrc7_token(&mut state, &principal(1), parent(), 6),
        Err(MintError::AlreadyHeld)
    );
    assert_eq!(state.ids.issued_count(), 2);
    assert_eq!(ID4, 18250484955917356139);
}

#[test]
fn a_profile_is_renamed_and_keeps_the_rest() {
    let mut state = empty_store();
    log_in(&mut state, principal(1), 10, evm("0xAb"));
    assert_eq!(
        update_profile(&mut state, principal(8), Some("n".to_string()), None),
        Err(StoreError::ProfileNotFound)
    );
    let renamed = update_profile(&mut state, principal(1), Some("Ada".to_string()), None).unwrap();
    assert_eq!(renamed.name, "Ada");
    assert_eq!(renamed.description, "");
    let described =
        update_profile(&mut state, principal(1), None, Some("writes".to_string())).unwrap();
    assert_eq!(
        described,
        Profile {
            name: "Ada".to_string(),
            description: "writes".to_string(),
            authentication: evm("0xAb"),
            active_principal: principal(1),
            timestamp: 10,
            last_login: 10,
        }
    );
    assert_eq!(update_profile(&mut state, principal(1), None, None), Ok(described));
    assert_eq!(profile_of(&state, &principal(1)), Some(ID1));
    assert_eq!(state.profiles.len(), 1);
}
