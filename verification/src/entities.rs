//! The records that the store keeps and the answers that it gives.

use crate::identity::{Authentication, AuthenticationWithAddress, Principal};
use vstd::prelude::*;

verus! {

#[derive(Debug, PartialEq, Eq)]
pub struct Profile {
    pub name: String,
    pub description: String,
    pub authentication: Authentication,
    pub active_principal: Principal,
    pub timestamp: u64,
    pub last_login: u64,
}

#[derive(Clone, Copy, Debug, PartialEq, Eq, Structural)]
pub enum PostStatus {
    Visible,
    Hidden,
}

#[derive(Debug, PartialEq, Eq)]
pub struct Post {
    pub title: String,
    pub description: String,
    pub timestamp: u64,
    pub status: PostStatus,
}

#[derive(Clone, Copy, Debug, PartialEq, Eq, Structural)]
pub enum ReplyStatus {
    Visible,
    Hidden,
}

#[derive(Debug, PartialEq, Eq)]
pub struct Reply {
    pub text: String,
    pub timestamp: u64,
    pub status: ReplyStatus,
}

#[derive(Clone, Copy, Debug, PartialEq, Eq, Structural)]
pub enum UserRole {
    Admin,
}

#[derive(Clone, Copy, Debug, PartialEq, Eq, Structural)]
pub struct Role {
    pub timestamp: u64,
    pub role: UserRole,
}

#[derive(Clone, Copy, Debug, PartialEq, Eq, Structural)]
pub struct LikedPost {
    pub timestamp: u64,
}

#[derive(Clone, Copy, Debug, PartialEq, Eq, Structural)]
pub struct LikedReply {
    pub timestamp: u64,
}

#[derive(Debug, PartialEq, Eq)]
pub struct Metadata {
    pub version: String,
    pub track: String,
}

#[derive(Debug, PartialEq, Eq)]
pub struct ReplyResponse {
    pub text: String,
    pub timestamp: u64,
    pub authentication: AuthenticationWithAddress,
    pub reply_id: u64,
    pub likes: Vec<(u64, AuthenticationWithAddress)>,
    pub status: ReplyStatus,
}

#[derive(Debug, PartialEq, Eq)]
pub struct PostResponse {
    pub title: String,
    pub post_id: u64,
    pub description: String,
    pub authentication: AuthenticationWithAddress,
    pub likes: Vec<(u64, AuthenticationWithAddress)>,
    pub timestamp: u64,
    pub status: PostStatus,
    pub replies: Vec<ReplyResponse>,
}

#[derive(Debug, PartialEq, Eq)]
pub struct ProfileWithStatsResponse {
    pub name: String,
    pub description: String,
    pub authentication: Authentication,
    pub active_principal: Principal,
    pub roles: Vec<UserRole>,
    pub last_login: u64,
    pub join_date: u64,
    pub total_posts: u64,
    pub total_replies: u64,
    pub total_likes: u64,
}

#[derive(Debug, PartialEq, Eq)]
pub struct ProfileResponse {
    pub name: String,
    pub description: String,
    pub authentication: Authentication,
    pub active_principal: Principal,
    pub roles: Vec<UserRole>,
}

#[derive(Debug, PartialEq, Eq)]
pub struct PostSummary {
    pub post_id: u64,
    pub title: String,
    pub description: String,
    pub timestamp: u64,
    pub authentication: AuthenticationWithAddress,
    pub replies_count: u64,
    pub last_activity: u64,
    pub status: PostStatus,
}

/// Why the store turned a request down.
#[derive(Clone, Copy, Debug, PartialEq, Eq, Structural)]
pub enum StoreError {
    /// The caller has no profile.
    ProfileNotFound,
    /// There is no post with the id.
    PostNotFound,
    /// There is no reply with the id.
    ReplyNotFound,
    /// There is no like with the id.
    LikeNotFound,
    /// The caller does not hold the role that the action asks for, or
    /// does not own what it wants to change.
    Unauthorized,
    /// The caller likes the post or reply already.
    AlreadyLiked,
    /// The post is hidden from the caller.
    Hidden,
    /// The store does not know which version it runs.
    VersionNotSet,
    /// The store does not know which track it follows.
    TrackNotSet,
}

impl Clone for Profile {
    fn clone(&self) -> (r: Self)
        ensures
            r == *self,
    {
        Profile {
            name: self.name.clone(),
            description: self.description.clone(),
            authentication: self.authentication.clone(),
            active_principal: self.active_principal,
            timestamp: self.timestamp,
            last_login: self.last_login,
        }
    }
}

impl Clone for Post {
    fn clone(&self) -> (r: Self)
        ensures
            r == *self,
    {
        Post {
            title: self.title.clone(),
            description: self.description.clone(),
            timestamp: self.timestamp,
            status: self.status,
        }
    }
}

impl Clone for Reply {
    fn clone(&self) -> (r: Self)
        ensures
            r == *self,
    {
        Reply { text: self.text.clone(), timestamp: self.timestamp, status: self.status }
    }
}

impl Clone for Metadata {
    fn clone(&self) -> (r: Self)
        ensures
            r == *self,
    {
        Metadata { version: self.version.clone(), track: self.track.clone() }
    }
}

} // verus!
