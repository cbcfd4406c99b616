use vstd::prelude::*;

verus! {

/// A user profile; immutable once stored.
pub struct User {
    pub id: String,
    pub username: String,
    pub profile_picture: String,
}

/// A post record. Its like and reply counts are a cached copy of the
/// authoritative counters kept by the store.
pub struct Post {
    pub id: String,
    pub user_id: String,
    pub content: String,
    pub image_url: Option<String>,
    pub video_url: Option<String>,
    pub timestamp: u64,
    pub like_count: u32,
    pub reply_count: u32,
}

/// A reference to a post inside a user's precomputed feed.
pub struct NewsFeedItem {
    pub post_id: String,
    pub timestamp: u64,
}

/// One fan-out job: a post, its author, and the follower set captured when
/// the job was built.
pub struct FanoutMessage {
    pub post_id: String,
    pub user_id: String,
    pub friend_ids: Vec<String>,
}

/// The public part of an author's profile, joined into a feed entry.
pub struct Author {
    pub username: String,
    pub profile_picture: String,
}

/// Authoritative per-post counters.
#[derive(Clone, Copy, PartialEq, Eq, Structural)]
pub struct Counters {
    pub likes: u32,
    pub replies: u32,
}

/// A feed entry resolved against the store for one viewer.
pub struct HydratedPost {
    pub post: Post,
    pub author: Option<Author>,
    pub liked: bool,
}

/// A copy of an optional string.
pub fn copy_opt(s: &Option<String>) -> (r: Option<String>)
    ensures
        r == *s,
{
    match s {
        Some(v) => Some(v.clone()),
        None => None,
    }
}

impl User {
    pub fn copied(&self) -> (r: User)
        ensures
            r == *self,
    {
        User {
            id: self.id.clone(),
            username: self.username.clone(),
            profile_picture: self.profile_picture.clone(),
        }
    }
}

impl Post {
    pub fn copied(&self) -> (r: Post)
        ensures
            r == *self,
    {
        Post {
            id: self.id.clone(),
            user_id: self.user_id.clone(),
            content: self.content.clone(),
            image_url: copy_opt(&self.image_url),
            video_url: copy_opt(&self.video_url),
            timestamp: self.timestamp,
            like_count: self.like_count,
            reply_count: self.reply_count,
        }
    }
}

impl NewsFeedItem {
    pub fn copied(&self) -> (r: NewsFeedItem)
        ensures
            r == *self,
    {
        NewsFeedItem { post_id: self.post_id.clone(), timestamp: self.timestamp }
    }
}

} // verus!
