use vstd::prelude::*;
use vstd::string::StringExecFns;
use crate::store::{distinct_ids, ids_of, prepend_bounded, CacheLayer};
use crate::types::{copy_opt, Author, FanoutMessage, HydratedPost, NewsFeedItem, Post};

verus! {

/// Relies on uuid::Uuid::new_v4 and its Display impl: a fresh random
/// identifier, written in hyphenated form, which is 36 characters long.
/// new_v4 panics only where the system gives no random bytes.
#[verifier::external_body]
fn new_uuid_string() -> (r: String)
    ensures
        r@.len() == 36,
{
    uuid::Uuid::new_v4().to_string()
}

/// Relies on std::time::SystemTime::now: the wall-clock time in milliseconds
/// since the Unix epoch (zero for a clock set before it). Nothing is stated
/// of the value.
#[verifier::external_body]
fn now_millis() -> u64 {
    match std::time::SystemTime::now().duration_since(std::time::UNIX_EPOCH) {
        Ok(d) => d.as_millis() as u64,
        Err(_) => 0,
    }
}

/// A new post with identifier `post_<suffix>`, the given time, and no likes
/// or replies yet.
pub fn build_post(
    suffix: &str,
    timestamp: u64,
    user_id: &str,
    content: &str,
    image_url: Option<String>,
    video_url: Option<String>,
) -> (r: Post)
    ensures
        r.id@ == "post_"@ + suffix@,
        r.user_id@ == user_id@,
        r.content@ == content@,
        r.image_url == image_url,
        r.video_url == video_url,
        r.timestamp == timestamp,
        r.like_count == 0,
        r.reply_count == 0,
{
    Post {
        id: "post_".to_owned().concat(suffix),
        user_id: user_id.to_owned(),
        content: content.to_owned(),
        image_url,
        video_url,
        timestamp,
        like_count: 0,
        reply_count: 0,
    }
}

/// Creates a post with a fresh random identifier and the current time, and
/// stores it.
pub fn create_post(
    cache: &mut CacheLayer,
    user_id: &str,
    content: &str,
    image_url: Option<String>,
    video_url: Option<String>,
) -> (r: Post)
    requires
        old(cache).wf(),
    ensures
        final(cache).wf(),
        r.id@.len() == 41,
        r.id@.subrange(0, 5) == "post_"@,
        r.user_id@ == user_id@,
        r.content@ == content@,
        r.image_url == image_url,
        r.video_url == video_url,
        r.like_count == 0,
        r.reply_count == 0,
        final(cache).post_of(r.id@) == Some(r),
        forall|p: Seq<char>| p != r.id@ ==> #[trigger] final(cache).post_of(p) == old(cache).post_of(p),
        final(cache).same_feeds(old(cache)),
        final(cache).same_users(old(cache)),
        final(cache).same_graph(old(cache)),
        final(cache).same_likes(old(cache)),
{
    let suffix = new_uuid_string();
    let timestamp = now_millis();
    let post = build_post(suffix.as_str(), timestamp, user_id, content, image_url, video_url);
    proof {
        reveal_strlit("post_");
        assert(post.id@.subrange(0, 5) =~= "post_"@);
    }
    cache.set_post(post.copied());
    post
}

/// The fan-out job for a new post: `None` where the author has no
/// followers, else the post, the author and the followers as they are now.
pub fn plan_fanout(cache: &CacheLayer, post_id: &str, user_id: &str) -> (r: Option<FanoutMessage>)
    requires
        cache.wf(),
    ensures
        r is None <==> cache.followers_of(user_id@) == Set::<Seq<char>>::empty(),
        r matches Some(m) ==> m.post_id@ == post_id@ && m.user_id@ == user_id@
            && ids_of(m.friend_ids@) == cache.followers_of(user_id@)
            && distinct_ids(m.friend_ids@),
{
    let followers = cache.get_followers(user_id);
    if followers.len() == 0 {
        assert(ids_of(followers@) =~= Set::empty());
        None
    } else {
        assert(ids_of(followers@).contains(followers@[0]@));
        Some(FanoutMessage {
            post_id: post_id.to_owned(),
            user_id: user_id.to_owned(),
            friend_ids: followers,
        })
    }
}

/// The feed entry that a fan-out job puts in each follower's feed.
pub open spec fn fanout_item(m: &FanoutMessage, timestamp: u64) -> NewsFeedItem {
    NewsFeedItem { post_id: m.post_id, timestamp }
}

/// Carries out one fan-out job: one entry, stamped once, goes in front of
/// the feed of every follower in the job.
pub fn process_fanout(cache: &mut CacheLayer, message: &FanoutMessage, timestamp: u64)
    requires
        old(cache).wf(),
        distinct_ids(message.friend_ids@),
    ensures
        final(cache).wf(),
        forall|u: Seq<char>| #[trigger] final(cache).feed_of(u) == if ids_of(message.friend_ids@).contains(u) {
            prepend_bounded(old(cache).feed_of(u), fanout_item(message, timestamp))
        } else {
            old(cache).feed_of(u)
        },
        final(cache).same_posts(old(cache)),
        final(cache).same_users(old(cache)),
        final(cache).same_graph(old(cache)),
        final(cache).same_likes(old(cache)),
{
    let ghost start = *cache;
    proof {
        crate::store::lemma_same_refl(&start);
    }
    let friends = &message.friend_ids;
    let mut i: usize = 0;
    while i < friends.len()
        invariant
            i <= friends@.len(),
            cache.wf(),
            distinct_ids(friends@),
            friends == &message.friend_ids,
            forall|u: Seq<char>| #[trigger] cache.feed_of(u) == if ids_of(friends@.take(i as int)).contains(u) {
                prepend_bounded(start.feed_of(u), fanout_item(message, timestamp))
            } else {
                start.feed_of(u)
            },
            cache.same_posts(&start),
            cache.same_users(&start),
            cache.same_graph(&start),
            cache.same_likes(&start),
        decreases friends.len() - i,
    {
        let item = NewsFeedItem { post_id: message.post_id.clone(), timestamp };
        let ghost before = *cache;
        let ghost f = friends@[i as int]@;
        assert(!ids_of(friends@.take(i as int)).contains(f));
        cache.add_to_news_feed(friends[i].as_str(), item);
        proof {
            crate::store::lemma_same_trans(cache, &before, &start);
        }
        assert forall|u: Seq<char>| #[trigger] cache.feed_of(u) == if ids_of(friends@.take(i + 1)).contains(u) {
            prepend_bounded(start.feed_of(u), fanout_item(message, timestamp))
        } else {
            start.feed_of(u)
        } by {
            assert(friends@.take(i + 1)[i as int]@ == f);
            if u != f {
                if ids_of(friends@.take(i + 1)).contains(u) {
                    let j = choose|j: int| 0 <= j < i + 1 && #[trigger] friends@.take(i + 1)[j]@ == u;
                    assert(friends@.take(i as int)[j]@ == u);
                }
                if ids_of(friends@.take(i as int)).contains(u) {
                    let j = choose|j: int| 0 <= j < i && #[trigger] friends@.take(i as int)[j]@ == u;
                    assert(friends@.take(i + 1)[j]@ == u);
                }
            }
        }
        i = i + 1;
    }
    assert(friends@.take(i as int) =~= friends@);
}

/// The worker that receives the job after the one given to `worker_id`.
pub fn next_worker(worker_id: usize, worker_count: usize) -> (r: usize)
    requires
        worker_id < worker_count,
    ensures
        r == (worker_id + 1) % (worker_count as int),
        r < worker_count,
{
    (worker_id + 1) % worker_count
}

/// One feed entry resolved for `viewer`: the post with its live counters,
/// its author's profile where one is stored, and the viewer's like flag;
/// `None` where the post does not resolve.
pub open spec fn hydrate_item(c: &CacheLayer, viewer: Seq<char>, item: NewsFeedItem) -> Option<HydratedPost> {
    match c.post_of(item.post_id@) {
        None => None,
        Some(p) => Some(HydratedPost {
            post: Post {
                like_count: c.counters_of(p.id@).likes,
                reply_count: c.counters_of(p.id@).replies,
                ..p
            },
            author: match c.user_of(p.user_id@) {
                Some(u) => Some(Author { username: u.username, profile_picture: u.profile_picture }),
                None => None,
            },
            liked: c.liked(viewer, p.id@),
        }),
    }
}

/// The entries of `items` that resolve, hydrated, in their order.
pub open spec fn hydrate(c: &CacheLayer, viewer: Seq<char>, items: Seq<NewsFeedItem>) -> Seq<HydratedPost>
    decreases items.len(),
{
    if items.len() == 0 {
        Seq::empty()
    } else {
        let rest = hydrate(c, viewer, items.drop_last());
        match hydrate_item(c, viewer, items.last()) {
            Some(h) => rest.push(h),
            None => rest,
        }
    }
}

/// The first `limit` entries of the feed of `u`, or all of them where there
/// are fewer.
pub open spec fn feed_window(c: &CacheLayer, u: Seq<char>, limit: usize) -> Seq<NewsFeedItem> {
    let feed = c.feed_of(u);
    feed.take(if limit < feed.len() { limit as int } else { feed.len() as int })
}

/// The entries of `items` whose post is stored, in their order.
pub open spec fn resolved(c: &CacheLayer, items: Seq<NewsFeedItem>) -> Seq<NewsFeedItem>
    decreases items.len(),
{
    if items.len() == 0 {
        Seq::empty()
    } else {
        let rest = resolved(c, items.drop_last());
        if c.post_of(items.last().post_id@) is Some {
            rest.push(items.last())
        } else {
            rest
        }
    }
}

/// The hydrated entries are the resolvable entries, one for one: each
/// carries the stored post under the entry's identifier, with the live
/// counters in place of the cached counts.
pub proof fn lemma_hydrated_posts(c: &CacheLayer, viewer: Seq<char>, items: Seq<NewsFeedItem>)
    requires
        c.wf(),
    ensures
        hydrate(c, viewer, items).len() == resolved(c, items).len(),
        resolved(c, items).len() <= items.len(),
        forall|j: int| 0 <= j < resolved(c, items).len() ==> {
            let h = #[trigger] hydrate(c, viewer, items)[j];
            let e = resolved(c, items)[j];
            &&& h.post.id@ == e.post_id@
            &&& c.post_of(e.post_id@) == Some(Post {
                like_count: c.post_of(e.post_id@).unwrap().like_count,
                reply_count: c.post_of(e.post_id@).unwrap().reply_count,
                ..h.post
            })
            &&& h.post.like_count == c.counters_of(e.post_id@).likes
            &&& h.post.reply_count == c.counters_of(e.post_id@).replies
        },
    decreases items.len(),
{
    crate::store::lemma_post_ids_match_keys(c);
    if items.len() > 0 {
        lemma_hydrated_posts(c, viewer, items.drop_last());
    }
}

/// The feed of `user_id` as they see it: its `limit` most recent entries,
/// newest first, each resolved against the store; entries whose post is
/// gone are left out.
pub fn get_news_feed(cache: &CacheLayer, user_id: &str, limit: usize) -> (r: Vec<HydratedPost>)
    requires
        cache.wf(),
    ensures
        r@ == hydrate(cache, user_id@, feed_window(cache, user_id@, limit)),
        r@.len() == resolved(cache, feed_window(cache, user_id@, limit)).len(),
        r@.len() <= limit,
        forall|j: int| 0 <= j < r@.len() ==> {
            let e = resolved(cache, feed_window(cache, user_id@, limit))[j];
            &&& (#[trigger] r@[j]).post.id@ == e.post_id@
            &&& cache.post_of(e.post_id@) == Some(Post {
                like_count: cache.post_of(e.post_id@).unwrap().like_count,
                reply_count: cache.post_of(e.post_id@).unwrap().reply_count,
                ..r@[j].post
            })
            &&& r@[j].post.like_count == cache.counters_of(e.post_id@).likes
            &&& r@[j].post.reply_count == cache.counters_of(e.post_id@).replies
        },
{
    let items = cache.get_news_feed(user_id);
    let n: usize = if limit < items.len() { limit } else { items.len() };
    let mut out: Vec<HydratedPost> = Vec::new();
    let mut i: usize = 0;
    while i < n
        invariant
            n <= items@.len(),
            i <= n,
            cache.wf(),
            out@ == hydrate(cache, user_id@, items@.take(i as int)),
        decreases n - i,
    {
        let ghost prev = items@.take(i as int);
        assert(items@.take(i + 1).drop_last() =~= prev);
        assert(items@.take(i + 1).last() == items@[i as int]);
        let item = &items[i];
        match cache.get_post(item.post_id.as_str()) {
            Some(post) => {
                let author = match cache.get_user(post.user_id.as_str()) {
                    Some(u) => Some(Author { username: u.username, profile_picture: u.profile_picture }),
                    None => None,
                };
                let counters = cache.get_counters(post.id.as_str());
                let liked = cache.has_liked(user_id, post.id.as_str());
                let mut hydrated = post;
                hydrated.like_count = counters.likes;
                hydrated.reply_count = counters.replies;
                out.push(HydratedPost { post: hydrated, author, liked });
            },
            None => {},
        }
        i = i + 1;
    }
    proof {
        assert(items@.take(n as int) =~= feed_window(cache, user_id@, limit));
        lemma_hydrated_posts(cache, user_id@, feed_window(cache, user_id@, limit));
    }
    out
}

/// Every hydrated entry carries the like and reply counts that the store's
/// counters hold for its post, never the post's cached copy.
pub proof fn lemma_hydrated_counts(c: &CacheLayer, viewer: Seq<char>, items: Seq<NewsFeedItem>)
    ensures
        forall|j: int| 0 <= j < hydrate(c, viewer, items).len() ==>
            (#[trigger] hydrate(c, viewer, items)[j]).post.like_count == c.counters_of(hydrate(c, viewer, items)[j].post.id@).likes
            && hydrate(c, viewer, items)[j].post.reply_count == c.counters_of(hydrate(c, viewer, items)[j].post.id@).replies,
    decreases items.len(),
{
    if items.len() > 0 {
        lemma_hydrated_counts(c, viewer, items.drop_last());
    }
}

/// After a fan-out job for a post that no feed referred to, each follower in
/// the job has exactly one entry for it, at the front, and nobody else has any.
pub proof fn lemma_fanout_completeness(
    before: &CacheLayer,
    after: &CacheLayer,
    message: &FanoutMessage,
    timestamp: u64,
    u: Seq<char>,
)
    requires
        forall|v: Seq<char>, k: int| 0 <= k < before.feed_of(v).len() ==>
            (#[trigger] before.feed_of(v)[k]).post_id@ != message.post_id@,
        forall|v: Seq<char>| #[trigger] after.feed_of(v) == if ids_of(message.friend_ids@).contains(v) {
            prepend_bounded(before.feed_of(v), fanout_item(message, timestamp))
        } else {
            before.feed_of(v)
        },
    ensures
        ids_of(message.friend_ids@).contains(u) ==> after.feed_of(u).len() > 0
            && after.feed_of(u)[0].post_id@ == message.post_id@
            && forall|k: int| 1 <= k < after.feed_of(u).len() ==> (#[trigger] after.feed_of(u)[k]).post_id@ != message.post_id@,
        !ids_of(message.friend_ids@).contains(u) ==> forall|k: int| 0 <= k < after.feed_of(u).len() ==>
            (#[trigger] after.feed_of(u)[k]).post_id@ != message.post_id@,
{
    if ids_of(message.friend_ids@).contains(u) {
        let old_feed = before.feed_of(u);
        let f = seq![fanout_item(message, timestamp)] + old_feed;
        assert forall|k: int| 1 <= k < after.feed_of(u).len() implies (#[trigger] after.feed_of(u)[k]).post_id@ != message.post_id@ by {
            assert(after.feed_of(u)[k] == f[k]);
            assert(f[k] == old_feed[k - 1]);
        }
    }
}

} // verus!
