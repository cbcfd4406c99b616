use newsfeed::services::{build_post, create_post, get_news_feed, next_worker, plan_fanout, process_fanout};
use newsfeed::store::{CacheLayer, FEED_CAPACITY};
use newsfeed::types::{FanoutMessage, NewsFeedItem, User};

fn user(id: &str, name: &str) -> User {
    User {
        id: id.to_string(),
        username: name.to_string(),
        profile_picture: format!("https://example.com/{}.jpg", name),
    }
}

fn item(post_id: &str, timestamp: u64) -> NewsFeedItem {
    NewsFeedItem { post_id: post_id.to_string(), timestamp }
}

fn fan_out(cache: &mut CacheLayer, post_id: &str, author: &str, timestamp: u64) {
    if let Some(message) = plan_fanout(cache, post_id, author) {
        process_fanout(cache, &message, timestamp);
    }
}

#[test]
fn end_to_end_scenario() {
    let mut cache = CacheLayer::new();
    cache.set_user(user("alice", "alice"));
    cache.set_user(user("bob", "bob"));
    cache.set_user(user("charlie", "charlie"));
    cache.add_follower("alice", "bob");
    cache.add_follower("alice", "charlie");

    let post = create_post(&mut cache, "alice", "Hello", None, None);
    fan_out(&mut cache, &post.id, "alice", 5);

    for viewer in ["bob", "charlie"] {
        let feed = get_news_feed(&cache, viewer, 20);
        assert_eq!(feed.len(), 1);
        assert_eq!(feed[0].post.id, post.id);
        assert_eq!(feed[0].post.content, "Hello");
        assert_eq!(feed[0].author.as_ref().unwrap().username, "alice");
    }
    assert!(get_news_feed(&cache, "alice", 20).is_empty());

    cache.like_post("bob", &post.id);
    let charlie = get_news_feed(&cache, "charlie", 20);
    assert!(!charlie[0].liked);
    assert_eq!(charlie[0].post.like_count, 1);
    let bob = get_news_feed(&cache, "bob", 20);
    assert!(bob[0].liked);
    assert_eq!(bob[0].post.like_count, 1);
}

#[test]
fn feed_never_exceeds_capacity() {
    let mut cache = CacheLayer::new();
    for i in 0..1500u64 {
        cache.add_to_news_feed("u", item(&format!("p{}", i), i));
    }
    assert_eq!(cache.get_news_feed("u").len(), FEED_CAPACITY);
    assert_eq!(FEED_CAPACITY, 1000);
}

#[test]
fn full_feed_evicts_only_the_oldest() {
    let mut cache = CacheLayer::new();
    for i in 0..1000u64 {
        cache.add_to_news_feed("u", item(&format!("p{}", i), i));
    }
    let before = cache.get_news_feed("u");
    assert_eq!(before.len(), 1000);
    assert_eq!(before[999].post_id, "p0");
    cache.add_to_news_feed("u", item("p1000", 1000));
    let after = cache.get_news_feed("u");
    assert_eq!(after.len(), 1000);
    assert_eq!(after[0].post_id, "p1000");
    for k in 1..1000 {
        assert_eq!(after[k].post_id, before[k - 1].post_id);
    }
    assert!(after.iter().all(|e| e.post_id != "p0"));
}

#[test]
fn follow_edge_shows_in_both_indices() {
    let mut cache = CacheLayer::new();
    cache.add_follower("a", "b");
    assert_eq!(cache.get_followers("a"), vec!["b".to_string()]);
    assert_eq!(cache.get_following("b"), vec!["a".to_string()]);
    assert!(cache.get_followers("b").is_empty());
    assert!(cache.get_following("a").is_empty());
    cache.add_follower("a", "b");
    assert_eq!(cache.get_followers("a").len(), 1);
}

#[test]
fn fan_out_reaches_followers_only_once() {
    let mut cache = CacheLayer::new();
    cache.add_follower("u", "f1");
    cache.add_follower("u", "f2");
    cache.add_follower("other", "x");
    cache.add_to_news_feed("f1", item("older", 1));
    fan_out(&mut cache, "p", "u", 7);
    for f in ["f1", "f2"] {
        let feed = cache.get_news_feed(f);
        assert_eq!(feed.iter().filter(|e| e.post_id == "p").count(), 1);
        assert_eq!(feed[0].post_id, "p");
        assert_eq!(feed[0].timestamp, 7);
    }
    assert_eq!(cache.get_news_feed("f1").len(), 2);
    assert!(cache.get_news_feed("x").is_empty());
    assert!(cache.get_news_feed("u").is_empty());
}

#[test]
fn no_followers_means_no_job() {
    let mut cache = CacheLayer::new();
    assert!(plan_fanout(&cache, "p", "lonely").is_none());
    cache.add_follower("author", "reader");
    let message = plan_fanout(&cache, "p", "author").unwrap();
    assert_eq!(message.post_id, "p");
    assert_eq!(message.user_id, "author");
    assert_eq!(message.friend_ids, vec!["reader".to_string()]);
}

#[test]
fn likes_from_distinct_users_add_up() {
    let mut cache = CacheLayer::new();
    let post = build_post("x", 1, "author", "text", None, None);
    cache.set_post(post);
    for i in 0..25 {
        cache.like_post(&format!("user{}", i), "post_x");
    }
    assert_eq!(cache.get_counters("post_x").likes, 25);
    assert_eq!(cache.get_counters("post_x").replies, 0);
    assert_eq!(cache.get_post("post_x").unwrap().like_count, 25);
    assert!(cache.has_liked("user3", "post_x"));
    assert!(!cache.has_liked("user99", "post_x"));
}

#[test]
fn repeated_like_by_one_user_counts_each_time() {
    let mut cache = CacheLayer::new();
    cache.like_post("u", "p");
    cache.like_post("u", "p");
    assert_eq!(cache.get_counters("p").likes, 2);
    assert!(cache.has_liked("u", "p"));
}

#[test]
fn counters_default_to_zero() {
    let cache = CacheLayer::new();
    let c = cache.get_counters("nothing");
    assert_eq!((c.likes, c.replies), (0, 0));
}

#[test]
fn hydrated_feed_shows_live_counters() {
    let mut cache = CacheLayer::new();
    let mut post = build_post("h", 1, "author", "text", None, None);
    post.like_count = 500;
    cache.set_post(post);
    cache.add_to_news_feed("reader", item("post_h", 2));
    let feed = get_news_feed(&cache, "reader", 20);
    assert_eq!(feed[0].post.like_count, 0);
    cache.like_post("someone", "post_h");
    let feed = get_news_feed(&cache, "reader", 20);
    assert_eq!(feed[0].post.like_count, 1);
    assert!(feed[0].author.is_none());
    assert!(!feed[0].liked);
}

#[test]
fn hot_copy_follows_the_primary_copy() {
    let mut cache = CacheLayer::new();
    let mut post = build_post("hot", 1, "a", "t", None, None);
    post.like_count = 101;
    cache.set_post(post);
    cache.like_post("v", "post_hot");
    assert_eq!(cache.get_post("post_hot").unwrap().like_count, 1);
    let mut post = build_post("hot", 1, "a", "t2", None, None);
    post.like_count = 3;
    cache.set_post(post);
    assert_eq!(cache.get_post("post_hot").unwrap().content, "t2");
}

#[test]
fn feed_limit_truncates_and_skips_missing_posts() {
    let mut cache = CacheLayer::new();
    for name in ["a", "b", "c"] {
        cache.set_post(build_post(name, 1, "w", name, None, None));
    }
    cache.add_to_news_feed("r", item("post_a", 1));
    cache.add_to_news_feed("r", item("post_gone", 2));
    cache.add_to_news_feed("r", item("post_b", 3));
    cache.add_to_news_feed("r", item("post_c", 4));
    let feed = get_news_feed(&cache, "r", 3);
    let ids: Vec<&str> = feed.iter().map(|h| h.post.id.as_str()).collect();
    assert_eq!(ids, vec!["post_c", "post_b"]);
    assert!(get_news_feed(&cache, "r", 0).is_empty());
    assert_eq!(get_news_feed(&cache, "r", 100).len(), 3);
}

#[test]
fn build_post_fills_every_field() {
    let p = build_post("abc", 42, "u1", "body", Some("img".to_string()), None);
    assert_eq!(p.id, "post_abc");
    assert_eq!(p.user_id, "u1");
    assert_eq!(p.content, "body");
    assert_eq!(p.image_url.as_deref(), Some("img"));
    assert!(p.video_url.is_none());
    assert_eq!((p.timestamp, p.like_count, p.reply_count), (42, 0, 0));
}

#[test]
fn created_posts_get_fresh_identifiers() {
    let mut cache = CacheLayer::new();
    let a = create_post(&mut cache, "u", "one", None, Some("v".to_string()));
    let b = create_post(&mut cache, "u", "two", None, None);
    assert!(a.id.starts_with("post_"));
    assert_eq!(a.id.len(), 41);
    assert_ne!(a.id, b.id);
    assert!(a.timestamp > 0);
    assert_eq!(cache.get_post(&a.id).unwrap().content, "one");
    assert_eq!(cache.get_post(&b.id).unwrap().content, "two");
}

#[test]
fn workers_are_chosen_round_robin() {
    assert_eq!(next_worker(0, 5), 1);
    assert_eq!(next_worker(4, 5), 0);
    assert_eq!(next_worker(0, 1), 0);
}

#[test]
fn users_are_stored_and_read_back() {
    let mut cache = CacheLayer::new();
    assert!(cache.get_user("alice").is_none());
    cache.set_user(user("alice", "Alice"));
    assert_eq!(cache.get_user("alice").unwrap().username, "Alice");
}

#[test]
fn job_message_carries_its_fields() {
    let mut cache = CacheLayer::new();
    let message = FanoutMessage {
        post_id: "p".to_string(),
        user_id: "a".to_string(),
        friend_ids: vec!["z".to_string()],
    };
    process_fanout(&mut cache, &message, 3);
    assert_eq!(cache.get_news_feed("z")[0].timestamp, 3);
}
