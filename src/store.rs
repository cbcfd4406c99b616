use vstd::prelude::*;
use vstd::hash_map::StringHashMap;
use crate::types::{copy_opt, Counters, NewsFeedItem, Post, User};

verus! {

/// Most entries a user's feed keeps.
pub const FEED_CAPACITY: usize = 1000;

/// A post with more likes than this is also kept in the hot table.
pub const HOT_THRESHOLD: u32 = 100;

/// The identifiers held in a sequence of strings.
pub open spec fn ids_of(v: Seq<String>) -> Set<Seq<char>> {
    Set::new(|x: Seq<char>| exists|i: int| 0 <= i < v.len() && v[i]@ == x)
}

/// No identifier occurs twice.
pub open spec fn distinct_ids(v: Seq<String>) -> bool {
    forall|i: int, j: int| 0 <= i < j < v.len() ==> v[i]@ != v[j]@
}

/// A feed after `item` was put in front of it and the oldest entries beyond
/// the capacity were dropped.
pub open spec fn prepend_bounded(feed: Seq<NewsFeedItem>, item: NewsFeedItem) -> Seq<NewsFeedItem> {
    let f = seq![item] + feed;
    if f.len() > FEED_CAPACITY { f.take(FEED_CAPACITY as int) } else { f }
}

/// The feed stored under `u`, empty where there is none.
pub open spec fn feed_at(m: Map<Seq<char>, Vec<NewsFeedItem>>, u: Seq<char>) -> Seq<NewsFeedItem> {
    if m.contains_key(u) { m[u]@ } else { Seq::empty() }
}

/// The set stored under `k`, empty where there is none.
pub open spec fn set_at(m: Map<Seq<char>, Vec<String>>, k: Seq<char>) -> Set<Seq<char>> {
    if m.contains_key(k) { ids_of(m[k]@) } else { Set::empty() }
}

pub open spec fn all_distinct(m: Map<Seq<char>, Vec<String>>) -> bool {
    forall|k: Seq<char>| m.contains_key(k) ==> distinct_ids(#[trigger] m[k]@)
}

/// Adds `val` to the set stored under `key`.
fn add_to_set(m: &mut StringHashMap<Vec<String>>, key: &str, val: &str)
    requires
        all_distinct(old(m)@),
    ensures
        all_distinct(final(m)@),
        forall|x: Seq<char>| #[trigger] set_at(final(m)@, x) == if x == key@ {
            set_at(old(m)@, x).insert(val@)
        } else {
            set_at(old(m)@, x)
        },
{
    let v = val.to_owned();
    let mut items: Vec<String> = Vec::new();
    let mut present = false;
    match m.get(key) {
        Some(cur) => {
            let mut i: usize = 0;
            while i < cur.len()
                invariant
                    i <= cur@.len(),
                    v@ == val@,
                    items@.len() == i,
                    forall|j: int| 0 <= j < i ==> items@[j] == cur@[j],
                    present == exists|j: int| 0 <= j < i && cur@[j]@ == val@,
                decreases cur.len() - i,
            {
                if cur[i] == v {
                    present = true;
                }
                let s = cur[i].clone();
                items.push(s);
                i = i + 1;
            }
            assert(items@ =~= cur@);
            assert(distinct_ids(items@));
        },
        None => {},
    }
    let ghost before = items@;
    if !present {
        items.push(v);
        assert(distinct_ids(items@));
        assert(ids_of(items@) =~= ids_of(before).insert(val@)) by {
            assert(items@[before.len() as int]@ == val@);
            assert forall|x: Seq<char>| ids_of(items@).contains(x) implies #[trigger] ids_of(before).insert(val@).contains(x) by {
                let i = choose|i: int| 0 <= i < items@.len() && items@[i]@ == x;
                if i < before.len() {
                    assert(before[i]@ == x);
                }
            }
            assert forall|x: Seq<char>| ids_of(before).insert(val@).contains(x) implies #[trigger] ids_of(items@).contains(x) by {
                if x != val@ {
                    let i = choose|i: int| 0 <= i < before.len() && before[i]@ == x;
                    assert(items@[i]@ == x);
                }
            }
        }
    } else {
        assert(ids_of(items@) =~= ids_of(before).insert(val@));
    }
    let ghost old_m = m@;
    m.insert(key.to_owned(), items);
    assert forall|x: Seq<char>| #[trigger] set_at(m@, x) == if x == key@ {
        set_at(old_m, x).insert(val@)
    } else {
        set_at(old_m, x)
    } by {
        if x == key@ {
            if !old_m.contains_key(x) {
                assert(ids_of(before) =~= Set::empty());
            }
        }
    }
}

/// The shared in-memory state: profiles, posts, the follow graph, the
/// precomputed feeds, like actions and counters.
pub struct CacheLayer {
    news_feeds: StringHashMap<Vec<NewsFeedItem>>,
    posts: StringHashMap<Post>,
    users: StringHashMap<User>,
    hot_cache: StringHashMap<Post>,
    followers: StringHashMap<Vec<String>>,
    following: StringHashMap<Vec<String>>,
    actions: StringHashMap<Vec<String>>,
    counters: StringHashMap<Counters>,
}

impl CacheLayer {
    /// The feed of user `u`, newest first.
    pub closed spec fn feed_of(&self, u: Seq<char>) -> Seq<NewsFeedItem> {
        feed_at(self.news_feeds@, u)
    }

    pub closed spec fn post_of(&self, p: Seq<char>) -> Option<Post> {
        if self.posts@.contains_key(p) { Some(self.posts@[p]) } else { None }
    }

    pub closed spec fn user_of(&self, u: Seq<char>) -> Option<User> {
        if self.users@.contains_key(u) { Some(self.users@[u]) } else { None }
    }

    /// Users who follow `u`.
    pub closed spec fn followers_of(&self, u: Seq<char>) -> Set<Seq<char>> {
        set_at(self.followers@, u)
    }

    /// Users whom `u` follows.
    pub closed spec fn following_of(&self, u: Seq<char>) -> Set<Seq<char>> {
        set_at(self.following@, u)
    }

    pub closed spec fn liked(&self, u: Seq<char>, p: Seq<char>) -> bool {
        set_at(self.actions@, u).contains(p)
    }

    pub closed spec fn counters_of(&self, p: Seq<char>) -> Counters {
        if self.counters@.contains_key(p) {
            self.counters@[p]
        } else {
            Counters { likes: 0, replies: 0 }
        }
    }

    /// Feeds stay within capacity, the hot table agrees with the primary
    /// one, each post is stored under its own identifier, and the two halves of every follow edge are present together.
    pub closed spec fn wf(&self) -> bool {
        &&& forall|u: Seq<char>| #[trigger] feed_at(self.news_feeds@, u).len() <= FEED_CAPACITY
        &&& forall|k: Seq<char>| #[trigger] self.hot_cache@.contains_key(k) ==> self.posts@.contains_key(k)
            && self.hot_cache@[k] == self.posts@[k]
        &&& forall|k: Seq<char>| #[trigger] self.posts@.contains_key(k) ==> self.posts@[k].id@ == k
        &&& forall|a: Seq<char>, b: Seq<char>|
            #![trigger set_at(self.followers@, a).contains(b)]
            #![trigger set_at(self.following@, b).contains(a)]
            set_at(self.followers@, a).contains(b) <==> set_at(self.following@, b).contains(a)
        &&& all_distinct(self.followers@)
        &&& all_distinct(self.following@)
        &&& all_distinct(self.actions@)
    }

    /// Every user's feed is the same in both stores.
    pub open spec fn same_feeds(&self, o: &CacheLayer) -> bool {
        forall|u: Seq<char>| #[trigger] self.feed_of(u) == o.feed_of(u)
    }

    /// Every post reads the same in both stores.
    pub open spec fn same_posts(&self, o: &CacheLayer) -> bool {
        forall|p: Seq<char>| #[trigger] self.post_of(p) == o.post_of(p)
    }

    /// Every profile is the same in both stores.
    pub open spec fn same_users(&self, o: &CacheLayer) -> bool {
        forall|u: Seq<char>| #[trigger] self.user_of(u) == o.user_of(u)
    }

    /// Both follow indices are the same in both stores.
    pub open spec fn same_graph(&self, o: &CacheLayer) -> bool {
        &&& forall|u: Seq<char>| #[trigger] self.followers_of(u) == o.followers_of(u)
        &&& forall|u: Seq<char>| #[trigger] self.following_of(u) == o.following_of(u)
    }

    /// Like flags and counters are the same in both stores.
    pub open spec fn same_likes(&self, o: &CacheLayer) -> bool {
        &&& forall|u: Seq<char>, p: Seq<char>| #[trigger] self.liked(u, p) == o.liked(u, p)
        &&& forall|p: Seq<char>| #[trigger] self.counters_of(p) == o.counters_of(p)
    }

    pub fn new() -> (r: CacheLayer)
        ensures
            r.wf(),
            forall|u: Seq<char>| #[trigger] r.feed_of(u) == Seq::<NewsFeedItem>::empty(),
            forall|p: Seq<char>| #[trigger] r.post_of(p) == None::<Post>,
            forall|u: Seq<char>| #[trigger] r.user_of(u) == None::<User>,
            forall|u: Seq<char>| #[trigger] r.followers_of(u) == Set::<Seq<char>>::empty(),
            forall|u: Seq<char>| #[trigger] r.following_of(u) == Set::<Seq<char>>::empty(),
            forall|u: Seq<char>, p: Seq<char>| !#[trigger] r.liked(u, p),
            forall|p: Seq<char>| #[trigger] r.counters_of(p) == (Counters { likes: 0, replies: 0 }),
    {
        CacheLayer {
            news_feeds: StringHashMap::new(),
            posts: StringHashMap::new(),
            users: StringHashMap::new(),
            hot_cache: StringHashMap::new(),
            followers: StringHashMap::new(),
            following: StringHashMap::new(),
            actions: StringHashMap::new(),
            counters: StringHashMap::new(),
        }
    }
    /// The feed of `user_id`, newest first.
    pub fn get_news_feed(&self, user_id: &str) -> (r: Vec<NewsFeedItem>)
        ensures
            r@ == self.feed_of(user_id@),
    {
        let mut out: Vec<NewsFeedItem> = Vec::new();
        match self.news_feeds.get(user_id) {
            Some(feed) => {
                let mut i: usize = 0;
                while i < feed.len()
                    invariant
                        i <= feed@.len(),
                        out@.len() == i,
                        forall|j: int| 0 <= j < i ==> out@[j] == feed@[j],
                    decreases feed.len() - i,
                {
                    out.push(feed[i].copied());
                    i = i + 1;
                }
                assert(out@ =~= feed@);
            },
            None => {},
        }
        out
    }

    /// Puts `item` at the front of the feed of `user_id`, dropping the oldest
    /// entries beyond the capacity.
    pub fn add_to_news_feed(&mut self, user_id: &str, item: NewsFeedItem)
        requires
            old(self).wf(),
        ensures
            final(self).wf(),
            final(self).feed_of(user_id@) == prepend_bounded(old(self).feed_of(user_id@), item),
            forall|u: Seq<char>| u != user_id@ ==> #[trigger] final(self).feed_of(u) == old(self).feed_of(u),
            final(self).same_posts(old(self)),
            final(self).same_users(old(self)),
            final(self).same_graph(old(self)),
            final(self).same_likes(old(self)),
    {
        let ghost oldf = self.feed_of(user_id@);
        let ghost f = seq![item] + oldf;
        let mut feed: Vec<NewsFeedItem> = Vec::new();
        feed.push(item);
        match self.news_feeds.get(user_id) {
            Some(cur) => {
                let mut i: usize = 0;
                while i < cur.len() && i + 1 < FEED_CAPACITY
                    invariant
                        i <= cur@.len(),
                        cur@ == oldf,
                        f == seq![item] + oldf,
                        feed@.len() == i + 1,
                        i + 1 <= FEED_CAPACITY,
                        forall|j: int| 0 <= j < i + 1 ==> feed@[j] == f[j],
                    decreases cur.len() - i,
                {
                    feed.push(cur[i].copied());
                    i = i + 1;
                }
            },
            None => {},
        }
        assert(feed@ =~= prepend_bounded(oldf, item));
        let ghost before = self.news_feeds@;
        self.news_feeds.insert(user_id.to_owned(), feed);
        assert forall|u: Seq<char>| #[trigger] feed_at(self.news_feeds@, u).len() <= FEED_CAPACITY by {
            if u != user_id@ {
                assert(feed_at(self.news_feeds@, u) == feed_at(before, u));
            }
        }
    }

    /// The post `post_id`, looked up in the hot table first.
    pub fn get_post(&self, post_id: &str) -> (r: Option<Post>)
        requires
            self.wf(),
        ensures
            r == self.post_of(post_id@),
            r matches Some(q) ==> q.id@ == post_id@,
    {
        match self.hot_cache.get(post_id) {
            Some(p) => Some(p.copied()),
            None => match self.posts.get(post_id) {
                Some(p) => Some(p.copied()),
                None => None,
            },
        }
    }

    /// Stores `post` under its identifier; a popular post is also put in the
    /// hot table, and an unpopular one leaves it, so both tables agree.
    pub fn set_post(&mut self, post: Post)
        requires
            old(self).wf(),
        ensures
            final(self).wf(),
            final(self).post_of(post.id@) == Some(post),
            forall|p: Seq<char>| p != post.id@ ==> #[trigger] final(self).post_of(p) == old(self).post_of(p),
            final(self).same_feeds(old(self)),
            final(self).same_users(old(self)),
            final(self).same_graph(old(self)),
            final(self).same_likes(old(self)),
    {
        if post.like_count > HOT_THRESHOLD {
            self.hot_cache.insert(post.id.clone(), post.copied());
        } else {
            self.hot_cache.remove(post.id.as_str());
        }
        self.posts.insert(post.id.clone(), post);
    }

    pub fn get_user(&self, user_id: &str) -> (r: Option<User>)
        ensures
            r == self.user_of(user_id@),
    {
        match self.users.get(user_id) {
            Some(u) => Some(u.copied()),
            None => None,
        }
    }

    pub fn set_user(&mut self, user: User)
        requires
            old(self).wf(),
        ensures
            final(self).wf(),
            final(self).user_of(user.id@) == Some(user),
            forall|u: Seq<char>| u != user.id@ ==> #[trigger] final(self).user_of(u) == old(self).user_of(u),
            final(self).same_feeds(old(self)),
            final(self).same_posts(old(self)),
            final(self).same_graph(old(self)),
            final(self).same_likes(old(self)),
    {
        self.users.insert(user.id.clone(), user);
    }

    /// Those who follow `user_id`, each once.
    pub fn get_followers(&self, user_id: &str) -> (r: Vec<String>)
        requires
            self.wf(),
        ensures
            ids_of(r@) == self.followers_of(user_id@),
            distinct_ids(r@),
    {
        copy_set(&self.followers, user_id)
    }

    /// Those whom `user_id` follows, each once.
    pub fn get_following(&self, user_id: &str) -> (r: Vec<String>)
        requires
            self.wf(),
        ensures
            ids_of(r@) == self.following_of(user_id@),
            distinct_ids(r@),
    {
        copy_set(&self.following, user_id)
    }

    /// Records that `follower_id` follows `user_id`, in both indices at once.
    pub fn add_follower(&mut self, user_id: &str, follower_id: &str)
        requires
            old(self).wf(),
        ensures
            final(self).wf(),
            forall|x: Seq<char>| #[trigger] final(self).followers_of(x) == if x == user_id@ {
                old(self).followers_of(x).insert(follower_id@)
            } else {
                old(self).followers_of(x)
            },
            forall|x: Seq<char>| #[trigger] final(self).following_of(x) == if x == follower_id@ {
                old(self).following_of(x).insert(user_id@)
            } else {
                old(self).following_of(x)
            },
            final(self).same_feeds(old(self)),
            final(self).same_posts(old(self)),
            final(self).same_users(old(self)),
            final(self).same_likes(old(self)),
    {
        add_to_set(&mut self.followers, user_id, follower_id);
        add_to_set(&mut self.following, follower_id, user_id);
    }

    /// Marks that `user_id` liked `post_id`, adds one to the post's like
    /// counter, and copies the new count into the stored post.
    pub fn like_post(&mut self, user_id: &str, post_id: &str)
        requires
            old(self).wf(),
            old(self).counters_of(post_id@).likes < u32::MAX,
        ensures
            final(self).wf(),
            forall|u: Seq<char>, p: Seq<char>| #[trigger] final(self).liked(u, p) == (old(self).liked(u, p) || (u == user_id@ && p == post_id@)),
            final(self).counters_of(post_id@) == (Counters {
                likes: (old(self).counters_of(post_id@).likes + 1) as u32,
                replies: old(self).counters_of(post_id@).replies,
            }),
            forall|p: Seq<char>| p != post_id@ ==> #[trigger] final(self).counters_of(p) == old(self).counters_of(p),
            final(self).post_of(post_id@) == match old(self).post_of(post_id@) {
                Some(q) => Some(Post { like_count: final(self).counters_of(post_id@).likes, ..q }),
                None => None,
            },
            forall|p: Seq<char>| p != post_id@ ==> #[trigger] final(self).post_of(p) == old(self).post_of(p),
            final(self).same_feeds(old(self)),
            final(self).same_users(old(self)),
            final(self).same_graph(old(self)),
    {
        add_to_set(&mut self.actions, user_id, post_id);
        let c = self.get_counters(post_id);
        let n = Counters { likes: c.likes + 1, replies: c.replies };
        self.counters.insert(post_id.to_owned(), n);
        let updated = match self.posts.get(post_id) {
            Some(q) => {
                let mut q2 = q.copied();
                q2.like_count = n.likes;
                Some(q2)
            },
            None => None,
        };
        match updated {
            Some(q2) => {
                if self.hot_cache.contains_key(post_id) {
                    self.hot_cache.insert(post_id.to_owned(), q2.copied());
                }
                self.posts.insert(post_id.to_owned(), q2);
            },
            None => {},
        }
    }

    pub fn has_liked(&self, user_id: &str, post_id: &str) -> (r: bool)
        ensures
            r == self.liked(user_id@, post_id@),
    {
        let p = post_id.to_owned();
        match self.actions.get(user_id) {
            Some(liked) => {
                assert(set_at(self.actions@, user_id@) == ids_of(liked@));
                let mut i: usize = 0;
                while i < liked.len()
                    invariant
                        i <= liked@.len(),
                        p@ == post_id@,
                        set_at(self.actions@, user_id@) == ids_of(liked@),
                        forall|j: int| 0 <= j < i ==> liked@[j]@ != post_id@,
                    decreases liked.len() - i,
                {
                    if liked[i] == p {
                        assert(liked@[i as int]@ == post_id@);
                        assert(ids_of(liked@).contains(post_id@));
                        assert(set_at(self.actions@, user_id@) == ids_of(liked@));
                        return true;
                    }
                    i = i + 1;
                }
                false
            },
            None => false,
        }
    }

    /// The counters of `post_id`, zero where nothing was recorded.
    pub fn get_counters(&self, post_id: &str) -> (r: Counters)
        ensures
            r == self.counters_of(post_id@),
    {
        match self.counters.get(post_id) {
            Some(c) => *c,
            None => Counters { likes: 0, replies: 0 },
        }
    }
}

/// A copy of the set stored under `key`.
fn copy_set(m: &StringHashMap<Vec<String>>, key: &str) -> (r: Vec<String>)
    requires
        all_distinct(m@),
    ensures
        ids_of(r@) == set_at(m@, key@),
        distinct_ids(r@),
{
    let mut out: Vec<String> = Vec::new();
    match m.get(key) {
        Some(cur) => {
            let mut i: usize = 0;
            while i < cur.len()
                invariant
                    i <= cur@.len(),
                    out@.len() == i,
                    forall|j: int| 0 <= j < i ==> out@[j] == cur@[j],
                decreases cur.len() - i,
            {
                out.push(cur[i].clone());
                i = i + 1;
            }
            assert(out@ =~= cur@);
        },
        None => {
            assert(ids_of(out@) =~= Set::empty());
        },
    }
    out
}

/// A well-formed store never holds a feed longer than the capacity.
pub proof fn lemma_feed_bound(c: &CacheLayer, u: Seq<char>)
    requires
        c.wf(),
    ensures
        c.feed_of(u).len() <= FEED_CAPACITY,
{
    assert(feed_at(c.news_feeds@, u).len() <= FEED_CAPACITY);
}

/// Putting an entry in front of a full feed drops exactly its oldest entry
/// and keeps the others in their order.
pub proof fn lemma_eviction_order(feed: Seq<NewsFeedItem>, item: NewsFeedItem)
    requires
        feed.len() == FEED_CAPACITY,
    ensures
        prepend_bounded(feed, item).len() == FEED_CAPACITY,
        prepend_bounded(feed, item)[0] == item,
        prepend_bounded(feed, item).subrange(1, FEED_CAPACITY as int) == feed.take(FEED_CAPACITY - 1),
{
    assert(prepend_bounded(feed, item).subrange(1, FEED_CAPACITY as int) =~= feed.take(FEED_CAPACITY - 1));
}

/// Every follow edge is present in both indices or in neither.
pub proof fn lemma_edge_symmetry(c: &CacheLayer, a: Seq<char>, b: Seq<char>)
    requires
        c.wf(),
    ensures
        c.followers_of(a).contains(b) <==> c.following_of(b).contains(a),
{
}

/// After `follower` follows `target`, each index shows the edge.
pub proof fn lemma_follow_shows_both(
    before: &CacheLayer,
    after: &CacheLayer,
    target: Seq<char>,
    follower: Seq<char>,
)
    requires
        before.wf(),
        after.wf(),
        forall|x: Seq<char>| #[trigger] after.followers_of(x) == if x == target {
            before.followers_of(x).insert(follower)
        } else {
            before.followers_of(x)
        },
        forall|x: Seq<char>| #[trigger] after.following_of(x) == if x == follower {
            before.following_of(x).insert(target)
        } else {
            before.following_of(x)
        },
    ensures
        after.followers_of(target).contains(follower),
        after.following_of(follower).contains(target),
{
    assert(after.followers_of(target) == before.followers_of(target).insert(follower));
    assert(after.following_of(follower) == before.following_of(follower).insert(target));
}

/// A store agrees with itself on every part.
pub proof fn lemma_same_refl(c: &CacheLayer)
    ensures
        c.same_feeds(c),
        c.same_posts(c),
        c.same_users(c),
        c.same_graph(c),
        c.same_likes(c),
{
}

/// Agreement on a part of the store carries over through a middle state.
pub proof fn lemma_same_trans(a: &CacheLayer, b: &CacheLayer, c: &CacheLayer)
    ensures
        a.same_feeds(b) && b.same_feeds(c) ==> a.same_feeds(c),
        a.same_posts(b) && b.same_posts(c) ==> a.same_posts(c),
        a.same_users(b) && b.same_users(c) ==> a.same_users(c),
        a.same_graph(b) && b.same_graph(c) ==> a.same_graph(c),
        a.same_likes(b) && b.same_likes(c) ==> a.same_likes(c),
{
}

/// Over a run of states in which each step records one like of `p`, the
/// counter of `p` grows by exactly the number of steps.
pub proof fn lemma_likes_add_up(states: Seq<CacheLayer>, p: Seq<char>)
    requires
        states.len() >= 1,
        forall|i: int| 0 <= i < states.len() - 1 ==>
            #[trigger] states[i + 1].counters_of(p).likes == states[i].counters_of(p).likes + 1,
    ensures
        states.last().counters_of(p).likes == states[0].counters_of(p).likes + states.len() - 1,
    decreases states.len(),
{
    if states.len() > 1 {
        let front = states.drop_last();
        assert forall|i: int| 0 <= i < front.len() - 1 implies
            #[trigger] front[i + 1].counters_of(p).likes == front[i].counters_of(p).likes + 1 by {
            assert(front[i + 1] == states[i + 1]);
        }
        lemma_likes_add_up(front, p);
        let k = states.len() - 2;
        assert(states[k] == front.last());
        assert(front[0] == states[0]);
        assert(states[k + 1].counters_of(p).likes == states[k].counters_of(p).likes + 1);
    }
}

/// In a well-formed store a post is found under its own identifier.
pub proof fn lemma_post_ids_match_keys(c: &CacheLayer)
    requires
        c.wf(),
    ensures
        forall|p: Seq<char>| #[trigger] c.post_of(p) matches Some(q) ==> q.id@ == p,
{
}

} // verus!
