//! Posts, likes, the follow graph and reward distribution.
//!
//! Creating a post escrows a configured deposit and mints a configured reward
//! to the author; a like mints a reward to the post's author. The `likes`
//! counter of every post is kept in lockstep with the like-membership set.

use vstd::prelude::*;
use crate::AccountId;
use crate::ledger::{Ledger, sat_add_u128};
use crate::store::{
    IdMap, PairSet, count_with_first, lemma_count_with_first_insert,
    lemma_count_with_first_pos, lemma_count_with_first_remove, lemma_count_with_first_zero,
};

verus! {

/// The configured bounds and amounts of the module.
pub struct Config {
    pub post_deposit: u128,
    pub max_post_length: u32,
    pub post_reward: u128,
    pub like_reward: u128,
}

pub struct SocialPost {
    pub author: AccountId,
    pub content_hash: Vec<u8>,
    pub timestamp: u64,
    pub likes: u32,
    pub deposit: u128,
}

#[derive(Debug, PartialEq, Eq)]
pub enum Event {
    PostCreated { post_id: u64, author: AccountId },
    PostLiked { post_id: u64, liker: AccountId, author: AccountId },
    PostUnliked { post_id: u64, unliker: AccountId, author: AccountId },
    ProfileUpdated { account: AccountId },
    UserFollowed { follower: AccountId, followed: AccountId },
    UserUnfollowed { unfollower: AccountId, unfollowed: AccountId },
    RewardDistributed { recipient: AccountId, amount: u128 },
}

#[derive(Debug, PartialEq, Eq)]
pub enum Error {
    PostNotFound,
    PostTooLong,
    AlreadyLiked,
    NotLiked,
    CannotLikeOwnPost,
    CannotFollowSelf,
    AlreadyFollowing,
    NotFollowing,
    InsufficientBalance,
}

pub struct Pallet {
    pub config: Config,
    pub posts: IdMap<SocialPost>,
    pub next_post_id: u64,
    pub post_likes: PairSet,
    pub user_profiles: IdMap<Vec<u8>>,
    pub following: PairSet,
    pub events: Vec<Event>,
}

impl Pallet {
    /// Well-formedness: post identifiers are allocated monotonically, every
    /// stored `likes` counter equals the number of present like entries for
    /// that post, and like entries only reference existing posts.
    pub open spec fn wf(&self) -> bool {
        &&& self.posts.inv()
        &&& self.post_likes.inv()
        &&& self.user_profiles.inv()
        &&& self.following.inv()
        &&& self.post_likes@.finite()
        &&& self.following@.finite()
        &&& forall|p: u64| #[trigger] self.posts@.contains_key(p) ==> p < self.next_post_id
        &&& forall|p: u64| #[trigger]
            self.posts@.contains_key(p) ==> self.posts@[p].likes == count_with_first(
                self.post_likes@,
                p,
            )
        &&& forall|e: (u64, u64)| #[trigger]
            self.post_likes@.contains(e) ==> self.posts@.contains_key(e.0)
    }

    pub fn new(config: Config) -> (r: Self)
        ensures
            r.wf(),
            r.config == config,
            r.next_post_id == 0,
            r.posts@ == Map::<u64, SocialPost>::empty(),
            r.post_likes@ == Set::<(u64, u64)>::empty(),
            r.user_profiles@ == Map::<u64, Vec<u8>>::empty(),
            r.following@ == Set::<(u64, u64)>::empty(),
            r.events@ == Seq::<Event>::empty(),
    {
        Pallet {
            config,
            posts: IdMap::new(),
            next_post_id: 0,
            post_likes: PairSet::new(),
            user_profiles: IdMap::new(),
            following: PairSet::new(),
            events: Vec::new(),
        }
    }

    fn blank_post() -> (r: SocialPost) {
        SocialPost { author: 0, content_hash: Vec::new(), timestamp: 0, likes: 0, deposit: 0 }
    }

    /// Creates a post: escrows the configured deposit from the caller, then
    /// mints the configured reward to the caller.
    pub fn create_post(
        &mut self,
        ledger: &mut Ledger,
        caller: AccountId,
        now: u64,
        content_hash: Vec<u8>,
    ) -> (r: Result<(), Error>)
        requires
            old(self).wf(),
            old(ledger).wf(),
            old(self).next_post_id < u64::MAX,
        ensures
            final(self).wf(),
            final(ledger).wf(),
            content_hash@.len() > old(self).config.max_post_length ==> r == Err::<(), Error>(
                Error::PostTooLong,
            ) && *final(self) == *old(self) && *final(ledger) == *old(ledger),
            content_hash@.len() <= old(self).config.max_post_length && old(ledger).free_of(caller)
                < old(self).config.post_deposit ==> r == Err::<(), Error>(
                Error::InsufficientBalance,
            ) && *final(self) == *old(self) && *final(ledger) == *old(ledger),
            content_hash@.len() <= old(self).config.max_post_length && old(ledger).free_of(caller)
                >= old(self).config.post_deposit ==> {
                let id = old(self).next_post_id;
                let deposit = old(self).config.post_deposit;
                let reward = old(self).config.post_reward;
                &&& r == Ok::<(), Error>(())
                &&& final(self).posts@ == old(self).posts@.insert(
                    id,
                    (SocialPost {
                        author: caller,
                        content_hash: content_hash,
                        timestamp: now,
                        likes: 0,
                        deposit: deposit,
                    }),
                )
                &&& final(self).next_post_id == id + 1
                &&& final(self).post_likes@ == old(self).post_likes@
                &&& final(self).user_profiles@ == old(self).user_profiles@
                &&& final(self).following@ == old(self).following@
                &&& final(self).config == old(self).config
                &&& final(self).events@ == old(self).events@.push(
                    (Event::PostCreated { post_id: id, author: caller }),
                ).push((Event::RewardDistributed { recipient: caller, amount: reward }))
                &&& final(ledger).free_of(caller) == sat_add_u128(
                    (old(ledger).free_of(caller) - deposit) as u128,
                    reward,
                )
                &&& final(ledger).reserved_of(caller) == sat_add_u128(
                    old(ledger).reserved_of(caller),
                    deposit,
                )
                &&& forall|a: AccountId|
                    a != caller ==> #[trigger] final(ledger).free_of(a) == old(ledger).free_of(a)
                &&& forall|a: AccountId|
                    a != caller ==> #[trigger] final(ledger).reserved_of(a) == old(
                        ledger,
                    ).reserved_of(a)
            },
    {
        if content_hash.len() > self.config.max_post_length as usize {
            return Err(Error::PostTooLong);
        }
        let deposit = self.config.post_deposit;
        match ledger.reserve(caller, deposit) {
            Ok(()) => {},
            Err(_) => {
                return Err(Error::InsufficientBalance);
            },
        }
        let post_id = self.next_post_id;
        let post = SocialPost { author: caller, content_hash, timestamp: now, likes: 0, deposit };
        self.posts.insert(post_id, post);
        self.next_post_id = post_id + 1;
        let reward = self.config.post_reward;
        ledger.mint_and_credit(caller, reward);
        self.events.push(Event::PostCreated { post_id, author: caller });
        self.events.push(Event::RewardDistributed { recipient: caller, amount: reward });
        proof {
            assert forall|p: u64| #[trigger] self.posts@.contains_key(p)
                implies self.posts@[p].likes == count_with_first(self.post_likes@, p) by {
                if p == post_id {
                    assert forall|e: (u64, u64)| self.post_likes@.contains(e)
                        implies e.0 != post_id by {
                        assert(old(self).posts@.contains_key(e.0));
                    }
                    lemma_count_with_first_zero(self.post_likes@, post_id);
                }
            }
        }
        Ok(())
    }

    /// Likes a post; the configured reward goes to the post's author, not to
    /// the liker.
    pub fn like_post(
        &mut self,
        ledger: &mut Ledger,
        caller: AccountId,
        post_id: u64,
    ) -> (r: Result<(), Error>)
        requires
            old(self).wf(),
            old(ledger).wf(),
            old(self).posts@.contains_key(post_id) ==> old(self).posts@[post_id].likes
                < u32::MAX,
        ensures
            final(self).wf(),
            final(ledger).wf(),
            !old(self).posts@.contains_key(post_id) ==> r == Err::<(), Error>(Error::PostNotFound)
                && *final(self) == *old(self) && *final(ledger) == *old(ledger),
            old(self).posts@.contains_key(post_id) && old(self).posts@[post_id].author == caller
                ==> r == Err::<(), Error>(Error::CannotLikeOwnPost) && *final(self) == *old(self)
                && *final(ledger) == *old(ledger),
            old(self).posts@.contains_key(post_id) && old(self).posts@[post_id].author != caller
                && old(self).post_likes@.contains((post_id, caller)) ==> r == Err::<(), Error>(
                Error::AlreadyLiked,
            ) && *final(self) == *old(self) && *final(ledger) == *old(ledger),
            old(self).posts@.contains_key(post_id) && old(self).posts@[post_id].author != caller
                && !old(self).post_likes@.contains((post_id, caller)) ==> {
                let p0 = old(self).posts@[post_id];
                let reward = old(self).config.like_reward;
                &&& r == Ok::<(), Error>(())
                &&& final(self).post_likes@ == old(self).post_likes@.insert((post_id, caller))
                &&& final(self).posts@ == old(self).posts@.insert(
                    post_id,
                    (SocialPost {
                        author: p0.author,
                        content_hash: p0.content_hash,
                        timestamp: p0.timestamp,
                        likes: (p0.likes + 1) as u32,
                        deposit: p0.deposit,
                    }),
                )
                &&& final(self).next_post_id == old(self).next_post_id
                &&& final(self).user_profiles@ == old(self).user_profiles@
                &&& final(self).following@ == old(self).following@
                &&& final(self).config == old(self).config
                &&& final(self).events@ == old(self).events@.push(
                    (Event::PostLiked { post_id, liker: caller, author: p0.author }),
                ).push((Event::RewardDistributed { recipient: p0.author, amount: reward }))
                &&& final(ledger).free_of(p0.author) == sat_add_u128(
                    old(ledger).free_of(p0.author),
                    reward,
                )
                &&& final(ledger).reserved_of(p0.author) == old(ledger).reserved_of(p0.author)
                &&& forall|a: AccountId|
                    a != p0.author ==> #[trigger] final(ledger).free_of(a) == old(
                        ledger,
                    ).free_of(a)
                &&& forall|a: AccountId|
                    a != p0.author ==> #[trigger] final(ledger).reserved_of(a) == old(
                        ledger,
                    ).reserved_of(a)
            },
    {
        let author: AccountId;
        {
            let post = match self.posts.get(post_id) {
                Some(p) => p,
                None => {
                    return Err(Error::PostNotFound);
                },
            };
            if post.author == caller {
                return Err(Error::CannotLikeOwnPost);
            }
            author = post.author;
        }
        if self.post_likes.contains(post_id, caller) {
            return Err(Error::AlreadyLiked);
        }
        self.post_likes.insert(post_id, caller);
        let mut post = self.posts.replace(post_id, Self::blank_post());
        post.likes = post.likes + 1;
        self.posts.insert(post_id, post);
        let reward = self.config.like_reward;
        ledger.mint_and_credit(author, reward);
        self.events.push(Event::PostLiked { post_id, liker: caller, author });
        self.events.push(Event::RewardDistributed { recipient: author, amount: reward });
        proof {
            let s0 = *old(self);
            assert(self.posts@ =~= s0.posts@.insert(
                post_id,
                (SocialPost {
                    author: s0.posts@[post_id].author,
                    content_hash: s0.posts@[post_id].content_hash,
                    timestamp: s0.posts@[post_id].timestamp,
                    likes: (s0.posts@[post_id].likes + 1) as u32,
                    deposit: s0.posts@[post_id].deposit,
                }),
            ));
            assert forall|p: u64| #[trigger] self.posts@.contains_key(p)
                implies self.posts@[p].likes == count_with_first(self.post_likes@, p) by {
                lemma_count_with_first_insert(s0.post_likes@, (post_id, caller), p);
            }
        }
        Ok(())
    }

    /// Takes back the caller's like; no reward is reversed.
    pub fn unlike_post(&mut self, caller: AccountId, post_id: u64) -> (r: Result<(), Error>)
        requires
            old(self).wf(),
        ensures
            final(self).wf(),
            !old(self).posts@.contains_key(post_id) ==> r == Err::<(), Error>(Error::PostNotFound)
                && *final(self) == *old(self),
            old(self).posts@.contains_key(post_id) && !old(self).post_likes@.contains(
                (post_id, caller),
            ) ==> r == Err::<(), Error>(Error::NotLiked) && *final(self) == *old(self),
            old(self).posts@.contains_key(post_id) && old(self).post_likes@.contains(
                (post_id, caller),
            ) ==> {
                let p0 = old(self).posts@[post_id];
                &&& r == Ok::<(), Error>(())
                &&& p0.likes >= 1
                &&& final(self).post_likes@ == old(self).post_likes@.remove((post_id, caller))
                &&& final(self).posts@ == old(self).posts@.insert(
                    post_id,
                    (SocialPost {
                        author: p0.author,
                        content_hash: p0.content_hash,
                        timestamp: p0.timestamp,
                        likes: (p0.likes - 1) as u32,
                        deposit: p0.deposit,
                    }),
                )
                &&& final(self).next_post_id == old(self).next_post_id
                &&& final(self).user_profiles@ == old(self).user_profiles@
                &&& final(self).following@ == old(self).following@
                &&& final(self).config == old(self).config
                &&& final(self).events@ == old(self).events@.push(
                    (Event::PostUnliked { post_id, unliker: caller, author: p0.author }),
                )
            },
    {
        let author: AccountId;
        {
            let post = match self.posts.get(post_id) {
                Some(p) => p,
                None => {
                    return Err(Error::PostNotFound);
                },
            };
            author = post.author;
        }
        if !self.post_likes.contains(post_id, caller) {
            return Err(Error::NotLiked);
        }
        proof {
            lemma_count_with_first_pos(self.post_likes@, (post_id, caller), post_id);
        }
        self.post_likes.remove(post_id, caller);
        let mut post = self.posts.replace(post_id, Self::blank_post());
        post.likes = post.likes.saturating_sub(1);
        self.posts.insert(post_id, post);
        self.events.push(Event::PostUnliked { post_id, unliker: caller, author });
        proof {
            let s0 = *old(self);
            assert(self.posts@ =~= s0.posts@.insert(
                post_id,
                (SocialPost {
                    author: s0.posts@[post_id].author,
                    content_hash: s0.posts@[post_id].content_hash,
                    timestamp: s0.posts@[post_id].timestamp,
                    likes: (s0.posts@[post_id].likes - 1) as u32,
                    deposit: s0.posts@[post_id].deposit,
                }),
            ));
            assert forall|p: u64| #[trigger] self.posts@.contains_key(p)
                implies self.posts@[p].likes == count_with_first(self.post_likes@, p) by {
                lemma_count_with_first_remove(s0.post_likes@, (post_id, caller), p);
            }
        }
        Ok(())
    }

    /// Records the caller's profile hash; an existing profile is overwritten.
    pub fn update_profile(&mut self, caller: AccountId, profile_hash: Vec<u8>) -> (r: Result<
        (),
        Error,
    >)
        requires
            old(self).wf(),
        ensures
            final(self).wf(),
            r == Ok::<(), Error>(()),
            final(self).user_profiles@ == old(self).user_profiles@.insert(caller, profile_hash),
            final(self).posts@ == old(self).posts@,
            final(self).post_likes@ == old(self).post_likes@,
            final(self).following@ == old(self).following@,
            final(self).next_post_id == old(self).next_post_id,
            final(self).config == old(self).config,
            final(self).events@ == old(self).events@.push(
                (Event::ProfileUpdated { account: caller }),
            ),
    {
        self.user_profiles.insert(caller, profile_hash);
        self.events.push(Event::ProfileUpdated { account: caller });
        Ok(())
    }

    pub fn follow_user(&mut self, caller: AccountId, target: AccountId) -> (r: Result<(), Error>)
        requires
            old(self).wf(),
        ensures
            final(self).wf(),
            caller == target ==> r == Err::<(), Error>(Error::CannotFollowSelf) && *final(self)
                == *old(self),
            caller != target && old(self).following@.contains((caller, target)) ==> r == Err::<
                (),
                Error,
            >(Error::AlreadyFollowing) && *final(self) == *old(self),
            caller != target && !old(self).following@.contains((caller, target)) ==> {
                &&& r == Ok::<(), Error>(())
                &&& final(self).following@ == old(self).following@.insert((caller, target))
                &&& final(self).posts@ == old(self).posts@
                &&& final(self).post_likes@ == old(self).post_likes@
                &&& final(self).user_profiles@ == old(self).user_profiles@
                &&& final(self).next_post_id == old(self).next_post_id
                &&& final(self).config == old(self).config
                &&& final(self).events@ == old(self).events@.push(
                    (Event::UserFollowed { follower: caller, followed: target }),
                )
            },
    {
        if caller == target {
            return Err(Error::CannotFollowSelf);
        }
        if self.following.contains(caller, target) {
            return Err(Error::AlreadyFollowing);
        }
        self.following.insert(caller, target);
        self.events.push(Event::UserFollowed { follower: caller, followed: target });
        Ok(())
    }

    pub fn unfollow_user(&mut self, caller: AccountId, target: AccountId) -> (r: Result<
        (),
        Error,
    >)
        requires
            old(self).wf(),
        ensures
            final(self).wf(),
            !old(self).following@.contains((caller, target)) ==> r == Err::<(), Error>(
                Error::NotFollowing,
            ) && *final(self) == *old(self),
            old(self).following@.contains((caller, target)) ==> {
                &&& r == Ok::<(), Error>(())
                &&& final(self).following@ == old(self).following@.remove((caller, target))
                &&& final(self).posts@ == old(self).posts@
                &&& final(self).post_likes@ == old(self).post_likes@
                &&& final(self).user_profiles@ == old(self).user_profiles@
                &&& final(self).next_post_id == old(self).next_post_id
                &&& final(self).config == old(self).config
                &&& final(self).events@ == old(self).events@.push(
                    (Event::UserUnfollowed { unfollower: caller, unfollowed: target }),
                )
            },
    {
        if !self.following.contains(caller, target) {
            return Err(Error::NotFollowing);
        }
        self.following.remove(caller, target);
        self.events.push(Event::UserUnfollowed { unfollower: caller, unfollowed: target });
        Ok(())
    }
}

/// For every post, the stored `likes` counter equals the number of present
/// entries of the like-membership set for that post; every action preserves
/// this, so it holds after any sequence of likes and unlikes.
pub proof fn lemma_likes_counter_in_lockstep(p: Pallet, post_id: u64)
    requires
        p.wf(),
        p.posts@.contains_key(post_id),
    ensures
        p.posts@[post_id].likes == count_with_first(p.post_likes@, post_id),
{
}

} // verus!
