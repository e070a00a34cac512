//! Groups, private messaging, moderation reports, reputation and blocking.
//!
//! Group membership and the `member_count` counter are kept in lockstep and
//! bounded by the configured maximum; a message reaches an inbox only if its
//! sender is not blocked by the recipient; reputation moves by one point per
//! vote with saturating arithmetic.

use vstd::prelude::*;
use crate::AccountId;
use crate::ledger::{Ledger, sat_add_u128};
use crate::store::{
    IdMap, PairSet, count_with_first, lemma_count_with_first_insert,
    lemma_count_with_first_pos, lemma_count_with_first_remove, lemma_count_with_first_zero,
};

verus! {

/// The configured bounds and amounts of the module.
pub struct Config {
    pub group_deposit: u128,
    pub max_group_members: u32,
    pub max_group_name_length: u32,
    pub max_group_description_length: u32,
    pub max_message_length: u32,
}

pub struct GroupInfo {
    pub creator: AccountId,
    pub name: Vec<u8>,
    pub description: Vec<u8>,
    pub avatar_hash: Option<Vec<u8>>,
    pub member_count: u32,
    pub is_public: bool,
    pub created_at: u64,
    pub deposit: u128,
}

pub struct PrivateMessage {
    pub sender: AccountId,
    pub recipient: AccountId,
    pub content_hash: Vec<u8>,
    pub timestamp: u64,
    pub is_read: bool,
}

pub struct ContentReport {
    pub reporter: AccountId,
    pub target_account: Option<AccountId>,
    pub content_hash: Option<Vec<u8>>,
    pub reason: ReportReason,
    pub description: Vec<u8>,
    pub timestamp: u64,
    pub status: ReportStatus,
}

#[derive(Debug, PartialEq, Eq)]
pub enum ReportReason {
    Spam,
    Harassment,
    InappropriateContent,
    Copyright,
    FakeNews,
    Other,
}

#[derive(Debug, PartialEq, Eq)]
pub enum ReportStatus {
    Pending,
    UnderReview,
    Resolved,
    Dismissed,
}

#[derive(Debug, Clone, Copy, PartialEq, Eq)]
pub struct UserReputation {
    pub score: u32,
    pub positive_votes: u32,
    pub negative_votes: u32,
    pub last_updated: u64,
}

#[derive(Debug, PartialEq, Eq)]
pub enum Event {
    GroupCreated { group_id: u64, creator: AccountId },
    GroupJoined { group_id: u64, user: AccountId },
    GroupLeft { group_id: u64, user: AccountId },
    GroupUpdated { group_id: u64, updater: AccountId },
    PrivateMessageSent { message_id: u64, sender: AccountId, recipient: AccountId },
    PrivateMessageRead { message_id: u64, reader: AccountId },
    ContentReported { report_id: u64, reporter: AccountId },
    ReportStatusUpdated { report_id: u64, new_status: ReportStatus },
    ReputationUpdated { user: AccountId, new_score: u32 },
    UserBlocked { blocker: AccountId, blocked: AccountId },
    UserUnblocked { unblocker: AccountId, unblocked: AccountId },
}

#[derive(Debug, PartialEq, Eq)]
pub enum Error {
    GroupNotFound,
    GroupNameTooLong,
    GroupDescriptionTooLong,
    GroupFull,
    NotGroupMember,
    NotGroupAdmin,
    AlreadyGroupMember,
    MessageNotFound,
    MessageTooLong,
    CannotMessageSelf,
    UserBlocked,
    ReportNotFound,
    CannotBlockSelf,
    AlreadyBlocked,
    NotBlocked,
    InsufficientBalance,
    Unauthorized,
}

/// Incrementing that stops at the largest representable count.
pub open spec fn sat_inc(x: u32) -> u32 {
    if x == u32::MAX {
        x
    } else {
        (x + 1) as u32
    }
}

/// Decrementing that floors at zero.
pub open spec fn sat_dec(x: u32) -> u32 {
    if x == 0 {
        0
    } else {
        (x - 1) as u32
    }
}

/// The reputation an account holds before its first vote.
pub open spec fn default_reputation(now: u64) -> UserReputation {
    UserReputation { score: 100, positive_votes: 0, negative_votes: 0, last_updated: now }
}

/// One reputation vote applied to an existing record.
pub open spec fn bumped_reputation(r: UserReputation, positive: bool, now: u64) -> UserReputation {
    if positive {
        UserReputation {
            score: sat_inc(r.score),
            positive_votes: sat_inc(r.positive_votes),
            negative_votes: r.negative_votes,
            last_updated: now,
        }
    } else {
        UserReputation {
            score: sat_dec(r.score),
            positive_votes: r.positive_votes,
            negative_votes: sat_inc(r.negative_votes),
            last_updated: now,
        }
    }
}

/// The construction-time parts of the state; no action changes them.
pub open spec fn identity_unchanged(s0: Pallet, s1: Pallet) -> bool {
    &&& s1.owner == s0.owner
    &&& s1.config == s0.config
}

/// The group stores are as they were.
pub open spec fn groups_unchanged(s0: Pallet, s1: Pallet) -> bool {
    &&& s1.groups@ == s0.groups@
    &&& s1.next_group_id == s0.next_group_id
    &&& s1.group_members@ == s0.group_members@
    &&& s1.group_admins@ == s0.group_admins@
}

/// The messaging stores are as they were.
pub open spec fn messages_unchanged(s0: Pallet, s1: Pallet) -> bool {
    &&& s1.private_messages@ == s0.private_messages@
    &&& s1.next_message_id == s0.next_message_id
    &&& s1.user_inbox@ == s0.user_inbox@
}

/// The moderation stores are as they were.
pub open spec fn reports_unchanged(s0: Pallet, s1: Pallet) -> bool {
    &&& s1.content_reports@ == s0.content_reports@
    &&& s1.next_report_id == s0.next_report_id
}

/// The reputation store is as it was.
pub open spec fn reputations_unchanged(s0: Pallet, s1: Pallet) -> bool {
    s1.user_reputations@ == s0.user_reputations@
}

/// The blocking store is as it was.
pub open spec fn blocks_unchanged(s0: Pallet, s1: Pallet) -> bool {
    s1.blocked_users@ == s0.blocked_users@
}

pub struct Pallet {
    pub owner: AccountId,
    pub config: Config,
    pub groups: IdMap<GroupInfo>,
    pub next_group_id: u64,
    pub group_members: PairSet,
    pub group_admins: PairSet,
    pub private_messages: IdMap<PrivateMessage>,
    pub next_message_id: u64,
    pub user_inbox: PairSet,
    pub content_reports: IdMap<ContentReport>,
    pub next_report_id: u64,
    pub user_reputations: IdMap<UserReputation>,
    pub blocked_users: PairSet,
    pub events: Vec<Event>,
}

impl Pallet {
    /// Well-formedness: identifiers are allocated monotonically, every
    /// group's `member_count` equals the number of present membership entries
    /// for it and stays within the configured maximum, membership and admin
    /// entries only reference existing groups, and every inbox entry points
    /// at a stored message addressed to that inbox's owner.
    pub open spec fn wf(&self) -> bool {
        &&& self.groups.inv()
        &&& self.group_members.inv()
        &&& self.group_admins.inv()
        &&& self.private_messages.inv()
        &&& self.user_inbox.inv()
        &&& self.content_reports.inv()
        &&& self.user_reputations.inv()
        &&& self.blocked_users.inv()
        &&& self.group_members@.finite()
        &&& self.group_admins@.finite()
        &&& self.user_inbox@.finite()
        &&& self.blocked_users@.finite()
        &&& self.config.max_group_members >= 1
        &&& forall|g: u64| #[trigger] self.groups@.contains_key(g) ==> g < self.next_group_id
        &&& forall|g: u64| #[trigger]
            self.groups@.contains_key(g) ==> self.groups@[g].member_count == count_with_first(
                self.group_members@,
                g,
            )
        &&& forall|g: u64| #[trigger]
            self.groups@.contains_key(g) ==> self.groups@[g].member_count
                <= self.config.max_group_members
        &&& forall|e: (u64, u64)| #[trigger]
            self.group_members@.contains(e) ==> self.groups@.contains_key(e.0)
        &&& forall|e: (u64, u64)| #[trigger]
            self.group_admins@.contains(e) ==> self.groups@.contains_key(e.0)
        &&& forall|m: u64| #[trigger]
            self.private_messages@.contains_key(m) ==> m < self.next_message_id
        &&& forall|e: (u64, u64)| #[trigger]
            self.user_inbox@.contains(e) ==> self.private_messages@.contains_key(e.1)
                && self.private_messages@[e.1].recipient == e.0
        &&& forall|rid: u64| #[trigger]
            self.content_reports@.contains_key(rid) ==> rid < self.next_report_id
    }

    pub fn new(owner: AccountId, config: Config) -> (r: Self)
        requires
            config.max_group_members >= 1,
        ensures
            r.wf(),
            r.owner == owner,
            r.config == config,
            r.next_group_id == 0,
            r.next_message_id == 0,
            r.next_report_id == 0,
            r.groups@ == Map::<u64, GroupInfo>::empty(),
            r.group_members@ == Set::<(u64, u64)>::empty(),
            r.group_admins@ == Set::<(u64, u64)>::empty(),
            r.private_messages@ == Map::<u64, PrivateMessage>::empty(),
            r.user_inbox@ == Set::<(u64, u64)>::empty(),
            r.content_reports@ == Map::<u64, ContentReport>::empty(),
            r.user_reputations@ == Map::<u64, UserReputation>::empty(),
            r.blocked_users@ == Set::<(u64, u64)>::empty(),
            r.events@ == Seq::<Event>::empty(),
    {
        Pallet {
            owner,
            config,
            groups: IdMap::new(),
            next_group_id: 0,
            group_members: PairSet::new(),
            group_admins: PairSet::new(),
            private_messages: IdMap::new(),
            next_message_id: 0,
            user_inbox: PairSet::new(),
            content_reports: IdMap::new(),
            next_report_id: 0,
            user_reputations: IdMap::new(),
            blocked_users: PairSet::new(),
            events: Vec::new(),
        }
    }

    fn blank_group() -> (r: GroupInfo) {
        GroupInfo {
            creator: 0,
            name: Vec::new(),
            description: Vec::new(),
            avatar_hash: None,
            member_count: 0,
            is_public: false,
            created_at: 0,
            deposit: 0,
        }
    }

    fn blank_message() -> (r: PrivateMessage) {
        PrivateMessage {
            sender: 0,
            recipient: 0,
            content_hash: Vec::new(),
            timestamp: 0,
            is_read: false,
        }
    }

    /// Creates a group: escrows the configured deposit and makes the caller
    /// the sole member and admin.
    pub fn create_group(
        &mut self,
        ledger: &mut Ledger,
        caller: AccountId,
        now: u64,
        name: Vec<u8>,
        description: Vec<u8>,
        is_public: bool,
        avatar_hash: Option<Vec<u8>>,
    ) -> (r: Result<(), Error>)
        requires
            old(self).wf(),
            old(ledger).wf(),
            old(self).next_group_id < u64::MAX,
        ensures
            final(self).wf(),
            final(ledger).wf(),
            name@.len() > old(self).config.max_group_name_length ==> r == Err::<(), Error>(
                Error::GroupNameTooLong,
            ) && *final(self) == *old(self) && *final(ledger) == *old(ledger),
            name@.len() <= old(self).config.max_group_name_length && description@.len() > old(
                self,
            ).config.max_group_description_length ==> r == Err::<(), Error>(
                Error::GroupDescriptionTooLong,
            ) && *final(self) == *old(self) && *final(ledger) == *old(ledger),
            name@.len() <= old(self).config.max_group_name_length && description@.len() <= old(
                self,
            ).config.max_group_description_length && old(ledger).free_of(caller) < old(
                self,
            ).config.group_deposit ==> r == Err::<(), Error>(Error::InsufficientBalance)
                && *final(self) == *old(self) && *final(ledger) == *old(ledger),
            name@.len() <= old(self).config.max_group_name_length && description@.len() <= old(
                self,
            ).config.max_group_description_length && old(ledger).free_of(caller) >= old(
                self,
            ).config.group_deposit ==> {
                let id = old(self).next_group_id;
                let deposit = old(self).config.group_deposit;
                &&& r == Ok::<(), Error>(())
                &&& final(self).groups@ == old(self).groups@.insert(
                    id,
                    (GroupInfo {
                        creator: caller,
                        name: name,
                        description: description,
                        avatar_hash: avatar_hash,
                        member_count: 1,
                        is_public: is_public,
                        created_at: now,
                        deposit: deposit,
                    }),
                )
                &&& final(self).next_group_id == id + 1
                &&& final(self).group_members@ == old(self).group_members@.insert((id, caller))
                &&& final(self).group_admins@ == old(self).group_admins@.insert((id, caller))
                &&& identity_unchanged(*old(self), *final(self))
                &&& messages_unchanged(*old(self), *final(self))
                &&& reports_unchanged(*old(self), *final(self))
                &&& reputations_unchanged(*old(self), *final(self))
                &&& blocks_unchanged(*old(self), *final(self))
                &&& final(self).events@ == old(self).events@.push(
                    (Event::GroupCreated { group_id: id, creator: caller }),
                )
                &&& final(ledger).free_of(caller) == old(ledger).free_of(caller) - deposit
                &&& final(ledger).reserved_of(caller) == sat_add_u128(
                    old(ledger).reserved_of(caller),
                    deposit,
                )
                &&& forall|a: AccountId|
                    a != caller ==> #[trigger] final(ledger).free_of(a) == old(ledger).free_of(a)
                &&& forall|a: AccountId|
                    a != caller ==> #[trigger] final(ledger).reserved_of(a) == old(
                        ledger,
                    ).reserved_of(a)
            },
    {
        if name.len() > self.config.max_group_name_length as usize {
            return Err(Error::GroupNameTooLong);
        }
        if description.len() > self.config.max_group_description_length as usize {
            return Err(Error::GroupDescriptionTooLong);
        }
        let deposit = self.config.group_deposit;
        match ledger.reserve(caller, deposit) {
            Ok(()) => {},
            Err(_) => {
                return Err(Error::InsufficientBalance);
            },
        }
        let group_id = self.next_group_id;
        let group = GroupInfo {
            creator: caller,
            name,
            description,
            avatar_hash,
            member_count: 1,
            is_public,
            created_at: now,
            deposit,
        };
        self.groups.insert(group_id, group);
        self.next_group_id = group_id + 1;
        proof {
            if old(self).group_members@.contains((group_id, caller)) {
                assert(old(self).groups@.contains_key(group_id));
            }
            if old(self).group_admins@.contains((group_id, caller)) {
                assert(old(self).groups@.contains_key(group_id));
            }
        }
        self.group_members.insert(group_id, caller);
        self.group_admins.insert(group_id, caller);
        self.events.push(Event::GroupCreated { group_id, creator: caller });
        proof {
            let s0 = *old(self);
            assert forall|g: u64| #[trigger] self.groups@.contains_key(g)
                implies self.groups@[g].member_count == count_with_first(
                    self.group_members@,
                    g,
                ) by {
                if g == group_id {
                    assert forall|e: (u64, u64)| s0.group_members@.contains(e)
                        implies e.0 != group_id by {
                        assert(s0.groups@.contains_key(e.0));
                    }
                    lemma_count_with_first_zero(s0.group_members@, group_id);
                    lemma_count_with_first_insert(s0.group_members@, (group_id, caller), g);
                } else {
                    lemma_count_with_first_insert(s0.group_members@, (group_id, caller), g);
                }
            }
        }
        Ok(())
    }

    /// Joins a group that has room and does not yet list the caller.
    pub fn join_group(&mut self, caller: AccountId, group_id: u64) -> (r: Result<(), Error>)
        requires
            old(self).wf(),
        ensures
            final(self).wf(),
            !old(self).groups@.contains_key(group_id) ==> r == Err::<(), Error>(
                Error::GroupNotFound,
            ) && *final(self) == *old(self),
            old(self).groups@.contains_key(group_id) && old(self).group_members@.contains(
                (group_id, caller),
            ) ==> r == Err::<(), Error>(Error::AlreadyGroupMember) && *final(self) == *old(self),
            old(self).groups@.contains_key(group_id) && !old(self).group_members@.contains(
                (group_id, caller),
            ) && old(self).groups@[group_id].member_count >= old(self).config.max_group_members
                ==> r == Err::<(), Error>(Error::GroupFull) && *final(self) == *old(self),
            old(self).groups@.contains_key(group_id) && !old(self).group_members@.contains(
                (group_id, caller),
            ) && old(self).groups@[group_id].member_count < old(self).config.max_group_members
                ==> {
                let g0 = old(self).groups@[group_id];
                &&& r == Ok::<(), Error>(())
                &&& final(self).group_members@ == old(self).group_members@.insert(
                    (group_id, caller),
                )
                &&& final(self).groups@ == old(self).groups@.insert(
                    group_id,
                    (GroupInfo {
                        creator: g0.creator,
                        name: g0.name,
                        description: g0.description,
                        avatar_hash: g0.avatar_hash,
                        member_count: (g0.member_count + 1) as u32,
                        is_public: g0.is_public,
                        created_at: g0.created_at,
                        deposit: g0.deposit,
                    }),
                )
                &&& final(self).group_admins@ == old(self).group_admins@
                &&& final(self).next_group_id == old(self).next_group_id
                &&& identity_unchanged(*old(self), *final(self))
                &&& messages_unchanged(*old(self), *final(self))
                &&& reports_unchanged(*old(self), *final(self))
                &&& reputations_unchanged(*old(self), *final(self))
                &&& blocks_unchanged(*old(self), *final(self))
                &&& final(self).events@ == old(self).events@.push(
                    (Event::GroupJoined { group_id, user: caller }),
                )
            },
    {
        let member_count: u32;
        {
            let group = match self.groups.get(group_id) {
                Some(g) => g,
                None => {
                    return Err(Error::GroupNotFound);
                },
            };
            member_count = group.member_count;
        }
        if self.group_members.contains(group_id, caller) {
            return Err(Error::AlreadyGroupMember);
        }
        if member_count >= self.config.max_group_members {
            return Err(Error::GroupFull);
        }
        self.group_members.insert(group_id, caller);
        let mut group = self.groups.replace(group_id, Self::blank_group());
        group.member_count = group.member_count.saturating_add(1);
        self.groups.insert(group_id, group);
        self.events.push(Event::GroupJoined { group_id, user: caller });
        proof {
            let s0 = *old(self);
            let g0 = s0.groups@[group_id];
            assert(self.groups@ =~= s0.groups@.insert(
                group_id,
                (GroupInfo {
                    creator: g0.creator,
                    name: g0.name,
                    description: g0.description,
                    avatar_hash: g0.avatar_hash,
                    member_count: (g0.member_count + 1) as u32,
                    is_public: g0.is_public,
                    created_at: g0.created_at,
                    deposit: g0.deposit,
                }),
            ));
            assert forall|g: u64| #[trigger] self.groups@.contains_key(g)
                implies self.groups@[g].member_count == count_with_first(
                    self.group_members@,
                    g,
                ) by {
                lemma_count_with_first_insert(s0.group_members@, (group_id, caller), g);
            }
        }
        Ok(())
    }

    /// Leaves a group; the caller's admin flag, if any, goes with it.
    pub fn leave_group(&mut self, caller: AccountId, group_id: u64) -> (r: Result<(), Error>)
        requires
            old(self).wf(),
        ensures
            final(self).wf(),
            !old(self).groups@.contains_key(group_id) ==> r == Err::<(), Error>(
                Error::GroupNotFound,
            ) && *final(self) == *old(self),
            old(self).groups@.contains_key(group_id) && !old(self).group_members@.contains(
                (group_id, caller),
            ) ==> r == Err::<(), Error>(Error::NotGroupMember) && *final(self) == *old(self),
            old(self).groups@.contains_key(group_id) && old(self).group_members@.contains(
                (group_id, caller),
            ) ==> {
                let g0 = old(self).groups@[group_id];
                &&& r == Ok::<(), Error>(())
                &&& g0.member_count >= 1
                &&& final(self).group_members@ == old(self).group_members@.remove(
                    (group_id, caller),
                )
                &&& final(self).group_admins@ == old(self).group_admins@.remove(
                    (group_id, caller),
                )
                &&& final(self).groups@ == old(self).groups@.insert(
                    group_id,
                    (GroupInfo {
                        creator: g0.creator,
                        name: g0.name,
                        description: g0.description,
                        avatar_hash: g0.avatar_hash,
                        member_count: (g0.member_count - 1) as u32,
                        is_public: g0.is_public,
                        created_at: g0.created_at,
                        deposit: g0.deposit,
                    }),
                )
                &&& final(self).next_group_id == old(self).next_group_id
                &&& identity_unchanged(*old(self), *final(self))
                &&& messages_unchanged(*old(self), *final(self))
                &&& reports_unchanged(*old(self), *final(self))
                &&& reputations_unchanged(*old(self), *final(self))
                &&& blocks_unchanged(*old(self), *final(self))
                &&& final(self).events@ == old(self).events@.push(
                    (Event::GroupLeft { group_id, user: caller }),
                )
            },
    {
        if !self.groups.contains_key(group_id) {
            return Err(Error::GroupNotFound);
        }
        if !self.group_members.contains(group_id, caller) {
            return Err(Error::NotGroupMember);
        }
        proof {
            lemma_count_with_first_pos(self.group_members@, (group_id, caller), group_id);
        }
        self.group_members.remove(group_id, caller);
        self.group_admins.remove(group_id, caller);
        let mut group = self.groups.replace(group_id, Self::blank_group());
        group.member_count = group.member_count.saturating_sub(1);
        self.groups.insert(group_id, group);
        self.events.push(Event::GroupLeft { group_id, user: caller });
        proof {
            let s0 = *old(self);
            let g0 = s0.groups@[group_id];
            assert(self.groups@ =~= s0.groups@.insert(
                group_id,
                (GroupInfo {
                    creator: g0.creator,
                    name: g0.name,
                    description: g0.description,
                    avatar_hash: g0.avatar_hash,
                    member_count: (g0.member_count - 1) as u32,
                    is_public: g0.is_public,
                    created_at: g0.created_at,
                    deposit: g0.deposit,
                }),
            ));
            assert forall|g: u64| #[trigger] self.groups@.contains_key(g)
                implies self.groups@[g].member_count == count_with_first(
                    self.group_members@,
                    g,
                ) by {
                lemma_count_with_first_remove(s0.group_members@, (group_id, caller), g);
            }
        }
        Ok(())
    }

    /// Sends a private message and indexes it into the recipient's inbox,
    /// unless the recipient has blocked the sender.
    pub fn send_private_message(
        &mut self,
        caller: AccountId,
        now: u64,
        recipient: AccountId,
        content_hash: Vec<u8>,
    ) -> (r: Result<(), Error>)
        requires
            old(self).wf(),
            old(self).next_message_id < u64::MAX,
        ensures
            final(self).wf(),
            caller == recipient ==> r == Err::<(), Error>(Error::CannotMessageSelf)
                && *final(self) == *old(self),
            caller != recipient && old(self).blocked_users@.contains((recipient, caller)) ==> r
                == Err::<(), Error>(Error::UserBlocked) && *final(self) == *old(self),
            caller != recipient && !old(self).blocked_users@.contains((recipient, caller))
                && content_hash@.len() > old(self).config.max_message_length ==> r == Err::<
                (),
                Error,
            >(Error::MessageTooLong) && *final(self) == *old(self),
            caller != recipient && !old(self).blocked_users@.contains((recipient, caller))
                && content_hash@.len() <= old(self).config.max_message_length ==> {
                let id = old(self).next_message_id;
                &&& r == Ok::<(), Error>(())
                &&& final(self).private_messages@ == old(self).private_messages@.insert(
                    id,
                    (PrivateMessage {
                        sender: caller,
                        recipient: recipient,
                        content_hash: content_hash,
                        timestamp: now,
                        is_read: false,
                    }),
                )
                &&& final(self).next_message_id == id + 1
                &&& final(self).user_inbox@ == old(self).user_inbox@.insert((recipient, id))
                &&& identity_unchanged(*old(self), *final(self))
                &&& groups_unchanged(*old(self), *final(self))
                &&& reports_unchanged(*old(self), *final(self))
                &&& reputations_unchanged(*old(self), *final(self))
                &&& blocks_unchanged(*old(self), *final(self))
                &&& final(self).events@ == old(self).events@.push(
                    (Event::PrivateMessageSent { message_id: id, sender: caller, recipient }),
                )
            },
    {
        if caller == recipient {
            return Err(Error::CannotMessageSelf);
        }
        if self.blocked_users.contains(recipient, caller) {
            return Err(Error::UserBlocked);
        }
        if content_hash.len() > self.config.max_message_length as usize {
            return Err(Error::MessageTooLong);
        }
        let message_id = self.next_message_id;
        let message = PrivateMessage {
            sender: caller,
            recipient,
            content_hash,
            timestamp: now,
            is_read: false,
        };
        self.private_messages.insert(message_id, message);
        self.next_message_id = message_id + 1;
        proof {
            if old(self).user_inbox@.contains((recipient, message_id)) {
                assert(old(self).private_messages@.contains_key(message_id));
            }
        }
        self.user_inbox.insert(recipient, message_id);
        self.events.push(
            Event::PrivateMessageSent { message_id, sender: caller, recipient },
        );
        Ok(())
    }

    /// Marks a message as read; only its recipient may do so.
    pub fn mark_message_read(&mut self, caller: AccountId, message_id: u64) -> (r: Result<
        (),
        Error,
    >)
        requires
            old(self).wf(),
        ensures
            final(self).wf(),
            !old(self).private_messages@.contains_key(message_id) ==> r == Err::<(), Error>(
                Error::MessageNotFound,
            ) && *final(self) == *old(self),
            old(self).private_messages@.contains_key(message_id) && old(
                self,
            ).private_messages@[message_id].recipient != caller ==> r == Err::<(), Error>(
                Error::Unauthorized,
            ) && *final(self) == *old(self),
            old(self).private_messages@.contains_key(message_id) && old(
                self,
            ).private_messages@[message_id].recipient == caller ==> {
                let m0 = old(self).private_messages@[message_id];
                &&& r == Ok::<(), Error>(())
                &&& final(self).private_messages@ == old(self).private_messages@.insert(
                    message_id,
                    (PrivateMessage {
                        sender: m0.sender,
                        recipient: m0.recipient,
                        content_hash: m0.content_hash,
                        timestamp: m0.timestamp,
                        is_read: true,
                    }),
                )
                &&& final(self).user_inbox@ == old(self).user_inbox@
                &&& final(self).next_message_id == old(self).next_message_id
                &&& identity_unchanged(*old(self), *final(self))
                &&& groups_unchanged(*old(self), *final(self))
                &&& reports_unchanged(*old(self), *final(self))
                &&& reputations_unchanged(*old(self), *final(self))
                &&& blocks_unchanged(*old(self), *final(self))
                &&& final(self).events@ == old(self).events@.push(
                    (Event::PrivateMessageRead { message_id, reader: caller }),
                )
            },
    {
        {
            let message = match self.private_messages.get(message_id) {
                Some(m) => m,
                None => {
                    return Err(Error::MessageNotFound);
                },
            };
            if message.recipient != caller {
                return Err(Error::Unauthorized);
            }
        }
        let mut message = self.private_messages.replace(message_id, Self::blank_message());
        message.is_read = true;
        self.private_messages.insert(message_id, message);
        self.events.push(Event::PrivateMessageRead { message_id, reader: caller });
        proof {
            let s0 = *old(self);
            let m0 = s0.private_messages@[message_id];
            assert(self.private_messages@ =~= s0.private_messages@.insert(
                message_id,
                (PrivateMessage {
                    sender: m0.sender,
                    recipient: m0.recipient,
                    content_hash: m0.content_hash,
                    timestamp: m0.timestamp,
                    is_read: true,
                }),
            ));
        }
        Ok(())
    }

    /// Files a content report; it starts in the pending state
    /// unconditionally, and neither target field is required.
    pub fn report_content(
        &mut self,
        caller: AccountId,
        now: u64,
        target_account: Option<AccountId>,
        content_hash: Option<Vec<u8>>,
        reason: ReportReason,
        description: Vec<u8>,
    ) -> (r: Result<(), Error>)
        requires
            old(self).wf(),
            old(self).next_report_id < u64::MAX,
        ensures
            final(self).wf(),
            r == Ok::<(), Error>(()),
            final(self).content_reports@ == old(self).content_reports@.insert(
                old(self).next_report_id,
                (ContentReport {
                    reporter: caller,
                    target_account: target_account,
                    content_hash: content_hash,
                    reason: reason,
                    description: description,
                    timestamp: now,
                    status: ReportStatus::Pending,
                }),
            ),
            final(self).next_report_id == old(self).next_report_id + 1,
            final(self).events@ == old(self).events@.push(
                (Event::ContentReported { report_id: old(self).next_report_id, reporter: caller }),
            ),
            identity_unchanged(*old(self), *final(self)),
            groups_unchanged(*old(self), *final(self)),
            messages_unchanged(*old(self), *final(self)),
            reputations_unchanged(*old(self), *final(self)),
            blocks_unchanged(*old(self), *final(self)),
    {
        let report_id = self.next_report_id;
        let report = ContentReport {
            reporter: caller,
            target_account,
            content_hash,
            reason,
            description,
            timestamp: now,
            status: ReportStatus::Pending,
        };
        self.content_reports.insert(report_id, report);
        self.next_report_id = report_id + 1;
        self.events.push(Event::ContentReported { report_id, reporter: caller });
        Ok(())
    }

    /// Blocks a user; blocking is consulted by the messaging path only.
    pub fn block_user(&mut self, caller: AccountId, target: AccountId) -> (r: Result<(), Error>)
        requires
            old(self).wf(),
        ensures
            final(self).wf(),
            caller == target ==> r == Err::<(), Error>(Error::CannotBlockSelf) && *final(self)
                == *old(self),
            caller != target && old(self).blocked_users@.contains((caller, target)) ==> r
                == Err::<(), Error>(Error::AlreadyBlocked) && *final(self) == *old(self),
            caller != target && !old(self).blocked_users@.contains((caller, target)) ==> {
                &&& r == Ok::<(), Error>(())
                &&& final(self).blocked_users@ == old(self).blocked_users@.insert(
                    (caller, target),
                )
                &&& identity_unchanged(*old(self), *final(self))
                &&& groups_unchanged(*old(self), *final(self))
                &&& messages_unchanged(*old(self), *final(self))
                &&& reports_unchanged(*old(self), *final(self))
                &&& reputations_unchanged(*old(self), *final(self))
                &&& final(self).events@ == old(self).events@.push(
                    (Event::UserBlocked { blocker: caller, blocked: target }),
                )
            },
    {
        if caller == target {
            return Err(Error::CannotBlockSelf);
        }
        if self.blocked_users.contains(caller, target) {
            return Err(Error::AlreadyBlocked);
        }
        self.blocked_users.insert(caller, target);
        self.events.push(Event::UserBlocked { blocker: caller, blocked: target });
        Ok(())
    }

    pub fn unblock_user(&mut self, caller: AccountId, target: AccountId) -> (r: Result<
        (),
        Error,
    >)
        requires
            old(self).wf(),
        ensures
            final(self).wf(),
            !old(self).blocked_users@.contains((caller, target)) ==> r == Err::<(), Error>(
                Error::NotBlocked,
            ) && *final(self) == *old(self),
            old(self).blocked_users@.contains((caller, target)) ==> {
                &&& r == Ok::<(), Error>(())
                &&& final(self).blocked_users@ == old(self).blocked_users@.remove(
                    (caller, target),
                )
                &&& identity_unchanged(*old(self), *final(self))
                &&& groups_unchanged(*old(self), *final(self))
                &&& messages_unchanged(*old(self), *final(self))
                &&& reports_unchanged(*old(self), *final(self))
                &&& reputations_unchanged(*old(self), *final(self))
                &&& final(self).events@ == old(self).events@.push(
                    (Event::UserUnblocked { unblocker: caller, unblocked: target }),
                )
            },
    {
        if !self.blocked_users.contains(caller, target) {
            return Err(Error::NotBlocked);
        }
        self.blocked_users.remove(caller, target);
        self.events.push(Event::UserUnblocked { unblocker: caller, unblocked: target });
        Ok(())
    }

    /// Applies one reputation vote to the target; only the module owner may
    /// do so. An untouched account starts from the default score.
    pub fn update_reputation(
        &mut self,
        caller: AccountId,
        now: u64,
        target: AccountId,
        positive: bool,
    ) -> (r: Result<(), Error>)
        requires
            old(self).wf(),
        ensures
            final(self).wf(),
            caller != old(self).owner ==> r == Err::<(), Error>(Error::Unauthorized)
                && *final(self) == *old(self),
            caller == old(self).owner ==> {
                let base = if old(self).user_reputations@.contains_key(target) {
                    old(self).user_reputations@[target]
                } else {
                    default_reputation(now)
                };
                let rep = bumped_reputation(base, positive, now);
                &&& r == Ok::<(), Error>(())
                &&& final(self).user_reputations@ == old(self).user_reputations@.insert(
                    target,
                    rep,
                )
                &&& identity_unchanged(*old(self), *final(self))
                &&& groups_unchanged(*old(self), *final(self))
                &&& messages_unchanged(*old(self), *final(self))
                &&& reports_unchanged(*old(self), *final(self))
                &&& blocks_unchanged(*old(self), *final(self))
                &&& final(self).events@ == old(self).events@.push(
                    (Event::ReputationUpdated { user: target, new_score: rep.score }),
                )
            },
    {
        if caller != self.owner {
            return Err(Error::Unauthorized);
        }
        let mut reputation = match self.user_reputations.get(target) {
            Some(r) => *r,
            None => UserReputation {
                score: 100,
                positive_votes: 0,
                negative_votes: 0,
                last_updated: now,
            },
        };
        if positive {
            reputation.positive_votes = reputation.positive_votes.saturating_add(1);
            reputation.score = reputation.score.saturating_add(1);
        } else {
            reputation.negative_votes = reputation.negative_votes.saturating_add(1);
            reputation.score = reputation.score.saturating_sub(1);
        }
        reputation.last_updated = now;
        let new_score = reputation.score;
        self.user_reputations.insert(target, reputation);
        self.events.push(Event::ReputationUpdated { user: target, new_score });
        Ok(())
    }
}

/// For every group, `member_count` equals the number of present membership
/// entries for that group and never exceeds the configured maximum; every
/// action preserves this, so it holds after any sequence of joins and leaves.
pub proof fn lemma_member_counter_in_lockstep(p: Pallet, group_id: u64)
    requires
        p.wf(),
        p.groups@.contains_key(group_id),
    ensures
        p.groups@[group_id].member_count == count_with_first(p.group_members@, group_id),
        p.groups@[group_id].member_count <= p.config.max_group_members,
{
}

} // verus!
