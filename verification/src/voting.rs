//! Poll lifecycle, vote casting and tallying.
//!
//! A poll accepts votes only while it is active and the logical time lies in
//! its window; each `(poll, voter)` pair votes at most once, and tallies are
//! recomputed from the voter list on every query.

use vstd::prelude::*;
use crate::AccountId;
use crate::store::{IdMap, PairMap};

verus! {

pub struct Poll {
    pub title: String,
    pub description: String,
    pub options: Vec<String>,
    pub creator: AccountId,
    pub start_time: u64,
    pub end_time: u64,
    pub is_active: bool,
    pub total_votes: u32,
}

#[derive(Debug, PartialEq, Eq)]
pub struct Vote {
    pub option_index: u32,
    pub timestamp: u64,
}

pub struct PollResults {
    pub poll_id: u32,
    pub title: String,
    pub option_votes: Vec<u32>,
    pub total_votes: u32,
    pub is_ended: bool,
}

#[derive(Debug, PartialEq, Eq)]
pub struct PollCreated {
    pub poll_id: u32,
    pub creator: AccountId,
    pub title: String,
}

#[derive(Debug, PartialEq, Eq)]
pub struct VoteCast {
    pub poll_id: u32,
    pub voter: AccountId,
    pub option_index: u32,
}

#[derive(Debug, PartialEq, Eq)]
pub struct PollEnded {
    pub poll_id: u32,
    pub total_votes: u32,
}

#[derive(Debug, PartialEq, Eq)]
pub enum PollEvent {
    Created(PollCreated),
    Cast(VoteCast),
    Ended(PollEnded),
}

#[derive(Debug, PartialEq, Eq)]
pub enum Error {
    PollNotFound,
    PollEnded,
    PollNotStarted,
    InvalidOption,
    AlreadyVoted,
    NotAuthorized,
    InvalidTimeRange,
    EmptyOptions,
}

/// A stored poll record is internally consistent.
pub open spec fn poll_ok(p: Poll) -> bool {
    &&& p.options@.len() >= 1
    &&& p.end_time > p.start_time
}

/// The number of recorded votes for `opt` among the listed voters.
pub open spec fn tally_count(
    votes: Map<(u64, u64), Vote>,
    pid: u64,
    voters: Seq<AccountId>,
    opt: int,
) -> nat
    decreases voters.len(),
{
    if voters.len() == 0 {
        0
    } else {
        tally_count(votes, pid, voters.drop_last(), opt) + (if votes.contains_key(
            (pid, voters.last()),
        ) && votes[(pid, voters.last())].option_index as int == opt {
            1nat
        } else {
            0nat
        })
    }
}

proof fn lemma_tally_count_le(votes: Map<(u64, u64), Vote>, pid: u64, voters: Seq<AccountId>, opt: int)
    ensures
        tally_count(votes, pid, voters, opt) <= voters.len(),
    decreases voters.len(),
{
    if voters.len() > 0 {
        lemma_tally_count_le(votes, pid, voters.drop_last(), opt);
    }
}

proof fn lemma_tally_count_extend(
    votes: Map<(u64, u64), Vote>,
    pid: u64,
    voters: Seq<AccountId>,
    i: int,
    opt: int,
)
    requires
        0 <= i < voters.len(),
    ensures
        tally_count(votes, pid, voters.subrange(0, i + 1), opt) == tally_count(
            votes,
            pid,
            voters.subrange(0, i),
            opt,
        ) + (if votes.contains_key((pid, voters[i]))
            && votes[(pid, voters[i])].option_index as int == opt {
            1nat
        } else {
            0nat
        }),
{
    let s1 = voters.subrange(0, i + 1);
    assert(s1.drop_last() =~= voters.subrange(0, i));
    assert(s1.last() == voters[i]);
}

proof fn lemma_push_contains<A>(s: Seq<A>, x: A, y: A)
    ensures
        s.push(x).contains(y) <==> (s.contains(y) || y == x),
{
    if s.contains(y) {
        let i = choose|i: int| 0 <= i < s.len() && s[i] == y;
        assert(s.push(x)[i] == y);
    }
    assert(s.push(x)[s.len() as int] == x);
    if s.push(x).contains(y) {
        let i = choose|i: int| 0 <= i < s.push(x).len() && s.push(x)[i] == y;
        if i < s.len() {
            assert(s[i] == y);
        }
    }
}

/// The first check that rejects a `vote` action, if any; checks run in the
/// order of the implementation and the first failure short-circuits.
pub open spec fn vote_rejection(
    s: VotingContract,
    caller: AccountId,
    now: u64,
    poll_id: u32,
    option_index: u32,
) -> Option<Error> {
    let pid = poll_id as u64;
    if !s.polls@.contains_key(pid) {
        Some(Error::PollNotFound)
    } else if !s.polls@[pid].is_active {
        Some(Error::PollEnded)
    } else if now < s.polls@[pid].start_time {
        Some(Error::PollNotStarted)
    } else if now > s.polls@[pid].end_time {
        Some(Error::PollEnded)
    } else if option_index as int >= s.polls@[pid].options@.len() {
        Some(Error::InvalidOption)
    } else if s.votes@.contains_key((pid, caller)) {
        Some(Error::AlreadyVoted)
    } else {
        None
    }
}

pub struct VotingContract {
    pub owner: AccountId,
    pub polls: IdMap<Poll>,
    pub next_poll_id: u32,
    pub votes: PairMap<Vote>,
    pub poll_voters: IdMap<Vec<AccountId>>,
    pub events: Vec<PollEvent>,
}

impl VotingContract {
    /// Well-formedness: identifiers are allocated monotonically from 1, every
    /// poll carries a voter list whose length equals its vote counter, voter
    /// lists hold no duplicates, and the vote map and the voter lists list
    /// exactly the same `(poll, voter)` pairs.
    pub open spec fn wf(&self) -> bool {
        &&& self.polls.inv()
        &&& self.votes.inv()
        &&& self.poll_voters.inv()
        &&& self.next_poll_id >= 1
        &&& forall|p: u64| #[trigger] self.polls@.contains_key(p) ==> 1 <= p < self.next_poll_id
        &&& forall|p: u64| #[trigger]
            self.polls@.contains_key(p) ==> self.poll_voters@.contains_key(p)
        &&& forall|p: u64| #[trigger]
            self.poll_voters@.contains_key(p) ==> self.polls@.contains_key(p)
        &&& forall|p: u64| #[trigger] self.polls@.contains_key(p) ==> poll_ok(self.polls@[p])
        &&& forall|p: u64| #[trigger]
            self.polls@.contains_key(p) ==> self.poll_voters@[p]@.len()
                == self.polls@[p].total_votes
        &&& forall|p: u64| #[trigger]
            self.polls@.contains_key(p) ==> self.poll_voters@[p]@.no_duplicates()
        &&& forall|p: u64, v: u64| #[trigger]
            self.votes@.contains_key((p, v)) ==> self.polls@.contains_key(p)
        &&& forall|p: u64, v: u64| #[trigger]
            self.votes@.contains_key((p, v)) ==> self.poll_voters@.contains_key(p)
                && self.poll_voters@[p]@.contains(v)
        &&& forall|p: u64, v: u64|
            self.poll_voters@.contains_key(p) && #[trigger] self.poll_voters@[p]@.contains(v)
                ==> self.votes@.contains_key((p, v))
        &&& forall|p: u64, v: u64| #[trigger]
            self.votes@.contains_key((p, v)) ==> (self.votes@[(p, v)].option_index as int)
                < self.polls@[p].options@.len()
    }

    pub fn new(owner: AccountId) -> (r: Self)
        ensures
            r.wf(),
            r.owner == owner,
            r.next_poll_id == 1,
            r.polls@ == Map::<u64, Poll>::empty(),
            r.votes@ == Map::<(u64, u64), Vote>::empty(),
            r.poll_voters@ == Map::<u64, Vec<AccountId>>::empty(),
            r.events@ == Seq::<PollEvent>::empty(),
    {
        let r = VotingContract {
            owner,
            polls: IdMap::new(),
            next_poll_id: 1,
            votes: PairMap::new(),
            poll_voters: IdMap::new(),
            events: Vec::new(),
        };
        r
    }

    fn blank_poll() -> (r: Poll) {
        Poll {
            title: String::new(),
            description: String::new(),
            options: Vec::new(),
            creator: 0,
            start_time: 0,
            end_time: 0,
            is_active: false,
            total_votes: 0,
        }
    }

    /// Creates a poll whose window runs from `now` for `duration_hours`
    /// hours; the window must be non-empty and representable.
    pub fn create_poll(
        &mut self,
        caller: AccountId,
        now: u64,
        title: String,
        description: String,
        options: Vec<String>,
        duration_hours: u64,
    ) -> (r: Result<u32, Error>)
        requires
            old(self).wf(),
            old(self).next_poll_id < u32::MAX,
        ensures
            final(self).wf(),
            options@.len() == 0 ==> r == Err::<u32, Error>(Error::EmptyOptions) && *final(self)
                == *old(self),
            options@.len() > 0 && (duration_hours == 0 || now + duration_hours * 3600000
                > u64::MAX) ==> r == Err::<u32, Error>(Error::InvalidTimeRange) && *final(self)
                == *old(self),
            options@.len() > 0 && duration_hours > 0 && now + duration_hours * 3600000
                <= u64::MAX ==> {
                let id = old(self).next_poll_id;
                let pid = id as u64;
                &&& r == Ok::<u32, Error>(id)
                &&& final(self).next_poll_id == id + 1
                &&& final(self).polls@ == old(self).polls@.insert(
                    pid,
                    (Poll {
                        title: title,
                        description: description,
                        options: options,
                        creator: caller,
                        start_time: now,
                        end_time: (now + duration_hours * 3600000) as u64,
                        is_active: true,
                        total_votes: 0,
                    }),
                )
                &&& final(self).poll_voters@ == old(self).poll_voters@.insert(
                    pid,
                    final(self).poll_voters@[pid],
                )
                &&& final(self).poll_voters@[pid]@ == Seq::<AccountId>::empty()
                &&& final(self).votes@ == old(self).votes@
                &&& final(self).owner == old(self).owner
                &&& final(self).events@ == old(self).events@.push(
                    PollEvent::Created(
                        (PollCreated { poll_id: id, creator: caller, title: title }),
                    ),
                )
            },
    {
        if options.len() == 0 {
            return Err(Error::EmptyOptions);
        }
        let ms = match duration_hours.checked_mul(3600000) {
            Some(ms) => ms,
            None => {
                return Err(Error::InvalidTimeRange);
            },
        };
        let end_time = match now.checked_add(ms) {
            Some(e) => e,
            None => {
                return Err(Error::InvalidTimeRange);
            },
        };
        if end_time <= now {
            return Err(Error::InvalidTimeRange);
        }
        let poll_id = self.next_poll_id;
        let pid = poll_id as u64;
        let title_for_event = title.clone();
        let poll = Poll {
            title,
            description,
            options,
            creator: caller,
            start_time: now,
            end_time,
            is_active: true,
            total_votes: 0,
        };
        self.polls.insert(pid, poll);
        self.poll_voters.insert(pid, Vec::new());
        self.next_poll_id = poll_id + 1;
        self.events.push(
            PollEvent::Created(
                PollCreated { poll_id, creator: caller, title: title_for_event },
            ),
        );
        proof {
            let s0 = *old(self);
            let s1 = *self;
            assert forall|p: u64, v: u64|
                s1.poll_voters@.contains_key(p) && #[trigger] s1.poll_voters@[p]@.contains(v)
                implies s1.votes@.contains_key((p, v)) by {
                if p == pid {
                    assert(s1.poll_voters@[p]@.len() == 0);
                } else {
                    assert(s0.poll_voters@[p]@.contains(v));
                }
            }
        }
        Ok(poll_id)
    }

    /// Casts the caller's vote; each voter votes at most once per poll.
    pub fn vote(
        &mut self,
        caller: AccountId,
        now: u64,
        poll_id: u32,
        option_index: u32,
    ) -> (r: Result<(), Error>)
        requires
            old(self).wf(),
            old(self).polls@.contains_key(poll_id as u64) ==> old(self).polls@[poll_id
                as u64].total_votes < u32::MAX,
        ensures
            final(self).wf(),
            match vote_rejection(*old(self), caller, now, poll_id, option_index) {
                Some(e) => r == Err::<(), Error>(e) && *final(self) == *old(self),
                None => {
                    let pid = poll_id as u64;
                    let p0 = old(self).polls@[pid];
                    &&& r == Ok::<(), Error>(())
                    &&& final(self).votes@ == old(self).votes@.insert(
                        (pid, caller),
                        (Vote { option_index, timestamp: now }),
                    )
                    &&& final(self).poll_voters@ == old(self).poll_voters@.insert(
                        pid,
                        final(self).poll_voters@[pid],
                    )
                    &&& final(self).poll_voters@[pid]@ == old(self).poll_voters@[pid]@.push(
                        caller,
                    )
                    &&& final(self).polls@ == old(self).polls@.insert(
                        pid,
                        (Poll {
                            title: p0.title,
                            description: p0.description,
                            options: p0.options,
                            creator: p0.creator,
                            start_time: p0.start_time,
                            end_time: p0.end_time,
                            is_active: p0.is_active,
                            total_votes: (p0.total_votes + 1) as u32,
                        }),
                    )
                    &&& final(self).next_poll_id == old(self).next_poll_id
                    &&& final(self).owner == old(self).owner
                    &&& final(self).events@ == old(self).events@.push(
                        PollEvent::Cast((VoteCast { poll_id, voter: caller, option_index })),
                    )
                },
            },
    {
        let pid = poll_id as u64;
        {
            let poll = match self.polls.get(pid) {
                Some(p) => p,
                None => {
                    return Err(Error::PollNotFound);
                },
            };
            if !poll.is_active {
                return Err(Error::PollEnded);
            }
            if now < poll.start_time {
                return Err(Error::PollNotStarted);
            }
            if now > poll.end_time {
                return Err(Error::PollEnded);
            }
            if option_index as usize >= poll.options.len() {
                return Err(Error::InvalidOption);
            }
        }
        if self.votes.contains_key(pid, caller) {
            return Err(Error::AlreadyVoted);
        }
        self.votes.insert_new(pid, caller, Vote { option_index, timestamp: now });
        let mut voters = self.poll_voters.replace(pid, Vec::new());
        let ghost voters0 = voters@;
        proof {
            // the caller is not yet listed, else a vote record would exist
            if voters0.contains(caller) {
                assert(old(self).votes@.contains_key((pid, caller)));
            }
        }
        voters.push(caller);
        self.poll_voters.insert(pid, voters);
        let mut poll = self.polls.replace(pid, Self::blank_poll());
        poll.total_votes = poll.total_votes + 1;
        self.polls.insert(pid, poll);
        self.events.push(PollEvent::Cast(VoteCast { poll_id, voter: caller, option_index }));
        proof {
            let s0 = *old(self);
            let s1 = *self;
            assert(s1.polls@ =~= s0.polls@.insert(
                pid,
                (Poll {
                    title: s0.polls@[pid].title,
                    description: s0.polls@[pid].description,
                    options: s0.polls@[pid].options,
                    creator: s0.polls@[pid].creator,
                    start_time: s0.polls@[pid].start_time,
                    end_time: s0.polls@[pid].end_time,
                    is_active: s0.polls@[pid].is_active,
                    total_votes: (s0.polls@[pid].total_votes + 1) as u32,
                }),
            ));
            assert(s1.poll_voters@ =~= s0.poll_voters@.insert(pid, s1.poll_voters@[pid]));
            // well-formedness is preserved
            assert forall|p: u64| #[trigger] s1.polls@.contains_key(p)
                implies s1.poll_voters@[p]@.no_duplicates() by {
                if p == pid {
                    lemma_push_contains(voters0, caller, caller);
                    assert forall|m: int, n: int|
                        0 <= m < n < s1.poll_voters@[p]@.len()
                        implies s1.poll_voters@[p]@[m] != s1.poll_voters@[p]@[n] by {
                        if n < voters0.len() {
                        } else {
                            assert(s1.poll_voters@[p]@[n] == caller);
                            assert(voters0.contains(voters0[m]));
                        }
                    }
                }
            }
            assert forall|p: u64, v: u64| #[trigger] s1.votes@.contains_key((p, v))
                implies s1.poll_voters@.contains_key(p) && s1.poll_voters@[p]@.contains(v) by {
                lemma_push_contains(voters0, caller, v);
                if p == pid && v == caller {
                } else {
                    assert(s0.votes@.contains_key((p, v)));
                }
            }
            assert forall|p: u64, v: u64|
                s1.poll_voters@.contains_key(p) && #[trigger] s1.poll_voters@[p]@.contains(v)
                implies s1.votes@.contains_key((p, v)) by {
                if p == pid {
                    lemma_push_contains(voters0, caller, v);
                    if v != caller {
                        assert(s0.poll_voters@[p]@.contains(v));
                    }
                } else {
                    assert(s0.poll_voters@[p]@.contains(v));
                }
            }
        }
        Ok(())
    }

    /// Ends a poll; only its creator or the contract owner may do so.
    /// Ending an already-ended poll flips nothing and never changes the vote
    /// count.
    pub fn end_poll(&mut self, caller: AccountId, poll_id: u32) -> (r: Result<(), Error>)
        requires
            old(self).wf(),
        ensures
            final(self).wf(),
            !old(self).polls@.contains_key(poll_id as u64) ==> r == Err::<(), Error>(
                Error::PollNotFound,
            ) && *final(self) == *old(self),
            old(self).polls@.contains_key(poll_id as u64) && caller != old(self).polls@[poll_id
                as u64].creator && caller != old(self).owner ==> r == Err::<(), Error>(
                Error::NotAuthorized,
            ) && *final(self) == *old(self),
            old(self).polls@.contains_key(poll_id as u64) && (caller == old(self).polls@[poll_id
                as u64].creator || caller == old(self).owner) ==> {
                let pid = poll_id as u64;
                let p0 = old(self).polls@[pid];
                &&& r == Ok::<(), Error>(())
                &&& final(self).polls@ == old(self).polls@.insert(
                    pid,
                    (Poll {
                        title: p0.title,
                        description: p0.description,
                        options: p0.options,
                        creator: p0.creator,
                        start_time: p0.start_time,
                        end_time: p0.end_time,
                        is_active: false,
                        total_votes: p0.total_votes,
                    }),
                )
                &&& final(self).polls@[pid].total_votes == p0.total_votes
                &&& !p0.is_active ==> final(self).polls@ == old(self).polls@
                &&& final(self).votes@ == old(self).votes@
                &&& final(self).poll_voters@ == old(self).poll_voters@
                &&& final(self).next_poll_id == old(self).next_poll_id
                &&& final(self).owner == old(self).owner
                &&& final(self).events@ == old(self).events@.push(
                    PollEvent::Ended((PollEnded { poll_id, total_votes: p0.total_votes })),
                )
            },
    {
        let pid = poll_id as u64;
        {
            let poll = match self.polls.get(pid) {
                Some(p) => p,
                None => {
                    return Err(Error::PollNotFound);
                },
            };
            if caller != poll.creator && caller != self.owner {
                return Err(Error::NotAuthorized);
            }
        }
        let mut poll = self.polls.replace(pid, Self::blank_poll());
        let total_votes = poll.total_votes;
        let ghost was_active = poll.is_active;
        poll.is_active = false;
        self.polls.insert(pid, poll);
        self.events.push(PollEvent::Ended(PollEnded { poll_id, total_votes }));
        proof {
            let s0 = *old(self);
            let p0 = s0.polls@[pid];
            assert(self.polls@ =~= s0.polls@.insert(
                pid,
                (Poll {
                    title: p0.title,
                    description: p0.description,
                    options: p0.options,
                    creator: p0.creator,
                    start_time: p0.start_time,
                    end_time: p0.end_time,
                    is_active: false,
                    total_votes: p0.total_votes,
                }),
            ));
            if !was_active {
                assert(self.polls@ =~= s0.polls@);
            }
        }
        Ok(())
    }

    pub fn get_poll(&self, poll_id: u32) -> (r: Option<&Poll>)
        requires
            self.wf(),
        ensures
            match r {
                Some(p) => self.polls@.contains_key(poll_id as u64) && *p == self.polls@[poll_id
                    as u64],
                None => !self.polls@.contains_key(poll_id as u64),
            },
    {
        self.polls.get(poll_id as u64)
    }

    /// Tallies a poll by re-reading every listed voter's vote.
    pub fn get_poll_results(&self, now: u64, poll_id: u32) -> (r: Result<PollResults, Error>)
        requires
            self.wf(),
        ensures
            !self.polls@.contains_key(poll_id as u64) ==> r == Err::<PollResults, Error>(
                Error::PollNotFound,
            ),
            self.polls@.contains_key(poll_id as u64) ==> match r {
                Ok(res) => {
                    let pid = poll_id as u64;
                    &&& res.poll_id == poll_id
                    &&& res.title == self.polls@[pid].title
                    &&& res.total_votes == self.polls@[pid].total_votes
                    &&& res.is_ended == (!self.polls@[pid].is_active || now > self.polls@[
                        pid].end_time)
                    &&& res.option_votes@.len() == self.polls@[pid].options@.len()
                    &&& forall|j: int|
                        0 <= j < res.option_votes@.len() ==> res.option_votes@[j]
                            == tally_count(self.votes@, pid, self.poll_voters@[pid]@, j)
                },
                Err(_) => false,
            },
    {
        let pid = poll_id as u64;
        let poll = match self.polls.get(pid) {
            Some(p) => p,
            None => {
                return Err(Error::PollNotFound);
            },
        };
        let voters = match self.poll_voters.get(pid) {
            Some(v) => v,
            None => {
                assert(false);
                return Err(Error::PollNotFound);
            },
        };
        let n_options = poll.options.len();
        let mut option_votes: Vec<u32> = vec![0u32; n_options];
        let n_voters = voters.len();
        proof {
            assert(voters@.subrange(0, 0) =~= Seq::<AccountId>::empty());
        }
        let mut i: usize = 0;
        while i < n_voters
            invariant
                self.wf(),
                self.votes.inv(),
                self.polls@.contains_key(pid),
                self.poll_voters@.contains_key(pid),
                voters@ == self.poll_voters@[pid]@,
                n_voters == voters@.len(),
                n_options == self.polls@[pid].options@.len(),
                i <= n_voters,
                option_votes@.len() == n_options,
                forall|j: int|
                    0 <= j < n_options ==> option_votes@[j] == tally_count(
                        self.votes@,
                        pid,
                        voters@.subrange(0, i as int),
                        j,
                    ),
            decreases n_voters - i,
        {
            let voter = voters[i];
            let ghost pre = option_votes@;
            match self.votes.get(pid, voter) {
                Some(vote) => {
                    let oi = vote.option_index as usize;
                    if oi < n_options {
                        let c = option_votes[oi];
                        proof {
                            lemma_tally_count_le(
                                self.votes@,
                                pid,
                                voters@.subrange(0, i as int),
                                oi as int,
                            );
                            assert(voters@.subrange(0, i as int).len() == i as int);
                        }
                        option_votes.set(oi, c + 1);
                    }
                },
                None => {},
            }
            proof {
                assert forall|j: int|
                    0 <= j < n_options implies option_votes@[j] == tally_count(
                        self.votes@,
                        pid,
                        voters@.subrange(0, i + 1 as int),
                        j,
                    ) by {
                    lemma_tally_count_extend(self.votes@, pid, voters@, i as int, j);
                    assert(voters@[i as int] == voter);
                }
            }
            i = i + 1;
        }
        proof {
            assert(voters@.subrange(0, n_voters as int) =~= voters@);
        }
        let is_ended = !poll.is_active || now > poll.end_time;
        Ok(PollResults {
            poll_id,
            title: poll.title.clone(),
            option_votes,
            total_votes: poll.total_votes,
            is_ended,
        })
    }

    pub fn has_voted(&self, poll_id: u32, voter: AccountId) -> (r: bool)
        ensures
            r == self.votes@.contains_key((poll_id as u64, voter)),
    {
        self.votes.contains_key(poll_id as u64, voter)
    }

    pub fn get_user_vote(&self, poll_id: u32, voter: AccountId) -> (r: Option<&Vote>)
        requires
            self.wf(),
        ensures
            match r {
                Some(v) => self.votes@.contains_key((poll_id as u64, voter)) && *v == self.votes@[
                    (poll_id as u64, voter)],
                None => !self.votes@.contains_key((poll_id as u64, voter)),
            },
    {
        self.votes.get(poll_id as u64, voter)
    }

    pub fn get_total_polls(&self) -> (r: u32)
        requires
            self.wf(),
        ensures
            r == self.next_poll_id - 1,
    {
        self.next_poll_id - 1
    }

    pub fn get_owner(&self) -> (r: AccountId)
        ensures
            r == self.owner,
    {
        self.owner
    }
}

/// At most one vote record exists per `(poll, voter)`: in a well-formed state
/// a voter occupies at most one slot of a poll's voter list, so no voter is
/// ever counted twice.
pub proof fn lemma_single_vote_per_voter(
    c: VotingContract,
    pid: u64,
    voter: AccountId,
    i: int,
    j: int,
)
    requires
        c.wf(),
        c.poll_voters@.contains_key(pid),
        0 <= i < c.poll_voters@[pid]@.len(),
        0 <= j < c.poll_voters@[pid]@.len(),
        c.poll_voters@[pid]@[i] == voter,
        c.poll_voters@[pid]@[j] == voter,
    ensures
        i == j,
{
}

/// A poll with no recorded votes tallies to zero for every option.
pub proof fn lemma_zero_votes_zero_tally(c: VotingContract, poll_id: u32)
    requires
        c.wf(),
        c.polls@.contains_key(poll_id as u64),
        c.polls@[poll_id as u64].total_votes == 0,
    ensures
        forall|j: int| #[trigger]
            tally_count(c.votes@, poll_id as u64, c.poll_voters@[poll_id as u64]@, j) == 0,
{
    assert(c.poll_voters@[poll_id as u64]@.len() == 0);
}

} // verus!
