//! Minimal Lease-based leader election. The relay makes concurrent controllers
//! actively harmful (two reconcilers would race transfer attempts), so a
//! controller blocks until leadership is acquired and exits if it is ever lost.
use vstd::prelude::*;

use crate::text::{opt, same};

verus! {

pub const LEASE_NAME: &'static str = "zfs-evacuation-controller";

pub const LEASE_DURATION_SECS: i32 = 30;

/// How long to wait between two attempts on the lease, in seconds.
pub const RENEW_SECONDS: u64 = 10;

/// What a lease says, as far as the election goes by it.
#[derive(Debug, Default)]
pub struct LeaseRecord {
    pub holder_identity: Option<String>,
    pub lease_duration_seconds: Option<i32>,
    /// The second, since the start of 1970, in which it was last renewed.
    pub renewed_at: Option<i64>,
    pub lease_transitions: Option<i32>,
}

/// What is to be written to a lease. The renewal time is always set anew.
#[derive(Debug)]
pub struct LeaseUpdate {
    pub holder_identity: String,
    pub lease_duration_seconds: i32,
    /// The time of acquisition is set anew too.
    pub acquired: bool,
    /// `None` leaves the count as it is.
    pub lease_transitions: Option<i32>,
}

/// What to do about the lease.
#[derive(Debug)]
pub enum Bid {
    /// Create it.
    Create(LeaseUpdate),
    /// Leave it: someone else holds it.
    Leave,
    /// Replace it, at the version that was read, so that a concurrent takeover
    /// conflicts instead of splitting the leadership; `ours` if we hold it.
    Replace { update: LeaseUpdate, ours: bool },
}

/// What a lease says, as far as the election goes by it.
#[verifier::ext_equal]
pub struct LeaseView {
    pub holder_identity: Option<Seq<char>>,
    pub lease_duration_seconds: Option<i32>,
    pub renewed_at: Option<i64>,
    pub lease_transitions: Option<i32>,
}

impl View for LeaseRecord {
    type V = LeaseView;

    open spec fn view(&self) -> LeaseView {
        LeaseView {
            holder_identity: opt(self.holder_identity),
            lease_duration_seconds: self.lease_duration_seconds,
            renewed_at: self.renewed_at,
            lease_transitions: self.lease_transitions,
        }
    }
}

/// What is to be written to a lease.
#[verifier::ext_equal]
pub struct UpdateView {
    pub holder_identity: Seq<char>,
    pub lease_duration_seconds: i32,
    pub acquired: bool,
    pub lease_transitions: Option<i32>,
}

impl View for LeaseUpdate {
    type V = UpdateView;

    open spec fn view(&self) -> UpdateView {
        UpdateView {
            holder_identity: self.holder_identity@,
            lease_duration_seconds: self.lease_duration_seconds,
            acquired: self.acquired,
            lease_transitions: self.lease_transitions,
        }
    }
}

/// What to do about the lease.
#[verifier::ext_equal]
pub enum BidView {
    Create(UpdateView),
    Leave,
    Replace(UpdateView, bool),
}

impl View for Bid {
    type V = BidView;

    open spec fn view(&self) -> BidView {
        match *self {
            Bid::Create(u) => BidView::Create(u@),
            Bid::Leave => BidView::Leave,
            Bid::Replace { update, ours } => BidView::Replace(update@, ours),
        }
    }
}

/// Has a lease run out? One that was never renewed has.
pub open spec fn expired(lease: LeaseView, now: i64) -> bool {
    match lease.renewed_at {
        None => true,
        Some(at) => now - at > match lease.lease_duration_seconds {
            Some(d) => d as int,
            None => LEASE_DURATION_SECS as int,
        },
    }
}

/// Does this one hold a lease?
pub open spec fn held_by(lease: LeaseView, identity: Seq<char>) -> bool {
    identity == match lease.holder_identity {
        Some(h) => h,
        None => Seq::empty(),
    }
}

/// The count of transitions after one more; it stops at the largest there is.
pub open spec fn one_more(transitions: Option<i32>) -> i32 {
    match transitions {
        None => 1,
        Some(n) => if n == i32::MAX {
            i32::MAX
        } else {
            (n + 1) as i32
        },
    }
}

/// What to do about the lease as it was read: create it if there is none, renew
/// it if it is ours, take it over if it has run out, and leave it otherwise.
pub open spec fn bid(lease: Option<LeaseView>, identity: Seq<char>, now: i64) -> BidView {
    match lease {
        None => BidView::Create(
            UpdateView {
                holder_identity: identity,
                lease_duration_seconds: LEASE_DURATION_SECS,
                acquired: true,
                lease_transitions: Some(0i32),
            },
        ),
        Some(l) => {
            let ours = held_by(l, identity);
            if !ours && !expired(l, now) {
                BidView::Leave
            } else {
                BidView::Replace(
                    UpdateView {
                        holder_identity: identity,
                        lease_duration_seconds: LEASE_DURATION_SECS,
                        acquired: !ours,
                        lease_transitions: if ours {
                            None
                        } else {
                            Some(one_more(l.lease_transitions))
                        },
                    },
                    ours,
                )
            }
        },
    }
}

/// A lease once an update was written to it, in the second `now`.
pub open spec fn renewed(lease: Option<LeaseView>, update: UpdateView, now: i64) -> LeaseView {
    LeaseView {
        holder_identity: Some(update.holder_identity),
        lease_duration_seconds: Some(update.lease_duration_seconds),
        renewed_at: Some(now),
        lease_transitions: match update.lease_transitions {
            Some(n) => Some(n),
            None => match lease {
                Some(l) => l.lease_transitions,
                None => None,
            },
        },
    }
}

fn is_expired(lease: &LeaseRecord, now: i64) -> (r: bool)
    ensures
        r == expired(lease@, now),
{
    match lease.renewed_at {
        None => true,
        Some(at) => {
            let duration: i128 = match lease.lease_duration_seconds {
                Some(d) => d as i128,
                None => LEASE_DURATION_SECS as i128,
            };
            now as i128 - at as i128 > duration
        },
    }
}

fn is_held_by(lease: &LeaseRecord, identity: &str) -> (r: bool)
    ensures
        r == held_by(lease@, identity@),
{
    match &lease.holder_identity {
        Some(h) => same(h.as_str(), identity),
        None => {
            assert(identity@.len() == 0 ==> identity@ =~= Seq::<char>::empty());
            identity.is_empty()
        },
    }
}

/// The view of an optional lease.
pub open spec fn lease_view(lease: Option<&LeaseRecord>) -> Option<LeaseView> {
    match lease {
        Some(l) => Some(l@),
        None => None,
    }
}

/// Decides what to do about the lease as it was read.
pub fn try_acquire(lease: Option<&LeaseRecord>, identity: &str, now: i64) -> (r: Bid)
    ensures
        r@ == bid(lease_view(lease), identity@, now),
{
    let l = match lease {
        None => return Bid::Create(
            LeaseUpdate {
                holder_identity: identity.to_owned(),
                lease_duration_seconds: LEASE_DURATION_SECS,
                acquired: true,
                lease_transitions: Some(0),
            },
        ),
        Some(l) => l,
    };
    let ours = is_held_by(l, identity);
    if !ours && !is_expired(l, now) {
        return Bid::Leave;
    }
    let lease_transitions: Option<i32> = if ours {
        None
    } else {
        match l.lease_transitions {
            None => Some(1),
            Some(n) => if n == i32::MAX {
                Some(i32::MAX)
            } else {
                Some(n + 1)
            },
        }
    };
    Bid::Replace {
        update: LeaseUpdate {
            holder_identity: identity.to_owned(),
            lease_duration_seconds: LEASE_DURATION_SECS,
            acquired: !ours,
            lease_transitions,
        },
        ours,
    }
}

/// What a write to the lease that went through or met a conflict makes of us:
/// leader or not. A conflict while renewing our own lease is transient; while
/// taking it over or creating it, someone else won.
pub fn after_write(conflict: bool, ours: bool) -> (r: Result<bool, &'static str>)
    ensures
        match r {
            Ok(leader) => leader == !conflict && (conflict ==> !ours),
            Err(why) => conflict && ours && why@ == "conflict renewing own lease"@,
        },
{
    if !conflict {
        Ok(true)
    } else if ours {
        Err("conflict renewing own lease")
    } else {
        Ok(false)
    }
}

/// Whether a leader may go on.
#[derive(Clone, Copy, Debug, PartialEq, Eq, Structural)]
pub enum Standing {
    /// The lease was renewed.
    Renewed,
    /// It could not be renewed, but has not run out.
    Holding,
    /// Someone else holds it.
    Lost,
    /// It could not be renewed within its duration: another may legitimately
    /// have taken over, and running on would split the leadership.
    Fenced,
}

/// Whether a leader may go on after a renewal, from its result, if there was
/// one, and the whole seconds since the last that went through.
pub open spec fn judged(renewal: Option<bool>, since_renewed: u64) -> Standing {
    match renewal {
        Some(true) => Standing::Renewed,
        Some(false) => Standing::Lost,
        None => if since_renewed > LEASE_DURATION_SECS {
            Standing::Fenced
        } else {
            Standing::Holding
        },
    }
}

/// Judges a renewal.
pub fn standing(renewal: Option<bool>, since_renewed: u64) -> (r: Standing)
    ensures
        r == judged(renewal, since_renewed),
{
    match renewal {
        Some(true) => Standing::Renewed,
        Some(false) => Standing::Lost,
        None => if since_renewed > LEASE_DURATION_SECS as u64 {
            Standing::Fenced
        } else {
            Standing::Holding
        },
    }
}

// ------------------------------------------------------------------ what holds of the election

/// Of two controllers that look at the same lease before it runs out, at most
/// one bids for it.
pub proof fn one_bids_for_a_live_lease(
    lease: LeaseView,
    one: Seq<char>,
    other: Seq<char>,
    now: i64,
    later: i64,
)
    requires
        one != other,
        !expired(lease, now),
        !expired(lease, later),
    ensures
        bid(Some(lease), one, now) is Leave || bid(Some(lease), other, later) is Leave,
{
}

/// A write to the lease keeps every other controller out until the lease has run
/// out, and lets its writer renew it at any time.
pub proof fn a_write_keeps_others_out(
    lease: Option<LeaseView>,
    leader: Seq<char>,
    other: Seq<char>,
    at: i64,
    now: i64,
)
    requires
        other != leader,
    ensures
        ({
            let written = match bid(lease, leader, at) {
                BidView::Create(u) => Some(renewed(lease, u, at)),
                BidView::Replace(u, _) => Some(renewed(lease, u, at)),
                BidView::Leave => None,
            };
            written matches Some(l) ==> {
                &&& bid(Some(l), other, now) is Leave == (now - at <= LEASE_DURATION_SECS)
                &&& bid(Some(l), leader, now) matches BidView::Replace(_, ours) && ours
            }
        }),
{
}

/// A leader that cannot renew its lease gives up in the very second from which
/// another may take it over.
pub proof fn a_leader_steps_down_in_time(
    lease: Option<LeaseView>,
    update: UpdateView,
    at: i64,
    since: u64,
    now: i64,
)
    requires
        update.lease_duration_seconds == LEASE_DURATION_SECS,
        now == at + since,
    ensures
        judged(None, since) == Standing::Fenced <==> expired(renewed(lease, update, at), now),
{
}

/// A lease has run out exactly if it was never renewed, or was last renewed
/// longer ago than it lasts, thirty seconds if it does not say.
pub proof fn leases_run_out(lease: LeaseView, now: i64)
    ensures
        expired(lease, now) <==> lease.renewed_at is None || now - lease.renewed_at->0 > (
        if lease.lease_duration_seconds is Some {
            lease.lease_duration_seconds->0 as int
        } else {
            30
        }),
{
}

/// A controller creates the lease where there is none, leaves one that another
/// holds and that has not run out, and otherwise writes itself in. It counts as
/// taken over, and as one transition more, only if another held it.
pub proof fn bids_follow_the_lease(lease: Option<LeaseView>, identity: Seq<char>, now: i64)
    requires
        identity.len() > 0,
    ensures
        ({
            let b = bid(lease, identity, now);
            let ours = lease is Some && lease->0.holder_identity == Some(identity);
            let live = lease is Some && lease->0.renewed_at is Some && now
                - lease->0.renewed_at->0 <= (if lease->0.lease_duration_seconds is Some {
                lease->0.lease_duration_seconds->0 as int
            } else {
                30
            });
            &&& b is Create <==> lease is None
            &&& b is Leave <==> lease is Some && !ours && live
            &&& b matches BidView::Create(u) ==> u.holder_identity == identity
                && u.lease_duration_seconds == 30 && u.acquired && u.lease_transitions == Some(0i32)
            &&& b matches BidView::Replace(u, same) ==> {
                &&& same == ours
                &&& u.holder_identity == identity
                &&& u.lease_duration_seconds == 30
                &&& u.acquired == !ours
                &&& ours ==> u.lease_transitions is None
                &&& !ours && lease->0.lease_transitions is None ==> u.lease_transitions == Some(
                    1i32,
                )
                &&& !ours && lease->0.lease_transitions is Some
                    && lease->0.lease_transitions->0 < i32::MAX ==> u.lease_transitions is Some
                    && u.lease_transitions->0 == lease->0.lease_transitions->0 + 1
                &&& !ours && lease->0.lease_transitions == Some(i32::MAX) ==> u.lease_transitions
                    == Some(i32::MAX)
            }
        }),
{
}

/// A leader goes on exactly if its lease was renewed, or could not be but was at
/// most thirty seconds ago.
pub proof fn leaders_go_on_while_their_lease_lasts(renewal: Option<bool>, since: u64)
    ensures
        judged(renewal, since) == Standing::Renewed <==> renewal == Some(true),
        judged(renewal, since) == Standing::Lost <==> renewal == Some(false),
        judged(renewal, since) == Standing::Holding <==> renewal is None && since <= 30,
        judged(renewal, since) == Standing::Fenced <==> renewal is None && since > 30,
{
}

} // verus!
