//! The fanout engine: which payload goes to which live session.
//!
//! A publish call carries a batch of events (several state changes often
//! result from one write) and a recipient set, resolved by the caller either
//! from a room's online members or from an explicit participant list. The
//! engine computes the delivery plan: for every recipient, for every live
//! session of that recipient, for every event whose required scope the
//! session's grant covers, one delivery. The embedding program then hands
//! each selected payload to the session's send handle, asynchronously and
//! best-effort: a send failure is swallowed there and never removes the
//! session here.

use vstd::prelude::*;

use crate::registry::{Registry, SessionEntry};
use crate::scope::{satisfies, spec_granted, spec_satisfies, ReadWrite, Scope};

verus! {

/// The kind of a domain event; it fixes the scope required to receive it.
#[derive(Clone, Copy, Debug, PartialEq, Eq, Structural)]
pub enum EventKind {
    ServerCreate,
    ServerUpdate,
    ServerDelete,
    ChannelCreate,
    ChannelUpdate,
    ChannelDelete,
    MessageCreate,
    MessageUpdate,
    MessageDelete,
    InviteCreate,
    InviteDelete,
    MemberCreate,
    MemberUpdate,
    MemberDelete,
    UserUpdate,
    FriendRequestCreate,
    FriendRequestDelete,
    FriendCreate,
    FriendDelete,
}

/// The scope required to receive an event of this kind: read access to the
/// category the event belongs to.
pub open spec fn spec_scope_for(kind: EventKind) -> Scope {
    match kind {
        EventKind::ServerCreate => Scope::Servers(ReadWrite::Read),
        EventKind::ServerUpdate => Scope::Servers(ReadWrite::Read),
        EventKind::ServerDelete => Scope::Servers(ReadWrite::Read),
        EventKind::ChannelCreate => Scope::Servers(ReadWrite::Read),
        EventKind::ChannelUpdate => Scope::Servers(ReadWrite::Read),
        EventKind::ChannelDelete => Scope::Servers(ReadWrite::Read),
        EventKind::MessageCreate => Scope::Messages(ReadWrite::Read),
        EventKind::MessageUpdate => Scope::Messages(ReadWrite::Read),
        EventKind::MessageDelete => Scope::Messages(ReadWrite::Read),
        EventKind::InviteCreate => Scope::Servers(ReadWrite::Read),
        EventKind::InviteDelete => Scope::Servers(ReadWrite::Read),
        EventKind::MemberCreate => Scope::Servers(ReadWrite::Read),
        EventKind::MemberUpdate => Scope::Servers(ReadWrite::Read),
        EventKind::MemberDelete => Scope::Servers(ReadWrite::Read),
        EventKind::UserUpdate => Scope::Profile(ReadWrite::Read),
        EventKind::FriendRequestCreate => Scope::Friends(ReadWrite::Read),
        EventKind::FriendRequestDelete => Scope::Friends(ReadWrite::Read),
        EventKind::FriendCreate => Scope::Friends(ReadWrite::Read),
        EventKind::FriendDelete => Scope::Friends(ReadWrite::Read),
    }
}

impl EventKind {
    /// The scope required to receive an event of this kind.
    pub fn scope_for(&self) -> (s: Scope)
        ensures
            s == spec_scope_for(*self),
    {
        match self {
            EventKind::MessageCreate => Scope::Messages(ReadWrite::Read),
            EventKind::MessageUpdate => Scope::Messages(ReadWrite::Read),
            EventKind::MessageDelete => Scope::Messages(ReadWrite::Read),
            EventKind::UserUpdate => Scope::Profile(ReadWrite::Read),
            EventKind::FriendRequestCreate => Scope::Friends(ReadWrite::Read),
            EventKind::FriendRequestDelete => Scope::Friends(ReadWrite::Read),
            EventKind::FriendCreate => Scope::Friends(ReadWrite::Read),
            EventKind::FriendDelete => Scope::Friends(ReadWrite::Read),
            _ => Scope::Servers(ReadWrite::Read),
        }
    }
}

/// An immutable domain event: its kind, and its payload already serialized
/// once per publish batch by the caller.
pub struct Event {
    pub kind: EventKind,
    pub payload: String,
}

/// One selected delivery: the payload of the event at `event_index` in the
/// published batch goes to this session of this user.
#[derive(Clone, Copy, Debug, PartialEq, Eq, Structural)]
pub struct Delivery {
    pub user_id: u64,
    pub session_id: u64,
    pub event_index: usize,
}

/// The deliveries one session receives for the first `i` events of a batch:
/// one per event whose required scope the session's grant covers.
pub open spec fn spec_session_plan<H>(
    user_id: u64,
    s: SessionEntry<H>,
    events: Seq<Event>,
    i: int,
) -> Seq<Delivery>
    decreases i,
{
    if i <= 0 || i > events.len() {
        Seq::empty()
    } else {
        spec_session_plan(user_id, s, events, i - 1) + (if spec_satisfies(
            spec_granted(s.scopes),
            spec_scope_for(events[i - 1].kind),
        ) {
            seq![
                (Delivery { user_id, session_id: s.session_id, event_index: (i - 1) as usize }),
            ]
        } else {
            Seq::empty()
        })
    }
}

/// The deliveries the first `j` sessions of a user receive for a whole batch.
pub open spec fn spec_user_plan<H>(
    user_id: u64,
    sessions: Seq<SessionEntry<H>>,
    events: Seq<Event>,
    j: int,
) -> Seq<Delivery>
    decreases j,
{
    if j <= 0 || j > sessions.len() {
        Seq::empty()
    } else {
        spec_user_plan(user_id, sessions, events, j - 1) + spec_session_plan(
            user_id,
            sessions[j - 1],
            events,
            events.len() as int,
        )
    }
}

/// The deliveries the first `k` recipients receive for a whole batch. An
/// offline recipient has no sessions and contributes nothing.
pub open spec fn spec_publish_plan<H>(
    reg: Registry<H>,
    recipients: Seq<u64>,
    events: Seq<Event>,
    k: int,
) -> Seq<Delivery>
    decreases k,
{
    if k <= 0 || k > recipients.len() {
        Seq::empty()
    } else {
        spec_publish_plan(reg, recipients, events, k - 1) + spec_user_plan(
            recipients[k - 1],
            reg.spec_sessions(recipients[k - 1]),
            events,
            reg.spec_sessions(recipients[k - 1]).len() as int,
        )
    }
}

/// A delivery stands in a session's plan exactly when it is addressed to
/// that session, its event stands in the considered prefix of the batch, and
/// the session's grant covers the event's required scope.
pub proof fn lemma_session_plan_membership<H>(
    user_id: u64,
    s: SessionEntry<H>,
    events: Seq<Event>,
    i: int,
    d: Delivery,
)
    requires
        0 <= i <= events.len(),
        events.len() <= usize::MAX,
    ensures
        spec_session_plan(user_id, s, events, i).contains(d) <==> {
            &&& d.user_id == user_id
            &&& d.session_id == s.session_id
            &&& 0 <= d.event_index < i
            &&& spec_satisfies(
                spec_granted(s.scopes),
                spec_scope_for(events[d.event_index as int].kind),
            )
        },
    decreases i,
{
    broadcast use vstd::seq_lib::lemma_seq_concat_contains_all_elements;

    if i > 0 {
        lemma_session_plan_membership(user_id, s, events, i - 1, d);
        if spec_satisfies(spec_granted(s.scopes), spec_scope_for(events[i - 1].kind)) {
            let one = seq![
                (Delivery { user_id, session_id: s.session_id, event_index: (i - 1) as usize }),
            ];
            assert(one.contains(d) <==> d == one[0]);
        }
    }
}

/// A delivery stands in a user's plan exactly when it is addressed to that
/// user and some session in the considered prefix carries the delivery's
/// session id and a grant that covers the event's required scope.
pub proof fn lemma_user_plan_membership<H>(
    user_id: u64,
    sessions: Seq<SessionEntry<H>>,
    events: Seq<Event>,
    j: int,
    d: Delivery,
)
    requires
        0 <= j <= sessions.len(),
        events.len() <= usize::MAX,
    ensures
        spec_user_plan(user_id, sessions, events, j).contains(d) <==> {
            &&& d.user_id == user_id
            &&& 0 <= d.event_index < events.len()
            &&& exists|l: int|
                0 <= l < j && (#[trigger] sessions[l]).session_id == d.session_id
                    && spec_satisfies(
                    spec_granted(sessions[l].scopes),
                    spec_scope_for(events[d.event_index as int].kind),
                )
        },
    decreases j,
{
    broadcast use vstd::seq_lib::lemma_seq_concat_contains_all_elements;

    if j > 0 {
        lemma_user_plan_membership(user_id, sessions, events, j - 1, d);
        lemma_session_plan_membership(user_id, sessions[j - 1], events, events.len() as int, d);
        assert(spec_user_plan(user_id, sessions, events, j) == spec_user_plan(
            user_id,
            sessions,
            events,
            j - 1,
        ) + spec_session_plan(user_id, sessions[j - 1], events, events.len() as int));
    }
}

/// Fanout isolation: a delivery stands in the published plan exactly when
/// its user is an addressed recipient, its event stands in the batch, and
/// that user has a live session with the delivery's session id whose grant
/// covers the event's required scope. In particular a session whose grant
/// does not cover the scope never receives the payload, while an
/// unrestricted session or one granted the write-level scope of the same
/// category does.
pub proof fn law_fanout_isolation<H>(
    reg: Registry<H>,
    recipients: Seq<u64>,
    events: Seq<Event>,
    k: int,
    d: Delivery,
)
    requires
        0 <= k <= recipients.len(),
        events.len() <= usize::MAX,
    ensures
        spec_publish_plan(reg, recipients, events, k).contains(d) <==> {
            &&& recipients.take(k).contains(d.user_id)
            &&& 0 <= d.event_index < events.len()
            &&& exists|l: int|
                0 <= l < reg.spec_sessions(d.user_id).len() && (#[trigger] reg.spec_sessions(
                    d.user_id,
                )[l]).session_id == d.session_id && spec_satisfies(
                    spec_granted(reg.spec_sessions(d.user_id)[l].scopes),
                    spec_scope_for(events[d.event_index as int].kind),
                )
        },
    decreases k,
{
    broadcast use vstd::seq_lib::lemma_seq_concat_contains_all_elements;

    if k > 0 {
        law_fanout_isolation(reg, recipients, events, k - 1, d);
        let u = recipients[k - 1];
        lemma_user_plan_membership(
            u,
            reg.spec_sessions(u),
            events,
            reg.spec_sessions(u).len() as int,
            d,
        );
        assert(spec_publish_plan(reg, recipients, events, k) == spec_publish_plan(
            reg,
            recipients,
            events,
            k - 1,
        ) + spec_user_plan(u, reg.spec_sessions(u), events, reg.spec_sessions(u).len() as int));
        assert(recipients.take(k)[k - 1] == u);
        assert(recipients.take(k).drop_last() =~= recipients.take(k - 1));
        if recipients.take(k - 1).contains(d.user_id) {
            let m = choose|m: int|
                0 <= m < recipients.take(k - 1).len() && #[trigger] recipients.take(k - 1)[m]
                    == d.user_id;
            assert(recipients.take(k)[m] == d.user_id);
        }
        if recipients.take(k).contains(d.user_id) && !recipients.take(k - 1).contains(d.user_id) {
            let m = choose|m: int|
                0 <= m < recipients.take(k).len() && #[trigger] recipients.take(k)[m]
                    == d.user_id;
            assert(m == k - 1);
        }
    }
}

/// The plan of a session that covers the whole considered prefix holds one
/// delivery per event.
pub proof fn lemma_session_plan_len_all<H>(
    user_id: u64,
    s: SessionEntry<H>,
    events: Seq<Event>,
    i: int,
)
    requires
        0 <= i <= events.len(),
        forall|e: int|
            0 <= e < i ==> spec_satisfies(
                spec_granted(s.scopes),
                spec_scope_for((#[trigger] events[e]).kind),
            ),
    ensures
        spec_session_plan(user_id, s, events, i).len() == i,
    decreases i,
{
    if i > 0 {
        lemma_session_plan_len_all(user_id, s, events, i - 1);
    }
}

/// Multi-session fan-in: a user whose first `j` sessions all cover every
/// event of the batch receives exactly one delivery per session and per
/// event — with a single published event, exactly as many deliveries as the
/// user has live sessions.
pub proof fn law_multi_session_fanin<H>(
    user_id: u64,
    sessions: Seq<SessionEntry<H>>,
    events: Seq<Event>,
    j: int,
)
    requires
        0 <= j <= sessions.len(),
        forall|l: int, e: int|
            0 <= l < j && 0 <= e < events.len() ==> spec_satisfies(
                spec_granted((#[trigger] sessions[l]).scopes),
                spec_scope_for((#[trigger] events[e]).kind),
            ),
    ensures
        spec_user_plan(user_id, sessions, events, j).len() == j * events.len(),
    decreases j,
{
    if j > 0 {
        law_multi_session_fanin(user_id, sessions, events, j - 1);
        lemma_session_plan_len_all(user_id, sessions[j - 1], events, events.len() as int);
        assert(spec_user_plan(user_id, sessions, events, j) == spec_user_plan(
            user_id,
            sessions,
            events,
            j - 1,
        ) + spec_session_plan(user_id, sessions[j - 1], events, events.len() as int));
        let n = events.len() as int;
        assert(spec_user_plan(user_id, sessions, events, j).len() == spec_user_plan(
            user_id,
            sessions,
            events,
            j - 1,
        ).len() + n);
        assert((j - 1) * n + n == j * n) by (nonlinear_arith);
        assert(spec_user_plan(user_id, sessions, events, j - 1).len() == (j - 1) * n);
        assert(spec_user_plan(user_id, sessions, events, j).len() == j * n);
    } else {
        assert(j * events.len() == 0) by (nonlinear_arith)
            requires j == 0;
    }
}

/// Computes the delivery plan for publishing a batch of events to a set of
/// recipients: one delivery per recipient session and per event whose
/// required scope that session's grant covers, in recipient, session, event
/// order. Absent recipients are skipped; nothing is buffered for them.
pub fn publish<H>(reg: &Registry<H>, events: &Vec<Event>, recipients: &Vec<u64>) -> (plan: Vec<
    Delivery,
>)
    ensures
        plan@ == spec_publish_plan(*reg, recipients@, events@, recipients@.len() as int),
{
    let mut plan: Vec<Delivery> = Vec::new();
    let nr = recipients.len();
    for k in 0..nr
        invariant
            nr == recipients@.len(),
            plan@ == spec_publish_plan(*reg, recipients@, events@, k as int),
    {
        let user_id = recipients[k];
        match reg.sessions_for_user(user_id) {
            None => {
                proof {
                    assert(spec_user_plan(
                        user_id,
                        reg.spec_sessions(user_id),
                        events@,
                        reg.spec_sessions(user_id).len() as int,
                    ) =~= Seq::<Delivery>::empty());
                    assert(plan@ =~= spec_publish_plan(*reg, recipients@, events@, k as int + 1));
                }
            },
            Some(sessions) => {
                let ns = sessions.len();
                let ghost plan_user_base = plan@;
                for j in 0..ns
                    invariant
                        nr == recipients@.len(),
                        k < nr,
                        user_id == recipients@[k as int],
                        ns == sessions@.len(),
                        sessions@ == reg.spec_sessions(user_id),
                        plan_user_base == spec_publish_plan(*reg, recipients@, events@, k as int),
                        plan@ == plan_user_base + spec_user_plan(
                            user_id,
                            sessions@,
                            events@,
                            j as int,
                        ),
                {
                    let ne = events.len();
                    let ghost plan_session_base = plan@;
                    for i in 0..ne
                        invariant
                            ne == events@.len(),
                            j < ns,
                            ns == sessions@.len(),
                            plan@ == plan_session_base + spec_session_plan(
                                user_id,
                                sessions@[j as int],
                                events@,
                                i as int,
                            ),
                    {
                        let entry = &sessions[j];
                        if satisfies(&entry.scopes, events[i].kind.scope_for()) {
                            plan.push(
                                Delivery {
                                    user_id,
                                    session_id: entry.session_id,
                                    event_index: i,
                                },
                            );
                        }
                        proof {
                            assert(plan@ =~= plan_session_base + spec_session_plan(
                                user_id,
                                sessions@[j as int],
                                events@,
                                i as int + 1,
                            ));
                        }
                    }
                    proof {
                        assert(plan@ =~= plan_user_base + spec_user_plan(
                            user_id,
                            sessions@,
                            events@,
                            j as int + 1,
                        ));
                    }
                }
                proof {
                    assert(plan@ =~= spec_publish_plan(*reg, recipients@, events@, k as int + 1));
                }
            },
        }
    }
    plan
}

} // verus!
