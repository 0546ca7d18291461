//! The event dispatch engine.
//!
//! A `Bot` owns an ordered, append-only registry of plugins and a connection
//! handle. The gateway transport delivers one `RecvOutcome` at a time; the
//! bot classifies it, dispatches inbound messages to every matching plugin
//! in registration order, keeps going over transient receive errors, and
//! stops exactly when the gateway reports the connection closed.

use vstd::prelude::*;

use crate::connection::{Connection, OutboundData};
use crate::message::{Message, MessageData};
use crate::plugin::Plugin;

verus! {

/// The indices of the plugins that match `m`, in registration order.
pub open spec fn matching_indices<P: Plugin>(ps: Seq<P>, m: MessageData) -> Seq<usize>
    decreases ps.len(),
{
    if ps.len() == 0 {
        Seq::empty()
    } else {
        let prefix = matching_indices(ps.drop_last(), m);
        if ps.last().matches(m) {
            prefix.push((ps.len() - 1) as usize)
        } else {
            prefix
        }
    }
}

/// The registry returns exactly the plugins whose predicate accepts the
/// message, in their original registration order: every returned index is a
/// matching plugin, the indices are strictly increasing, and no matching
/// plugin is left out.
pub proof fn lemma_matching_indices_exact<P: Plugin>(ps: Seq<P>, m: MessageData)
    requires
        ps.len() <= usize::MAX,
    ensures
        forall|k: int|
            0 <= k < matching_indices(ps, m).len() ==> matching_indices(ps, m)[k] < ps.len()
                && ps[matching_indices(ps, m)[k] as int].matches(m),
        forall|k1: int, k2: int|
            0 <= k1 < k2 < matching_indices(ps, m).len() ==> matching_indices(ps, m)[k1]
                < matching_indices(ps, m)[k2],
        forall|i: int|
            0 <= i < ps.len() && ps[i].matches(m) ==> matching_indices(ps, m).contains(
                i as usize,
            ),
    decreases ps.len(),
{
    if ps.len() > 0 {
        lemma_matching_indices_exact(ps.drop_last(), m);
        let prefix = matching_indices(ps.drop_last(), m);
        let idxs = matching_indices(ps, m);
        assert forall|k: int|
            0 <= k < idxs.len() implies idxs[k] < ps.len() && ps[idxs[k] as int].matches(m) by {
            if k < prefix.len() {
                assert(idxs[k] == prefix[k]);
                assert(prefix[k] < ps.drop_last().len());
                assert(ps.drop_last()[prefix[k] as int] == ps[prefix[k] as int]);
            } else {
                assert(ps.last().matches(m));
                assert(idxs[k] == (ps.len() - 1) as usize);
                assert(ps.last() == ps[ps.len() - 1]);
            }
        }
        assert forall|k1: int, k2: int|
            0 <= k1 < k2 < idxs.len() implies idxs[k1] < idxs[k2] by {
            if k2 < prefix.len() {
                assert(idxs[k1] == prefix[k1] && idxs[k2] == prefix[k2]);
            } else {
                assert(ps.last().matches(m));
                assert(idxs[k2] == (ps.len() - 1) as usize);
                assert(idxs[k1] == prefix[k1]);
                assert(prefix[k1] < ps.drop_last().len());
            }
        }
        assert forall|i: int|
            0 <= i < ps.len() && ps[i].matches(m) implies matching_indices(ps, m).contains(
            i as usize,
        ) by {
            if i < ps.len() - 1 {
                assert(ps.drop_last()[i] == ps[i]);
                assert(prefix.contains(i as usize));
                let k = choose|k: int| 0 <= k < prefix.len() && prefix[k] == i as usize;
                if ps.last().matches(m) {
                    assert(matching_indices(ps, m)[k] == i as usize);
                } else {
                    assert(matching_indices(ps, m)[k] == i as usize);
                }
            } else {
                assert(ps.last() == ps[i]);
                assert(matching_indices(ps, m).last() == i as usize);
            }
        }
    }
}

/// Ordered collection of plugins: registration order is match order.
pub struct PluginRegistry<P: Plugin> {
    plugins: Vec<P>,
}

impl<P: Plugin> View for PluginRegistry<P> {
    type V = Seq<P>;

    closed spec fn view(&self) -> Seq<P> {
        self.plugins@
    }
}

/// One plugin ran once: exactly the plugin at index `i` stepped according to
/// its own handler relation, every other plugin is untouched.
pub open spec fn handle_step<P: Plugin>(
    ps0: Seq<P>,
    s0: Seq<OutboundData>,
    ps1: Seq<P>,
    s1: Seq<OutboundData>,
    m: MessageData,
    i: int,
) -> bool {
    &&& 0 <= i < ps0.len()
    &&& ps1.len() == ps0.len()
    &&& P::handle_rel(ps0[i], ps1[i], m, s0, s1)
    &&& forall|j: int| 0 <= j < ps0.len() && j != i ==> ps1[j] == ps0[j]
}

/// The plugins at the listed indices ran once each, in list order.
pub open spec fn dispatch_rel<P: Plugin>(
    ps0: Seq<P>,
    s0: Seq<OutboundData>,
    ps1: Seq<P>,
    s1: Seq<OutboundData>,
    m: MessageData,
    idxs: Seq<usize>,
) -> bool
    decreases idxs.len(),
{
    if idxs.len() == 0 {
        ps1 == ps0 && s1 == s0
    } else {
        exists|psm: Seq<P>, sm: Seq<OutboundData>|
            #[trigger] handle_step(ps0, s0, psm, sm, m, idxs[0] as int) && dispatch_rel(
                psm,
                sm,
                ps1,
                s1,
                m,
                idxs.drop_first(),
            )
    }
}

/// Running one more plugin after a dispatch chain extends the chain.
proof fn lemma_dispatch_rel_snoc<P: Plugin>(
    ps0: Seq<P>,
    s0: Seq<OutboundData>,
    ps1: Seq<P>,
    s1: Seq<OutboundData>,
    ps2: Seq<P>,
    s2: Seq<OutboundData>,
    m: MessageData,
    idxs: Seq<usize>,
    i: usize,
)
    requires
        dispatch_rel(ps0, s0, ps1, s1, m, idxs),
        handle_step(ps1, s1, ps2, s2, m, i as int),
    ensures
        dispatch_rel(ps0, s0, ps2, s2, m, idxs.push(i)),
    decreases idxs.len(),
{
    assert(idxs.push(i).drop_first() =~= if idxs.len() == 0 {
        Seq::<usize>::empty()
    } else {
        idxs.drop_first().push(i)
    });
    if idxs.len() == 0 {
        assert(handle_step(ps0, s0, ps2, s2, m, idxs.push(i)[0] as int));
        assert(dispatch_rel(ps2, s2, ps2, s2, m, idxs.push(i).drop_first()));
    } else {
        let (psm, sm) = choose|psm: Seq<P>, sm: Seq<OutboundData>|
            #[trigger] handle_step(ps0, s0, psm, sm, m, idxs[0] as int) && dispatch_rel(
                psm,
                sm,
                ps1,
                s1,
                m,
                idxs.drop_first(),
            );
        lemma_dispatch_rel_snoc(psm, sm, ps1, s1, ps2, s2, m, idxs.drop_first(), i);
        assert(idxs.push(i)[0] == idxs[0]);
        assert(handle_step(ps0, s0, psm, sm, m, idxs.push(i)[0] as int) && dispatch_rel(
            psm,
            sm,
            ps2,
            s2,
            m,
            idxs.push(i).drop_first(),
        ));
    }
}

impl<P: Plugin> PluginRegistry<P> {
    /// An empty registry.
    pub fn new() -> (r: PluginRegistry<P>)
        ensures
            r@ == Seq::<P>::empty(),
    {
        PluginRegistry { plugins: Vec::new() }
    }

    /// Appends a plugin; called during startup, before the loop runs.
    pub fn register(&mut self, plugin: P)
        ensures
            final(self)@ == old(self)@.push(plugin),
    {
        self.plugins.push(plugin);
    }

    pub fn len(&self) -> (r: usize)
        ensures
            r == self@.len(),
    {
        self.plugins.len()
    }

    /// Evaluates every registered plugin's predicate in registration order
    /// and returns the indices of the matching subsequence, in order.
    pub fn match_all(&self, msg: &Message) -> (r: Vec<usize>)
        ensures
            r@ == matching_indices(self@, msg@),
    {
        let mut r: Vec<usize> = Vec::new();
        let mut i: usize = 0;
        while i < self.plugins.len()
            invariant
                i <= self.plugins@.len(),
                r@ == matching_indices(self.plugins@.subrange(0, i as int), msg@),
            decreases self.plugins@.len() - i,
        {
            proof {
                assert(self.plugins@.subrange(0, i + 1 as int).drop_last() =~= self.plugins@
                    .subrange(0, i as int));
                assert(self.plugins@.subrange(0, i + 1 as int).last() == self.plugins@[i as int]);
            }
            if self.plugins[i].is_match(msg) {
                r.push(i);
            }
            i += 1;
        }
        proof {
            assert(self.plugins@.subrange(0, self.plugins@.len() as int) =~= self.plugins@);
        }
        r
    }

    /// Runs the handler of every matching plugin, in registration order.
    /// The reference semantics is sequential; mutual exclusion per plugin is
    /// whatever concurrent driver sits around the library.
    pub fn dispatch(&mut self, msg: &Message, conn: &mut Connection)
        ensures
            dispatch_rel(
                old(self)@,
                old(conn)@,
                final(self)@,
                final(conn)@,
                msg@,
                matching_indices(old(self)@, msg@),
            ),
    {
        let n = self.plugins.len();
        let ghost ps0 = self@;
        let ghost s0 = conn@;
        let idxs = self.match_all(msg);
        proof {
            assert(ps0.len() == n);
            lemma_matching_indices_exact(ps0, msg@);
        }
        let mut k: usize = 0;
        while k < idxs.len()
            invariant
                idxs@ == matching_indices(ps0, msg@),
                forall|t: int| 0 <= t < idxs@.len() ==> idxs@[t] < ps0.len(),
                self@.len() == ps0.len(),
                k <= idxs@.len(),
                dispatch_rel(ps0, s0, self@, conn@, msg@, idxs@.subrange(0, k as int)),
            decreases idxs@.len() - k,
        {
            let i = idxs[k];
            let ghost ps1 = self@;
            let ghost s1 = conn@;
            let mut p = self.plugins.remove(i);
            p.handle(msg, conn);
            self.plugins.insert(i, p);
            proof {
                assert(self@ =~= ps1.update(i as int, self@[i as int]));
                assert(handle_step(ps1, s1, self@, conn@, msg@, i as int));
                lemma_dispatch_rel_snoc(
                    ps0,
                    s0,
                    ps1,
                    s1,
                    self@,
                    conn@,
                    msg@,
                    idxs@.subrange(0, k as int),
                    i,
                );
                assert(idxs@.subrange(0, k + 1 as int) =~= idxs@.subrange(0, k as int).push(i));
            }
            k += 1;
        }
        proof {
            assert(idxs@.subrange(0, idxs@.len() as int) =~= idxs@);
        }
    }
}

/// One classified event from the gateway.
pub enum GatewayEvent {
    /// An inbound message, already snapshotted.
    MessageCreate(Message),
    /// An event the gateway names but the engine does not know; recorded and
    /// skipped.
    Unknown(String, String),
    /// Any other event variant; updates session state only.
    Other,
}

/// What one receive attempt on the gateway produced.
pub enum RecvOutcome {
    /// An event arrived.
    Event(GatewayEvent),
    /// A transient receive error; the loop keeps going.
    Transient(String),
    /// The gateway closed the connection: status code and body. Fatal.
    Closed(Option<u16>, String),
}

/// What the loop does after one outcome.
pub enum LoopControl {
    Continue,
    Stop(Option<u16>, String),
}

/// How a finite run over a recorded outcome sequence ended.
pub enum RunStatus {
    /// Every outcome was consumed and none was fatal.
    Exhausted,
    /// The first fatal closed outcome stopped the run with this status.
    Stopped(Option<u16>, String),
}

/// The engine: registry plus the shared connection handle.
pub struct Bot<P: Plugin> {
    pub registry: PluginRegistry<P>,
    pub conn: Connection,
}

/// One inbound message was dispatched: every plugin that matched it ran
/// once, in registration order, and nothing else changed.
pub open spec fn step_rel<P: Plugin>(pre: Bot<P>, post: Bot<P>, m: MessageData) -> bool {
    dispatch_rel(
        pre.registry@,
        pre.conn@,
        post.registry@,
        post.conn@,
        m,
        matching_indices(pre.registry@, m),
    )
}

/// The whole loop over a sequence of receive outcomes: messages are
/// dispatched in arrival order, transient errors and unknown events leave
/// the engine unchanged, and the first fatal closed outcome ends the run
/// with its status.
pub open spec fn run_rel<P: Plugin>(
    pre: Bot<P>,
    post: Bot<P>,
    outs: Seq<RecvOutcome>,
    st: RunStatus,
) -> bool
    decreases outs.len(),
{
    if outs.len() == 0 {
        post == pre && st == RunStatus::Exhausted
    } else {
        match outs[0] {
            RecvOutcome::Closed(code, body) => post == pre && st == RunStatus::Stopped(code, body),
            RecvOutcome::Event(GatewayEvent::MessageCreate(m)) => exists|mid: Bot<P>|
                #[trigger] step_rel(pre, mid, m@) && run_rel(mid, post, outs.drop_first(), st),
            _ => run_rel(pre, post, outs.drop_first(), st),
        }
    }
}

/// A run that consumed one batch without stopping continues through the next.
proof fn lemma_run_rel_concat<P: Plugin>(
    a: Bot<P>,
    b: Bot<P>,
    c: Bot<P>,
    s: Seq<RecvOutcome>,
    t: Seq<RecvOutcome>,
    st: RunStatus,
)
    requires
        run_rel(a, b, s, RunStatus::Exhausted),
        run_rel(b, c, t, st),
    ensures
        run_rel(a, c, s + t, st),
    decreases s.len(),
{
    if s.len() == 0 {
        assert(s + t =~= t);
    } else {
        assert((s + t).drop_first() =~= s.drop_first() + t);
        assert((s + t)[0] == s[0]);
        match s[0] {
            RecvOutcome::Closed(_, _) => {
                assert(false);
            },
            RecvOutcome::Event(GatewayEvent::MessageCreate(m)) => {
                let mid = choose|mid: Bot<P>|
                    #[trigger] step_rel(a, mid, m@) && run_rel(
                        mid,
                        b,
                        s.drop_first(),
                        RunStatus::Exhausted,
                    );
                lemma_run_rel_concat(mid, b, c, s.drop_first(), t, st);
                assert(step_rel(a, mid, m@) && run_rel(mid, c, (s + t).drop_first(), st));
            },
            _ => {
                lemma_run_rel_concat(a, b, c, s.drop_first(), t, st);
            },
        }
    }
}

/// The status the loop must end with: that of the first fatal closed
/// outcome, or `Exhausted` when there is none.
pub open spec fn run_status_of(outs: Seq<RecvOutcome>) -> RunStatus
    decreases outs.len(),
{
    if outs.len() == 0 {
        RunStatus::Exhausted
    } else {
        match outs[0] {
            RecvOutcome::Closed(code, body) => RunStatus::Stopped(code, body),
            _ => run_status_of(outs.drop_first()),
        }
    }
}

/// A fatal closed outcome stops the loop exactly once: whatever states the
/// plugins went through, the run's status is exactly the status of the first
/// closed outcome, and of nothing else.
pub proof fn lemma_fatal_close_stops_once<P: Plugin>(
    pre: Bot<P>,
    post: Bot<P>,
    outs: Seq<RecvOutcome>,
    st: RunStatus,
)
    requires
        run_rel(pre, post, outs, st),
    ensures
        st == run_status_of(outs),
    decreases outs.len(),
{
    if outs.len() > 0 {
        match outs[0] {
            RecvOutcome::Closed(_, _) => {
            },
            RecvOutcome::Event(GatewayEvent::MessageCreate(m)) => {
                let mid = choose|mid: Bot<P>|
                    #[trigger] step_rel(pre, mid, m@) && run_rel(mid, post, outs.drop_first(), st);
                lemma_fatal_close_stops_once(mid, post, outs.drop_first(), st);
            },
            _ => {
                lemma_fatal_close_stops_once(pre, post, outs.drop_first(), st);
            },
        }
    }
}

/// A transient receive error does not stop the loop: every inbound message
/// that comes before the first fatal closed outcome is still dispatched,
/// whatever errors or unknown events stand in between.
pub proof fn lemma_transient_error_does_not_stop<P: Plugin>(
    pre: Bot<P>,
    post: Bot<P>,
    outs: Seq<RecvOutcome>,
    st: RunStatus,
    j: int,
    m: Message,
)
    requires
        run_rel(pre, post, outs, st),
        0 <= j < outs.len(),
        forall|k: int| 0 <= k < j ==> !(outs[k] is Closed),
        outs[j] == RecvOutcome::Event(GatewayEvent::MessageCreate(m)),
    ensures
        exists|b0: Bot<P>, b1: Bot<P>| #[trigger] step_rel(b0, b1, m@),
    decreases j,
{
    match outs[0] {
        RecvOutcome::Closed(_, _) => {
            assert(!(outs[0] is Closed));
        },
        RecvOutcome::Event(GatewayEvent::MessageCreate(m0)) => {
            let mid = choose|mid: Bot<P>|
                #[trigger] step_rel(pre, mid, m0@) && run_rel(mid, post, outs.drop_first(), st);
            if j == 0 {
                assert(step_rel(pre, mid, m@));
            } else {
                lemma_transient_error_does_not_stop(mid, post, outs.drop_first(), st, j - 1, m);
            }
        },
        _ => {
            assert(j != 0);
            lemma_transient_error_does_not_stop(pre, post, outs.drop_first(), st, j - 1, m);
        },
    }
}

impl<P: Plugin> Bot<P> {
    /// A bot with no plugins registered and nothing sent.
    pub fn new() -> (r: Bot<P>)
        ensures
            r.registry@ == Seq::<P>::empty(),
            r.conn@ == Seq::<OutboundData>::empty(),
    {
        Bot { registry: PluginRegistry::new(), conn: Connection::new() }
    }

    /// Appends a plugin; called during startup, before the loop runs.
    pub fn register(&mut self, plugin: P)
        ensures
            final(self).registry@ == old(self).registry@.push(plugin),
            final(self).conn == old(self).conn,
    {
        self.registry.register(plugin);
    }

    /// Classifies one receive outcome and acts on it: an inbound message is
    /// dispatched to every matching plugin, a transient error and an unknown
    /// event are skipped, and a closed connection stops the loop with the
    /// closing status.
    pub fn handle_outcome(&mut self, outcome: &RecvOutcome) -> (ctl: LoopControl)
        ensures
            (*outcome matches RecvOutcome::Event(GatewayEvent::MessageCreate(m)) ==> ctl
                == LoopControl::Continue && step_rel(*old(self), *final(self), m@)),
            (*outcome matches RecvOutcome::Event(GatewayEvent::Unknown(_, _)) ==> ctl
                == LoopControl::Continue && *final(self) == *old(self)),
            (*outcome matches RecvOutcome::Event(GatewayEvent::Other) ==> ctl
                == LoopControl::Continue && *final(self) == *old(self)),
            (*outcome matches RecvOutcome::Transient(_) ==> ctl == LoopControl::Continue
                && *final(self) == *old(self)),
            (*outcome matches RecvOutcome::Closed(code, body) ==> ctl == LoopControl::Stop(
                code,
                body,
            ) && *final(self) == *old(self)),
    {
        match outcome {
            RecvOutcome::Event(GatewayEvent::MessageCreate(m)) => {
                self.registry.dispatch(m, &mut self.conn);
                LoopControl::Continue
            },
            RecvOutcome::Event(GatewayEvent::Unknown(_, _)) => LoopControl::Continue,
            RecvOutcome::Event(GatewayEvent::Other) => LoopControl::Continue,
            RecvOutcome::Transient(_) => LoopControl::Continue,
            RecvOutcome::Closed(code, body) => LoopControl::Stop(*code, body.clone()),
        }
    }

    /// Replays a recorded sequence of receive outcomes in order, exactly as
    /// the live loop consumes the gateway: dispatch on messages, keep going
    /// on transient errors, stop at the first fatal closed outcome.
    pub fn run(&mut self, outcomes: &Vec<RecvOutcome>) -> (st: RunStatus)
        ensures
            run_rel(*old(self), *final(self), outcomes@, st),
            st == run_status_of(outcomes@),
    {
        let ghost b0 = *self;
        let mut i: usize = 0;
        while i < outcomes.len()
            invariant
                b0 == *old(self),
                i <= outcomes@.len(),
                run_rel(b0, *self, outcomes@.subrange(0, i as int), RunStatus::Exhausted),
            decreases outcomes@.len() - i,
        {
            let ghost bmid = *self;
            let ctl = self.handle_outcome(&outcomes[i]);
            proof {
                assert(outcomes@.subrange(0, i + 1 as int) =~= outcomes@.subrange(0, i as int)
                    + seq![outcomes@[i as int]]);
            }
            match ctl {
                LoopControl::Stop(code, body) => {
                    proof {
                        let tail = outcomes@.subrange(i as int, outcomes@.len() as int);
                        assert(tail[0] == outcomes@[i as int]);
                        assert(run_rel(
                            bmid,
                            *self,
                            tail,
                            RunStatus::Stopped(code, body),
                        ));
                        lemma_run_rel_concat(
                            b0,
                            bmid,
                            *self,
                            outcomes@.subrange(0, i as int),
                            tail,
                            RunStatus::Stopped(code, body),
                        );
                        assert(outcomes@.subrange(0, i as int) + tail =~= outcomes@);
                        lemma_fatal_close_stops_once(b0, *self, outcomes@, RunStatus::Stopped(code, body));
                    }
                    return RunStatus::Stopped(code, body);
                },
                LoopControl::Continue => {
                    proof {
                        let one = seq![outcomes@[i as int]];
                        assert(one.len() == 1 && one[0] == outcomes@[i as int]);
                        assert(one.drop_first() =~= Seq::<RecvOutcome>::empty());
                        match outcomes@[i as int] {
                            RecvOutcome::Event(GatewayEvent::MessageCreate(m)) => {
                                assert(step_rel(bmid, *self, m@) && run_rel(
                                    *self,
                                    *self,
                                    one.drop_first(),
                                    RunStatus::Exhausted,
                                ));
                                assert(run_rel(bmid, *self, one, RunStatus::Exhausted));
                            },
                            _ => {
                                assert(run_rel(bmid, *self, one, RunStatus::Exhausted));
                            },
                        }
                        lemma_run_rel_concat(
                            b0,
                            bmid,
                            *self,
                            outcomes@.subrange(0, i as int),
                            one,
                            RunStatus::Exhausted,
                        );
                    }
                },
            }
            i += 1;
        }
        proof {
            assert(outcomes@.subrange(0, outcomes@.len() as int) =~= outcomes@);
            lemma_fatal_close_stops_once(b0, *self, outcomes@, RunStatus::Exhausted);
        }
        RunStatus::Exhausted
    }
}

} // verus!
