//! The chord state machine: it follows the leader key through the stream
//! of key edges and decides, edge by edge, whether a chord fires.

use vstd::prelude::*;
use vstd::string::*;

use crate::bindings::has_label;
use crate::bindings::BindingTable;
use crate::bindings::BindingView;
use crate::keys::label_of_symbol;
use crate::keys::modifier_of_symbol;
use crate::keys::symbol_modifier;
use crate::keys::symbol_of_modifier;
use crate::keys::symbol_to_label;
use crate::keys::KeySymbol;
use crate::keys::Modifier;

verus! {

/// Which way a key moved.
#[derive(Clone, Copy, Debug, PartialEq, Eq, Hash, Structural)]
pub enum Phase {
    Pressed,
    Released,
}

/// One key going down or coming up.
#[derive(Clone, Copy, Debug, PartialEq, Eq, Hash, Structural)]
pub struct KeyEdge {
    pub symbol: KeySymbol,
    pub phase: Phase,
}

/// What the machine decides on one edge.
#[derive(Debug, PartialEq, Eq)]
pub enum Decision {
    /// Nothing happens.
    NoOp,
    /// The leader went down.
    LeaderEngaged,
    /// The leader came up.
    LeaderDisengaged,
    /// The chord of the leader and the key with this label fired.
    Fire(String),
}

/// A decision as plain text.
pub enum DecisionView {
    NoOp,
    LeaderEngaged,
    LeaderDisengaged,
    Fire(Seq<char>),
}

impl View for Decision {
    type V = DecisionView;

    open spec fn view(&self) -> DecisionView {
        match self {
            Decision::NoOp => DecisionView::NoOp,
            Decision::LeaderEngaged => DecisionView::LeaderEngaged,
            Decision::LeaderDisengaged => DecisionView::LeaderDisengaged,
            Decision::Fire(label) => DecisionView::Fire(label@),
        }
    }
}

impl Clone for Decision {
    fn clone(&self) -> (r: Decision)
        ensures
            r@ == self@,
    {
        match self {
            Decision::NoOp => Decision::NoOp,
            Decision::LeaderEngaged => Decision::LeaderEngaged,
            Decision::LeaderDisengaged => Decision::LeaderDisengaged,
            Decision::Fire(label) => Decision::Fire(label.clone()),
        }
    }
}

/// The state of the machine: which modifier leads, and whether it is
/// down. Only the machine changes it, edge by edge.
#[derive(Clone, Copy, Debug, PartialEq, Eq, Structural)]
pub struct ChordState {
    leader: Modifier,
    leader_held: bool,
}

/// The state of the machine as plain values.
pub struct ChordView {
    pub leader: Modifier,
    pub leader_held: bool,
}

impl View for ChordState {
    type V = ChordView;

    closed spec fn view(&self) -> ChordView {
        ChordView { leader: self.leader, leader_held: self.leader_held }
    }
}

/// Whether a key is the leader.
pub open spec fn is_leader(leader: Modifier, symbol: KeySymbol) -> bool {
    modifier_of_symbol(symbol) == Some(leader)
}

/// The state after an edge, and the decision on it.
///
/// The leader going down engages it, once: while it stays down, further
/// presses of it (key repeat) change and report nothing. The leader coming
/// up disengages it. Any other key going down while the leader is down
/// fires if its label is bound, each time it goes down, and the leader
/// stays engaged. Everything else is ignored.
pub open spec fn step(
    state: ChordView,
    edge: KeyEdge,
    table: Seq<(Seq<char>, BindingView)>,
) -> (ChordView, DecisionView) {
    match edge.phase {
        Phase::Pressed => {
            if is_leader(state.leader, edge.symbol) {
                if state.leader_held {
                    (state, DecisionView::NoOp)
                } else {
                    (
                        ChordView { leader: state.leader, leader_held: true },
                        DecisionView::LeaderEngaged,
                    )
                }
            } else if state.leader_held && has_label(table, label_of_symbol(edge.symbol)) {
                (state, DecisionView::Fire(label_of_symbol(edge.symbol)))
            } else {
                (state, DecisionView::NoOp)
            }
        },
        Phase::Released => {
            if is_leader(state.leader, edge.symbol) {
                (
                    ChordView { leader: state.leader, leader_held: false },
                    DecisionView::LeaderDisengaged,
                )
            } else {
                (state, DecisionView::NoOp)
            }
        },
    }
}

/// The state after a sequence of edges, taken in order, and the decision
/// on each.
pub open spec fn run(
    state: ChordView,
    edges: Seq<KeyEdge>,
    table: Seq<(Seq<char>, BindingView)>,
) -> (ChordView, Seq<DecisionView>)
    decreases edges.len(),
{
    if edges.len() == 0 {
        (state, Seq::empty())
    } else {
        let (before, earlier) = run(state, edges.drop_last(), table);
        let (after, decision) = step(before, edges.last(), table);
        (after, earlier.push(decision))
    }
}

/// Decisions as plain text, in order.
pub open spec fn decisions_view(decisions: Seq<Decision>) -> Seq<DecisionView> {
    decisions.map_values(|d: Decision| d@)
}

impl ChordState {
    /// The state at startup: the leader is up.
    pub fn new(leader: Modifier) -> (r: ChordState)
        ensures
            r@ == (ChordView { leader, leader_held: false }),
    {
        ChordState { leader, leader_held: false }
    }

    /// The modifier that leads.
    pub fn leader(&self) -> (r: Modifier)
        ensures
            r == self@.leader,
    {
        self.leader
    }

    /// Whether the leader is down.
    pub fn leader_held(&self) -> (r: bool)
        ensures
            r == self@.leader_held,
    {
        self.leader_held
    }

    /// Takes one edge: moves to the next state and returns the decision.
    pub fn on_edge(&mut self, edge: KeyEdge, table: &BindingTable) -> (decision: Decision)
        ensures
            (final(self)@, decision@) == step(old(self)@, edge, table@),
    {
        let leads = match symbol_modifier(edge.symbol) {
            Some(modifier) => modifier == self.leader,
            None => false,
        };
        match edge.phase {
            Phase::Pressed => {
                if leads {
                    if self.leader_held {
                        Decision::NoOp
                    } else {
                        self.leader_held = true;
                        Decision::LeaderEngaged
                    }
                } else if self.leader_held {
                    let label = symbol_to_label(edge.symbol);
                    if table.contains(label) {
                        Decision::Fire(String::from_str(label))
                    } else {
                        Decision::NoOp
                    }
                } else {
                    Decision::NoOp
                }
            },
            Phase::Released => {
                if leads {
                    self.leader_held = false;
                    Decision::LeaderDisengaged
                } else {
                    Decision::NoOp
                }
            },
        }
    }

    /// Takes a batch of edges in order and returns the decision on each.
    pub fn on_edges(&mut self, edges: &[KeyEdge], table: &BindingTable) -> (decisions: Vec<
        Decision,
    >)
        ensures
            (final(self)@, decisions_view(decisions@)) == run(old(self)@, edges@, table@),
    {
        let mut decisions: Vec<Decision> = Vec::new();
        let mut i: usize = 0;
        while i < edges.len()
            invariant
                i <= edges.len(),
                (self@, decisions_view(decisions@)) == run(
                    old(self)@,
                    edges@.take(i as int),
                    table@,
                ),
            decreases edges.len() - i,
        {
            let ghost before = decisions_view(decisions@);
            let decision = self.on_edge(edges[i], table);
            proof {
                assert(edges@.take(i + 1).drop_last() == edges@.take(i as int));
                assert(edges@.take(i + 1).last() == edges@[i as int]);
            }
            decisions.push(decision);
            assert(decisions_view(decisions@) == before.push(decision@));
            i += 1;
        }
        assert(edges@.take(edges.len() as int) == edges@);
        decisions
    }
}

/// The edge of a key going down.
pub open spec fn pressed(symbol: KeySymbol) -> KeyEdge {
    KeyEdge { symbol, phase: Phase::Pressed }
}

/// The edge of a key coming up.
pub open spec fn released(symbol: KeySymbol) -> KeyEdge {
    KeyEdge { symbol, phase: Phase::Released }
}

/// The same edge `n` times in a row, as key repeat delivers it.
pub open spec fn repeated(edge: KeyEdge, n: nat) -> Seq<KeyEdge> {
    Seq::new(n, |i: int| edge)
}

/// While the leader is up, a key that is not the leader fires nothing
/// when it goes down, bound or not.
pub proof fn lemma_no_fire_without_leader(
    state: ChordView,
    symbol: KeySymbol,
    table: Seq<(Seq<char>, BindingView)>,
)
    requires
        !state.leader_held,
        !is_leader(state.leader, symbol),
    ensures
        step(state, pressed(symbol), table) == (state, DecisionView::NoOp),
{
}

/// A chord fires only on a key going down while the leader is down, the
/// key not being the leader, and then with the key's label, which is
/// bound.
pub proof fn lemma_fire_only_under_leader(
    state: ChordView,
    edge: KeyEdge,
    table: Seq<(Seq<char>, BindingView)>,
)
    ensures
        step(state, edge, table).1 matches DecisionView::Fire(label) ==> {
            &&& state.leader_held
            &&& edge.phase == Phase::Pressed
            &&& !is_leader(state.leader, edge.symbol)
            &&& label == label_of_symbol(edge.symbol)
            &&& has_label(table, label)
        },
{
}

/// Every edge gets exactly one decision, in order, and no edge changes
/// which modifier leads.
pub proof fn lemma_one_decision_per_edge(
    state: ChordView,
    edges: Seq<KeyEdge>,
    table: Seq<(Seq<char>, BindingView)>,
)
    ensures
        run(state, edges, table).1.len() == edges.len(),
        run(state, edges, table).0.leader == state.leader,
        forall|i: int|
            0 <= i < edges.len() ==> #[trigger] run(state, edges, table).1[i] == step(
                run(state, edges.take(i), table).0,
                edges[i],
                table,
            ).1,
    decreases edges.len(),
{
    if edges.len() > 0 {
        let front = edges.drop_last();
        lemma_one_decision_per_edge(state, front, table);
        assert(edges.take(edges.len() - 1) == front);
        assert forall|i: int| 0 <= i < edges.len() implies #[trigger] run(
            state,
            edges,
            table,
        ).1[i] == step(run(state, edges.take(i), table).0, edges[i], table).1 by {
            if i < front.len() {
                assert(front.take(i) == edges.take(i));
                assert(front[i] == edges[i]);
            }
        }
    }
}

/// The leader held down with key repeat engages once: of `n` presses in
/// a row only the first can report `LeaderEngaged`, and it does so
/// exactly when the leader was up before; the leader is down afterwards.
pub proof fn lemma_leader_repeat_engages_once(
    state: ChordView,
    table: Seq<(Seq<char>, BindingView)>,
    n: nat,
)
    requires
        n >= 1,
    ensures
        ({
            let edges = repeated(pressed(symbol_of_modifier(state.leader)), n);
            let (after, decisions) = run(state, edges, table);
            &&& after == (ChordView { leader: state.leader, leader_held: true })
            &&& decisions.len() == n
            &&& decisions[0] == (if state.leader_held {
                DecisionView::NoOp
            } else {
                DecisionView::LeaderEngaged
            })
            &&& forall|i: int| 1 <= i < n ==> decisions[i] == DecisionView::NoOp
        }),
    decreases n,
{
    let edge = pressed(symbol_of_modifier(state.leader));
    let edges = repeated(edge, n);
    assert(edges.drop_last() == repeated(edge, (n - 1) as nat));
    if n == 1 {
        assert(run(state, edges.drop_last(), table) == (state, Seq::<DecisionView>::empty()));
    } else {
        lemma_leader_repeat_engages_once(state, table, (n - 1) as nat);
    }
}

/// While the leader is down, a bound key fires every time it goes down:
/// `n` presses in a row, as key repeat delivers them, give `n` times
/// `Fire` with the key's label, and the leader stays down. Repeats of a
/// bound key are not folded into one, as those of the leader are.
pub proof fn lemma_bound_key_fires_each_press(
    state: ChordView,
    symbol: KeySymbol,
    table: Seq<(Seq<char>, BindingView)>,
    n: nat,
)
    requires
        state.leader_held,
        !is_leader(state.leader, symbol),
        has_label(table, label_of_symbol(symbol)),
    ensures
        step(state, pressed(symbol), table) == (
            state,
            DecisionView::Fire(label_of_symbol(symbol)),
        ),
        run(state, repeated(pressed(symbol), n), table) == (
            state,
            Seq::new(n, |i: int| DecisionView::Fire(label_of_symbol(symbol))),
        ),
    decreases n,
{
    let edges = repeated(pressed(symbol), n);
    let fire = DecisionView::Fire(label_of_symbol(symbol));
    let fires = Seq::new(n, |i: int| fire);
    if n == 0 {
        assert(fires == Seq::<DecisionView>::empty());
    } else {
        lemma_bound_key_fires_each_press(state, symbol, table, (n - 1) as nat);
        assert(edges.drop_last() == repeated(pressed(symbol), (n - 1) as nat));
        assert(fires == Seq::new((n - 1) as nat, |i: int| fire).push(fire));
    }
}

/// One chord fires once: leader down, bound key down, bound key up,
/// leader up gives `LeaderEngaged`, one `Fire` with the key's label,
/// `NoOp`, `LeaderDisengaged`, and leaves the leader up.
pub proof fn lemma_chord_fires_once(
    leader: Modifier,
    symbol: KeySymbol,
    table: Seq<(Seq<char>, BindingView)>,
)
    requires
        !is_leader(leader, symbol),
        has_label(table, label_of_symbol(symbol)),
    ensures
        run(
            ChordView { leader, leader_held: false },
            seq![
                pressed(symbol_of_modifier(leader)),
                pressed(symbol),
                released(symbol),
                released(symbol_of_modifier(leader)),
            ],
            table,
        ) == (
            ChordView { leader, leader_held: false },
            seq![
                DecisionView::LeaderEngaged,
                DecisionView::Fire(label_of_symbol(symbol)),
                DecisionView::NoOp,
                DecisionView::LeaderDisengaged,
            ],
        ),
{
    let lead = symbol_of_modifier(leader);
    let up = ChordView { leader, leader_held: false };
    let down = ChordView { leader, leader_held: true };
    let e1 = seq![pressed(lead)];
    let e2 = seq![pressed(lead), pressed(symbol)];
    let e3 = seq![pressed(lead), pressed(symbol), released(symbol)];
    let e4 = seq![pressed(lead), pressed(symbol), released(symbol), released(lead)];
    let fire = DecisionView::Fire(label_of_symbol(symbol));
    let r0 = run(up, Seq::<KeyEdge>::empty(), table);
    let r1 = run(up, e1, table);
    let r2 = run(up, e2, table);
    let r3 = run(up, e3, table);
    let r4 = run(up, e4, table);
    assert(r0.0 == up && r0.1 =~= Seq::<DecisionView>::empty());
    assert(r1.0 == down && r1.1 =~= seq![DecisionView::LeaderEngaged]) by {
        assert(e1.drop_last() =~= Seq::<KeyEdge>::empty());
    }
    assert(r2.0 == down && r2.1 =~= seq![DecisionView::LeaderEngaged, fire]) by {
        assert(e2.drop_last() =~= e1);
    }
    assert(r3.0 == down && r3.1 =~= seq![DecisionView::LeaderEngaged, fire, DecisionView::NoOp])
        by {
        assert(e3.drop_last() =~= e2);
    }
    assert(r4.0 == up && r4.1 =~= seq![
        DecisionView::LeaderEngaged,
        fire,
        DecisionView::NoOp,
        DecisionView::LeaderDisengaged,
    ]) by {
        assert(e4.drop_last() =~= e3);
    }
}

} // verus!
