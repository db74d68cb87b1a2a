//! The dispatcher's side of a chord: which binding a decision asks to
//! launch, and what became of the launch.

use vstd::prelude::*;

use crate::bindings::binding_of;
use crate::bindings::has_label;
use crate::bindings::lemma_bound_labels;
use crate::bindings::Binding;
use crate::bindings::BindingTable;
use crate::bindings::BindingView;
use crate::chord::step;
use crate::chord::ChordView;
use crate::chord::Decision;
use crate::chord::DecisionView;
use crate::chord::KeyEdge;

verus! {

/// What became of a launch.
#[derive(Debug, PartialEq, Eq)]
pub enum LaunchOutcome {
    /// The process was started; nobody waits for it.
    Started,
    /// The process could not be started, for this reason.
    Failed(String),
}

/// A launch outcome as plain text.
pub enum LaunchOutcomeView {
    Started,
    Failed(Seq<char>),
}

impl View for LaunchOutcome {
    type V = LaunchOutcomeView;

    open spec fn view(&self) -> LaunchOutcomeView {
        match self {
            LaunchOutcome::Started => LaunchOutcomeView::Started,
            LaunchOutcome::Failed(reason) => LaunchOutcomeView::Failed(reason@),
        }
    }
}

/// The binding that a decision asks to launch: that of the label of a
/// `Fire`, and none for any other decision.
pub open spec fn binding_to_launch(
    decision: DecisionView,
    table: Seq<(Seq<char>, BindingView)>,
) -> Option<BindingView> {
    match decision {
        DecisionView::Fire(label) => binding_of(table, label),
        _ => None,
    }
}

/// The binding to launch on a decision, if it asks for one.
pub fn fire_event<'a>(decision: &Decision, table: &'a BindingTable) -> (r: Option<&'a Binding>)
    ensures
        match r {
            Some(binding) => binding_to_launch(decision@, table@) == Some(binding@),
            None => binding_to_launch(decision@, table@) is None,
        },
{
    match decision {
        Decision::Fire(label) => table.get(label.as_str()),
        _ => None,
    }
}

/// The outcome of a launch, from what the launcher reported: success, or
/// the reason of the failure. A failed launch is an outcome like the
/// other, and nothing more.
pub fn launch_outcome(spawned: Result<(), String>) -> (r: LaunchOutcome)
    ensures
        r@ == match spawned {
            Ok(_) => LaunchOutcomeView::Started,
            Err(reason) => LaunchOutcomeView::Failed(reason@),
        },
{
    match spawned {
        Ok(_) => LaunchOutcome::Started,
        Err(reason) => LaunchOutcome::Failed(reason),
    }
}

/// Every `Fire` that the chord machine decides has a binding to launch,
/// and no other decision has one.
pub proof fn lemma_fire_has_binding(
    state: ChordView,
    edge: KeyEdge,
    table: Seq<(Seq<char>, BindingView)>,
)
    ensures
        binding_to_launch(step(state, edge, table).1, table) is Some <==> step(
            state,
            edge,
            table,
        ).1 is Fire,
{
    if let DecisionView::Fire(label) = step(state, edge, table).1 {
        lemma_bound_labels(table, label);
    }
}

} // verus!
