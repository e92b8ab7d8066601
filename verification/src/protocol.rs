//! The wire-facing shapes: the typed notifications the transport delivers,
//! the typed requests the state machine decides to issue, and the adapter
//! that turns one generated layout into the exact request sequence a demand
//! must be answered with.

use vstd::prelude::*;

use crate::error::Error;
use crate::layout::GeneratedLayout;
use crate::layout::ViewDimensions;

verus! {

/// What kind of capability a registry announcement advertises.
#[derive(Clone, Copy, Debug, PartialEq, Eq, Structural)]
pub enum GlobalKind {
    /// The output-enumeration capability: one per display surface.
    Output,
    /// The singleton layout-manager capability.
    LayoutManager,
    /// Anything else; ignored.
    Other,
}

/// One notification delivered by the transport.
///
/// Registry and output notifications are addressed by the compositor-chosen
/// global identifier; layout notifications are addressed by the handle of
/// the negotiated layout object (chosen by [`crate::state::State`] when the
/// session is created).
#[derive(Debug)]
#[allow(inconsistent_fields)]
pub enum Event {
    /// A global capability appeared, advertising an interface name.
    GlobalAnnounced { id: u32, interface: String, version: u32 },
    /// A global capability was withdrawn.
    GlobalRemoved { id: u32 },
    /// An output reported its human-readable name.
    OutputName { id: u32, name: String },
    /// The compositor reported the tag bitmask now active on a session.
    TagsSet { layout: u64, tags: u32 },
    /// An opaque user command arrived for a session.
    UserCommand { layout: u64, command: String },
    /// The compositor demands a layout: `view_count` placements inside
    /// `usable_width` x `usable_height`.  `tags`, when present, overrides
    /// the session's stored bitmask for this call only.  `serial` must be
    /// echoed unmodified in every reply request.
    LayoutDemand {
        layout: u64,
        view_count: u32,
        usable_width: u32,
        usable_height: u32,
        tags: Option<u32>,
        serial: u32,
    },
    /// Another client already owns the generator's namespace.
    NamespaceInUse { layout: u64 },
}

/// One request the driver loop must issue on the transport.
#[derive(Debug, PartialEq)]
pub enum Action {
    /// Bind the announced output capability.
    BindOutput { id: u32, version: u32 },
    /// Bind the announced layout-manager capability.
    BindLayoutManager { id: u32, version: u32 },
    /// Ask the layout manager for a layout object on output `output`,
    /// tagged with the generator's claimed namespace; the new object is
    /// addressed by `layout` from then on.
    RequestLayoutObject { output: u32, layout: u64, namespace: String },
    /// Push one placement for the demand correlated by `serial`.
    PushViewDimensions { layout: u64, x: i32, y: i32, width: u32, height: u32, serial: u32 },
    /// Close the demand correlated by `serial` with the layout's label.
    Commit { layout: u64, name: String, serial: u32 },
    /// Release the negotiated layout object.
    DestroyLayoutObject { layout: u64 },
    /// Release the bound output capability.
    ReleaseOutput { id: u32 },
}

/// What one dispatched event produced: requests to issue, plus a generator
/// error raised by a user command, which is reported but does not stop the
/// run.
#[derive(Debug)]
pub struct StepOutcome<E> {
    pub actions: Vec<Action>,
    pub command_error: Option<E>,
}

/// How an interface name is classified.
pub open spec fn spec_classify(interface: Seq<char>) -> GlobalKind {
    if interface == "wl_output"@ {
        GlobalKind::Output
    } else if interface == "river_layout_manager_v3"@ {
        GlobalKind::LayoutManager
    } else {
        GlobalKind::Other
    }
}

/// Classify an advertised interface name.
pub fn classify_global(interface: &String) -> (k: GlobalKind)
    ensures
        k == spec_classify(interface@),
{
    if *interface == String::from_str("wl_output") {
        GlobalKind::Output
    } else if *interface == String::from_str("river_layout_manager_v3") {
        GlobalKind::LayoutManager
    } else {
        GlobalKind::Other
    }
}

/// The push request that answers one placement of a demand.
pub open spec fn push_action(layout: u64, v: ViewDimensions, serial: u32) -> Action {
    Action::PushViewDimensions {
        layout,
        x: v.location.0,
        y: v.location.1,
        width: v.space.0,
        height: v.space.1,
        serial,
    }
}

/// The full request sequence that answers a demand with `gl`: one push per
/// placement, in order, then a single commit carrying the label.
pub open spec fn demand_action_seq(layout: u64, gl: GeneratedLayout, serial: u32) -> Seq<Action> {
    Seq::new(gl.views@.len(), |i: int| push_action(layout, gl.views@[i], serial)).push(
        Action::Commit { layout, name: gl.name, serial },
    )
}

/// The serial a request echoes, for the two request kinds that carry one.
pub open spec fn action_serial(a: Action) -> Option<u32> {
    match a {
        Action::PushViewDimensions { serial, .. } => Some(serial),
        Action::Commit { serial, .. } => Some(serial),
        _ => None,
    }
}

/// A push request addressed to `layout` and echoing `serial`.
pub open spec fn is_push_for(a: Action, layout: u64, serial: u32) -> bool {
    a matches Action::PushViewDimensions { layout: l, serial: s, .. } && l == layout && s
        == serial
}

/// A commit request addressed to `layout` and echoing `serial`.
pub open spec fn is_commit_for(a: Action, layout: u64, serial: u32) -> bool {
    a matches Action::Commit { layout: l, serial: s, .. } && l == layout && s == serial
}

/// The shape every answered demand has: exactly `view_count` pushes, in
/// order, then one commit, all addressed to the demand's session and all
/// echoing the demand's serial.
pub open spec fn demand_reply_shape(
    acts: Seq<Action>,
    layout: u64,
    view_count: u32,
    serial: u32,
) -> bool {
    &&& acts.len() == view_count + 1
    &&& forall|i: int| 0 <= i < view_count ==> is_push_for(#[trigger] acts[i], layout, serial)
    &&& is_commit_for(acts[view_count as int], layout, serial)
}

/// The Generator Adapter's gate: turn one generated layout into the request
/// sequence answering a demand, or reject it when the placement count does
/// not match the demanded view count.  Nothing is ever truncated or padded.
pub fn demand_actions<E>(layout: u64, gl: GeneratedLayout, view_count: u32, serial: u32) -> (r:
    Result<Vec<Action>, Error<E>>)
    ensures
        match r {
            Ok(acts) => {
                &&& gl.views@.len() == view_count
                &&& acts@ == demand_action_seq(layout, gl, serial)
            },
            Err(e) => {
                &&& gl.views@.len() != view_count
                &&& e matches Error::ContractViolation
            },
        },
{
    if gl.views.len() != view_count as usize {
        return Err(Error::ContractViolation);
    }
    let mut acts: Vec<Action> = Vec::new();
    let mut k: usize = 0;
    while k < gl.views.len()
        invariant
            k <= gl.views@.len() == view_count,
            acts@ =~= Seq::new(k as nat, |i: int| push_action(layout, gl.views@[i], serial)),
        decreases gl.views@.len() - k,
    {
        let v = gl.views[k];
        acts.push(Action::PushViewDimensions {
            layout,
            x: v.location.0,
            y: v.location.1,
            width: v.space.0,
            height: v.space.1,
            serial,
        });
        k = k + 1;
    }
    acts.push(Action::Commit { layout, name: gl.name, serial });
    proof {
        assert(acts@ =~= demand_action_seq(layout, gl, serial));
    }
    Ok(acts)
}

/// What a user command's outcome means for the run: a generator error is
/// reported to the caller, success is silent; the session continues either
/// way.
pub fn command_report<E>(r: Result<(), E>) -> (o: Option<E>)
    ensures
        match r {
            Ok(_) => o is None,
            Err(e) => o == Some(e),
        },
{
    match r {
        Ok(_) => None,
        Err(e) => Some(e),
    }
}

/// For every accepted demand, the reply has exactly `view_count` push
/// requests — one per placement, in order — followed by one commit, all
/// addressed to the demand's session and echoing its serial.
pub proof fn lemma_demand_reply_shape(
    layout: u64,
    gl: GeneratedLayout,
    serial: u32,
    view_count: u32,
)
    requires
        gl.views@.len() == view_count,
    ensures
        demand_reply_shape(demand_action_seq(layout, gl, serial), layout, view_count, serial),
{
    let s = demand_action_seq(layout, gl, serial);
    assert forall|i: int| 0 <= i < view_count implies is_push_for(
        #[trigger] s[i],
        layout,
        serial,
    ) by {
        assert(s[i] == push_action(layout, gl.views@[i], serial));
    }
    assert(s[view_count as int] == Action::Commit { layout, name: gl.name, serial });
}

/// The serial echoed in every push and in the final commit of a demand
/// reply equals the serial of the triggering demand, bit for bit.
pub proof fn lemma_demand_serial_echo(layout: u64, gl: GeneratedLayout, serial: u32)
    ensures
        forall|i: int|
            0 <= i < demand_action_seq(layout, gl, serial).len() ==> action_serial(
                #[trigger] demand_action_seq(layout, gl, serial)[i],
            ) == Some(serial),
{
    let s = demand_action_seq(layout, gl, serial);
    assert forall|i: int| 0 <= i < s.len() implies action_serial(#[trigger] s[i]) == Some(
        serial,
    ) by {
        if i < gl.views@.len() {
            assert(s[i] == push_action(layout, gl.views@[i], serial));
        } else {
            assert(s[i] == Action::Commit { layout, name: gl.name, serial });
        }
    }
}

} // verus!
