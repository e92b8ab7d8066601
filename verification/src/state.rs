//! The protocol state machine: the output table, the per-output negotiation
//! sessions, and the event handlers that decide which requests to issue.
//!
//! All handlers are pure decisions from state and event to next state and
//! requests; the driver loop around the transport performs the requests and
//! hands back the next event.

use vstd::prelude::*;

use crate::error::Error;
use crate::layout::GeneratedLayout;
use crate::layout::LayoutGenerator;
use crate::protocol::Action;
use crate::protocol::Event;
use crate::protocol::GlobalKind;
use crate::protocol::StepOutcome;
use crate::protocol::classify_global;
use crate::protocol::command_report;
use crate::protocol::demand_action_seq;
use crate::protocol::demand_actions;
use crate::protocol::demand_reply_shape;
use crate::protocol::spec_classify;

verus! {

/// Where one output stands in the negotiation.
///
/// An entry starts in `AwaitingName`; once the output's name arrives a
/// layout object is requested and the session negotiates under that handle.
/// A namespace conflict makes the session `Terminal`, which is absorbing:
/// later notifications addressed to its handle are ignored.
#[derive(Debug)]
pub enum SessionState {
    AwaitingName,
    Negotiating { layout: u64, tags: Option<u32> },
    Terminal { layout: u64 },
}

/// One output known to the compositor: its stable identifier, its name once
/// reported, and its negotiation session.
#[derive(Debug)]
pub struct OutputEntry {
    pub id: u32,
    pub name: Option<String>,
    pub session: SessionState,
}

/// The layout-object handle an entry holds, negotiating or terminal.
pub open spec fn entry_layout(e: OutputEntry) -> Option<u64> {
    match e.session {
        SessionState::AwaitingName => None,
        SessionState::Negotiating { layout, .. } => Some(layout),
        SessionState::Terminal { layout } => Some(layout),
    }
}

/// The layout-object handle of an entry still negotiating.
pub open spec fn negotiating_layout(e: OutputEntry) -> Option<u64> {
    match e.session {
        SessionState::Negotiating { layout, .. } => Some(layout),
        _ => None,
    }
}

/// The tag bitmask a negotiating entry has stored.
pub open spec fn entry_tags(e: OutputEntry) -> Option<u32> {
    match e.session {
        SessionState::Negotiating { tags, .. } => tags,
        _ => None,
    }
}

/// Per-entry well-formedness: a session handle is always below the
/// allocation counter, and a session only exists once the name arrived.
pub open spec fn entry_wf(e: OutputEntry, next: u64) -> bool {
    match e.session {
        SessionState::AwaitingName => true,
        SessionState::Negotiating { layout, .. } => layout < next && e.name is Some,
        SessionState::Terminal { layout } => layout < next && e.name is Some,
    }
}

/// The tag bitmask a demand is computed under: the demand's own override
/// when it carries one, else the session's stored bitmask, else none set.
pub open spec fn effective_tags(stored: Option<u32>, demand: Option<u32>) -> u32 {
    match demand {
        Some(t) => t,
        None => match stored {
            Some(t) => t,
            None => 0,
        },
    }
}

/// Everything a demand hands to the generator, resolved against the state:
/// the effective tag bitmask, the output's name, the usable area, the view
/// count, and the serial to echo.
#[derive(Debug)]
pub struct DemandCall {
    pub layout: u64,
    pub tags: u32,
    pub output_name: String,
    pub usable_width: u32,
    pub usable_height: u32,
    pub view_count: u32,
    pub serial: u32,
}

/// What handling a "global announced" notification does.
///
/// An output capability is bound and tracked from the moment it is
/// announced; the layout-manager capability is bound exactly once and a
/// repeated announcement is ignored; every other capability kind is
/// ignored.  A repeated announcement of an identifier already tracked is
/// ignored as well.
pub open spec fn announced_post(
    pre: State,
    post: State,
    acts: Seq<Action>,
    id: u32,
    version: u32,
    kind: GlobalKind,
) -> bool {
    match kind {
        GlobalKind::Output => {
            if pre.has_output(id) {
                post == pre && acts.len() == 0
            } else {
                &&& post.entries() == pre.entries().push(
                    OutputEntry { id, name: None, session: SessionState::AwaitingName },
                )
                &&& post.claimed_namespace() == pre.claimed_namespace()
                &&& post.has_manager() == pre.has_manager()
                &&& post.fresh_handle() == pre.fresh_handle()
                &&& acts == seq![Action::BindOutput { id, version }]
            }
        },
        GlobalKind::LayoutManager => {
            if pre.has_manager() {
                post == pre && acts.len() == 0
            } else {
                &&& post.entries() == pre.entries()
                &&& post.claimed_namespace() == pre.claimed_namespace()
                &&& post.has_manager()
                &&& post.fresh_handle() == pre.fresh_handle()
                &&& acts == seq![Action::BindLayoutManager { id, version }]
            }
        },
        GlobalKind::Other => post == pre && acts.len() == 0,
    }
}

/// What handling a "global removed" notification does.
///
/// An unknown identifier is a stale notification and is dropped silently.
/// A tracked entry is torn down: its layout object, if one was ever
/// requested, is released first, then the output capability, and the entry
/// leaves the table.
pub open spec fn removed_post(pre: State, post: State, acts: Seq<Action>, id: u32) -> bool {
    if !pre.has_output(id) {
        post == pre && acts.len() == 0
    } else {
        let i = pre.output_idx(id);
        let e = pre.entries()[i];
        &&& post.entries() == pre.entries().remove(i)
        &&& post.claimed_namespace() == pre.claimed_namespace()
        &&& post.has_manager() == pre.has_manager()
        &&& post.fresh_handle() == pre.fresh_handle()
        &&& match entry_layout(e) {
            Some(h) => acts == seq![
                Action::DestroyLayoutObject { layout: h },
                Action::ReleaseOutput { id },
            ],
            None => acts == seq![Action::ReleaseOutput { id }],
        }
    }
}

/// What handling an output's "name resolved" notification does.
///
/// The name is recorded; on an output still awaiting it, a layout object is
/// requested under a freshly allocated handle and the session starts
/// negotiating.  An unknown identifier is dropped silently.  Should the
/// handle counter ever be exhausted, nothing is changed rather than ever
/// reusing a handle.
pub open spec fn named_post(
    pre: State,
    post: State,
    acts: Seq<Action>,
    id: u32,
    name: String,
) -> bool {
    if !pre.has_output(id) {
        post == pre && acts.len() == 0
    } else {
        let i = pre.output_idx(id);
        let e = pre.entries()[i];
        match e.session {
            SessionState::AwaitingName => {
                if pre.fresh_handle() < u64::MAX {
                    let h = pre.fresh_handle();
                    &&& post.entries() == pre.entries().update(
                        i,
                        OutputEntry {
                            id,
                            name: Some(name),
                            session: SessionState::Negotiating { layout: h, tags: None },
                        },
                    )
                    &&& post.claimed_namespace() == pre.claimed_namespace()
                    &&& post.has_manager() == pre.has_manager()
                    &&& post.fresh_handle() == h + 1
                    &&& acts == seq![
                        Action::RequestLayoutObject {
                            output: id,
                            layout: h,
                            namespace: pre.claimed_namespace(),
                        },
                    ]
                } else {
                    post == pre && acts.len() == 0
                }
            },
            _ => {
                &&& post.entries() == pre.entries().update(
                    i,
                    OutputEntry { id, name: Some(name), session: e.session },
                )
                &&& post.claimed_namespace() == pre.claimed_namespace()
                &&& post.has_manager() == pre.has_manager()
                &&& post.fresh_handle() == pre.fresh_handle()
                &&& acts.len() == 0
            },
        }
    }
}

/// What handling a "tag set" notification does: the bitmask is stored
/// verbatim on the addressed session, replacing any prior value, and
/// nothing else moves; an unaddressed handle is dropped silently.
pub open spec fn tags_post(pre: State, post: State, layout: u64, tags: u32) -> bool {
    if !pre.has_session(layout) {
        post == pre
    } else {
        let i = pre.session_idx(layout);
        let e = pre.entries()[i];
        &&& post.entries() == pre.entries().update(
            i,
            OutputEntry {
                id: e.id,
                name: e.name,
                session: SessionState::Negotiating { layout, tags: Some(tags) },
            },
        )
        &&& post.claimed_namespace() == pre.claimed_namespace()
        &&& post.has_manager() == pre.has_manager()
        &&& post.fresh_handle() == pre.fresh_handle()
    }
}

/// What observing a namespace conflict does: the addressed session becomes
/// terminal and absorbs all later notifications; an unaddressed handle is
/// dropped silently.
pub open spec fn conflict_post(pre: State, post: State, layout: u64) -> bool {
    if !pre.has_session(layout) {
        post == pre
    } else {
        let i = pre.session_idx(layout);
        let e = pre.entries()[i];
        &&& post.entries() == pre.entries().update(
            i,
            OutputEntry { id: e.id, name: e.name, session: SessionState::Terminal { layout } },
        )
        &&& post.claimed_namespace() == pre.claimed_namespace()
        &&& post.has_manager() == pre.has_manager()
        &&& post.fresh_handle() == pre.fresh_handle()
    }
}

/// The connection-wide state: the output table, whether the layout-manager
/// capability was bound, and the allocation counter for layout handles.
pub struct State {
    namespace: String,
    outputs: Vec<OutputEntry>,
    manager_bound: bool,
    next_layout: u64,
}

impl State {
    /// The output table, in announcement order.
    pub closed spec fn entries(self) -> Seq<OutputEntry> {
        self.outputs@
    }

    /// The namespace string the generator claims for this run; every
    /// layout-object request is tagged with it.
    pub closed spec fn claimed_namespace(self) -> String {
        self.namespace
    }

    /// Whether the layout-manager capability has been bound.
    pub closed spec fn has_manager(self) -> bool {
        self.manager_bound
    }

    /// The next layout-object handle to allocate; every live handle is
    /// below it.
    pub closed spec fn fresh_handle(self) -> u64 {
        self.next_layout
    }

    /// Table invariants: output identifiers are unique, layout handles are
    /// unique and below the allocation counter, and sessions exist only on
    /// named outputs.
    pub open spec fn wf(self) -> bool {
        let s = self.entries();
        &&& forall|i: int, j: int|
            0 <= i < j < s.len() ==> (#[trigger] s[i]).id != (#[trigger] s[j]).id
        &&& forall|i: int, j: int|
            0 <= i < j < s.len() && entry_layout(#[trigger] s[i]) is Some ==> entry_layout(
                s[i],
            ) != entry_layout(#[trigger] s[j])
        &&& forall|i: int| 0 <= i < s.len() ==> entry_wf(#[trigger] s[i], self.fresh_handle())
    }

    /// Whether some entry carries this output identifier.
    pub open spec fn has_output(self, id: u32) -> bool {
        exists|i: int| 0 <= i < self.entries().len() && (#[trigger] self.entries()[i]).id == id
    }

    /// The index of the entry carrying this output identifier.
    pub open spec fn output_idx(self, id: u32) -> int {
        choose|i: int| 0 <= i < self.entries().len() && (#[trigger] self.entries()[i]).id == id
    }

    /// Whether some entry is negotiating under this layout handle.
    pub open spec fn has_session(self, layout: u64) -> bool {
        exists|i: int|
            0 <= i < self.entries().len() && negotiating_layout(#[trigger] self.entries()[i])
                == Some(layout)
    }

    /// The index of the entry negotiating under this layout handle.
    pub open spec fn session_idx(self, layout: u64) -> int {
        choose|i: int|
            0 <= i < self.entries().len() && negotiating_layout(#[trigger] self.entries()[i])
                == Some(layout)
    }

    /// The tag bitmask stored by the session negotiating under this handle.
    pub open spec fn session_tags(self, layout: u64) -> Option<u32> {
        entry_tags(self.entries()[self.session_idx(layout)])
    }

    /// A fresh, empty connection state for a generator claiming
    /// `namespace`: no outputs, manager unbound.
    pub fn new(namespace: String) -> (s: State)
        ensures
            s.wf(),
            s.claimed_namespace() == namespace,
            s.entries().len() == 0,
            !s.has_manager(),
            s.fresh_handle() == 0,
    {
        State { namespace, outputs: Vec::new(), manager_bound: false, next_layout: 0 }
    }

    /// Locate an output entry by identifier.
    fn find_output(&self, id: u32) -> (r: Option<usize>)
        requires
            self.wf(),
        ensures
            match r {
                Some(i) => {
                    &&& self.has_output(id)
                    &&& i as int == self.output_idx(id)
                    &&& i < self.entries().len()
                    &&& self.entries()[i as int].id == id
                },
                None => !self.has_output(id),
            },
    {
        let n = self.outputs.len();
        let mut k: usize = 0;
        while k < n
            invariant
                self.wf(),
                n == self.entries().len(),
                k <= n,
                forall|j: int| 0 <= j < k ==> (#[trigger] self.entries()[j]).id != id,
            decreases n - k,
        {
            if self.outputs[k].id == id {
                proof {
                    assert forall|j: int|
                        0 <= j < self.entries().len() && (#[trigger] self.entries()[j]).id
                            == id implies j == k as int by {
                        if j != k as int {
                            assert(self.entries()[j].id != self.entries()[k as int].id);
                        }
                    }
                }
                return Some(k);
            }
            k = k + 1;
        }
        None
    }

    /// Locate the entry negotiating under a layout handle.
    fn find_session(&self, layout: u64) -> (r: Option<usize>)
        requires
            self.wf(),
        ensures
            match r {
                Some(i) => {
                    &&& self.has_session(layout)
                    &&& i as int == self.session_idx(layout)
                    &&& i < self.entries().len()
                    &&& negotiating_layout(self.entries()[i as int]) == Some(layout)
                },
                None => !self.has_session(layout),
            },
    {
        let n = self.outputs.len();
        let mut k: usize = 0;
        while k < n
            invariant
                self.wf(),
                n == self.entries().len(),
                k <= n,
                forall|j: int|
                    0 <= j < k ==> negotiating_layout(#[trigger] self.entries()[j]) != Some(
                        layout,
                    ),
            decreases n - k,
        {
            let found = match &self.outputs[k].session {
                SessionState::Negotiating { layout: l, .. } => *l == layout,
                _ => false,
            };
            if found {
                proof {
                    assert forall|j: int|
                        0 <= j < self.entries().len() && negotiating_layout(
                            #[trigger] self.entries()[j],
                        ) == Some(layout) implies j == k as int by {
                        if j != k as int {
                            assert(entry_layout(self.entries()[j]) != entry_layout(
                                self.entries()[k as int],
                            ));
                        }
                    }
                }
                return Some(k);
            }
            k = k + 1;
        }
        None
    }

    /// Replacing one entry keeps the table well-formed, provided the
    /// replacement keeps the identifier, stays well-formed itself, and
    /// either keeps its layout handle or takes the freshly allocated one.
    proof fn lemma_wf_after_update(pre: State, post: State, i: int)
        requires
            pre.wf(),
            0 <= i < pre.entries().len(),
            post.entries() == pre.entries().update(i, post.entries()[i]),
            post.entries()[i].id == pre.entries()[i].id,
            pre.fresh_handle() <= post.fresh_handle(),
            entry_wf(post.entries()[i], post.fresh_handle()),
            entry_layout(post.entries()[i]) == entry_layout(pre.entries()[i]) || (entry_layout(
                pre.entries()[i],
            ) is None && entry_layout(post.entries()[i]) == Some(pre.fresh_handle())
                && pre.fresh_handle() < post.fresh_handle()),
        ensures
            post.wf(),
    {
        let s0 = pre.entries();
        let s1 = post.entries();
        assert forall|a: int, b: int| 0 <= a < b < s1.len() implies (#[trigger] s1[a]).id != (
        #[trigger] s1[b]).id by {
            assert(s0[a].id != s0[b].id);
            if a != i {
                assert(s1[a] == s0[a]);
            }
            if b != i {
                assert(s1[b] == s0[b]);
            }
        }
        assert forall|a: int, b: int|
            0 <= a < b < s1.len() && entry_layout(#[trigger] s1[a]) is Some implies entry_layout(
            s1[a],
        ) != entry_layout(#[trigger] s1[b]) by {
            if a != i {
                assert(s1[a] == s0[a]);
                assert(entry_wf(s0[a], pre.fresh_handle()));
            }
            if b != i {
                assert(s1[b] == s0[b]);
                assert(entry_wf(s0[b], pre.fresh_handle()));
            }
            if entry_layout(s0[a]) is Some {
                assert(entry_layout(s0[a]) != entry_layout(s0[b]));
            }
        }
        assert forall|a: int| 0 <= a < s1.len() implies entry_wf(
            #[trigger] s1[a],
            post.fresh_handle(),
        ) by {
            if a != i {
                assert(s1[a] == s0[a]);
                assert(entry_wf(s0[a], pre.fresh_handle()));
            }
        }
    }

    /// A capability was announced: track and bind outputs, bind the layout
    /// manager once, ignore the rest.
    pub fn handle_global_announced(&mut self, id: u32, interface: &String, version: u32) -> (acts:
        Vec<Action>)
        requires
            old(self).wf(),
        ensures
            final(self).wf(),
            announced_post(*old(self), *final(self), acts@, id, version, spec_classify(interface@)),
    {
        match classify_global(interface) {
            GlobalKind::Output => {
                if self.find_output(id).is_some() {
                    Vec::new()
                } else {
                    let ghost s0 = self.entries();
                    self.outputs.push(
                        OutputEntry { id, name: None, session: SessionState::AwaitingName },
                    );
                    proof {
                        let s1 = self.entries();
                        assert forall|a: int, b: int| 0 <= a < b < s1.len() implies (
                        #[trigger] s1[a]).id != (#[trigger] s1[b]).id by {
                            if b == s1.len() - 1 {
                                assert(s1[a] == s0[a]);
                            }
                        }
                        assert forall|a: int, b: int|
                            0 <= a < b < s1.len() && entry_layout(#[trigger] s1[a])
                                is Some implies entry_layout(s1[a]) != entry_layout(
                            #[trigger] s1[b]) by {
                            if b < s1.len() - 1 {
                                assert(s1[a] == s0[a]);
                                assert(s1[b] == s0[b]);
                            }
                        }
                        assert forall|a: int| 0 <= a < s1.len() implies entry_wf(
                            #[trigger] s1[a],
                            self.fresh_handle(),
                        ) by {
                            if a < s1.len() - 1 {
                                assert(s1[a] == s0[a]);
                            }
                        }
                    }
                    let mut acts: Vec<Action> = Vec::new();
                    acts.push(Action::BindOutput { id, version });
                    proof {
                        assert(acts@ =~= seq![Action::BindOutput { id, version }]);
                    }
                    acts
                }
            },
            GlobalKind::LayoutManager => {
                if self.manager_bound {
                    Vec::new()
                } else {
                    self.manager_bound = true;
                    let mut acts: Vec<Action> = Vec::new();
                    acts.push(Action::BindLayoutManager { id, version });
                    proof {
                        assert(acts@ =~= seq![Action::BindLayoutManager { id, version }]);
                    }
                    acts
                }
            },
            GlobalKind::Other => Vec::new(),
        }
    }

    /// A capability was withdrawn: tear the matching output entry down,
    /// releasing the layout object before the output capability; drop the
    /// notification silently when nothing matches.
    pub fn handle_global_removed(&mut self, id: u32) -> (acts: Vec<Action>)
        requires
            old(self).wf(),
        ensures
            final(self).wf(),
            removed_post(*old(self), *final(self), acts@, id),
    {
        match self.find_output(id) {
            None => Vec::new(),
            Some(i) => {
                let ghost s0 = self.entries();
                let ghost gi = i as int;
                let e = self.outputs.remove(i);
                proof {
                    let s1 = self.entries();
                    assert forall|a: int, b: int| 0 <= a < b < s1.len() implies (
                    #[trigger] s1[a]).id != (#[trigger] s1[b]).id by {
                        let a0: int = if a < gi { a } else { a + 1 };
                        let b0: int = if b < gi { b } else { b + 1 };
                        assert(s1[a] == s0[a0]);
                        assert(s1[b] == s0[b0]);
                    }
                    assert forall|a: int, b: int|
                        0 <= a < b < s1.len() && entry_layout(#[trigger] s1[a])
                            is Some implies entry_layout(s1[a]) != entry_layout(
                        #[trigger] s1[b]) by {
                        let a0: int = if a < gi { a } else { a + 1 };
                        let b0: int = if b < gi { b } else { b + 1 };
                        assert(s1[a] == s0[a0]);
                        assert(s1[b] == s0[b0]);
                    }
                    assert forall|a: int| 0 <= a < s1.len() implies entry_wf(
                        #[trigger] s1[a],
                        self.fresh_handle(),
                    ) by {
                        let a0: int = if a < gi { a } else { a + 1 };
                        assert(s1[a] == s0[a0]);
                    }
                }
                let mut acts: Vec<Action> = Vec::new();
                match &e.session {
                    SessionState::AwaitingName => {
                        acts.push(Action::ReleaseOutput { id });
                        proof {
                            assert(acts@ =~= seq![Action::ReleaseOutput { id }]);
                        }
                    },
                    SessionState::Negotiating { layout, .. } => {
                        acts.push(Action::DestroyLayoutObject { layout: *layout });
                        acts.push(Action::ReleaseOutput { id });
                        proof {
                            assert(entry_layout(e) == Some(*layout));
                            assert(acts@ =~= seq![
                                Action::DestroyLayoutObject { layout: *layout },
                                Action::ReleaseOutput { id },
                            ]);
                        }
                    },
                    SessionState::Terminal { layout } => {
                        acts.push(Action::DestroyLayoutObject { layout: *layout });
                        acts.push(Action::ReleaseOutput { id });
                        proof {
                            assert(entry_layout(e) == Some(*layout));
                            assert(acts@ =~= seq![
                                Action::DestroyLayoutObject { layout: *layout },
                                Action::ReleaseOutput { id },
                            ]);
                        }
                    },
                }
                acts
            },
        }
    }

    /// An output reported its name: record it, and on a session still
    /// awaiting it, request a layout object under a fresh handle.
    pub fn handle_output_name(&mut self, id: u32, name: String) -> (acts: Vec<Action>)
        requires
            old(self).wf(),
        ensures
            final(self).wf(),
            named_post(*old(self), *final(self), acts@, id, name),
    {
        let ghost pre = *self;
        match self.find_output(id) {
            None => Vec::new(),
            Some(i) => {
                let ghost gi = i as int;
                let awaiting = match &self.outputs[i].session {
                    SessionState::AwaitingName => true,
                    _ => false,
                };
                if awaiting {
                    if self.next_layout < u64::MAX {
                        let h = self.next_layout;
                        let entry = &mut self.outputs[i];
                        entry.name = Some(name);
                        entry.session = SessionState::Negotiating { layout: h, tags: None };
                        self.next_layout = h + 1;
                        proof {
                            State::lemma_wf_after_update(pre, *self, gi);
                        }
                        let mut acts: Vec<Action> = Vec::new();
                        let namespace = self.namespace.clone();
                        acts.push(Action::RequestLayoutObject { output: id, layout: h, namespace });
                        proof {
                            assert(acts@ =~= seq![
                                Action::RequestLayoutObject {
                                    output: id,
                                    layout: h,
                                    namespace: pre.claimed_namespace(),
                                },
                            ]);
                        }
                        acts
                    } else {
                        Vec::new()
                    }
                } else {
                    let entry = &mut self.outputs[i];
                    entry.name = Some(name);
                    proof {
                        State::lemma_wf_after_update(pre, *self, gi);
                    }
                    Vec::new()
                }
            },
        }
    }

    /// The compositor reported the tag bitmask active on a session: store
    /// it verbatim; it does not by itself trigger generation.
    pub fn handle_tags(&mut self, layout: u64, tags: u32)
        requires
            old(self).wf(),
        ensures
            final(self).wf(),
            tags_post(*old(self), *final(self), layout, tags),
    {
        let ghost pre = *self;
        match self.find_session(layout) {
            None => {},
            Some(i) => {
                let ghost gi = i as int;
                let entry = &mut self.outputs[i];
                entry.session = SessionState::Negotiating { layout, tags: Some(tags) };
                proof {
                    State::lemma_wf_after_update(pre, *self, gi);
                }
            },
        }
    }

    /// Another client owns the namespace on this session: the session is
    /// terminal from here on.  Returns whether the notification addressed a
    /// live session, in which case the whole run must end with
    /// [`Error::NamespaceInUse`].
    pub fn handle_namespace_in_use(&mut self, layout: u64) -> (fatal: bool)
        requires
            old(self).wf(),
        ensures
            final(self).wf(),
            conflict_post(*old(self), *final(self), layout),
            fatal == old(self).has_session(layout),
    {
        let ghost pre = *self;
        match self.find_session(layout) {
            None => false,
            Some(i) => {
                let ghost gi = i as int;
                let entry = &mut self.outputs[i];
                entry.session = SessionState::Terminal { layout };
                proof {
                    State::lemma_wf_after_update(pre, *self, gi);
                }
                true
            },
        }
    }

    /// Resolve a demand against the state: what the generator is to be
    /// invoked with.  `None` exactly when no session negotiates under the
    /// handle, in which case the stale demand is dropped.  The tag bitmask
    /// handed out is the demand's own override when it carries one, else
    /// the session's stored bitmask.
    pub fn demand_call(
        &self,
        layout: u64,
        view_count: u32,
        usable_width: u32,
        usable_height: u32,
        tags: Option<u32>,
        serial: u32,
    ) -> (r: Option<DemandCall>)
        requires
            self.wf(),
        ensures
            match r {
                Some(c) => {
                    &&& self.has_session(layout)
                    &&& c.layout == layout
                    &&& c.tags == effective_tags(self.session_tags(layout), tags)
                    &&& Some(c.output_name) == self.entries()[self.session_idx(layout)].name
                    &&& c.usable_width == usable_width
                    &&& c.usable_height == usable_height
                    &&& c.view_count == view_count
                    &&& c.serial == serial
                },
                None => !self.has_session(layout),
            },
    {
        match self.find_session(layout) {
            None => None,
            Some(i) => {
                let entry = &self.outputs[i];
                let stored = match &entry.session {
                    SessionState::Negotiating { tags, .. } => *tags,
                    _ => None,
                };
                let eff = match tags {
                    Some(t) => t,
                    None => match stored {
                        Some(t) => t,
                        None => 0,
                    },
                };
                let output_name = match &entry.name {
                    Some(n) => n.clone(),
                    None => vstd::pervasive::unreached(),
                };
                Some(
                    DemandCall {
                        layout,
                        tags: eff,
                        output_name,
                        usable_width,
                        usable_height,
                        view_count,
                        serial,
                    },
                )
            },
        }
    }

    /// Resolve a user command against the state: what the generator's
    /// command handler is to be invoked with.  `None` exactly when no
    /// session negotiates under the handle, in which case the stale
    /// command is dropped; otherwise the session's stored tag bitmask
    /// (possibly still absent) and the output's name.
    pub fn command_call(&self, layout: u64) -> (r: Option<(Option<u32>, String)>)
        requires
            self.wf(),
        ensures
            match r {
                Some(c) => {
                    &&& self.has_session(layout)
                    &&& c.0 == self.session_tags(layout)
                    &&& Some(c.1) == self.entries()[self.session_idx(layout)].name
                },
                None => !self.has_session(layout),
            },
    {
        match self.find_session(layout) {
            None => None,
            Some(i) => {
                let entry = &self.outputs[i];
                let stored = match &entry.session {
                    SessionState::Negotiating { tags, .. } => *tags,
                    _ => None,
                };
                let name = match &entry.name {
                    Some(n) => n.clone(),
                    None => vstd::pervasive::unreached(),
                };
                Some((stored, name))
            },
        }
    }

    /// An opaque user command arrived for a session: forward it to the
    /// generator together with the session's stored tag bitmask and the
    /// output's name, both fixed by [`State::command_call`].  A generator
    /// error here is reported to the caller and the session continues; a
    /// command addressed to no live session is dropped silently, the
    /// generator never invoked.
    pub fn handle_user_command<LG: LayoutGenerator>(
        &self,
        gen: &mut LG,
        layout: u64,
        command: &String,
    ) -> (r: Option<LG::Err>)
        requires
            self.wf(),
        ensures
            !self.has_session(layout) ==> r is None,
    {
        match self.command_call(layout) {
            None => None,
            Some((stored, name)) => {
                command_report(gen.cmd(stored, name.as_str(), command.as_str()))
            },
        }
    }

    /// A layout demand arrived: invoke the generator with the effective
    /// tag bitmask, the output's name, the usable area and the view count,
    /// and answer with one push per placement followed by one commit, all
    /// echoing the demand's serial.  A demand addressed to no live session
    /// is dropped silently.  A generator failure or a placement sequence
    /// of the wrong length abandons the demand: nothing is sent at all and
    /// the returned error ends the run.
    pub fn handle_layout_demand<LG: LayoutGenerator>(
        &self,
        gen: &mut LG,
        layout: u64,
        view_count: u32,
        usable_width: u32,
        usable_height: u32,
        tags: Option<u32>,
        serial: u32,
    ) -> (r: Result<Vec<Action>, Error<LG::Err>>)
        requires
            self.wf(),
        ensures
            !self.has_session(layout) ==> (r matches Ok(acts) && acts@.len() == 0),
            self.has_session(layout) ==> match r {
                Ok(acts) => {
                    &&& demand_reply_shape(acts@, layout, view_count, serial)
                    &&& exists|gl: GeneratedLayout|
                        gl.views@.len() == view_count && acts@ == demand_action_seq(
                            layout,
                            gl,
                            serial,
                        )
                },
                Err(e) => e matches Error::GeneratorError(_) || e matches Error::ContractViolation,
            },
    {
        match self.demand_call(layout, view_count, usable_width, usable_height, tags, serial) {
            None => Ok(Vec::new()),
            Some(c) => {
                let generated = gen.generate_layout(
                    c.tags,
                    c.output_name.as_str(),
                    (c.usable_width, c.usable_height),
                    c.view_count as usize,
                );
                match generated {
                    Err(e) => Err(Error::GeneratorError(e)),
                    Ok(gl) => {
                        let r = demand_actions::<LG::Err>(layout, gl, view_count, serial);
                        proof {
                            if r is Ok {
                                let acts = r->Ok_0;
                                crate::protocol::lemma_demand_reply_shape(
                                    layout,
                                    gl,
                                    serial,
                                    view_count,
                                );
                                assert(gl.views@.len() == view_count && acts@
                                    == demand_action_seq(layout, gl, serial));
                            }
                        }
                        r
                    },
                }
            },
        }
    }

    /// Dispatch one transport notification.
    ///
    /// `Ok` carries the requests to issue, in order, and a generator error
    /// raised by a user command, which is reported without stopping the
    /// run.  `Err` is a terminal condition: a namespace conflict, a
    /// generator failure on a demand, or a placement count that broke the
    /// generator contract; no request is issued for the failed demand and
    /// the driver loop stops dispatching.
    pub fn event<LG: LayoutGenerator>(&mut self, gen: &mut LG, ev: Event) -> (r: Result<
        StepOutcome<LG::Err>,
        Error<LG::Err>,
    >)
        requires
            old(self).wf(),
        ensures
            final(self).wf(),
            match ev {
                Event::GlobalAnnounced { id, interface, version } => (r matches Ok(o)
                    && o.command_error is None && announced_post(
                    *old(self),
                    *final(self),
                    o.actions@,
                    id,
                    version,
                    spec_classify(interface@),
                )),
                Event::GlobalRemoved { id } => (r matches Ok(o) && o.command_error is None
                    && removed_post(*old(self), *final(self), o.actions@, id)),
                Event::OutputName { id, name } => (r matches Ok(o) && o.command_error is None
                    && named_post(*old(self), *final(self), o.actions@, id, name)),
                Event::TagsSet { layout, tags } => (r matches Ok(o) && o.command_error is None
                    && o.actions@.len() == 0 && tags_post(*old(self), *final(self), layout, tags)),
                Event::UserCommand { layout, .. } => {
                    &&& *final(self) == *old(self)
                    &&& (r matches Ok(o) && o.actions@.len() == 0)
                    &&& !old(self).has_session(layout) ==> (r matches Ok(o) && o.command_error
                        is None)
                },
                Event::LayoutDemand { layout, view_count, serial, .. } => {
                    &&& *final(self) == *old(self)
                    &&& match r {
                        Ok(o) => o.command_error is None && (if old(self).has_session(layout) {
                            demand_reply_shape(o.actions@, layout, view_count, serial)
                                && exists|gl: GeneratedLayout|
                                gl.views@.len() == view_count && o.actions@ == demand_action_seq(
                                    layout,
                                    gl,
                                    serial,
                                )
                        } else {
                            o.actions@.len() == 0
                        }),
                        Err(e) => old(self).has_session(layout) && (e matches Error::GeneratorError(
                            _,
                        ) || e matches Error::ContractViolation),
                    }
                },
                Event::NamespaceInUse { layout } => {
                    &&& conflict_post(*old(self), *final(self), layout)
                    &&& if old(self).has_session(layout) {
                        r matches Err(e) && e == Error::<LG::Err>::NamespaceInUse(
                            old(self).claimed_namespace(),
                        )
                    } else {
                        (r matches Ok(o) && o.actions@.len() == 0 && o.command_error is None)
                    }
                },
            },
    {
        match ev {
            Event::GlobalAnnounced { id, interface, version } => {
                let actions = self.handle_global_announced(id, &interface, version);
                Ok(StepOutcome { actions, command_error: None })
            },
            Event::GlobalRemoved { id } => {
                let actions = self.handle_global_removed(id);
                Ok(StepOutcome { actions, command_error: None })
            },
            Event::OutputName { id, name } => {
                let actions = self.handle_output_name(id, name);
                Ok(StepOutcome { actions, command_error: None })
            },
            Event::TagsSet { layout, tags } => {
                self.handle_tags(layout, tags);
                Ok(StepOutcome { actions: Vec::new(), command_error: None })
            },
            Event::UserCommand { layout, command } => {
                let command_error = self.handle_user_command(gen, layout, &command);
                Ok(StepOutcome { actions: Vec::new(), command_error })
            },
            Event::LayoutDemand { layout, view_count, usable_width, usable_height, tags, serial } => {
                match self.handle_layout_demand(
                    gen,
                    layout,
                    view_count,
                    usable_width,
                    usable_height,
                    tags,
                    serial,
                ) {
                    Ok(actions) => Ok(StepOutcome { actions, command_error: None }),
                    Err(e) => Err(e),
                }
            },
            Event::NamespaceInUse { layout } => {
                if self.handle_namespace_in_use(layout) {
                    Err(Error::NamespaceInUse(self.namespace.clone()))
                } else {
                    Ok(StepOutcome { actions: Vec::new(), command_error: None })
                }
            },
        }
    }

    /// In a well-formed table the entry negotiating under a handle is
    /// unique, so locating it by index and by `session_idx` agree.
    pub proof fn lemma_session_idx_unique(self, layout: u64, i: int)
        requires
            self.wf(),
            0 <= i < self.entries().len(),
            negotiating_layout(self.entries()[i]) == Some(layout),
        ensures
            self.has_session(layout),
            self.session_idx(layout) == i,
    {
        let s = self.entries();
        assert(self.has_session(layout));
        let j = self.session_idx(layout);
        if j != i {
            assert(entry_layout(s[i]) == Some(layout));
            assert(entry_layout(s[j]) == Some(layout));
            if i < j {
                assert(entry_layout(s[i]) != entry_layout(s[j]));
            } else {
                assert(entry_layout(s[j]) != entry_layout(s[i]));
            }
        }
    }

    /// How many outputs are tracked.
    pub fn output_count(&self) -> (n: usize)
        ensures
            n == self.entries().len(),
    {
        self.outputs.len()
    }

    /// Whether the layout-manager capability has been bound yet.
    pub fn manager_is_bound(&self) -> (b: bool)
        ensures
            b == self.has_manager(),
    {
        self.manager_bound
    }

    /// Whether some session still negotiates under this layout handle.
    pub fn session_is_live(&self, layout: u64) -> (b: bool)
        requires
            self.wf(),
        ensures
            b == self.has_session(layout),
    {
        self.find_session(layout).is_some()
    }
}

} // verus!
