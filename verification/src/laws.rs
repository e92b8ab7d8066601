//! Laws that relate several handlers to each other.  Each is stated over
//! the same spec functions the handlers' contracts use, so a caller can
//! chain them without reading any body.

use vstd::prelude::*;

use crate::protocol::Action;
use crate::state::OutputEntry;
use crate::state::SessionState;
use crate::state::State;
use crate::state::conflict_post;
use crate::state::effective_tags;
use crate::state::entry_layout;
use crate::state::entry_tags;
use crate::state::named_post;
use crate::state::negotiating_layout;
use crate::state::removed_post;
use crate::state::tags_post;

verus! {

/// A tag-set notification received before a demand on the same session is
/// the effective tag bitmask of the next demand that carries no override
/// of its own: after `handle_tags` stored `t`, the session's stored
/// bitmask is `t`, and a demand without an override is computed under `t`.
pub proof fn lemma_stored_tags_govern_demand(pre: State, post: State, layout: u64, t: u32)
    requires
        pre.wf(),
        post.wf(),
        pre.has_session(layout),
        tags_post(pre, post, layout, t),
    ensures
        post.has_session(layout),
        post.session_tags(layout) == Some(t),
        effective_tags(post.session_tags(layout), None) == t,
{
    let i = pre.session_idx(layout);
    let e = pre.entries()[i];
    let e2 = OutputEntry {
        id: e.id,
        name: e.name,
        session: SessionState::Negotiating { layout, tags: Some(t) },
    };
    assert(0 <= i < pre.entries().len());
    assert(post.entries() == pre.entries().update(i, e2));
    assert(post.entries()[i] == e2);
    post.lemma_session_idx_unique(layout, i);
    assert(post.session_tags(layout) == entry_tags(e2));
}

/// A session that has just started negotiating has no stored tag bitmask:
/// until a tag-set notification arrives, a demand without an override is
/// computed under the empty bitmask.
pub proof fn lemma_new_session_stores_no_tags(
    pre: State,
    post: State,
    acts: Seq<Action>,
    id: u32,
    name: String,
)
    requires
        pre.wf(),
        post.wf(),
        pre.has_output(id),
        pre.entries()[pre.output_idx(id)].session is AwaitingName,
        pre.fresh_handle() < u64::MAX,
        named_post(pre, post, acts, id, name),
    ensures
        post.has_session(pre.fresh_handle()),
        post.session_tags(pre.fresh_handle()) == Option::<u32>::None,
        effective_tags(post.session_tags(pre.fresh_handle()), None) == 0,
{
    let i = pre.output_idx(id);
    let h = pre.fresh_handle();
    let e2 = OutputEntry {
        id,
        name: Some(name),
        session: SessionState::Negotiating { layout: h, tags: None },
    };
    assert(0 <= i < pre.entries().len());
    assert(post.entries() == pre.entries().update(i, e2));
    assert(post.entries()[i] == e2);
    post.lemma_session_idx_unique(h, i);
    assert(post.session_tags(h) == entry_tags(e2));
}

/// A demand that does carry its own tag override is computed under that
/// override, whatever the session has stored.
pub proof fn lemma_override_tags_govern_demand(stored: Option<u32>, t: u32)
    ensures
        effective_tags(stored, Some(t)) == t,
{
}

/// Removing an output mid-negotiation releases the session's layout
/// object first and the output capability second, and forgets both
/// addresses: later notifications for either are dropped silently by
/// every handler.
pub proof fn lemma_removal_forgets_session(
    pre: State,
    post: State,
    acts: Seq<Action>,
    id: u32,
    layout: u64,
)
    requires
        pre.wf(),
        pre.has_output(id),
        negotiating_layout(pre.entries()[pre.output_idx(id)]) == Some(layout),
        removed_post(pre, post, acts, id),
    ensures
        acts == seq![Action::DestroyLayoutObject { layout }, Action::ReleaseOutput { id }],
        !post.has_output(id),
        !post.has_session(layout),
{
    let s0 = pre.entries();
    let s1 = post.entries();
    let i = pre.output_idx(id);
    assert(entry_layout(s0[i]) == Some(layout));
    assert forall|k: int| 0 <= k < s1.len() implies (#[trigger] s1[k]).id != id by {
        let k0: int = if k < i {
            k
        } else {
            k + 1
        };
        assert(s1[k] == s0[k0]);
        if k0 < i {
            assert(s0[k0].id != s0[i].id);
        } else {
            assert(s0[i].id != s0[k0].id);
        }
    }
    assert forall|k: int| 0 <= k < s1.len() implies negotiating_layout(#[trigger] s1[k]) != Some(
        layout,
    ) by {
        let k0: int = if k < i {
            k
        } else {
            k + 1
        };
        assert(s1[k] == s0[k0]);
        if negotiating_layout(s0[k0]) == Some(layout) {
            assert(entry_layout(s0[k0]) == Some(layout));
            if k0 < i {
                assert(entry_layout(s0[k0]) != entry_layout(s0[i]));
            } else {
                assert(entry_layout(s0[i]) != entry_layout(s0[k0]));
            }
        }
    }
}

/// A conflicted session is absorbing: once terminal, no session
/// negotiates under its handle any more, so every handler drops later
/// notifications addressed to it.
pub proof fn lemma_conflict_makes_session_absorbing(pre: State, post: State, layout: u64)
    requires
        pre.wf(),
        pre.has_session(layout),
        conflict_post(pre, post, layout),
    ensures
        !post.has_session(layout),
{
    let s0 = pre.entries();
    let s1 = post.entries();
    let i = pre.session_idx(layout);
    assert forall|k: int| 0 <= k < s1.len() implies negotiating_layout(#[trigger] s1[k]) != Some(
        layout,
    ) by {
        if k != i {
            assert(s1[k] == s0[k]);
            if negotiating_layout(s0[k]) == Some(layout) {
                assert(entry_layout(s0[k]) == Some(layout));
                assert(negotiating_layout(s0[i]) == Some(layout));
                assert(entry_layout(s0[i]) == Some(layout));
                if k < i {
                    assert(entry_layout(s0[k]) != entry_layout(s0[i]));
                } else {
                    assert(entry_layout(s0[i]) != entry_layout(s0[k]));
                }
            }
        }
    }
}

/// A namespace conflict on one session leaves every other session's
/// state — its liveness and its stored tag bitmask — untouched, however
/// many sessions are negotiating: only the run as a whole ends.
pub proof fn lemma_conflict_spares_other_sessions(
    pre: State,
    post: State,
    layout: u64,
    other: u64,
)
    requires
        pre.wf(),
        post.wf(),
        conflict_post(pre, post, layout),
        pre.has_session(other),
        other != layout,
    ensures
        post.has_session(other),
        post.session_tags(other) == pre.session_tags(other),
{
    if !pre.has_session(layout) {
        assert(post == pre);
    } else {
        let i = pre.session_idx(layout);
        let j = pre.session_idx(other);
        assert(0 <= j < pre.entries().len());
        assert(negotiating_layout(pre.entries()[j]) == Some(other));
        if j == i {
            assert(negotiating_layout(pre.entries()[i]) == Some(layout));
        }
        assert(post.entries()[j] == pre.entries()[j]);
        post.lemma_session_idx_unique(other, j);
    }
}

} // verus!
