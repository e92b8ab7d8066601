//! End-to-end exercises of the protocol state machine through `State::event`.

use river_layout::Error;
use river_layout::GeneratedLayout;
use river_layout::LayoutGenerator;
use river_layout::State;
use river_layout::ViewDimensions;
use river_layout::protocol::Action;
use river_layout::protocol::Event;

/// A test generator: tiles evenly into vertical columns, records every
/// call, and can be told to reply with a wrong number of placements or to
/// fail outright.
struct TestGen {
    layout_calls: Vec<(u32, String, (u32, u32), usize)>,
    cmd_calls: Vec<(Option<u32>, String, String)>,
    reply_count: Option<usize>,
    fail_layout: bool,
    fail_cmd: bool,
}

impl TestGen {
    fn new() -> TestGen {
        TestGen {
            layout_calls: Vec::new(),
            cmd_calls: Vec::new(),
            reply_count: None,
            fail_layout: false,
            fail_cmd: false,
        }
    }
}

impl LayoutGenerator for TestGen {
    type Err = String;

    fn namespace(&self) -> String {
        "test-tiler".to_string()
    }

    fn cmd(&mut self, tags: Option<u32>, output: &str, cmd: &str) -> Result<(), String> {
        self.cmd_calls
            .push((tags, output.to_string(), cmd.to_string()));
        if self.fail_cmd {
            Err("command rejected".to_string())
        } else {
            Ok(())
        }
    }

    fn generate_layout(
        &mut self,
        tags: u32,
        output: &str,
        usable_space: (u32, u32),
        view_count: usize,
    ) -> Result<GeneratedLayout, String> {
        self.layout_calls
            .push((tags, output.to_string(), usable_space, view_count));
        if self.fail_layout {
            return Err("generator broke".to_string());
        }
        let n = self.reply_count.unwrap_or(view_count);
        let mut views = Vec::new();
        if n > 0 {
            let w = usable_space.0 / n as u32;
            for i in 0..n {
                views.push(ViewDimensions {
                    location: (i as i32 * w as i32, 0),
                    space: (w, usable_space.1),
                });
            }
        }
        Ok(GeneratedLayout {
            views,
            name: "[]=".to_string(),
        })
    }
}

fn announced(id: u32, interface: &str, version: u32) -> Event {
    Event::GlobalAnnounced {
        id,
        interface: interface.to_string(),
        version,
    }
}

/// Drive one output (id 7, named "eDP-1") to a negotiating session and
/// return its layout handle.
fn negotiate_output(s: &mut State, gen: &mut TestGen, id: u32, name: &str) -> u64 {
    let o = s.event(gen, announced(id, "wl_output", 4)).unwrap();
    assert_eq!(o.actions, vec![Action::BindOutput { id, version: 4 }]);
    let o = s
        .event(
            gen,
            Event::OutputName {
                id,
                name: name.to_string(),
            },
        )
        .unwrap();
    assert_eq!(o.actions.len(), 1);
    match &o.actions[0] {
        Action::RequestLayoutObject {
            output,
            layout,
            namespace,
        } => {
            assert_eq!(*output, id);
            assert_eq!(namespace, "test-tiler");
            *layout
        }
        other => panic!("expected a layout-object request, got {:?}", other),
    }
}

#[test]
fn announce_binds_output_and_manager_once() {
    let mut s = State::new("test-tiler".to_string());
    let mut gen = TestGen::new();

    let o = s.event(&mut gen, announced(1, "wl_output", 4)).unwrap();
    assert_eq!(o.actions, vec![Action::BindOutput { id: 1, version: 4 }]);
    assert!(o.command_error.is_none());

    // A duplicate announcement of the same identifier is ignored.
    let o = s.event(&mut gen, announced(1, "wl_output", 4)).unwrap();
    assert!(o.actions.is_empty());

    let o = s
        .event(&mut gen, announced(2, "river_layout_manager_v3", 2))
        .unwrap();
    assert_eq!(
        o.actions,
        vec![Action::BindLayoutManager { id: 2, version: 2 }]
    );
    assert!(s.manager_is_bound());

    // The manager capability is singleton: a second announcement is ignored.
    let o = s
        .event(&mut gen, announced(3, "river_layout_manager_v3", 2))
        .unwrap();
    assert!(o.actions.is_empty());

    // Unrelated capabilities are ignored.
    let o = s.event(&mut gen, announced(4, "wl_seat", 9)).unwrap();
    assert!(o.actions.is_empty());
    assert_eq!(s.output_count(), 1);
}

#[test]
fn name_starts_one_session_per_output() {
    let mut s = State::new("test-tiler".to_string());
    let mut gen = TestGen::new();
    let h1 = negotiate_output(&mut s, &mut gen, 7, "eDP-1");
    let h2 = negotiate_output(&mut s, &mut gen, 8, "HDMI-A-1");
    assert_ne!(h1, h2);
    assert!(s.session_is_live(h1));
    assert!(s.session_is_live(h2));

    // A name report for an unknown output is dropped silently.
    let o = s
        .event(
            &mut gen,
            Event::OutputName {
                id: 99,
                name: "ghost".to_string(),
            },
        )
        .unwrap();
    assert!(o.actions.is_empty());

    // A repeated name report does not start a second session.
    let o = s
        .event(
            &mut gen,
            Event::OutputName {
                id: 7,
                name: "eDP-1".to_string(),
            },
        )
        .unwrap();
    assert!(o.actions.is_empty());
}

#[test]
fn single_output_demand_tiles_evenly() {
    // One output named "eDP-1"; a demand for 3 views in 1920x1080 under
    // tags 0x1 with serial 7 yields three pushes of 640x1080 each, all
    // with serial 7, then one commit with serial 7 and a non-empty label.
    let mut s = State::new("test-tiler".to_string());
    let mut gen = TestGen::new();
    let h = negotiate_output(&mut s, &mut gen, 7, "eDP-1");

    let o = s
        .event(
            &mut gen,
            Event::LayoutDemand {
                layout: h,
                view_count: 3,
                usable_width: 1920,
                usable_height: 1080,
                tags: Some(0x1),
                serial: 7,
            },
        )
        .unwrap();

    assert_eq!(o.actions.len(), 4);
    let mut width_sum = 0;
    for (i, a) in o.actions.iter().take(3).enumerate() {
        match a {
            Action::PushViewDimensions {
                layout,
                x,
                y,
                width,
                height,
                serial,
            } => {
                assert_eq!(*layout, h);
                assert_eq!(*x, i as i32 * 640);
                assert_eq!(*y, 0);
                assert_eq!(*width, 640);
                assert_eq!(*height, 1080);
                assert_eq!(*serial, 7);
                width_sum += *width;
            }
            other => panic!("expected a push, got {:?}", other),
        }
    }
    assert_eq!(width_sum, 1920);
    match &o.actions[3] {
        Action::Commit {
            layout,
            name,
            serial,
        } => {
            assert_eq!(*layout, h);
            assert_eq!(*serial, 7);
            assert!(!name.is_empty());
        }
        other => panic!("expected a commit, got {:?}", other),
    }

    // The generator saw the demand's own tags, the output name, the area
    // and the count.
    assert_eq!(
        gen.layout_calls,
        vec![(0x1, "eDP-1".to_string(), (1920, 1080), 3)]
    );
}

#[test]
fn push_count_always_equals_view_count() {
    let mut s = State::new("test-tiler".to_string());
    let mut gen = TestGen::new();
    let h = negotiate_output(&mut s, &mut gen, 7, "eDP-1");
    for view_count in [0u32, 1, 2, 5, 9] {
        let o = s
            .event(
                &mut gen,
                Event::LayoutDemand {
                    layout: h,
                    view_count,
                    usable_width: 900,
                    usable_height: 600,
                    tags: Some(2),
                    serial: 41 + view_count,
                },
            )
            .unwrap();
        let pushes = o
            .actions
            .iter()
            .filter(|a| matches!(a, Action::PushViewDimensions { .. }))
            .count();
        let commits = o
            .actions
            .iter()
            .filter(|a| matches!(a, Action::Commit { .. }))
            .count();
        assert_eq!(pushes as u32, view_count);
        assert_eq!(commits, 1);
        assert_eq!(o.actions.len() as u32, view_count + 1);
    }
}

#[test]
fn wrong_placement_count_is_contract_violation() {
    // A generator that returns 2 placements for a 3-view demand yields
    // ContractViolation and no push or commit at all.
    let mut s = State::new("test-tiler".to_string());
    let mut gen = TestGen::new();
    let h = negotiate_output(&mut s, &mut gen, 7, "eDP-1");
    gen.reply_count = Some(2);

    let r = s.event(
        &mut gen,
        Event::LayoutDemand {
            layout: h,
            view_count: 3,
            usable_width: 1920,
            usable_height: 1080,
            tags: Some(0x1),
            serial: 9,
        },
    );
    assert!(matches!(r, Err(Error::ContractViolation)));

    // Too many placements are rejected the same way, never truncated.
    gen.reply_count = Some(4);
    let r = s.event(
        &mut gen,
        Event::LayoutDemand {
            layout: h,
            view_count: 3,
            usable_width: 1920,
            usable_height: 1080,
            tags: Some(0x1),
            serial: 10,
        },
    );
    assert!(matches!(r, Err(Error::ContractViolation)));
}

#[test]
fn serial_is_echoed_bit_for_bit() {
    let mut s = State::new("test-tiler".to_string());
    let mut gen = TestGen::new();
    let h = negotiate_output(&mut s, &mut gen, 7, "eDP-1");
    let serial = 0xDEAD_BEEF;
    let o = s
        .event(
            &mut gen,
            Event::LayoutDemand {
                layout: h,
                view_count: 2,
                usable_width: 800,
                usable_height: 600,
                tags: Some(1),
                serial,
            },
        )
        .unwrap();
    for a in &o.actions {
        match a {
            Action::PushViewDimensions { serial: got, .. } => assert_eq!(*got, serial),
            Action::Commit { serial: got, .. } => assert_eq!(*got, serial),
            other => panic!("unexpected request {:?}", other),
        }
    }
}

#[test]
fn stored_tags_govern_demand_without_override() {
    let mut s = State::new("test-tiler".to_string());
    let mut gen = TestGen::new();
    let h = negotiate_output(&mut s, &mut gen, 7, "eDP-1");

    // Before any tag-set notification and without an override, no tags
    // are set.
    let o = s
        .event(
            &mut gen,
            Event::LayoutDemand {
                layout: h,
                view_count: 1,
                usable_width: 100,
                usable_height: 100,
                tags: None,
                serial: 1,
            },
        )
        .unwrap();
    assert_eq!(o.actions.len(), 2);
    assert_eq!(gen.layout_calls.last().unwrap().0, 0);

    // A tag-set notification is visible in the next demand that carries
    // no override of its own.
    let o = s
        .event(&mut gen, Event::TagsSet { layout: h, tags: 5 })
        .unwrap();
    assert!(o.actions.is_empty());
    s.event(
        &mut gen,
        Event::LayoutDemand {
            layout: h,
            view_count: 1,
            usable_width: 100,
            usable_height: 100,
            tags: None,
            serial: 2,
        },
    )
    .unwrap();
    assert_eq!(gen.layout_calls.last().unwrap().0, 5);

    // A demand carrying its own tags overrides the stored value for that
    // call only.
    s.event(
        &mut gen,
        Event::LayoutDemand {
            layout: h,
            view_count: 1,
            usable_width: 100,
            usable_height: 100,
            tags: Some(12),
            serial: 3,
        },
    )
    .unwrap();
    assert_eq!(gen.layout_calls.last().unwrap().0, 12);
    s.event(
        &mut gen,
        Event::LayoutDemand {
            layout: h,
            view_count: 1,
            usable_width: 100,
            usable_height: 100,
            tags: None,
            serial: 4,
        },
    )
    .unwrap();
    assert_eq!(gen.layout_calls.last().unwrap().0, 5);

    // A later tag-set notification replaces the stored value.
    s.event(&mut gen, Event::TagsSet { layout: h, tags: 6 })
        .unwrap();
    s.event(
        &mut gen,
        Event::LayoutDemand {
            layout: h,
            view_count: 1,
            usable_width: 100,
            usable_height: 100,
            tags: None,
            serial: 5,
        },
    )
    .unwrap();
    assert_eq!(gen.layout_calls.last().unwrap().0, 6);
}

#[test]
fn sessions_keep_their_tags_independently() {
    let mut s = State::new("test-tiler".to_string());
    let mut gen = TestGen::new();
    let h1 = negotiate_output(&mut s, &mut gen, 7, "eDP-1");
    let h2 = negotiate_output(&mut s, &mut gen, 8, "HDMI-A-1");

    s.event(&mut gen, Event::TagsSet { layout: h1, tags: 3 })
        .unwrap();
    s.event(&mut gen, Event::TagsSet { layout: h2, tags: 8 })
        .unwrap();

    let demand = |layout: u64, serial: u32| Event::LayoutDemand {
        layout,
        view_count: 1,
        usable_width: 50,
        usable_height: 50,
        tags: None,
        serial,
    };
    s.event(&mut gen, demand(h1, 1)).unwrap();
    assert_eq!(gen.layout_calls.last().unwrap().0, 3);
    assert_eq!(gen.layout_calls.last().unwrap().1, "eDP-1");
    s.event(&mut gen, demand(h2, 2)).unwrap();
    assert_eq!(gen.layout_calls.last().unwrap().0, 8);
    assert_eq!(gen.layout_calls.last().unwrap().1, "HDMI-A-1");
}

#[test]
fn namespace_conflict_ends_the_run() {
    // With several sessions negotiating, one namespace-in-use
    // notification makes the whole run terminal with NamespaceInUse.
    let mut s = State::new("test-tiler".to_string());
    let mut gen = TestGen::new();
    let h1 = negotiate_output(&mut s, &mut gen, 7, "eDP-1");
    let h2 = negotiate_output(&mut s, &mut gen, 8, "HDMI-A-1");
    let h3 = negotiate_output(&mut s, &mut gen, 9, "DP-3");

    let r = s.event(&mut gen, Event::NamespaceInUse { layout: h2 });
    match r {
        Err(Error::NamespaceInUse(ns)) => assert_eq!(ns, "test-tiler"),
        other => panic!("expected the namespace conflict, got {:?}", other),
    }

    // The conflicted session is absorbing: a later demand on it is
    // dropped without any request.
    let o = s
        .event(
            &mut gen,
            Event::LayoutDemand {
                layout: h2,
                view_count: 2,
                usable_width: 100,
                usable_height: 100,
                tags: Some(1),
                serial: 8,
            },
        )
        .unwrap();
    assert!(o.actions.is_empty());
    assert!(gen.layout_calls.is_empty());

    // The other sessions' state is untouched.
    assert!(s.session_is_live(h1));
    assert!(s.session_is_live(h3));
    assert!(!s.session_is_live(h2));

    // A conflict on an unknown handle is dropped silently.
    let o = s
        .event(&mut gen, Event::NamespaceInUse { layout: 1234 })
        .unwrap();
    assert!(o.actions.is_empty());
}

#[test]
fn removal_releases_layout_before_output() {
    let mut s = State::new("test-tiler".to_string());
    let mut gen = TestGen::new();
    let h = negotiate_output(&mut s, &mut gen, 7, "eDP-1");

    let o = s.event(&mut gen, Event::GlobalRemoved { id: 7 }).unwrap();
    assert_eq!(
        o.actions,
        vec![
            Action::DestroyLayoutObject { layout: h },
            Action::ReleaseOutput { id: 7 },
        ]
    );
    assert_eq!(s.output_count(), 0);
    assert!(!s.session_is_live(h));

    // Subsequent events addressed to the removed output or its session
    // are dropped silently, not treated as errors.
    let o = s.event(&mut gen, Event::TagsSet { layout: h, tags: 3 }).unwrap();
    assert!(o.actions.is_empty());
    let o = s
        .event(
            &mut gen,
            Event::LayoutDemand {
                layout: h,
                view_count: 1,
                usable_width: 10,
                usable_height: 10,
                tags: None,
                serial: 1,
            },
        )
        .unwrap();
    assert!(o.actions.is_empty());
    assert!(gen.layout_calls.is_empty());
    let o = s
        .event(
            &mut gen,
            Event::OutputName {
                id: 7,
                name: "eDP-1".to_string(),
            },
        )
        .unwrap();
    assert!(o.actions.is_empty());
    let o = s.event(&mut gen, Event::GlobalRemoved { id: 7 }).unwrap();
    assert!(o.actions.is_empty());

    // The identifier may be announced again; the new session gets a
    // fresh handle, never a reused one.
    let h2 = negotiate_output(&mut s, &mut gen, 7, "eDP-1");
    assert_ne!(h2, h);
}

#[test]
fn removal_before_name_releases_only_the_output() {
    let mut s = State::new("test-tiler".to_string());
    let mut gen = TestGen::new();
    let o = s.event(&mut gen, announced(7, "wl_output", 4)).unwrap();
    assert_eq!(o.actions.len(), 1);
    let o = s.event(&mut gen, Event::GlobalRemoved { id: 7 }).unwrap();
    assert_eq!(o.actions, vec![Action::ReleaseOutput { id: 7 }]);
}

#[test]
fn user_command_reaches_generator_with_stored_tags() {
    let mut s = State::new("test-tiler".to_string());
    let mut gen = TestGen::new();
    let h = negotiate_output(&mut s, &mut gen, 7, "eDP-1");

    // No tags stored yet.
    let o = s
        .event(
            &mut gen,
            Event::UserCommand {
                layout: h,
                command: "main-count 2".to_string(),
            },
        )
        .unwrap();
    assert!(o.command_error.is_none());
    assert!(o.actions.is_empty());
    assert_eq!(
        gen.cmd_calls.last().unwrap(),
        &(None, "eDP-1".to_string(), "main-count 2".to_string())
    );

    // Stored tags accompany the command.
    s.event(&mut gen, Event::TagsSet { layout: h, tags: 9 })
        .unwrap();
    s.event(
        &mut gen,
        Event::UserCommand {
            layout: h,
            command: "ratio 0.6".to_string(),
        },
    )
    .unwrap();
    assert_eq!(
        gen.cmd_calls.last().unwrap(),
        &(Some(9), "eDP-1".to_string(), "ratio 0.6".to_string())
    );

    // A command for an unknown session is dropped silently.
    let o = s
        .event(
            &mut gen,
            Event::UserCommand {
                layout: 555,
                command: "noop".to_string(),
            },
        )
        .unwrap();
    assert!(o.command_error.is_none());
    assert_eq!(gen.cmd_calls.len(), 2);
}

#[test]
fn resolvers_fix_what_the_generator_is_handed() {
    let mut s = State::new("test-tiler".to_string());
    let mut gen = TestGen::new();
    let h = negotiate_output(&mut s, &mut gen, 7, "eDP-1");

    // Freshly negotiated: no stored tags yet, the output's name attached.
    let (tags, name) = s.command_call(h).unwrap();
    assert_eq!(tags, None);
    assert_eq!(name, "eDP-1");
    assert!(s.command_call(h + 1).is_none());

    s.event(&mut gen, Event::TagsSet { layout: h, tags: 4 })
        .unwrap();
    let (tags, _) = s.command_call(h).unwrap();
    assert_eq!(tags, Some(4));

    // The demand resolver: stored tags when no override, the override
    // otherwise, and every demand field passed through unchanged.
    let c = s.demand_call(h, 3, 800, 600, None, 21).unwrap();
    assert_eq!(c.layout, h);
    assert_eq!(c.tags, 4);
    assert_eq!(c.output_name, "eDP-1");
    assert_eq!((c.usable_width, c.usable_height), (800, 600));
    assert_eq!(c.view_count, 3);
    assert_eq!(c.serial, 21);
    let c = s.demand_call(h, 3, 800, 600, Some(9), 22).unwrap();
    assert_eq!(c.tags, 9);
    assert!(s.demand_call(h + 1, 3, 800, 600, None, 23).is_none());
}

#[test]
fn command_error_is_reported_but_not_fatal() {
    let mut s = State::new("test-tiler".to_string());
    let mut gen = TestGen::new();
    let h = negotiate_output(&mut s, &mut gen, 7, "eDP-1");
    gen.fail_cmd = true;

    let o = s
        .event(
            &mut gen,
            Event::UserCommand {
                layout: h,
                command: "bad".to_string(),
            },
        )
        .unwrap();
    assert_eq!(o.command_error, Some("command rejected".to_string()));

    // The session keeps operating: a demand after the failed command is
    // answered normally.
    let o = s
        .event(
            &mut gen,
            Event::LayoutDemand {
                layout: h,
                view_count: 2,
                usable_width: 200,
                usable_height: 100,
                tags: Some(1),
                serial: 3,
            },
        )
        .unwrap();
    assert_eq!(o.actions.len(), 3);
}

#[test]
fn generator_failure_on_demand_is_fatal_and_sends_nothing() {
    let mut s = State::new("test-tiler".to_string());
    let mut gen = TestGen::new();
    let h = negotiate_output(&mut s, &mut gen, 7, "eDP-1");
    gen.fail_layout = true;

    let r = s.event(
        &mut gen,
        Event::LayoutDemand {
            layout: h,
            view_count: 2,
            usable_width: 200,
            usable_height: 100,
            tags: Some(1),
            serial: 3,
        },
    );
    match r {
        Err(Error::GeneratorError(msg)) => assert_eq!(msg, "generator broke"),
        other => panic!("expected a generator error, got {:?}", other),
    }
}
