//! Unit exercises of the wire-level pieces: classification, the demand
//! adapter, and error descriptions.

use river_layout::Error;
use river_layout::GeneratedLayout;
use river_layout::ViewDimensions;
use river_layout::protocol::Action;
use river_layout::protocol::GlobalKind;
use river_layout::protocol::classify_global;
use river_layout::protocol::demand_actions;

fn sample_layout(n: usize) -> GeneratedLayout {
    let mut views = Vec::new();
    for i in 0..n {
        views.push(ViewDimensions {
            location: (i as i32 * 10, -5),
            space: (10, 20),
        });
    }
    GeneratedLayout {
        views,
        name: "| |".to_string(),
    }
}

#[test]
fn interfaces_are_classified_by_name() {
    assert_eq!(
        classify_global(&"wl_output".to_string()),
        GlobalKind::Output
    );
    assert_eq!(
        classify_global(&"river_layout_manager_v3".to_string()),
        GlobalKind::LayoutManager
    );
    assert_eq!(classify_global(&"wl_seat".to_string()), GlobalKind::Other);
    assert_eq!(classify_global(&"".to_string()), GlobalKind::Other);
    assert_eq!(
        classify_global(&"wl_output2".to_string()),
        GlobalKind::Other
    );
}

#[test]
fn demand_actions_push_each_placement_in_order() {
    let acts = demand_actions::<String>(3, sample_layout(2), 2, 44).unwrap();
    assert_eq!(
        acts,
        vec![
            Action::PushViewDimensions {
                layout: 3,
                x: 0,
                y: -5,
                width: 10,
                height: 20,
                serial: 44,
            },
            Action::PushViewDimensions {
                layout: 3,
                x: 10,
                y: -5,
                width: 10,
                height: 20,
                serial: 44,
            },
            Action::Commit {
                layout: 3,
                name: "| |".to_string(),
                serial: 44,
            },
        ]
    );
}

#[test]
fn demand_actions_reject_any_length_mismatch() {
    for wrong in [0usize, 1, 3, 8] {
        let r = demand_actions::<String>(3, sample_layout(wrong), 2, 44);
        assert!(matches!(r, Err(Error::ContractViolation)));
    }
    for matching in [0u32, 1, 2, 7] {
        let acts =
            demand_actions::<String>(1, sample_layout(matching as usize), matching, 5).unwrap();
        assert_eq!(acts.len() as u32, matching + 1);
    }
}

#[test]
fn zero_view_demand_still_commits() {
    let acts = demand_actions::<String>(1, sample_layout(0), 0, 2).unwrap();
    assert_eq!(
        acts,
        vec![Action::Commit {
            layout: 1,
            name: "| |".to_string(),
            serial: 2,
        }]
    );
}

#[test]
fn errors_describe_themselves() {
    assert_eq!(
        Error::<String>::ConnectFailed.describe(),
        "cannot establish the transport connection"
    );
    assert_eq!(
        Error::<String>::BindFailed.describe(),
        "a required capability could not be bound"
    );
    assert_eq!(
        Error::<String>::NamespaceInUse("fullscreen".to_string()).describe(),
        "the requested namespace \"fullscreen\" is already in use"
    );
    assert_eq!(
        Error::<String>::GeneratorError("x".to_string()).describe(),
        "layout generator error"
    );
    assert_eq!(
        Error::<String>::ContractViolation.describe(),
        "layout generator returned a wrong number of placements"
    );
    assert_eq!(
        Error::<String>::TransportFault.describe(),
        "transport failure during dispatch"
    );
}
