use brightness_ctrl::monitor::{
    enumerate_monitors, wants_physical, worker_handle, AppState, DisplayProbe, MonitorInfo,
    MonitorProbe,
};

fn probe(handle: usize, status: i32, current: u32) -> MonitorProbe {
    MonitorProbe { handle, status, current }
}

fn monitor(handle: usize, name: &str, brightness: u32, supported: bool) -> MonitorInfo {
    MonitorInfo { handle, name: name.to_string(), brightness, supported }
}

#[test]
fn physical_monitors_wanted() {
    assert!(!wants_physical(None));
    assert!(!wants_physical(Some(0)));
    assert!(wants_physical(Some(1)));
}

#[test]
fn no_displays() {
    assert_eq!(enumerate_monitors(&vec![]), vec![]);
}

#[test]
fn skipped_displays_leave_a_gap_in_the_names() {
    let displays = vec![
        DisplayProbe { count: None, physical: None },
        DisplayProbe { count: Some(1), physical: Some(vec![probe(11, 1, 70)]) },
        DisplayProbe { count: Some(0), physical: Some(vec![probe(12, 1, 70)]) },
        DisplayProbe { count: Some(2), physical: None },
        DisplayProbe {
            count: Some(2),
            physical: Some(vec![probe(13, 0, 50), probe(14, -1, 40)]),
        },
    ];
    assert_eq!(
        enumerate_monitors(&displays),
        vec![
            monitor(11, "Monitor 2", 70, true),
            monitor(13, "Monitor 5", 0, false),
            monitor(14, "Monitor 5", 40, true),
        ]
    );
}

#[test]
fn brightness_is_clamped() {
    let displays = vec![DisplayProbe {
        count: Some(4),
        physical: Some(vec![
            probe(1, 1, 0),
            probe(2, 1, 1),
            probe(3, 1, 100),
            probe(4, 1, u32::MAX),
        ]),
    }];
    let found: Vec<u32> = enumerate_monitors(&displays).iter().map(|m| m.brightness).collect();
    assert_eq!(found, vec![1, 1, 100, 100]);
}

#[test]
fn a_new_panel_drags_nothing() {
    let state = AppState::new(vec![monitor(1, "Monitor 1", 10, true)]);
    assert_eq!(state.dragging, None);
    assert_eq!(state.monitors, vec![monitor(1, "Monitor 1", 10, true)]);
}

#[test]
fn workers_for_supported_monitors_only() {
    assert_eq!(worker_handle(&monitor(11, "Monitor 1", 70, true)), Some(11));
    assert_eq!(worker_handle(&monitor(12, "Monitor 2", 0, false)), None);
}

#[test]
fn a_failed_display_removes_only_its_own_monitors() {
    let displays = |failed: Option<usize>| -> Vec<DisplayProbe> {
        (0..4usize)
            .map(|d| DisplayProbe {
                count: if failed == Some(d) { None } else { Some(2) },
                physical: Some(vec![probe(10 * d, 1, 50), probe(10 * d + 1, 1, 60)]),
            })
            .collect()
    };
    let all = enumerate_monitors(&displays(None));
    for d in 0..4usize {
        assert_eq!(all[2 * d].handle, 10 * d);
        assert_eq!(all[2 * d + 1].handle, 10 * d + 1);
        let mut expected = enumerate_monitors(&displays(None));
        expected.drain(2 * d..2 * d + 2);
        assert_eq!(enumerate_monitors(&displays(Some(d))), expected);
    }
}
