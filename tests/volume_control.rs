use pw_volume::dump::{DumpObject, EnumFormat, MetadataEntry, MetadataObject, NodeObject, Prop, PropInfo};
use pw_volume::percent::{is_decimal_percentage, parse_percentage};
use pw_volume::plan::{decide, parse_change, InvalidDeltaArgument, Outcome, Request};
use pw_volume::resolve::{resolve, ResolveError};
use pw_volume::volume::{apply_action, change_level, status, Action, StatusView, VolumeRange, VolumeState, SCALE};

fn unit_range() -> VolumeRange {
    VolumeRange { default: SCALE, min: 0, max: SCALE }
}

fn state(mute: bool, levels: Vec<i64>) -> VolumeState {
    VolumeState { volume: SCALE, mute, channel_volumes: levels }
}

fn metadata(typ: &str, entries: &[(&str, &str)]) -> DumpObject {
    DumpObject::Metadata(MetadataObject {
        typ: typ.to_string(),
        metadata: entries
            .iter()
            .map(|(k, v)| MetadataEntry { key: k.to_string(), value_name: v.to_string() })
            .collect(),
    })
}

fn node(id: i64, name: &str, prop_info: Vec<PropInfo>, props: Vec<Prop>) -> DumpObject {
    DumpObject::Node(NodeObject {
        id,
        typ: "PipeWire:Interface:Node".to_string(),
        name: name.to_string(),
        enum_formats: vec![EnumFormat { channels: Some(2) }],
        prop_info,
        props,
    })
}

fn range_info(range: VolumeRange) -> PropInfo {
    PropInfo::Volume { id: "channelVolumes".to_string(), range }
}

fn sink_dump(range: VolumeRange, mute: bool, levels: Vec<i64>) -> Vec<DumpObject> {
    vec![
        DumpObject::Unrecognized(serde_json::Value::Null),
        metadata("PipeWire:Interface:Metadata", &[("default.audio.sink", "speakers")]),
        node(7, "headphones", vec![range_info(unit_range())], vec![Prop::Volume(state(false, vec![1]))]),
        node(
            42,
            "speakers",
            vec![PropInfo::Other(serde_json::Value::Bool(true)), range_info(range)],
            vec![Prop::Other(serde_json::Value::Null), Prop::Volume(state(mute, levels))],
        ),
        DumpObject::Unrecognized(serde_json::Value::String("x".to_string())),
    ]
}

#[test]
fn resolves_the_default_sink_among_other_objects() {
    let objs = sink_dump(unit_range(), false, vec![400_000, 500_000]);
    let sink = resolve(&objs).unwrap();
    assert_eq!(sink.node_id, 42);
    assert_eq!(sink.name, "speakers");
    assert_eq!(sink.range, unit_range());
    assert_eq!(sink.state.channel_volumes, vec![400_000, 500_000]);
    assert!(!sink.state.mute);
}

#[test]
fn unrecognized_objects_do_not_change_the_result() {
    let mut objs = sink_dump(unit_range(), false, vec![500_000]);
    objs.insert(2, DumpObject::Unrecognized(serde_json::Value::Bool(false)));
    objs.insert(0, DumpObject::Unrecognized(serde_json::Value::Null));
    assert_eq!(resolve(&objs).unwrap().node_id, 42);
}

#[test]
fn first_matching_metadata_and_node_win() {
    let mut objs = sink_dump(unit_range(), false, vec![500_000]);
    objs.push(metadata("PipeWire:Interface:Metadata", &[("default.audio.sink", "headphones")]));
    objs.push(node(99, "speakers", vec![range_info(unit_range())], vec![Prop::Volume(state(false, vec![1]))]));
    assert_eq!(resolve(&objs).unwrap().node_id, 42);
}

#[test]
fn missing_default_sink_key() {
    let objs = vec![
        metadata("PipeWire:Interface:Metadata", &[("default.audio.source", "speakers")]),
        node(42, "speakers", vec![range_info(unit_range())], vec![Prop::Volume(state(false, vec![1]))]),
    ];
    assert!(matches!(resolve(&objs), Err(ResolveError::NoDefaultSink)));
}

#[test]
fn metadata_of_another_interface_type_is_ignored() {
    let objs = vec![
        metadata("PipeWire:Interface:Other", &[("default.audio.sink", "speakers")]),
        node(42, "speakers", vec![range_info(unit_range())], vec![Prop::Volume(state(false, vec![1]))]),
    ];
    assert!(matches!(resolve(&objs), Err(ResolveError::NoDefaultSink)));
}

#[test]
fn empty_dump_has_no_default_sink() {
    assert!(matches!(resolve(&Vec::new()), Err(ResolveError::NoDefaultSink)));
}

#[test]
fn sink_node_not_found() {
    let objs = vec![metadata("PipeWire:Interface:Metadata", &[("default.audio.sink", "speakers")])];
    match resolve(&objs) {
        Err(ResolveError::SinkNodeNotFound(name)) => assert_eq!(name, "speakers"),
        _ => panic!("expected SinkNodeNotFound"),
    }
}

#[test]
fn no_volume_range() {
    let objs = vec![
        metadata("PipeWire:Interface:Metadata", &[("default.audio.sink", "speakers")]),
        node(
            42,
            "speakers",
            vec![PropInfo::Volume { id: "volume".to_string(), range: unit_range() }],
            vec![Prop::Volume(state(false, vec![1]))],
        ),
    ];
    assert!(matches!(resolve(&objs), Err(ResolveError::NoVolumeRange(42))));
}

#[test]
fn flat_range_is_invalid() {
    let flat = VolumeRange { default: SCALE, min: SCALE, max: SCALE };
    let objs = sink_dump(flat, false, vec![SCALE]);
    assert!(matches!(resolve(&objs), Err(ResolveError::InvalidVolumeRange(1_000_000, 1_000_000))));
}

#[test]
fn inverted_range_is_invalid() {
    let inverted = VolumeRange { default: 0, min: SCALE, max: 0 };
    let objs = sink_dump(inverted, false, vec![SCALE]);
    assert!(matches!(resolve(&objs), Err(ResolveError::InvalidVolumeRange(1_000_000, 0))));
}

#[test]
fn no_volume_state() {
    let objs = vec![
        metadata("PipeWire:Interface:Metadata", &[("default.audio.sink", "speakers")]),
        node(42, "speakers", vec![range_info(unit_range())], vec![Prop::Other(serde_json::Value::Null)]),
    ];
    assert!(matches!(resolve(&objs), Err(ResolveError::NoVolumeState(42))));
}

#[test]
fn no_channels() {
    let objs = sink_dump(unit_range(), false, vec![]);
    assert!(matches!(resolve(&objs), Err(ResolveError::NoChannels)));
}

#[test]
fn change_by_ten_percent_from_half() {
    let action = parse_change("+10%").unwrap();
    assert_eq!(action, Action::ChangeBy(10 * SCALE));
    let payload = apply_action(unit_range(), &state(false, vec![500_000]), action);
    assert!(!payload.mute);
    assert_eq!(payload.volume, None);
    assert_eq!(payload.channel_volumes, Some(vec![600_000]));
}

#[test]
fn change_while_muted_unmutes() {
    let payload = apply_action(unit_range(), &state(true, vec![500_000]), Action::ChangeBy(-SCALE / 2));
    assert!(!payload.mute);
    assert_eq!(payload.channel_volumes, Some(vec![495_000]));
}

#[test]
fn change_uses_the_span_of_the_range() {
    let range = VolumeRange { default: SCALE, min: 2 * SCALE, max: 4 * SCALE };
    let payload = apply_action(range, &state(false, vec![3 * SCALE, 2 * SCALE]), Action::ChangeBy(25 * SCALE));
    assert_eq!(payload.channel_volumes, Some(vec![3_500_000, 2_500_000]));
}

#[test]
fn change_is_monotonic() {
    let range = unit_range();
    for old in [0, 1, 333_333, 999_999, SCALE] {
        for p in [1, SCALE / 2, 10 * SCALE, 1000 * SCALE] {
            assert!(change_level(old, p, range) >= old);
            assert!(change_level(old, -p, range) <= old);
        }
    }
}

#[test]
fn change_clamps_at_the_bounds() {
    let range = unit_range();
    assert_eq!(change_level(SCALE, 5 * SCALE, range), SCALE);
    assert_eq!(change_level(0, -5 * SCALE, range), 0);
    assert_eq!(change_level(950_000, 10 * SCALE, range), SCALE);
    assert_eq!(change_level(50_000, -10 * SCALE, range), 0);
}

#[test]
fn small_changes_round_toward_zero() {
    let range = VolumeRange { default: 0, min: 0, max: 3 };
    assert_eq!(change_level(1, 50 * SCALE, range), 2);
    assert_eq!(change_level(1, 40 * SCALE, range), 2);
    assert_eq!(change_level(2, -40 * SCALE, range), 1);
    assert_eq!(change_level(1, 30 * SCALE, range), 1);
}

#[test]
fn mute_actions() {
    let s = state(false, vec![500_000]);
    let on = apply_action(unit_range(), &s, Action::MuteOn);
    assert!(on.mute);
    assert_eq!(on.volume, None);
    assert_eq!(on.channel_volumes, None);
    let off = apply_action(unit_range(), &state(true, vec![1]), Action::MuteOff);
    assert!(!off.mute);
    assert_eq!(off.volume, None);
    assert_eq!(off.channel_volumes, None);
}

#[test]
fn toggle_twice_restores_mute() {
    for start in [false, true] {
        let once = apply_action(unit_range(), &state(start, vec![1]), Action::MuteToggle);
        assert_eq!(once.mute, !start);
        let twice = apply_action(unit_range(), &state(once.mute, vec![1]), Action::MuteToggle);
        assert_eq!(twice.mute, start);
    }
}

#[test]
fn status_of_a_quarter() {
    let view = status(unit_range(), &state(false, vec![250_000]));
    assert_eq!(view, StatusView::Level(25));
    assert_eq!(view.render(), "{\"percentage\":25, \"tooltip\":\"25%\"}");
}

#[test]
fn status_when_muted() {
    let view = status(unit_range(), &state(true, vec![250_000]));
    assert_eq!(view, StatusView::Muted);
    assert_eq!(view.render(), "{\"alt\":\"mute\", \"tooltip\":\"muted\"}");
}

#[test]
fn status_does_not_subtract_the_minimum() {
    let range = VolumeRange { default: 0, min: SCALE, max: 3 * SCALE };
    assert_eq!(status(range, &state(false, vec![SCALE])), StatusView::Level(50));
}

#[test]
fn status_rounds_to_nearest_ties_to_even() {
    assert_eq!(status(unit_range(), &state(false, vec![333_333])), StatusView::Level(33));
    assert_eq!(status(unit_range(), &state(false, vec![336_000])), StatusView::Level(34));
    assert_eq!(status(unit_range(), &state(false, vec![125_000])), StatusView::Level(12));
    assert_eq!(status(unit_range(), &state(false, vec![135_000])), StatusView::Level(14));
    assert_eq!(status(unit_range(), &state(false, vec![-126_000])), StatusView::Level(-13));
    assert_eq!(status(unit_range(), &state(false, vec![1_500_000])), StatusView::Level(150));
}

#[test]
fn render_negative_level() {
    assert_eq!(StatusView::Level(-7).render(), "{\"percentage\":-7, \"tooltip\":\"-7%\"}");
}

#[test]
fn decide_change_and_status() {
    let objs = sink_dump(unit_range(), false, vec![500_000]);
    match decide(&objs, Request::Apply(Action::ChangeBy(10 * SCALE))).unwrap() {
        Outcome::Command { node_id, payload } => {
            assert_eq!(node_id, 42);
            assert_eq!(payload.channel_volumes, Some(vec![600_000]));
        }
        Outcome::Status(_) => panic!("expected a command"),
    }
    match decide(&objs, Request::Status).unwrap() {
        Outcome::Status(v) => assert_eq!(v, StatusView::Level(50)),
        Outcome::Command { .. } => panic!("expected a status"),
    }
}

#[test]
fn decide_reports_resolution_errors() {
    let objs = sink_dump(unit_range(), false, vec![]);
    assert!(matches!(decide(&objs, Request::Status), Err(ResolveError::NoChannels)));
}

#[test]
fn percentages_accepted() {
    assert_eq!(parse_percentage("+1%"), Some(SCALE));
    assert_eq!(parse_percentage("-0.5%"), Some(-SCALE / 2));
    assert_eq!(parse_percentage("10%"), Some(10 * SCALE));
    assert_eq!(parse_percentage(".25%"), Some(250_000));
    assert_eq!(parse_percentage("3.%"), Some(3 * SCALE));
    assert_eq!(parse_percentage("0.1234567%"), Some(123_456));
    assert_eq!(parse_percentage("99999999999%"), Some(1_000_000_000 * SCALE));
    assert!(is_decimal_percentage("-12.75%"));
}

#[test]
fn percentages_with_exponent() {
    assert_eq!(parse_percentage("1e3%"), Some(1000 * SCALE));
    assert_eq!(parse_percentage("5E-1%"), Some(SCALE / 2));
    assert_eq!(parse_percentage("1E-2%"), Some(10_000));
    assert_eq!(parse_percentage(".5e1%"), Some(5 * SCALE));
    assert_eq!(parse_percentage("+1.5e+2%"), Some(150 * SCALE));
    assert_eq!(parse_percentage("-2.5e-1%"), Some(-250_000));
    assert_eq!(parse_percentage("1e-7%"), Some(0));
    assert_eq!(parse_percentage("123.456789e2%"), Some(12_345_678_900));
    assert_eq!(parse_percentage("123456789e-14%"), Some(1));
    assert_eq!(parse_percentage("1e9%"), Some(1_000_000_000 * SCALE));
    assert_eq!(parse_percentage("1e10%"), Some(1_000_000_000 * SCALE));
    assert_eq!(parse_percentage("2e99999999999999999999999%"), Some(1_000_000_000 * SCALE));
    assert_eq!(parse_percentage("0e99999999999999999999999%"), Some(0));
    assert_eq!(parse_percentage("7e-99999999999999999999999%"), Some(0));
    assert!(is_decimal_percentage("3.e0%"));
    assert_eq!(parse_change("-1e1%"), Ok(Action::ChangeBy(-10 * SCALE)));
}

#[test]
fn percentages_rejected() {
    for bad in ["", "%", "+%", "-.%", ".%", "1", "+1", "1%%", "1.2.3%", "a%", "--1%", " 1%", "1 %", "1e%", "e3%", "1e+%", "1.2e3.4%", "1e3e4%", ".e1%", "1e 3%", "inf%", "NaN%"] {
        assert_eq!(parse_percentage(bad), None, "{bad}");
        assert!(!is_decimal_percentage(bad), "{bad}");
    }
    assert_eq!(parse_change("abc"), Err(InvalidDeltaArgument));
}

#[test]
fn render_matches_decimal_formatting() {
    for p in [0i128, 9, 10, 100, 1234567890, -1, -10, i128::MAX, i128::MIN] {
        assert_eq!(StatusView::Level(p).render(), format!("{{\"percentage\":{p}, \"tooltip\":\"{p}%\"}}"));
    }
}
