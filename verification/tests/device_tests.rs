use soundboard::device::{
    get_sink_by_index, find_soundboard_sinks, list_kind_argument, list_outputs,
    list_routable_sources, move_index_to_virtualmic, move_playback_to_sink, pick_virtual_cable,
    DeviceKind, DeviceRecord,
};
use soundboard::command::AudioCommand;
use soundboard::listing::{parse_device_records, parse_device_records_or_empty};
use soundboard::numstr::{index_to_string, parse_index};

fn record(index: u64, node: Option<&str>, app: Option<&str>, binary: Option<&str>) -> DeviceRecord {
    DeviceRecord {
        kind: DeviceKind::SourceOutput,
        index,
        node_name: node.map(|s| s.to_string()),
        application_name: app.map(|s| s.to_string()),
        application_binary: binary.map(|s| s.to_string()),
    }
}

#[test]
fn outputs_label_application_and_binary() {
    let records = vec![
        record(7, None, Some("Music Player"), Some("mpv")),
        record(9, None, Some("Browser"), None),
    ];
    let outputs = list_outputs(&records);
    assert_eq!(outputs.len(), 2);
    assert_eq!(outputs[0].0, "Music Player (mpv)");
    assert_eq!(outputs[0].1, "7");
    assert_eq!(outputs[1].0, "Browser (Unknown)");
    assert_eq!(outputs[1].1, "9");
}

#[test]
fn outputs_skip_records_without_application_name() {
    let records = vec![
        record(1, Some("alsa_playback.soundboard"), None, Some("sb")),
        record(2, None, Some("App"), Some("app")),
        record(3, None, None, None),
    ];
    let sources = list_routable_sources(&records);
    assert_eq!(sources.len(), 1);
    assert_eq!(sources[0].0, "App (app)");
    assert_eq!(sources[0].1, 2);
}

#[test]
fn outputs_of_empty_listing_are_empty() {
    let records: Vec<DeviceRecord> = Vec::new();
    assert!(list_outputs(&records).is_empty());
    assert!(list_routable_sources(&records).is_empty());
}

#[test]
fn sink_lookup_by_index() {
    let records = vec![record(4, None, Some("A"), None), record(8, None, Some("B"), None)];
    let found = get_sink_by_index(&records, 8).expect("index 8 is listed");
    assert_eq!(found.index, 8);
    assert_eq!(found.application_name.as_deref(), Some("B"));
    assert!(get_sink_by_index(&records, 5).is_none());
}

#[test]
fn soundboard_streams_found_by_node_name() {
    let records = vec![
        record(10, Some("alsa_playback.soundboard"), None, None),
        record(11, Some("alsa_playback.other"), None, None),
        record(12, Some("alsa_playback.soundboard"), None, None),
    ];
    assert_eq!(find_soundboard_sinks(&records), vec![10, 12]);
    let cmds = move_playback_to_sink(&records);
    assert_eq!(cmds.len(), 2);
    assert_eq!(
        cmds[0],
        AudioCommand::MoveSinkInput { stream_index: 10, sink_name: "SoundboardSink".to_string() }
    );
    assert_eq!(
        cmds[1],
        AudioCommand::MoveSinkInput { stream_index: 12, sink_name: "SoundboardSink".to_string() }
    );
}

#[test]
fn capture_stream_moves_to_virtual_mic_source() {
    let cmd = move_index_to_virtualmic(33);
    assert_eq!(
        cmd,
        AudioCommand::MoveSourceOutput {
            stream_index: 33,
            source_name: "VirtualMicSource".to_string(),
        }
    );
}

#[test]
fn virtual_cable_picked_by_name_fragment() {
    let names = vec![
        "Speakers (Realtek)".to_string(),
        "CABLE Input (VB-Audio Virtual Cable)".to_string(),
        "VB-Audio Point".to_string(),
    ];
    assert_eq!(pick_virtual_cable(&names), Some(1));
    let none = vec!["Speakers".to_string(), "Headphones".to_string()];
    assert_eq!(pick_virtual_cable(&none), None);
    let empty: Vec<String> = Vec::new();
    assert_eq!(pick_virtual_cable(&empty), None);
}

#[test]
fn kind_arguments_name_the_listings() {
    assert_eq!(list_kind_argument(DeviceKind::Sink), "sinks");
    assert_eq!(list_kind_argument(DeviceKind::Source), "sources");
    assert_eq!(list_kind_argument(DeviceKind::SinkInput), "sink-inputs");
    assert_eq!(list_kind_argument(DeviceKind::SourceOutput), "source-outputs");
}

#[test]
fn listing_json_parses_into_records() {
    let text = r#"[
        {"index": 42, "properties": {"node.name": "alsa_playback.soundboard",
                                     "application.name": "Soundboard",
                                     "application.process.binary": "soundboard"}},
        {"index": 43, "properties": {}}
    ]"#;
    let records = parse_device_records(text, DeviceKind::SinkInput).expect("listing parses");
    assert_eq!(records.len(), 2);
    assert_eq!(records[0].index, 42);
    assert_eq!(records[0].node_name.as_deref(), Some("alsa_playback.soundboard"));
    assert_eq!(records[0].application_name.as_deref(), Some("Soundboard"));
    assert_eq!(records[0].application_binary.as_deref(), Some("soundboard"));
    assert_eq!(records[1].index, 43);
    assert!(records[1].node_name.is_none());
    assert!(records[1].application_name.is_none());
}

#[test]
fn listing_with_missing_index_is_a_parse_failure() {
    let missing = r#"[{"properties": {"application.name": "A"}}]"#;
    assert!(parse_device_records(missing, DeviceKind::SourceOutput).is_none());
    let non_numeric = r#"[{"index": "forty-two"}]"#;
    assert!(parse_device_records(non_numeric, DeviceKind::SourceOutput).is_none());
    let negative = r#"[{"index": -3}]"#;
    assert!(parse_device_records(negative, DeviceKind::SourceOutput).is_none());
}

#[test]
fn malformed_listing_degrades_to_empty() {
    assert!(parse_device_records_or_empty("not json at all", DeviceKind::Sink).is_empty());
    assert!(parse_device_records_or_empty("{\"index\": 1}", DeviceKind::Sink).is_empty());
    assert!(parse_device_records_or_empty("", DeviceKind::Sink).is_empty());
}

#[test]
fn index_text_round_trips() {
    assert_eq!(index_to_string(0), "0");
    assert_eq!(index_to_string(42), "42");
    assert_eq!(index_to_string(u64::MAX), "18446744073709551615");
    for n in [0u64, 1, 9, 10, 99, 100, 4096, u64::MAX] {
        assert_eq!(parse_index(&index_to_string(n)), Some(n));
    }
}

#[test]
fn index_parse_rejects_non_numbers_and_overflow() {
    assert_eq!(parse_index(""), None);
    assert_eq!(parse_index("12a"), None);
    assert_eq!(parse_index("-1"), None);
    assert_eq!(parse_index(" 7"), None);
    assert_eq!(parse_index("18446744073709551615"), Some(u64::MAX));
    assert_eq!(parse_index("18446744073709551616"), None);
    assert_eq!(parse_index("007"), Some(7));
}
