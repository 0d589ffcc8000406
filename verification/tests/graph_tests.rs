use soundboard::command::{render_args, AudioCommand};
use soundboard::graph::{
    is_managed_module, linux_setup_plan, reload_sound, unload_modules_matching, GraphPhase,
    ModuleEntry, VirtualMicManager,
};

#[test]
fn setup_plan_matches_the_server_graph() {
    let plan = linux_setup_plan();
    assert_eq!(plan.len(), 8);
    assert_eq!(
        plan[0],
        AudioCommand::LoadNullSink {
            sink_name: "SoundboardSink".to_string(),
            description: "Soundboard_Audio".to_string(),
        }
    );
    assert_eq!(
        plan[2],
        AudioCommand::LoadRemapSource {
            master: "VirtualMic.monitor".to_string(),
            source_name: "VirtualMicSource".to_string(),
            description: "Virtual_Mic_Source".to_string(),
        }
    );
    assert_eq!(
        plan[5],
        AudioCommand::LoadLoopback {
            source: "@DEFAULT_SOURCE@".to_string(),
            sink: "VirtualMic".to_string(),
            latency_ms: 1,
        }
    );
    assert_eq!(
        plan[7],
        AudioCommand::SetSinkVolume {
            sink_name: "SoundboardSink".to_string(),
            volume_percent: 100,
        }
    );
}

#[test]
fn failure_mid_creation_rolls_back_to_zero_devices() {
    // The third of five issued commands fails: both modules created so far
    // are unloaded and nothing stays registered.
    let mut m = VirtualMicManager::new();
    m.begin_create(linux_setup_plan());
    assert!(matches!(m.next_command(), Some(AudioCommand::LoadNullSink { .. })));
    m.on_command_ok(Some(501));
    m.on_command_ok(Some(502));
    assert_eq!(m.registered_count(), 2);
    let rollback = m.on_command_failed();
    assert_eq!(m.registered_count(), 0);
    assert!(matches!(m.phase, GraphPhase::Absent));
    assert_eq!(
        rollback,
        vec![
            AudioCommand::UnloadModule { module_id: 502 },
            AudioCommand::UnloadModule { module_id: 501 },
        ]
    );
    assert!(m.next_command().is_none());
}

#[test]
fn full_creation_walks_the_whole_plan() {
    let mut m = VirtualMicManager::new();
    let plan = linux_setup_plan();
    let n = plan.len();
    m.begin_create(plan);
    for step in 0..n {
        let cmd = m.next_command().expect("a command is pending").clone();
        let module = match cmd {
            AudioCommand::LoadNullSink { .. }
            | AudioCommand::LoadRemapSource { .. }
            | AudioCommand::LoadLoopback { .. } => Some(600 + step as u64),
            _ => None,
        };
        m.on_command_ok(module);
    }
    assert!(matches!(m.phase, GraphPhase::Present));
    assert_eq!(m.registered_count(), 6);
    assert!(m.next_command().is_none());
    let unloads = m.destroy();
    assert_eq!(unloads.len(), 6);
    assert_eq!(unloads[0], AudioCommand::UnloadModule { module_id: 605 });
    assert_eq!(unloads[5], AudioCommand::UnloadModule { module_id: 600 });
    assert!(matches!(m.phase, GraphPhase::Absent));
    assert_eq!(m.registered_count(), 0);
}

#[test]
fn reload_unloads_exactly_the_managed_modules() {
    let table = vec![
        ModuleEntry { module_id: 1, label: "module-alsa-card".to_string() },
        ModuleEntry {
            module_id: 2,
            label: "module-null-sink sink_name=SoundboardSink sink_properties=device.description=\"Soundboard_Audio\"".to_string(),
        },
        ModuleEntry {
            module_id: 3,
            label: "module-loopback source=SoundboardSink.monitor sink=@DEFAULT_SINK@".to_string(),
        },
        ModuleEntry { module_id: 4, label: "module-native-protocol-unix".to_string() },
        ModuleEntry {
            module_id: 5,
            label: "module-remap-source source_properties=device.description=\"Virtual_Mic_Source\"".to_string(),
        },
    ];
    let unloads = reload_sound(&table);
    assert_eq!(
        unloads,
        vec![
            AudioCommand::UnloadModule { module_id: 2 },
            AudioCommand::UnloadModule { module_id: 3 },
            AudioCommand::UnloadModule { module_id: 5 },
        ]
    );
}

#[test]
fn unload_matches_by_arbitrary_fragment() {
    let table = vec![
        ModuleEntry { module_id: 1, label: "module-loopback source=a".to_string() },
        ModuleEntry { module_id: 2, label: "module-null-sink".to_string() },
        ModuleEntry { module_id: 3, label: "module-loopback source=b".to_string() },
    ];
    let unloads = unload_modules_matching(&table, "module-loopback");
    assert_eq!(
        unloads,
        vec![
            AudioCommand::UnloadModule { module_id: 1 },
            AudioCommand::UnloadModule { module_id: 3 },
        ]
    );
    assert!(unload_modules_matching(&table, "absent-fragment").is_empty());
}

#[test]
fn reloading_twice_leaves_the_same_modules_as_once() {
    // One reload cycle: unload every managed module, then load the plan's
    // modules afresh. A second cycle unloads exactly what the first one
    // loaded, so the surviving table is identical.
    let strangers = vec![
        ModuleEntry { module_id: 1, label: "module-alsa-card".to_string() },
        ModuleEntry { module_id: 9, label: "module-native-protocol-unix".to_string() },
    ];
    let plan_modules = [
        "module-null-sink device.description=\"Soundboard_Audio\"",
        "module-null-sink device.description=\"Virtual_Microphone\"",
        "module-remap-source device.description=\"Virtual_Mic_Source\"",
        "module-loopback source=SoundboardSink.monitor sink=@DEFAULT_SINK@",
        "module-loopback source=SoundboardSink.monitor sink=VirtualMic",
        "module-loopback source=@DEFAULT_SOURCE@ sink=VirtualMic",
    ];

    let reload_once = |table: &Vec<ModuleEntry>, next_id: u64| -> Vec<ModuleEntry> {
        let unloads = reload_sound(table);
        let mut after: Vec<ModuleEntry> = table
            .iter()
            .filter(|e| {
                !unloads.iter().any(|u| matches!(u, AudioCommand::UnloadModule { module_id } if *module_id == e.module_id))
            })
            .map(|e| ModuleEntry { module_id: e.module_id, label: e.label.clone() })
            .collect();
        for (k, label) in plan_modules.iter().enumerate() {
            after.push(ModuleEntry { module_id: next_id + k as u64, label: label.to_string() });
        }
        after
    };

    let once = reload_once(&strangers, 100);
    let twice = reload_once(&once, 200);
    let labels_once: Vec<&str> = once.iter().map(|e| e.label.as_str()).collect();
    let labels_twice: Vec<&str> = twice.iter().map(|e| e.label.as_str()).collect();
    assert_eq!(labels_once, labels_twice);
}

#[test]
fn commands_render_the_server_protocol() {
    let plan = linux_setup_plan();
    assert_eq!(
        render_args(&plan[0]),
        vec![
            "load-module",
            "module-null-sink",
            "sink_name=SoundboardSink",
            "sink_properties=device.description=\"Soundboard_Audio\"",
        ]
    );
    assert_eq!(
        render_args(&plan[2]),
        vec![
            "load-module",
            "module-remap-source",
            "master=VirtualMic.monitor",
            "source_name=VirtualMicSource",
            "source_properties=device.description=\"Virtual_Mic_Source\"",
        ]
    );
    assert_eq!(
        render_args(&plan[3]),
        vec![
            "load-module",
            "module-loopback",
            "source=SoundboardSink.monitor",
            "sink=@DEFAULT_SINK@",
            "latency_msec=1",
        ]
    );
    assert_eq!(render_args(&plan[6]), vec!["set-sink-volume", "VirtualMic", "100%"]);
    assert_eq!(
        render_args(&AudioCommand::MoveSinkInput {
            stream_index: 17,
            sink_name: "SoundboardSink".to_string(),
        }),
        vec!["move-sink-input", "17", "SoundboardSink"]
    );
    assert_eq!(
        render_args(&AudioCommand::MoveSourceOutput {
            stream_index: 5,
            source_name: "VirtualMicSource".to_string(),
        }),
        vec!["move-source-output", "5", "VirtualMicSource"]
    );
    assert_eq!(
        render_args(&AudioCommand::UnloadModule { module_id: 536 }),
        vec!["unload-module", "536"]
    );
}

#[test]
fn managed_labels_recognised_by_fragment() {
    assert!(is_managed_module("module-loopback source=x sink=y"));
    assert!(is_managed_module("module-null-sink ... Virtual_Microphone ..."));
    assert!(is_managed_module("Virtual_Mic_Source"));
    assert!(is_managed_module("... Soundboard_Audio"));
    assert!(!is_managed_module("module-alsa-card"));
    assert!(!is_managed_module(""));
}
