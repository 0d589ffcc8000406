//! Device-control requests for the OS sound server.
//!
//! The library decides *which* commands to issue; the surrounding application
//! renders each request into a sound-server invocation and reports back
//! whether it succeeded.
use vstd::prelude::*;
use crate::numstr::{dec_digits_of, index_to_string};

verus! {

/// One imperative request to the OS sound server.
#[derive(Clone, Debug, PartialEq)]
pub enum AudioCommand {
    /// Create a null sink: a device that accepts audio and exposes a monitor.
    LoadNullSink { sink_name: String, description: String },
    /// Expose a sink's monitor as a virtual microphone source.
    LoadRemapSource { master: String, source_name: String, description: String },
    /// Continuously copy one device's output into another device's input.
    LoadLoopback { source: String, sink: String, latency_ms: u64 },
    /// Set a sink's volume to a percentage of full scale.
    SetSinkVolume { sink_name: String, volume_percent: u64 },
    /// Move a playback stream to another sink.
    MoveSinkInput { stream_index: u64, sink_name: String },
    /// Move an application's capture stream to another source.
    MoveSourceOutput { stream_index: u64, source_name: String },
    /// Unload a previously loaded module.
    UnloadModule { module_id: u64 },
}

/// The mathematical shape of an [`AudioCommand`]: the same variants over
/// character sequences instead of heap strings.
pub enum CommandModel {
    LoadNullSink { sink_name: Seq<char>, description: Seq<char> },
    LoadRemapSource { master: Seq<char>, source_name: Seq<char>, description: Seq<char> },
    LoadLoopback { source: Seq<char>, sink: Seq<char>, latency_ms: u64 },
    SetSinkVolume { sink_name: Seq<char>, volume_percent: u64 },
    MoveSinkInput { stream_index: u64, sink_name: Seq<char> },
    MoveSourceOutput { stream_index: u64, source_name: Seq<char> },
    UnloadModule { module_id: u64 },
}

impl View for AudioCommand {
    type V = CommandModel;

    open spec fn view(&self) -> CommandModel {
        match self {
            AudioCommand::LoadNullSink { sink_name, description } => CommandModel::LoadNullSink {
                sink_name: sink_name@,
                description: description@,
            },
            AudioCommand::LoadRemapSource { master, source_name, description } => CommandModel::LoadRemapSource {
                master: master@,
                source_name: source_name@,
                description: description@,
            },
            AudioCommand::LoadLoopback { source, sink, latency_ms } => CommandModel::LoadLoopback {
                source: source@,
                sink: sink@,
                latency_ms: *latency_ms,
            },
            AudioCommand::SetSinkVolume { sink_name, volume_percent } => CommandModel::SetSinkVolume {
                sink_name: sink_name@,
                volume_percent: *volume_percent,
            },
            AudioCommand::MoveSinkInput { stream_index, sink_name } => CommandModel::MoveSinkInput {
                stream_index: *stream_index,
                sink_name: sink_name@,
            },
            AudioCommand::MoveSourceOutput { stream_index, source_name } => CommandModel::MoveSourceOutput {
                stream_index: *stream_index,
                source_name: source_name@,
            },
            AudioCommand::UnloadModule { module_id } => CommandModel::UnloadModule {
                module_id: *module_id,
            },
        }
    }
}

/// The sound server's command line for one request: the words after the
/// control tool's own name.
pub open spec fn args_model(c: CommandModel) -> Seq<Seq<char>> {
    match c {
        CommandModel::LoadNullSink { sink_name, description } => seq![
            "load-module"@,
            "module-null-sink"@,
            "sink_name="@ + sink_name,
            "sink_properties=device.description=\""@ + description + "\""@,
        ],
        CommandModel::LoadRemapSource { master, source_name, description } => seq![
            "load-module"@,
            "module-remap-source"@,
            "master="@ + master,
            "source_name="@ + source_name,
            "source_properties=device.description=\""@ + description + "\""@,
        ],
        CommandModel::LoadLoopback { source, sink, latency_ms } => seq![
            "load-module"@,
            "module-loopback"@,
            "source="@ + source,
            "sink="@ + sink,
            "latency_msec="@ + dec_digits_of(latency_ms as nat),
        ],
        CommandModel::SetSinkVolume { sink_name, volume_percent } => seq![
            "set-sink-volume"@,
            sink_name,
            dec_digits_of(volume_percent as nat) + "%"@,
        ],
        CommandModel::MoveSinkInput { stream_index, sink_name } => seq![
            "move-sink-input"@,
            dec_digits_of(stream_index as nat),
            sink_name,
        ],
        CommandModel::MoveSourceOutput { stream_index, source_name } => seq![
            "move-source-output"@,
            dec_digits_of(stream_index as nat),
            source_name,
        ],
        CommandModel::UnloadModule { module_id } => seq![
            "unload-module"@,
            dec_digits_of(module_id as nat),
        ],
    }
}

fn prefixed(prefix: &str, value: &String) -> (r: String)
    ensures
        r@ == prefix@ + value@,
{
    let mut r = prefix.to_owned();
    r.append(value.as_str());
    r
}

fn quoted_description(prefix: &str, value: &String) -> (r: String)
    ensures
        r@ == prefix@ + value@ + "\""@,
{
    let mut r = prefix.to_owned();
    r.append(value.as_str());
    r.append("\"");
    proof {
        assert(r@ =~= prefix@ + value@ + "\""@);
    }
    r
}

/// Renders one request as the words of the sound server's command line.
pub fn render_args(cmd: &AudioCommand) -> (args: Vec<String>)
    ensures
        args@.len() == args_model(cmd@).len(),
        forall|k: int| 0 <= k < args@.len() ==> (#[trigger] args@[k])@ == args_model(cmd@)[k],
{
    let mut args: Vec<String> = Vec::new();
    match cmd {
        AudioCommand::LoadNullSink { sink_name, description } => {
            args.push(String::from_str("load-module"));
            args.push(String::from_str("module-null-sink"));
            args.push(prefixed("sink_name=", sink_name));
            args.push(quoted_description("sink_properties=device.description=\"", description));
        },
        AudioCommand::LoadRemapSource { master, source_name, description } => {
            args.push(String::from_str("load-module"));
            args.push(String::from_str("module-remap-source"));
            args.push(prefixed("master=", master));
            args.push(prefixed("source_name=", source_name));
            args.push(quoted_description("source_properties=device.description=\"", description));
        },
        AudioCommand::LoadLoopback { source, sink, latency_ms } => {
            args.push(String::from_str("load-module"));
            args.push(String::from_str("module-loopback"));
            args.push(prefixed("source=", source));
            args.push(prefixed("sink=", sink));
            let mut latency = String::from_str("latency_msec=");
            latency.append(index_to_string(*latency_ms).as_str());
            args.push(latency);
        },
        AudioCommand::SetSinkVolume { sink_name, volume_percent } => {
            args.push(String::from_str("set-sink-volume"));
            args.push(sink_name.clone());
            let mut volume = index_to_string(*volume_percent);
            volume.append("%");
            args.push(volume);
        },
        AudioCommand::MoveSinkInput { stream_index, sink_name } => {
            args.push(String::from_str("move-sink-input"));
            args.push(index_to_string(*stream_index));
            args.push(sink_name.clone());
        },
        AudioCommand::MoveSourceOutput { stream_index, source_name } => {
            args.push(String::from_str("move-source-output"));
            args.push(index_to_string(*stream_index));
            args.push(source_name.clone());
        },
        AudioCommand::UnloadModule { module_id } => {
            args.push(String::from_str("unload-module"));
            args.push(index_to_string(*module_id));
        },
    }
    args
}

} // verus!
