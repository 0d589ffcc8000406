//! Device records and the queries the routing subsystem makes over them.
//!
//! A record is an immutable snapshot of one entry of the sound server's
//! structured listing, reduced to the plain values the routing logic reads.
//! The surrounding application obtains the listing text and parses it into
//! records; everything decided over the records is verified here.
use vstd::prelude::*;
use crate::command::{AudioCommand, CommandModel};
use crate::numstr::{dec_digits_of, index_to_string};
use crate::textscan::{contains_seq, contains_sub};

verus! {

/// The four kinds of entries the sound server lists: devices that accept
/// audio (sinks), devices that produce it (sources), and the playback and
/// capture streams attached to them.
#[derive(Clone, Copy, Debug, PartialEq, Eq, Structural)]
pub enum DeviceKind {
    /// A device that accepts audio.
    Sink,
    /// A device that produces audio.
    Source,
    /// An application's playback stream into a sink.
    SinkInput,
    /// An application's capture stream out of a source.
    SourceOutput,
}

/// The word naming a kind in the sound server's listing command line.
pub open spec fn kind_argument(k: DeviceKind) -> Seq<char> {
    match k {
        DeviceKind::Sink => "sinks"@,
        DeviceKind::Source => "sources"@,
        DeviceKind::SinkInput => "sink-inputs"@,
        DeviceKind::SourceOutput => "source-outputs"@,
    }
}

/// The listing argument for a kind, as the sound server's command line
/// takes it.
pub fn list_kind_argument(k: DeviceKind) -> (s: &'static str)
    ensures
        s@ == kind_argument(k),
{
    match k {
        DeviceKind::Sink => "sinks",
        DeviceKind::Source => "sources",
        DeviceKind::SinkInput => "sink-inputs",
        DeviceKind::SourceOutput => "source-outputs",
    }
}

/// One entry of a device listing: a stream or device, its numeric index, and
/// the properties the routing logic reads.
pub struct DeviceRecord {
    /// Which listing the entry came from.
    pub kind: DeviceKind,
    /// The sound server's numeric index for this entry.
    pub index: u64,
    /// The node name of the stream, when the listing carries one.
    pub node_name: Option<String>,
    /// The owning application's name, when the listing carries one.
    pub application_name: Option<String>,
    /// The owning application's executable name, when the listing carries one.
    pub application_binary: Option<String>,
}

fn duplicate_name(s: &Option<String>) -> (r: Option<String>)
    ensures
        r == *s,
{
    match s {
        Option::Some(x) => Option::Some(x.clone()),
        Option::None => Option::None,
    }
}

impl DeviceRecord {
    /// An exact copy of the record.
    pub fn duplicate(&self) -> (r: DeviceRecord)
        ensures
            r == *self,
    {
        DeviceRecord {
            kind: self.kind,
            index: self.index,
            node_name: duplicate_name(&self.node_name),
            application_name: duplicate_name(&self.application_name),
            application_binary: duplicate_name(&self.application_binary),
        }
    }
}

/// A record is user-selectable as a routing source only when the listing
/// carried an application name for it.
pub open spec fn selectable(d: DeviceRecord) -> bool {
    d.application_name is Some
}

/// The executable part of a record's label, falling back to `Unknown` when
/// the executable name is unavailable.
pub open spec fn binary_label(d: DeviceRecord) -> Seq<char> {
    match d.application_binary {
        Option::Some(b) => b@,
        Option::None => "Unknown"@,
    }
}

/// The human-readable label of a selectable record: the application name
/// followed by the executable name in parentheses.
pub open spec fn source_label(d: DeviceRecord) -> Seq<char>
    recommends
        selectable(d),
{
    match d.application_name {
        Option::Some(app) => app@ + " ("@ + binary_label(d) + ")"@,
        Option::None => Seq::<char>::empty(),
    }
}

/// The labelled routing sources of a listing: one `(label, index)` pair per
/// selectable record, in listing order.
pub open spec fn routable_of(rs: Seq<DeviceRecord>) -> Seq<(Seq<char>, u64)>
    decreases rs.len(),
{
    if rs.len() == 0 {
        Seq::empty()
    } else {
        let rest = routable_of(rs.drop_last());
        let d = rs.last();
        if selectable(d) {
            rest.push((source_label(d), d.index))
        } else {
            rest
        }
    }
}

proof fn lemma_routable_of_take_succ(rs: Seq<DeviceRecord>, i: int)
    requires
        0 <= i < rs.len(),
    ensures
        routable_of(rs.take(i + 1)) == if selectable(rs[i]) {
            routable_of(rs.take(i)).push((source_label(rs[i]), rs[i].index))
        } else {
            routable_of(rs.take(i))
        },
{
    assert(rs.take(i + 1).drop_last() =~= rs.take(i));
    assert(rs.take(i + 1).last() == rs[i]);
}

fn build_source_label(app: &String, binary: &Option<String>) -> (s: String)
    ensures
        s@ == app@ + " ("@ + (match binary {
            Option::Some(b) => b@,
            Option::None => "Unknown"@,
        }) + ")"@,
{
    let mut s = app.clone();
    s.append(" (");
    match binary {
        Option::Some(b) => s.append(b.as_str()),
        Option::None => s.append("Unknown"),
    }
    s.append(")");
    s
}

/// Lists the routable application sources of a listing: one labelled entry
/// per record that carries an application name; records without one are not
/// user-selectable and are skipped, so an empty listing yields an empty list
/// and never a placeholder entry.
pub fn list_routable_sources(records: &Vec<DeviceRecord>) -> (r: Vec<(String, u64)>)
    ensures
        r@.len() == routable_of(records@).len(),
        forall|k: int| 0 <= k < r@.len() ==> (#[trigger] r@[k]).0@ == routable_of(records@)[k].0
            && r@[k].1 == routable_of(records@)[k].1,
        records@.len() == 0 ==> r@.len() == 0,
{
    let mut r: Vec<(String, u64)> = Vec::new();
    let mut i: usize = 0;
    proof {
        assert(records@.take(0) =~= Seq::<DeviceRecord>::empty());
    }
    while i < records.len()
        invariant
            i <= records@.len(),
            r@.len() == routable_of(records@.take(i as int)).len(),
            forall|k: int| 0 <= k < r@.len() ==> (#[trigger] r@[k]).0@ == routable_of(records@.take(i as int))[k].0
                && r@[k].1 == routable_of(records@.take(i as int))[k].1,
        decreases records@.len() - i,
    {
        proof {
            lemma_routable_of_take_succ(records@, i as int);
        }
        match &records[i].application_name {
            Option::Some(app) => {
                let label = build_source_label(app, &records[i].application_binary);
                let idx = records[i].index;
                proof {
                    assert(label@ == source_label(records@[i as int]));
                }
                let ghost prev = r@;
                r.push((label, idx));
                proof {
                    assert(forall|k: int| 0 <= k < prev.len() ==> r@[k] == #[trigger] prev[k]);
                }
            },
            Option::None => {
                proof {
                    assert(!selectable(records@[i as int]));
                }
            },
        }
        i = i + 1;
    }
    proof {
        assert(records@.take(records@.len() as int) =~= records@);
    }
    r
}

/// Lists the routable sources with the index as decimal text, as the sound
/// server's command line takes it.
pub fn list_outputs(records: &Vec<DeviceRecord>) -> (r: Vec<(String, String)>)
    ensures
        r@.len() == routable_of(records@).len(),
        forall|k: int| 0 <= k < r@.len() ==> (#[trigger] r@[k]).0@ == routable_of(records@)[k].0
            && r@[k].1@ == dec_digits_of(routable_of(records@)[k].1 as nat),
        records@.len() == 0 ==> r@.len() == 0,
{
    let sources = list_routable_sources(records);
    let mut r: Vec<(String, String)> = Vec::new();
    let mut i: usize = 0;
    while i < sources.len()
        invariant
            i <= sources@.len(),
            sources@.len() == routable_of(records@).len(),
            forall|k: int| 0 <= k < sources@.len() ==> (#[trigger] sources@[k]).0@ == routable_of(records@)[k].0
                && sources@[k].1 == routable_of(records@)[k].1,
            r@.len() == i,
            forall|k: int| 0 <= k < i ==> (#[trigger] r@[k]).0@ == routable_of(records@)[k].0
                && r@[k].1@ == dec_digits_of(routable_of(records@)[k].1 as nat),
        decreases sources@.len() - i,
    {
        let label = sources[i].0.clone();
        let text = index_to_string(sources[i].1);
        let ghost prev = r@;
        r.push((label, text));
        proof {
            assert(forall|k: int| 0 <= k < prev.len() ==> r@[k] == #[trigger] prev[k]);
        }
        i = i + 1;
    }
    r
}

/// Whether a record is the soundboard's own synthetic playback stream.
pub open spec fn is_soundboard_playback(d: DeviceRecord) -> bool {
    match d.node_name {
        Option::Some(n) => n@ == "alsa_playback.soundboard"@,
        Option::None => false,
    }
}

/// The indices of the soundboard's own playback streams, in listing order.
pub open spec fn soundboard_indices(rs: Seq<DeviceRecord>) -> Seq<u64>
    decreases rs.len(),
{
    if rs.len() == 0 {
        Seq::empty()
    } else {
        let rest = soundboard_indices(rs.drop_last());
        if is_soundboard_playback(rs.last()) {
            rest.push(rs.last().index)
        } else {
            rest
        }
    }
}

proof fn lemma_soundboard_indices_take_succ(rs: Seq<DeviceRecord>, i: int)
    requires
        0 <= i < rs.len(),
    ensures
        soundboard_indices(rs.take(i + 1)) == if is_soundboard_playback(rs[i]) {
            soundboard_indices(rs.take(i)).push(rs[i].index)
        } else {
            soundboard_indices(rs.take(i))
        },
{
    assert(rs.take(i + 1).drop_last() =~= rs.take(i));
    assert(rs.take(i + 1).last() == rs[i]);
}

/// The indices of the soundboard's own playback streams in the listing,
/// found by node name rather than by a hardcoded index.
pub fn find_soundboard_sinks(records: &Vec<DeviceRecord>) -> (r: Vec<u64>)
    ensures
        r@ == soundboard_indices(records@),
{
    let needle = String::from_str("alsa_playback.soundboard");
    let mut r: Vec<u64> = Vec::new();
    let mut i: usize = 0;
    proof {
        assert(records@.take(0) =~= Seq::<DeviceRecord>::empty());
    }
    while i < records.len()
        invariant
            i <= records@.len(),
            needle@ == "alsa_playback.soundboard"@,
            r@ == soundboard_indices(records@.take(i as int)),
        decreases records@.len() - i,
    {
        proof {
            lemma_soundboard_indices_take_succ(records@, i as int);
        }
        match &records[i].node_name {
            Option::Some(n) => {
                if n.eq(&needle) {
                    r.push(records[i].index);
                }
            },
            Option::None => {},
        }
        i = i + 1;
    }
    proof {
        assert(records@.take(records@.len() as int) =~= records@);
    }
    r
}

/// One move command per soundboard playback stream, rerouting it into the
/// soundboard's own sink.
pub fn move_playback_to_sink(records: &Vec<DeviceRecord>) -> (cmds: Vec<AudioCommand>)
    ensures
        cmds@.len() == soundboard_indices(records@).len(),
        forall|k: int| 0 <= k < cmds@.len() ==> (#[trigger] cmds@[k])@ == (CommandModel::MoveSinkInput {
            stream_index: soundboard_indices(records@)[k],
            sink_name: "SoundboardSink"@,
        }),
{
    let sinks = find_soundboard_sinks(records);
    let mut cmds: Vec<AudioCommand> = Vec::new();
    let mut i: usize = 0;
    while i < sinks.len()
        invariant
            i <= sinks@.len(),
            sinks@ == soundboard_indices(records@),
            cmds@.len() == i,
            forall|k: int| 0 <= k < i ==> (#[trigger] cmds@[k])@ == (CommandModel::MoveSinkInput {
                stream_index: soundboard_indices(records@)[k],
                sink_name: "SoundboardSink"@,
            }),
        decreases sinks@.len() - i,
    {
        let ghost prev = cmds@;
        cmds.push(AudioCommand::MoveSinkInput {
            stream_index: sinks[i],
            sink_name: String::from_str("SoundboardSink"),
        });
        proof {
            assert(forall|k: int| 0 <= k < prev.len() ==> cmds@[k] == #[trigger] prev[k]);
        }
        i = i + 1;
    }
    cmds
}

/// The move command routing the capture stream with the given index into the
/// virtual microphone's source.
pub fn move_index_to_virtualmic(index: u64) -> (cmd: AudioCommand)
    ensures
        cmd@ == (CommandModel::MoveSourceOutput {
            stream_index: index,
            source_name: "VirtualMicSource"@,
        }),
{
    AudioCommand::MoveSourceOutput {
        stream_index: index,
        source_name: String::from_str("VirtualMicSource"),
    }
}

/// Whether a device name follows the third-party virtual-cable driver's
/// naming convention.
pub open spec fn is_cable_name(n: Seq<char>) -> bool {
    contains_seq(n, "CABLE Input"@) || contains_seq(n, "VB-Audio"@)
}

/// Picks the first output device recognised as the virtual cable. When none
/// is found, virtual-microphone routing is unavailable on this platform and
/// the caller must surface an actionable message about the missing driver.
pub fn pick_virtual_cable(names: &Vec<String>) -> (r: Option<usize>)
    ensures
        match r {
            Option::Some(i) => i < names@.len() && is_cable_name(names@[i as int]@)
                && (forall|k: int| 0 <= k < i ==> !is_cable_name(#[trigger] names@[k]@)),
            Option::None => forall|k: int| 0 <= k < names@.len() ==> !is_cable_name(#[trigger] names@[k]@),
        },
{
    let mut i: usize = 0;
    while i < names.len()
        invariant
            i <= names@.len(),
            forall|k: int| 0 <= k < i ==> !is_cable_name(#[trigger] names@[k]@),
        decreases names@.len() - i,
    {
        let n = &names[i];
        if contains_sub(n.as_str(), "CABLE Input") || contains_sub(n.as_str(), "VB-Audio") {
            return Option::Some(i);
        }
        i = i + 1;
    }
    Option::None
}

/// The first record of the listing carrying the given index, if any.
pub open spec fn find_index(rs: Seq<DeviceRecord>, idx: u64) -> Option<DeviceRecord>
    decreases rs.len(),
{
    if rs.len() == 0 {
        Option::None
    } else if rs.first().index == idx {
        Option::Some(rs.first())
    } else {
        find_index(rs.drop_first(), idx)
    }
}

/// Looks a record up by its numeric index; a missing index is reported as
/// absent, never as a default record.
pub fn get_sink_by_index(records: &Vec<DeviceRecord>, index: u64) -> (r: Option<DeviceRecord>)
    ensures
        r == find_index(records@, index),
{
    let mut i: usize = 0;
    proof {
        assert(records@.skip(0) =~= records@);
    }
    while i < records.len()
        invariant
            i <= records@.len(),
            find_index(records@, index) == find_index(records@.skip(i as int), index),
        decreases records@.len() - i,
    {
        if records[i].index == index {
            proof {
                assert(records@.skip(i as int).first() == records@[i as int]);
            }
            return Option::Some(records[i].duplicate());
        }
        proof {
            assert(records@.skip(i as int).first() == records@[i as int]);
            assert(records@.skip(i as int).drop_first() =~= records@.skip(i as int + 1));
        }
        i = i + 1;
    }
    proof {
        assert(records@.skip(records@.len() as int) =~= Seq::<DeviceRecord>::empty());
    }
    Option::None
}

} // verus!
