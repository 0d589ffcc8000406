//! The virtual device graph: all-or-nothing creation, teardown, and reload.
//!
//! Creating the virtual microphone issues a fixed sequence of device
//! commands. Any failure is fatal to the creation: the graph cannot be
//! offered partially wired, since a silently misrouted microphone is a
//! correctness violation, so a failure rolls back every module created so
//! far and leaves the graph fully absent. Reload first unloads every module
//! whose label carries one of the stable fragments embedded at creation
//! time, then creates afresh, so repeated reloads never accumulate
//! duplicate modules.
use vstd::prelude::*;
use crate::command::{AudioCommand, CommandModel};
use crate::textscan::{contains_seq, contains_sub, matches_at};

verus! {

/// One row of the sound server's module table: a module handle and the
/// listing line describing it (name and arguments).
pub struct ModuleEntry {
    /// The module handle the sound server assigned at load time.
    pub module_id: u64,
    /// The module's listing line: its name and arguments.
    pub label: String,
}

/// Whether a module's listing line carries one of the stable fragments this
/// subsystem embeds at creation time; such modules are ours to unload.
pub open spec fn managed_label(l: Seq<char>) -> bool {
    ||| contains_seq(l, "module-loopback"@)
    ||| contains_seq(l, "Virtual_Microphone"@)
    ||| contains_seq(l, "Virtual_Mic_Source"@)
    ||| contains_seq(l, "Soundboard_Audio"@)
}

/// The labels that survive an unload of every managed module, in order.
pub open spec fn unload_managed(table: Seq<Seq<char>>) -> Seq<Seq<char>>
    decreases table.len(),
{
    if table.len() == 0 {
        Seq::empty()
    } else {
        let rest = unload_managed(table.drop_last());
        if managed_label(table.last()) {
            rest
        } else {
            rest.push(table.last())
        }
    }
}

/// The module labels after a reload: every managed module unloaded, then
/// the creation plan's modules loaded afresh.
pub open spec fn reload_labels(table: Seq<Seq<char>>, creates: Seq<Seq<char>>) -> Seq<Seq<char>> {
    unload_managed(table) + creates
}

/// The handles of the managed modules of a table, in order: what a reload
/// unloads.
pub open spec fn managed_ids(ms: Seq<ModuleEntry>) -> Seq<u64>
    decreases ms.len(),
{
    if ms.len() == 0 {
        Seq::empty()
    } else {
        let rest = managed_ids(ms.drop_last());
        if managed_label(ms.last().label@) {
            rest.push(ms.last().module_id)
        } else {
            rest
        }
    }
}

proof fn lemma_managed_ids_take_succ(ms: Seq<ModuleEntry>, i: int)
    requires
        0 <= i < ms.len(),
    ensures
        managed_ids(ms.take(i + 1)) == if managed_label(ms[i].label@) {
            managed_ids(ms.take(i)).push(ms[i].module_id)
        } else {
            managed_ids(ms.take(i))
        },
{
    assert(ms.take(i + 1).drop_last() =~= ms.take(i));
    assert(ms.take(i + 1).last() == ms[i]);
}

/// Whether this module's listing line marks it as one of ours.
pub fn is_managed_module(label: &str) -> (r: bool)
    ensures
        r == managed_label(label@),
{
    contains_sub(label, "module-loopback")
    || contains_sub(label, "Virtual_Microphone")
    || contains_sub(label, "Virtual_Mic_Source")
    || contains_sub(label, "Soundboard_Audio")
}

/// The unload commands a reload issues first: one per managed module of the
/// current module table, exactly those, in table order.
pub fn reload_sound(modules: &Vec<ModuleEntry>) -> (unloads: Vec<AudioCommand>)
    ensures
        unloads@.len() == managed_ids(modules@).len(),
        forall|k: int| 0 <= k < unloads@.len() ==> (#[trigger] unloads@[k])@ == (CommandModel::UnloadModule {
            module_id: managed_ids(modules@)[k],
        }),
{
    let mut unloads: Vec<AudioCommand> = Vec::new();
    let mut i: usize = 0;
    proof {
        assert(modules@.take(0) =~= Seq::<ModuleEntry>::empty());
    }
    while i < modules.len()
        invariant
            i <= modules@.len(),
            unloads@.len() == managed_ids(modules@.take(i as int)).len(),
            forall|k: int| 0 <= k < unloads@.len() ==> (#[trigger] unloads@[k])@ == (CommandModel::UnloadModule {
                module_id: managed_ids(modules@.take(i as int))[k],
            }),
        decreases modules@.len() - i,
    {
        proof {
            lemma_managed_ids_take_succ(modules@, i as int);
        }
        if is_managed_module(modules[i].label.as_str()) {
            let ghost prev = unloads@;
            unloads.push(AudioCommand::UnloadModule { module_id: modules[i].module_id });
            proof {
                assert(forall|k: int| 0 <= k < prev.len() ==> unloads@[k] == #[trigger] prev[k]);
            }
        }
        i = i + 1;
    }
    proof {
        assert(modules@.take(modules@.len() as int) =~= modules@);
    }
    unloads
}

/// The handles of the modules whose label carries `needle`, in table order.
pub open spec fn matching_ids(ms: Seq<ModuleEntry>, needle: Seq<char>) -> Seq<u64>
    decreases ms.len(),
{
    if ms.len() == 0 {
        Seq::empty()
    } else {
        let rest = matching_ids(ms.drop_last(), needle);
        if contains_seq(ms.last().label@, needle) {
            rest.push(ms.last().module_id)
        } else {
            rest
        }
    }
}

proof fn lemma_matching_ids_take_succ(ms: Seq<ModuleEntry>, needle: Seq<char>, i: int)
    requires
        0 <= i < ms.len(),
    ensures
        matching_ids(ms.take(i + 1), needle) == if contains_seq(ms[i].label@, needle) {
            matching_ids(ms.take(i), needle).push(ms[i].module_id)
        } else {
            matching_ids(ms.take(i), needle)
        },
{
    assert(ms.take(i + 1).drop_last() =~= ms.take(i));
    assert(ms.take(i + 1).last() == ms[i]);
}

/// One unload command per module whose label carries the given fragment,
/// exactly those, in table order.
pub fn unload_modules_matching(modules: &Vec<ModuleEntry>, needle: &str) -> (unloads: Vec<AudioCommand>)
    ensures
        unloads@.len() == matching_ids(modules@, needle@).len(),
        forall|k: int| 0 <= k < unloads@.len() ==> (#[trigger] unloads@[k])@ == (CommandModel::UnloadModule {
            module_id: matching_ids(modules@, needle@)[k],
        }),
{
    let mut unloads: Vec<AudioCommand> = Vec::new();
    let mut i: usize = 0;
    proof {
        assert(modules@.take(0) =~= Seq::<ModuleEntry>::empty());
    }
    while i < modules.len()
        invariant
            i <= modules@.len(),
            unloads@.len() == matching_ids(modules@.take(i as int), needle@).len(),
            forall|k: int| 0 <= k < unloads@.len() ==> (#[trigger] unloads@[k])@ == (CommandModel::UnloadModule {
                module_id: matching_ids(modules@.take(i as int), needle@)[k],
            }),
        decreases modules@.len() - i,
    {
        proof {
            lemma_matching_ids_take_succ(modules@, needle@, i as int);
        }
        if contains_sub(modules[i].label.as_str(), needle) {
            let ghost prev = unloads@;
            unloads.push(AudioCommand::UnloadModule { module_id: modules[i].module_id });
            proof {
                assert(forall|k: int| 0 <= k < prev.len() ==> unloads@[k] == #[trigger] prev[k]);
            }
        }
        i = i + 1;
    }
    proof {
        assert(modules@.take(modules@.len() as int) =~= modules@);
    }
    unloads
}

proof fn lemma_unload_distributes_add(a: Seq<Seq<char>>, b: Seq<Seq<char>>)
    ensures
        unload_managed(a + b) == unload_managed(a) + unload_managed(b),
    decreases b.len(),
{
    if b.len() == 0 {
        assert(a + b =~= a);
        assert(unload_managed(a) + unload_managed(b) =~= unload_managed(a));
    } else {
        lemma_unload_distributes_add(a, b.drop_last());
        assert((a + b).drop_last() =~= a + b.drop_last());
        assert((a + b).last() == b.last());
        if !managed_label(b.last()) {
            assert((unload_managed(a) + unload_managed(b.drop_last())).push(b.last())
                =~= unload_managed(a) + unload_managed(b.drop_last()).push(b.last()));
        }
    }
}

proof fn lemma_unload_result_unmanaged(t: Seq<Seq<char>>)
    ensures
        forall|i: int| 0 <= i < unload_managed(t).len()
            ==> !managed_label(#[trigger] unload_managed(t)[i]),
    decreases t.len(),
{
    if t.len() > 0 {
        lemma_unload_result_unmanaged(t.drop_last());
        let rest = unload_managed(t.drop_last());
        if !managed_label(t.last()) {
            assert(forall|i: int| 0 <= i < rest.len()
                ==> unload_managed(t)[i] == #[trigger] rest[i]);
            assert(unload_managed(t)[rest.len() as int] == t.last());
        }
    }
}

proof fn lemma_unload_all_unmanaged(s: Seq<Seq<char>>)
    requires
        forall|i: int| 0 <= i < s.len() ==> !managed_label(#[trigger] s[i]),
    ensures
        unload_managed(s) == s,
    decreases s.len(),
{
    if s.len() == 0 {
        assert(unload_managed(s) =~= s);
    } else {
        assert(forall|i: int| 0 <= i < s.len() - 1 ==> s.drop_last()[i] == #[trigger] s[i]);
        lemma_unload_all_unmanaged(s.drop_last());
        assert(!managed_label(s.last()));
        assert(s.drop_last().push(s.last()) =~= s);
    }
}

proof fn lemma_unload_all_managed(s: Seq<Seq<char>>)
    requires
        forall|i: int| 0 <= i < s.len() ==> managed_label(#[trigger] s[i]),
    ensures
        unload_managed(s).len() == 0,
    decreases s.len(),
{
    if s.len() > 0 {
        assert(forall|i: int| 0 <= i < s.len() - 1 ==> s.drop_last()[i] == #[trigger] s[i]);
        lemma_unload_all_managed(s.drop_last());
        assert(managed_label(s.last()));
    }
}

/// Reloading is idempotent on the module table: as long as every module a
/// creation plan loads carries a managed label, reloading twice leaves
/// exactly the labels one reload leaves — no duplicate modules accumulate.
pub proof fn lemma_reload_idempotent(table: Seq<Seq<char>>, creates: Seq<Seq<char>>)
    requires
        forall|i: int| 0 <= i < creates.len() ==> managed_label(#[trigger] creates[i]),
    ensures
        reload_labels(reload_labels(table, creates), creates) == reload_labels(table, creates),
{
    lemma_unload_distributes_add(unload_managed(table), creates);
    lemma_unload_result_unmanaged(table);
    lemma_unload_all_unmanaged(unload_managed(table));
    lemma_unload_all_managed(creates);
    assert(unload_managed(creates) =~= Seq::<Seq<char>>::empty());
    assert(reload_labels(reload_labels(table, creates), creates) =~= reload_labels(table, creates));
}

/// The fixed creation plan of the server-mediated strategy: a soundboard
/// sink, a virtual microphone sink with a remapped source exposing its
/// monitor, loopbacks for monitoring and for feeding the microphone and the
/// soundboard into the virtual device, and volumes set to the full-scale
/// baseline.
pub open spec fn linux_plan() -> Seq<CommandModel> {
    seq![
        CommandModel::LoadNullSink { sink_name: "SoundboardSink"@, description: "Soundboard_Audio"@ },
        CommandModel::LoadNullSink { sink_name: "VirtualMic"@, description: "Virtual_Microphone"@ },
        CommandModel::LoadRemapSource {
            master: "VirtualMic.monitor"@,
            source_name: "VirtualMicSource"@,
            description: "Virtual_Mic_Source"@,
        },
        CommandModel::LoadLoopback { source: "SoundboardSink.monitor"@, sink: "@DEFAULT_SINK@"@, latency_ms: 1 },
        CommandModel::LoadLoopback { source: "SoundboardSink.monitor"@, sink: "VirtualMic"@, latency_ms: 1 },
        CommandModel::LoadLoopback { source: "@DEFAULT_SOURCE@"@, sink: "VirtualMic"@, latency_ms: 1 },
        CommandModel::SetSinkVolume { sink_name: "VirtualMic"@, volume_percent: 100 },
        CommandModel::SetSinkVolume { sink_name: "SoundboardSink"@, volume_percent: 100 },
    ]
}

/// Builds the creation plan of the server-mediated strategy.
pub fn linux_setup_plan() -> (cmds: Vec<AudioCommand>)
    ensures
        cmds@.len() == linux_plan().len(),
        forall|k: int| 0 <= k < cmds@.len() ==> (#[trigger] cmds@[k])@ == linux_plan()[k],
{
    let mut cmds: Vec<AudioCommand> = Vec::new();
    cmds.push(AudioCommand::LoadNullSink {
        sink_name: String::from_str("SoundboardSink"),
        description: String::from_str("Soundboard_Audio"),
    });
    cmds.push(AudioCommand::LoadNullSink {
        sink_name: String::from_str("VirtualMic"),
        description: String::from_str("Virtual_Microphone"),
    });
    cmds.push(AudioCommand::LoadRemapSource {
        master: String::from_str("VirtualMic.monitor"),
        source_name: String::from_str("VirtualMicSource"),
        description: String::from_str("Virtual_Mic_Source"),
    });
    cmds.push(AudioCommand::LoadLoopback {
        source: String::from_str("SoundboardSink.monitor"),
        sink: String::from_str("@DEFAULT_SINK@"),
        latency_ms: 1,
    });
    cmds.push(AudioCommand::LoadLoopback {
        source: String::from_str("SoundboardSink.monitor"),
        sink: String::from_str("VirtualMic"),
        latency_ms: 1,
    });
    cmds.push(AudioCommand::LoadLoopback {
        source: String::from_str("@DEFAULT_SOURCE@"),
        sink: String::from_str("VirtualMic"),
        latency_ms: 1,
    });
    cmds.push(AudioCommand::SetSinkVolume {
        sink_name: String::from_str("VirtualMic"),
        volume_percent: 100,
    });
    cmds.push(AudioCommand::SetSinkVolume {
        sink_name: String::from_str("SoundboardSink"),
        volume_percent: 100,
    });
    cmds
}

/// The label fragment a creation command's module carries in the sound
/// server's module table: the embedded description for the device modules,
/// the module name itself for loopbacks. Commands that load no module carry
/// none.
pub open spec fn created_label(c: CommandModel) -> Option<Seq<char>> {
    match c {
        CommandModel::LoadNullSink { sink_name, description } => Option::Some(description),
        CommandModel::LoadRemapSource { master, source_name, description } => Option::Some(description),
        CommandModel::LoadLoopback { source, sink, latency_ms } => Option::Some("module-loopback"@),
        _ => Option::None,
    }
}

/// The labels of the modules a creation plan loads, in plan order.
pub open spec fn plan_labels(p: Seq<CommandModel>) -> Seq<Seq<char>>
    decreases p.len(),
{
    if p.len() == 0 {
        Seq::empty()
    } else {
        let rest = plan_labels(p.drop_last());
        match created_label(p.last()) {
            Option::Some(l) => rest.push(l),
            Option::None => rest,
        }
    }
}

proof fn lemma_contains_self(l: Seq<char>)
    ensures
        contains_seq(l, l),
{
    assert(l.subrange(0, l.len() as int) =~= l);
    assert(matches_at(l, l, 0));
}

proof fn lemma_plan_labels_managed(p: Seq<CommandModel>)
    requires
        forall|i: int| 0 <= i < p.len() ==> (match created_label(#[trigger] p[i]) {
            Option::Some(l) => managed_label(l),
            Option::None => true,
        }),
    ensures
        forall|k: int| 0 <= k < plan_labels(p).len() ==> managed_label(#[trigger] plan_labels(p)[k]),
    decreases p.len(),
{
    if p.len() > 0 {
        assert(forall|i: int| 0 <= i < p.len() - 1 ==> p.drop_last()[i] == #[trigger] p[i]);
        lemma_plan_labels_managed(p.drop_last());
        let rest = plan_labels(p.drop_last());
        match created_label(p.last()) {
            Option::Some(l) => {
                assert(forall|k: int| 0 <= k < rest.len()
                    ==> plan_labels(p)[k] == #[trigger] rest[k]);
                assert(plan_labels(p)[rest.len() as int] == l);
            },
            Option::None => {},
        }
    }
}

/// Reloading with the server-mediated creation plan is idempotent on the
/// module table: every module the plan loads carries a managed fragment, so
/// a second reload leaves exactly the labels the first one left.
pub proof fn lemma_linux_reload_idempotent(table: Seq<Seq<char>>)
    ensures
        reload_labels(
            reload_labels(table, plan_labels(linux_plan())),
            plan_labels(linux_plan()),
        ) == reload_labels(table, plan_labels(linux_plan())),
{
    assert forall|i: int| 0 <= i < linux_plan().len() implies (match created_label(
        #[trigger] linux_plan()[i],
    ) {
        Option::Some(l) => managed_label(l),
        Option::None => true,
    }) by {
        lemma_contains_self("Soundboard_Audio"@);
        lemma_contains_self("Virtual_Microphone"@);
        lemma_contains_self("Virtual_Mic_Source"@);
        lemma_contains_self("module-loopback"@);
    }
    lemma_plan_labels_managed(linux_plan());
    lemma_reload_idempotent(table, plan_labels(linux_plan()));
}

/// Where the graph stands: fully absent, being built, or fully present.
/// There is no partially-present state a caller could observe.
pub enum GraphPhase {
    /// No module of ours is registered.
    Absent,
    /// Creation commands are being issued; a failure rolls everything back.
    Building,
    /// Every command of the plan succeeded.
    Present,
}

/// Owner of the virtual device graph. It walks a creation plan one command
/// at a time, records each module the sound server created, and on any
/// failure hands back the unload commands that roll the graph back to fully
/// absent.
pub struct VirtualMicManager {
    /// Where the graph stands.
    pub phase: GraphPhase,
    /// The creation plan being (or last) walked.
    pub plan: Vec<AudioCommand>,
    /// How many commands of the plan have succeeded.
    pub issued: usize,
    /// The module handles created so far, in creation order.
    pub created: Vec<u64>,
}

/// Manager invariant: an absent graph has no module registered, a building
/// one has not outrun its plan, and a present one has finished it.
pub open spec fn graph_wf(m: VirtualMicManager) -> bool {
    &&& (m.phase is Absent ==> m.created@.len() == 0)
    &&& (m.phase is Building ==> m.issued <= m.plan@.len())
    &&& (m.phase is Present ==> m.issued == m.plan@.len())
}

impl VirtualMicManager {
    /// A manager with the graph fully absent.
    pub fn new() -> (m: VirtualMicManager)
        ensures
            graph_wf(m),
            m.phase is Absent,
            m.created@.len() == 0,
    {
        VirtualMicManager { phase: GraphPhase::Absent, plan: Vec::new(), issued: 0, created: Vec::new() }
    }

    /// Starts creating the graph along the given plan. Nothing is
    /// registered yet; the caller issues the commands one at a time.
    pub fn begin_create(&mut self, plan: Vec<AudioCommand>)
        requires
            graph_wf(*old(self)),
            old(self).phase is Absent,
        ensures
            graph_wf(*final(self)),
            final(self).phase is Building,
            final(self).plan == plan,
            final(self).issued == 0,
            final(self).created@.len() == 0,
    {
        self.plan = plan;
        self.issued = 0;
        self.phase = GraphPhase::Building;
    }

    /// The next command to issue, while the graph is being built.
    pub fn next_command(&self) -> (c: Option<&AudioCommand>)
        requires
            graph_wf(*self),
        ensures
            match c {
                Option::Some(cmd) => self.phase is Building && self.issued < self.plan@.len()
                    && *cmd == self.plan@[self.issued as int],
                Option::None => !(self.phase is Building) || self.issued == self.plan@.len(),
            },
    {
        match self.phase {
            GraphPhase::Building => {
                if self.issued < self.plan.len() {
                    Option::Some(&self.plan[self.issued])
                } else {
                    Option::None
                }
            },
            _ => Option::None,
        }
    }

    /// Records that the current command succeeded, and the module handle the
    /// sound server returned for it, if the command loaded a module. When the
    /// last command succeeds the graph becomes fully present.
    pub fn on_command_ok(&mut self, created_module: Option<u64>)
        requires
            graph_wf(*old(self)),
            old(self).phase is Building,
            old(self).issued < old(self).plan@.len(),
        ensures
            graph_wf(*final(self)),
            final(self).plan == old(self).plan,
            final(self).issued == old(self).issued + 1,
            final(self).created@ == (match created_module {
                Option::Some(id) => old(self).created@.push(id),
                Option::None => old(self).created@,
            }),
            final(self).phase is Present <==> old(self).issued + 1 == old(self).plan@.len(),
            !(final(self).phase is Present) ==> final(self).phase is Building,
    {
        let n = self.plan.len();
        match created_module {
            Option::Some(id) => self.created.push(id),
            Option::None => {},
        }
        self.issued = self.issued + 1;
        if self.issued == n {
            self.phase = GraphPhase::Present;
        }
    }

    /// Records that the current command failed. The failure is fatal to the
    /// creation: the graph turns fully absent, zero modules stay registered,
    /// and the returned commands unload every module created so far, newest
    /// first.
    pub fn on_command_failed(&mut self) -> (rollback: Vec<AudioCommand>)
        requires
            graph_wf(*old(self)),
            old(self).phase is Building,
        ensures
            graph_wf(*final(self)),
            final(self).phase is Absent,
            final(self).created@.len() == 0,
            rollback@.len() == old(self).created@.len(),
            forall|k: int| 0 <= k < rollback@.len() ==> (#[trigger] rollback@[k])@ == (CommandModel::UnloadModule {
                module_id: old(self).created@[old(self).created@.len() - 1 - k],
            }),
    {
        let r = self.destroy();
        r
    }

    /// Tears the graph down: turns it fully absent and hands back the
    /// commands unloading every registered module, newest first.
    pub fn destroy(&mut self) -> (unloads: Vec<AudioCommand>)
        requires
            graph_wf(*old(self)),
        ensures
            graph_wf(*final(self)),
            final(self).phase is Absent,
            final(self).created@.len() == 0,
            unloads@.len() == old(self).created@.len(),
            forall|k: int| 0 <= k < unloads@.len() ==> (#[trigger] unloads@[k])@ == (CommandModel::UnloadModule {
                module_id: old(self).created@[old(self).created@.len() - 1 - k],
            }),
    {
        let mut unloads: Vec<AudioCommand> = Vec::new();
        let n = self.created.len();
        let mut i: usize = 0;
        while i < n
            invariant
                *self == *old(self),
                n == self.created@.len(),
                i <= n,
                unloads@.len() == i,
                forall|k: int| 0 <= k < i ==> (#[trigger] unloads@[k])@ == (CommandModel::UnloadModule {
                    module_id: self.created@[n - 1 - k],
                }),
            decreases n - i,
        {
            let ghost prev = unloads@;
            unloads.push(AudioCommand::UnloadModule { module_id: self.created[n - 1 - i] });
            proof {
                assert(forall|k: int| 0 <= k < prev.len() ==> unloads@[k] == #[trigger] prev[k]);
            }
            i = i + 1;
        }
        self.created = Vec::new();
        self.issued = 0;
        self.phase = GraphPhase::Absent;
        unloads
    }

    /// How many modules of the graph are currently registered.
    pub fn registered_count(&self) -> (n: usize)
        ensures
            n == self.created@.len(),
    {
        self.created.len()
    }
}

} // verus!
