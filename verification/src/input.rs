//! The inputs of a fuzzing campaign: a program and the trace of what made it.

use crate::ir::Program;
use vstd::prelude::*;

verus! {

/// How many entries a trace keeps.
pub const MAX_TRACE_ENTRIES: usize = 64;

/// The largest input, in bytes, of a target that takes compiled programs.
pub const MAX_COMPILED_BYTES: usize = 0x80_0000;

/// The largest input, in bytes, of a target that compiles programs itself.
pub const MAX_IR_BYTES: usize = 0x10_0000;

/// The kind of step that changed an input.
#[derive(Clone, Copy, Debug, PartialEq, Eq, Structural, Hash)]
pub enum MutationStage {
    Mutator,
    Generator,
    Splice,
}

/// One step that changed an input.
#[derive(Clone, Debug, PartialEq, Eq, Hash)]
pub struct MutationTraceEntry {
    pub stage: MutationStage,
    pub name: String,
    /// Reserved for further data on the step.
    pub detail: Option<String>,
}

/// The model of a [`MutationTraceEntry`].
#[verifier::ext_equal]
pub struct TraceEntryView {
    pub stage: MutationStage,
    pub name: Seq<char>,
    pub detail: Option<Seq<char>>,
}

impl View for MutationTraceEntry {
    type V = TraceEntryView;

    open spec fn view(&self) -> TraceEntryView {
        TraceEntryView {
            stage: self.stage,
            name: self.name@,
            detail: match self.detail {
                Some(detail) => Some(detail@),
                None => None,
            },
        }
    }
}

/// The models of a list of entries.
pub open spec fn trace_view(entries: Seq<MutationTraceEntry>) -> Seq<TraceEntryView> {
    entries.map_values(|entry: MutationTraceEntry| entry@)
}

/// The last `count` items of `items`, or all of them if there are fewer.
pub open spec fn latest<T>(items: Seq<T>, count: int) -> Seq<T> {
    if items.len() > count {
        items.skip(items.len() - count)
    } else {
        items
    }
}

/// An input: a program, and the trace of the steps that made it.
#[derive(Clone, Debug, Hash)]
pub struct IrInput {
    ir: Program,
    trace: Vec<MutationTraceEntry>,
}

impl IrInput {
    /// The program.
    pub closed spec fn program(self) -> Program {
        self.ir
    }

    /// The trace, oldest entry first.
    pub closed spec fn entries(self) -> Seq<TraceEntryView> {
        trace_view(self.trace@)
    }

    /// An input for a program with an empty trace.
    pub fn new(ir: Program) -> (r: Self)
        ensures
            r.program() == ir,
            r.entries() == Seq::<TraceEntryView>::empty(),
    {
        let r = IrInput { ir, trace: Vec::new() };
        assert(r.entries() =~= seq![]);
        r
    }

    /// An input for a program with a given trace.
    pub fn with_trace(ir: Program, trace: Vec<MutationTraceEntry>) -> (r: Self)
        ensures
            r.program() == ir,
            r.entries() == trace_view(trace@),
    {
        IrInput { ir, trace }
    }

    /// The program.
    pub fn ir(&self) -> (r: &Program)
        ensures
            *r == self.program(),
    {
        &self.ir
    }

    /// The program, to be changed in place.
    pub fn ir_mut(&mut self) -> (r: &mut Program)
        ensures
            *r == old(self).program(),
            *final(r) == final(self).program(),
            final(self).entries() == old(self).entries(),
    {
        &mut self.ir
    }

    /// The trace, oldest entry first.
    pub fn trace(&self) -> (r: &[MutationTraceEntry])
        ensures
            trace_view(r@) == self.entries(),
    {
        self.trace.as_slice()
    }

    /// Records a step that changed the input. The trace keeps the latest entries.
    pub fn record_trace(&mut self, stage: MutationStage, name: String, detail: Option<String>)
        ensures
            final(self).program() == old(self).program(),
            final(self).entries() == latest(
                old(self).entries().push((MutationTraceEntry { stage, name, detail })@),
                MAX_TRACE_ENTRIES as int,
            ),
    {
        let entry = MutationTraceEntry { stage, name, detail };
        let ghost view = entry@;
        self.trace.push(entry);
        assert(self.entries() =~= old(self).entries().push(view));
        if self.trace.len() > MAX_TRACE_ENTRIES {
            let excess = self.trace.len() - MAX_TRACE_ENTRIES;
            let ghost all = self.trace@;
            self.trace = self.trace.split_off(excess);
            assert(self.entries() =~= trace_view(all).skip(excess as int));
        }
    }

    /// Forgets the trace.
    pub fn clear_trace(&mut self)
        ensures
            final(self).program() == old(self).program(),
            final(self).entries() == Seq::<TraceEntryView>::empty(),
    {
        self.trace.clear();
        assert(self.entries() =~= seq![]);
    }

    /// The length of the input: the number of instructions of its program.
    pub fn len(&self) -> (r: usize)
        ensures
            r == self.program()@.code.len(),
    {
        self.ir.instructions.len()
    }
}

/// The bytes to hand to the target: nothing at all in place of more than `limit`
/// bytes.
pub fn limit_target_bytes(bytes: Vec<u8>, limit: usize) -> (r: Vec<u8>)
    ensures
        bytes@.len() <= limit ==> r@ == bytes@,
        bytes@.len() > limit ==> r@ == Seq::<u8>::empty(),
{
    if bytes.len() > limit {
        Vec::new()
    } else {
        bytes
    }
}

/// The trace after the steps `steps` have been recorded in order.
pub open spec fn record_all(trace: Seq<TraceEntryView>, steps: Seq<TraceEntryView>) -> Seq<
    TraceEntryView,
>
    decreases steps.len(),
{
    if steps.len() == 0 {
        trace
    } else {
        latest(record_all(trace, steps.drop_last()).push(steps.last()), MAX_TRACE_ENTRIES as int)
    }
}

/// A trace holds the latest entries of everything recorded, in the order in which
/// it was recorded: after any steps it is what a single cut of the old trace and
/// the steps would leave.
pub proof fn law_trace_keeps_latest(trace: Seq<TraceEntryView>, steps: Seq<TraceEntryView>)
    requires
        steps.len() > 0,
    ensures
        record_all(trace, steps) == latest(trace + steps, MAX_TRACE_ENTRIES as int),
        record_all(trace, steps).len() <= MAX_TRACE_ENTRIES,
        record_all(trace, steps).last() == steps.last(),
    decreases steps.len(),
{
    let shorter = steps.drop_last();
    let before = record_all(trace, shorter);
    if shorter.len() == 0 {
        assert(trace + steps =~= trace.push(steps.last()));
    } else {
        law_trace_keeps_latest(trace, shorter);
        assert(trace + steps =~= (trace + shorter).push(steps.last()));
    }
    assert(record_all(trace, steps) =~= latest(trace + steps, MAX_TRACE_ENTRIES as int));
}

/// What a trace keeps of everything recorded: the end of it, all of it up to 64 entries
/// and 64 of more.
pub proof fn law_traces_are_the_end_of_what_was_recorded(all: Seq<TraceEntryView>)
    ensures
        ({
            let kept = latest(all, MAX_TRACE_ENTRIES as int);
            &&& all.len() <= 64 ==> kept == all
            &&& all.len() > 64 ==> kept.len() == 64
            &&& forall|i: int|
                0 <= i < kept.len() ==> #[trigger] kept[i] == all[all.len() - kept.len() + i]
        }),
{
}

/// Entries with the same model are the same entry: nothing of an entry is lost in its
/// model.
pub proof fn law_entries_have_models_of_their_own(a: MutationTraceEntry, b: MutationTraceEntry)
    ensures
        a@ == b@ <==> {
            &&& a.stage == b.stage
            &&& a.name@ == b.name@
            &&& match (a.detail, b.detail) {
                (Some(x), Some(y)) => x@ == y@,
                (None, None) => true,
                _ => false,
            }
        },
{
}

} // verus!
