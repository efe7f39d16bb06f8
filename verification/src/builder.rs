//! Step by step construction of a program.

use crate::ir::{listing, Instruction, Operation, Program, ProgramContext, ProgramView, Variable};
use crate::random::{draw_usize, shuffle_items};
use crate::typing::{
    defined, fits, lemma_defined_push, lemma_well_typed_push, spent, step, unspent, well_typed,
};
use rand::rngs::StdRng;
use vstd::prelude::*;

verus! {

/// A variable of a program: its type and its number.
#[derive(Clone, Copy, Debug, PartialEq, Eq, Structural, Hash)]
pub struct IndexedVariable {
    pub var: Variable,
    pub index: usize,
}

/// A program under construction.
#[derive(Clone, Debug)]
pub struct ProgramBuilder {
    context: ProgramContext,
    instructions: Vec<Instruction>,
    variables: Vec<Variable>,
}

impl View for ProgramBuilder {
    type V = ProgramView;

    closed spec fn view(&self) -> ProgramView {
        ProgramView { context: self.context, code: listing(self.instructions@) }
    }
}

impl ProgramBuilder {
    /// The builder's invariant: the program so far is well typed, and the
    /// builder knows the variables it defines.
    pub closed spec fn wf(&self) -> bool {
        &&& self.variables@ == defined(self@.code)
        &&& well_typed(self@.code)
    }

    /// What every builder keeps: its program is well typed, and its variables can
    /// be numbered by a `usize`.
    pub proof fn law_builder_is_well_typed(&self)
        requires
            self.wf(),
        ensures
            well_typed(self@.code),
            defined(self@.code).len() <= usize::MAX,
    {
        assert(self.variables.len() == self.variables@.len());
    }

    /// An empty program for `context`.
    pub fn new(context: ProgramContext) -> (r: ProgramBuilder)
        ensures
            r.wf(),
            r@ == (ProgramView { context, code: seq![] }),
    {
        let r = ProgramBuilder { context, instructions: Vec::new(), variables: Vec::new() };
        assert(r@.code =~= seq![]);
        r
    }

    /// The finished program.
    pub fn build(self) -> (r: Program)
        ensures
            r@ == self@,
    {
        Program { instructions: self.instructions, context: self.context }
    }

    /// The context the program is written for.
    pub fn context(&self) -> (r: &ProgramContext)
        ensures
            *r == self@.context,
    {
        &self.context
    }

    /// The instructions so far.
    pub fn instructions(&self) -> (r: &[Instruction])
        ensures
            listing(r@) == self@.code,
    {
        self.instructions.as_slice()
    }

    /// Appends an instruction and returns the variables it defines. The
    /// instruction has to fit the program.
    pub fn force_append(&mut self, inputs: Vec<usize>, operation: Operation) -> (r: Vec<
        IndexedVariable,
    >)
        requires
            old(self).wf(),
            fits((Instruction { inputs, operation })@, defined(old(self)@.code)),
        ensures
            final(self).wf(),
            final(self)@.context == old(self)@.context,
            final(self)@.code == old(self)@.code.push((Instruction { inputs, operation })@),
            defined(final(self)@.code) == defined(old(self)@.code) + operation@.gives(),
            r@.len() == operation@.gives().len(),
            forall|k: int|
                0 <= k < r@.len() ==> (#[trigger] r@[k]).var == operation@.gives()[k] && r@[k].index
                    == defined(old(self)@.code).len() + k,
    {
        let outputs = operation.output_variables();
        let mut r: Vec<IndexedVariable> = Vec::new();
        let ghost before = self.variables@;
        let mut k: usize = 0;
        while k < outputs.len()
            invariant
                k <= outputs@.len(),
                self.variables@ == before + outputs@.take(k as int),
                self.instructions == old(self).instructions,
                self.context == old(self).context,
                r@.len() == k,
                forall|j: int|
                    0 <= j < k ==> (#[trigger] r@[j]).var == outputs@[j] && r@[j].index
                        == before.len() + j,
            decreases outputs@.len() - k,
        {
            r.push(IndexedVariable { var: outputs[k], index: self.variables.len() });
            self.variables.push(outputs[k]);
            assert(outputs@.take(k as int).push(outputs@[k as int]) =~= outputs@.take(k + 1));
            assert(self.variables@ =~= before + outputs@.take(k + 1));
            k += 1;
        }
        assert(outputs@.take(k as int) =~= outputs@);
        let instruction = Instruction { inputs, operation };
        let ghost view = instruction@;
        self.instructions.push(instruction);
        proof {
            assert(self@.code =~= old(self)@.code.push(view));
            lemma_defined_push(old(self)@.code, view);
            lemma_well_typed_push(old(self)@.code, view);
        }
        r
    }

    /// Appends an instruction that defines one variable and returns the variable.
    pub fn force_append_expect_output(&mut self, inputs: Vec<usize>, operation: Operation) -> (r:
        IndexedVariable)
        requires
            old(self).wf(),
            fits((Instruction { inputs, operation })@, defined(old(self)@.code)),
            operation@.gives().len() == 1,
        ensures
            final(self).wf(),
            final(self)@.context == old(self)@.context,
            final(self)@.code == old(self)@.code.push((Instruction { inputs, operation })@),
            defined(final(self)@.code) == defined(old(self)@.code).push(r.var),
            r.var == operation@.gives()[0],
            r.index == defined(old(self)@.code).len(),
    {
        let r = self.force_append(inputs, operation)[0];
        assert(defined(self@.code) =~= defined(old(self)@.code).push(r.var));
        r
    }

    /// The outputs that are left to spend, in the order in which they were defined.
    pub fn unspent_txos(&self) -> (r: Vec<IndexedVariable>)
        requires
            self.wf(),
        ensures
            forall|k: int|
                0 <= k < r@.len() ==> (#[trigger] r@[k]).var == Variable::Txo && unspent(
                    self@.code,
                    r@[k].index as int,
                ),
            forall|j: int, k: int| 0 <= j < k < r@.len() ==> r@[j].index < r@[k].index,
            forall|v: int|
                unspent(self@.code, v) ==> exists|k: int|
                    0 <= k < r@.len() && (#[trigger] r@[k]).index == v,
    {
        let spent_by_index = self.spent_variables();
        let mut r: Vec<IndexedVariable> = Vec::new();
        let mut v: usize = 0;
        while v < self.variables.len()
            invariant
                self.wf(),
                v <= self.variables@.len(),
                spent_by_index@.len() == self.variables@.len(),
                forall|u: int|
                    0 <= u < spent_by_index@.len() ==> #[trigger] spent_by_index@[u] == spent(
                        self@.code,
                        u,
                    ),
                forall|k: int|
                    0 <= k < r@.len() ==> (#[trigger] r@[k]).var == Variable::Txo && unspent(
                        self@.code,
                        r@[k].index as int,
                    ) && r@[k].index < v,
                forall|j: int, k: int| 0 <= j < k < r@.len() ==> r@[j].index < r@[k].index,
                forall|u: int|
                    unspent(self@.code, u) && u < v ==> exists|k: int|
                        0 <= k < r@.len() && (#[trigger] r@[k]).index == u,
            decreases self.variables@.len() - v,
        {
            let ghost before = r@;
            if self.variables[v] == Variable::Txo && !spent_by_index[v] {
                r.push(IndexedVariable { var: Variable::Txo, index: v });
                assert(r@[before.len() as int].index == v);
            }
            assert forall|u: int| unspent(self@.code, u) && u < v + 1 implies exists|k: int|
                0 <= k < r@.len() && (#[trigger] r@[k]).index == u by {
                if u < v {
                    let k = choose|k: int| 0 <= k < before.len() && (#[trigger] before[k]).index == u;
                    assert(r@[k].index == u);
                }
            }
            v += 1;
        }
        r
    }

    /// For each variable, whether a transaction input spends it.
    fn spent_variables(&self) -> (r: Vec<bool>)
        requires
            self.wf(),
        ensures
            r@.len() == defined(self@.code).len(),
            forall|v: int| 0 <= v < r@.len() ==> #[trigger] r@[v] == spent(self@.code, v),
    {
        let mut r: Vec<bool> = Vec::new();
        while r.len() < self.variables.len()
            invariant
                r@.len() <= self.variables@.len(),
                forall|v: int| 0 <= v < r@.len() ==> !#[trigger] r@[v],
            decreases self.variables@.len() - r@.len(),
        {
            r.push(false);
        }
        let mut i: usize = 0;
        assert forall|v: int| 0 <= v < r@.len() implies #[trigger] r@[v] == spent(
            self@.code.take(0),
            v,
        ) by {}
        while i < self.instructions.len()
            invariant
                i <= self.instructions@.len(),
                r@.len() == self.variables@.len(),
                self@.code.len() == self.instructions@.len(),
                forall|v: int|
                    0 <= v < r@.len() ==> #[trigger] r@[v] == spent(self@.code.take(i as int), v),
            decreases self.instructions@.len() - i,
        {
            let ghost before = r@;
            let instruction = &self.instructions[i];
            assert(self@.code[i as int] == instruction@);
            let mut hit: Option<usize> = None;
            if let Operation::AddTxInput = instruction.operation {
                if instruction.inputs.len() > 1 {
                    assert(instruction@.inputs[1] == instruction.inputs@[1]);
                    hit = Some(instruction.inputs[1]);
                }
            }
            if let Some(v) = hit {
                if v < r.len() {
                    r[v] = true;
                }
            }
            assert forall|v: int| 0 <= v < r@.len() implies #[trigger] r@[v] == spent(
                self@.code.take(i + 1),
                v,
            ) by {
                let short = self@.code.take(i as int);
                let long = self@.code.take(i + 1);
                assert(forall|j: int| 0 <= j < i ==> long[j] == short[j]);
                assert(long[i as int] == instruction@);
                assert(before[v] == spent(short, v));
                if spent(short, v) {
                    let j = choose|j: int|
                        0 <= j < short.len() && (#[trigger] short[j]).operation is AddTxInput
                            && short[j].inputs.len() > 1 && short[j].inputs[1] == v;
                    assert(long[j].operation is AddTxInput);
                }
                if hit == Some(v as usize) {
                    assert(long[i as int].operation is AddTxInput);
                }
                if spent(long, v) {
                    let j = choose|j: int|
                        0 <= j < long.len() && (#[trigger] long[j]).operation is AddTxInput
                            && long[j].inputs.len() > 1 && long[j].inputs[1] == v;
                    if j < i {
                        assert(short[j].operation is AddTxInput);
                    }
                }
            }
            i += 1;
        }
        assert(self@.code.take(i as int) =~= self@.code);
        r
    }

    /// Some of the outputs that are left to spend, in random order: none if there
    /// are none, where nothing is drawn, and at least one otherwise.
    pub fn get_random_utxos(&self, rng: &mut StdRng) -> (r: Vec<IndexedVariable>)
        requires
            self.wf(),
        ensures
            forall|k: int|
                0 <= k < r@.len() ==> (#[trigger] r@[k]).var == Variable::Txo && unspent(
                    self@.code,
                    r@[k].index as int,
                ),
            r@.no_duplicates(),
            r@.len() == 0 <==> !self@.can_fund(),
            r@.len() == 0 ==> *final(rng) == *old(rng),
    {
        let mut found = self.unspent_txos();
        let ghost all = found@;
        if found.len() == 0 {
            return found;
        }
        proof {
            assert(unspent(self@.code, all[0].index as int));
        }
        let count = draw_usize(rng, 0, found.len()) + 1;
        shuffle_items(rng, &mut found);
        proof {
            assert(all.no_duplicates());
            all.lemma_multiset_has_no_duplicates();
            found@.lemma_multiset_has_no_duplicates_conv();
            found@.to_multiset_ensures();
            all.to_multiset_ensures();
            assert forall|k: int| 0 <= k < found@.len() implies all.contains(#[trigger] found@[k]) by {
                assert(found@.to_multiset().count(found@[k]) > 0);
            }
        }
        found.truncate(count);
        found
    }

    /// The connections of the program, in the order in which they were defined.
    pub fn connections(&self) -> (r: Vec<IndexedVariable>)
        requires
            self.wf(),
        ensures
            forall|k: int|
                0 <= k < r@.len() ==> (#[trigger] r@[k]).var == Variable::Connection && self@.holds(
                    r@[k].index as int,
                    Variable::Connection,
                ),
            forall|j: int, k: int| 0 <= j < k < r@.len() ==> r@[j].index < r@[k].index,
            forall|v: int|
                self@.holds(v, Variable::Connection) ==> exists|k: int|
                    0 <= k < r@.len() && (#[trigger] r@[k]).index == v,
    {
        let mut r: Vec<IndexedVariable> = Vec::new();
        let mut v: usize = 0;
        while v < self.variables.len()
            invariant
                self.wf(),
                v <= self.variables@.len(),
                forall|k: int|
                    0 <= k < r@.len() ==> (#[trigger] r@[k]).var == Variable::Connection
                        && self@.holds(r@[k].index as int, Variable::Connection) && r@[k].index < v,
                forall|j: int, k: int| 0 <= j < k < r@.len() ==> r@[j].index < r@[k].index,
                forall|u: int|
                    self@.holds(u, Variable::Connection) && u < v ==> exists|k: int|
                        0 <= k < r@.len() && (#[trigger] r@[k]).index == u,
            decreases self.variables@.len() - v,
        {
            let ghost before = r@;
            if self.variables[v] == Variable::Connection {
                r.push(IndexedVariable { var: Variable::Connection, index: v });
                assert(r@[before.len() as int].index == v);
            }
            assert forall|u: int|
                self@.holds(u, Variable::Connection) && u < v + 1 implies exists|k: int|
                0 <= k < r@.len() && (#[trigger] r@[k]).index == u by {
                if u < v {
                    let k = choose|k: int| 0 <= k < before.len() && (#[trigger] before[k]).index == u;
                    assert(r@[k].index == u);
                }
            }
            v += 1;
        }
        r
    }

    /// Chooses one of the program's connections, or one to load if it has none.
    pub fn choose_connection(&self, rng: &mut StdRng) -> (r: ConnectionChoice)
        requires
            self.wf(),
            self@.can_connect(),
        ensures
            r.drawn_from(self@),
    {
        let known = self.connections();
        if known.len() > 0 {
            let k = draw_usize(rng, 0, known.len());
            ConnectionChoice::Known(known[k].index)
        } else {
            ConnectionChoice::Load(draw_usize(rng, 0, self.context.num_connections))
        }
    }

    /// The variable of a chosen connection, loaded first if it has to be.
    pub fn connect(&mut self, choice: ConnectionChoice) -> (r: IndexedVariable)
        requires
            old(self).wf(),
            choice.usable_in(old(self)@),
        ensures
            final(self).wf(),
            final(self)@ == old(self)@.then_code(choice.code()),
            defined(final(self)@.code) == defined(old(self)@.code) + choice.loads(),
            r.var == Variable::Connection,
            r.index == choice.variable(defined(old(self)@.code).len() as int),
            final(self)@.holds(r.index as int, Variable::Connection),
    {
        match choice {
            ConnectionChoice::Known(index) => {
                assert(self@.code + choice.code() =~= self@.code);
                assert(defined(self@.code) + choice.loads() =~= defined(self@.code));
                IndexedVariable { var: Variable::Connection, index }
            },
            ConnectionChoice::Load(n) => {
                let r = self.force_append_expect_output(vec![], Operation::LoadConnection(n));
                assert(self@.code =~~= old(self)@.code + choice.code());
                assert(defined(self@.code) =~= defined(old(self)@.code) + choice.loads());
                r
            },
        }
    }

    /// One of the program's connections, or a newly loaded one if it has none.
    pub fn get_or_create_random_connection(&mut self, rng: &mut StdRng) -> (r: IndexedVariable)
        requires
            old(self).wf(),
            old(self)@.can_connect(),
        ensures
            final(self).wf(),
            exists|choice: ConnectionChoice|
                {
                    &&& choice.drawn_from(old(self)@)
                    &&& final(self)@ == #[trigger] old(self)@.then_code(choice.code())
                    &&& r.index == choice.variable(defined(old(self)@.code).len() as int)
                },
            r.var == Variable::Connection,
            final(self)@.holds(r.index as int, Variable::Connection),
    {
        let choice = self.choose_connection(rng);
        self.connect(choice)
    }
}

/// A connection to send on: a variable of the program, or a connection of the
/// context that the program has to load.
#[derive(Clone, Copy, Debug, PartialEq, Eq, Structural)]
pub enum ConnectionChoice {
    Known(usize),
    Load(usize),
}

impl ConnectionChoice {
    /// Whether the choice can be carried out in `program`.
    pub open spec fn usable_in(self, program: ProgramView) -> bool {
        match self {
            ConnectionChoice::Known(v) => program.holds(v as int, Variable::Connection),
            ConnectionChoice::Load(n) => n < program.context.num_connections,
        }
    }

    /// Whether the choice follows the rule that a connection is loaded only where
    /// the program has none.
    pub open spec fn drawn_from(self, program: ProgramView) -> bool {
        &&& self.usable_in(program)
        &&& self is Load ==> forall|v: int| !program.holds(v, Variable::Connection)
    }

    /// The code that makes the connection a variable.
    pub open spec fn code(self) -> Seq<crate::ir::InstructionView> {
        match self {
            ConnectionChoice::Known(_) => seq![],
            ConnectionChoice::Load(n) => seq![step(seq![], Operation::LoadConnection(n))],
        }
    }

    /// The types of the variables that code defines.
    pub open spec fn loads(self) -> Seq<Variable> {
        match self {
            ConnectionChoice::Known(_) => seq![],
            ConnectionChoice::Load(_) => seq![Variable::Connection],
        }
    }

    /// The number of the connection's variable, where `next` is the number that
    /// the next variable gets.
    pub open spec fn variable(self, next: int) -> int {
        match self {
            ConnectionChoice::Known(v) => v as int,
            ConnectionChoice::Load(_) => next,
        }
    }
}

/// What a chosen connection is: a connection of the program, or, where the program has
/// none, one of those that its context numbers.
pub proof fn law_connections_are_chosen_from_the_program(
    choice: ConnectionChoice,
    program: ProgramView,
)
    ensures
        choice.drawn_from(program) <==> match choice {
            ConnectionChoice::Known(v) => v < defined(program.code).len() && defined(
                program.code,
            )[v as int] == Variable::Connection,
            ConnectionChoice::Load(n) => n < program.context.num_connections && !defined(
                program.code,
            ).contains(Variable::Connection),
        },
{
    let vars = defined(program.code);
    if vars.contains(Variable::Connection) {
        let v = choose|v: int| 0 <= v < vars.len() && vars[v] == Variable::Connection;
        assert(program.holds(v, Variable::Connection));
    }
}

} // verus!
