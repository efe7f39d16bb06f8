//! Generators of Taproot spends.
//!
//! Each generator draws a plan and then writes the code of the plan.

use super::tx::{
    build_child_tx, child_tx_code, close_tx, close_tx_code, lemma_child_tx_spends, lemma_no_spend,
    lemma_tx_spends, open_tx, open_tx_code,
};
use super::{Generator, GeneratorError, GeneratorResult};
use crate::builder::{ConnectionChoice, IndexedVariable, ProgramBuilder};
use crate::ir::{InstructionView, Operation, ProgramView, Variable};
use crate::random::{draw_block, draw_u64, draw_u8, draw_usize, flip};
use crate::tapscript::{
    is_short_annex, is_tapscript, random_annex, random_tapscript, tapscript_leaf_version,
    DEFAULT_LEAF_VERSION,
};
use crate::typing::{
    defined, lemma_only_funding_is_spent, lemma_second_is_spent, lemma_spends_concat,
    lemma_spent_iff, spends, spent, step, unspent,
};
use rand::rngs::StdRng;
use vstd::prelude::*;

verus! {

/// Generates a transaction that pays to a Taproot output and one that spends it
/// by the key path.
#[derive(Clone, Copy, Debug)]
pub struct TaprootKeyPathGenerator;

/// Whether a secret key has a byte other than zero.
pub open spec fn nonzero_key(key: [u8; 32]) -> bool {
    exists|i: int| 0 <= i < 32 && #[trigger] key@[i] != 0
}

/// Whether `key` has a byte other than zero.
pub fn is_nonzero_key(key: &[u8; 32]) -> (r: bool)
    ensures
        r == nonzero_key(*key),
{
    let mut i: usize = 0;
    while i < 32
        invariant
            i <= 32,
            forall|j: int| 0 <= j < i ==> #[trigger] key@[j] == 0,
        decreases 32 - i,
    {
        if key[i] != 0 {
            assert(key@[i as int] != 0);
            return true;
        }
        i += 1;
    }
    false
}

/// How many keys the generator can fill before it cycles: `rand_chacha`, which is
/// behind `StdRng`, counts blocks of 64 bytes in 64 bits, so that its output repeats
/// after 1 ZiB, and a key takes 32 bytes.
pub const KEYS_PER_CYCLE: u128 = 0x2_0000_0000_0000_0000;

/// A random secret key that is not zero.
///
/// Draws until a key is not zero. A generator that gives nothing but zeros for a
/// whole cycle gives nothing else ever after, so that no draw could end the search:
/// it ends with the key one.
pub fn gen_secret_key_bytes(rng: &mut StdRng) -> (r: [u8; 32])
    ensures
        nonzero_key(r),
{
    let mut tries: u128 = KEYS_PER_CYCLE;
    let mut secret: [u8; 32] = draw_block(rng);
    while !is_nonzero_key(&secret) && tries > 0
        decreases tries,
    {
        secret = draw_block(rng);
        tries -= 1;
    }
    if !is_nonzero_key(&secret) {
        secret[31] = 1;
        assert(secret@[31] != 0);
    }
    secret
}

/// The two messages that relay a parent and its child on one connection. `n` is
/// the number of the first variable they may define.
pub open spec fn relay_code(n: int, connection: ConnectionChoice, parent: int, child: int) -> Seq<
    InstructionView,
> {
    connection.code() + seq![
        step(seq![connection.variable(n), parent], Operation::SendTx),
        step(seq![connection.variable(n), child], Operation::SendTx),
    ]
}

/// Sends a parent and its child on one connection.
pub(crate) fn relay(
    builder: &mut ProgramBuilder,
    connection: ConnectionChoice,
    parent: IndexedVariable,
    child: IndexedVariable,
)
    requires
        old(builder).wf(),
        connection.usable_in(old(builder)@),
        old(builder)@.holds(parent.index as int, Variable::ConstTx),
        old(builder)@.holds(child.index as int, Variable::ConstTx),
    ensures
        final(builder).wf(),
        final(builder)@ == old(builder)@.then_code(
            relay_code(
                defined(old(builder)@.code).len() as int,
                connection,
                parent.index as int,
                child.index as int,
            ),
        ),
{
    let connection_var = builder.connect(connection);
    builder.force_append(vec![connection_var.index, parent.index], Operation::SendTx);
    builder.force_append(vec![connection_var.index, child.index], Operation::SendTx);
    assert(builder@.code =~~= old(builder)@.code + relay_code(
        defined(old(builder)@.code).len() as int,
        connection,
        parent.index as int,
        child.index as int,
    ));
}

/// What a [`TaprootKeyPathGenerator`] decides at random.
#[derive(Clone, Copy, Debug)]
pub struct KeyPathPlan {
    pub funding_txo: usize,
    pub secret_key: [u8; 32],
    pub child_amount: u64,
    pub connection: ConnectionChoice,
}

impl KeyPathPlan {
    /// Whether the plan is one the generator can draw for `program`.
    pub open spec fn drawn_from(self, program: ProgramView) -> bool {
        &&& unspent(program.code, self.funding_txo as int)
        &&& nonzero_key(self.secret_key)
        &&& 5_000 <= self.child_amount < 20_000
        &&& self.connection.drawn_from(program)
    }

    /// The code of the plan. `n` is the number of the first variable it defines.
    ///
    /// The parent is variable `n + 13`. It pays 50,000 to a Taproot output without
    /// a script tree, variable `n + 14`, which the child, variable `n + 25`, spends.
    pub open spec fn code(self, n: int) -> Seq<InstructionView> {
        open_tx_code(n, self.funding_txo as int) + seq![
            step(seq![], Operation::BuildTaprootKeypair { secret_key: self.secret_key }),
            step(seq![], Operation::BeginTaprootTree),
            step(seq![n + 8, n + 7], Operation::EndTaprootTree { selected_leaf_index: None }),
            step(seq![n + 9], Operation::BuildPayToTaproot),
        ] + close_tx_code(n + 11, n, n + 10, 50_000) + seq![
            step(seq![n + 13], Operation::TakeTxo),
        ] + child_tx_code(n + 15, n + 14, self.child_amount) + relay_code(
            n + 26,
            self.connection,
            n + 13,
            n + 25,
        )
    }
}

impl TaprootKeyPathGenerator {
    /// Draws a plan; `None` if no output is left to spend.
    pub fn plan(&self, builder: &ProgramBuilder, rng: &mut StdRng) -> (r: Option<KeyPathPlan>)
        requires
            builder.wf(),
            self.ready(builder@),
        ensures
            r is None <==> !builder@.can_fund(),
            r matches Some(plan) ==> plan.drawn_from(builder@),
            r is None ==> *final(rng) == *old(rng),
    {
        let funding_txos = builder.get_random_utxos(rng);
        if funding_txos.is_empty() {
            return None;
        }
        let funding_txo = funding_txos[draw_usize(rng, 0, funding_txos.len())].index;
        let secret_key = gen_secret_key_bytes(rng);
        let child_amount = draw_u64(rng, 5_000, 20_000);
        let connection = builder.choose_connection(rng);
        Some(KeyPathPlan { funding_txo, secret_key, child_amount, connection })
    }

    /// Writes the code of a plan.
    pub fn emit(&self, builder: &mut ProgramBuilder, plan: KeyPathPlan)
        requires
            old(builder).wf(),
            plan.drawn_from(old(builder)@),
        ensures
            final(builder).wf(),
            final(builder)@ == old(builder)@.then_code(
                plan.code(defined(old(builder)@.code).len() as int),
            ),
    {
        let ghost n = defined(builder@.code).len() as int;
        let open = open_tx(builder, plan.funding_txo);
        let keypair_var = builder.force_append_expect_output(
            vec![],
            Operation::BuildTaprootKeypair { secret_key: plan.secret_key },
        );
        let mut_tree_var = builder.force_append_expect_output(vec![], Operation::BeginTaprootTree);
        let spend_info_var = builder.force_append_expect_output(
            vec![mut_tree_var.index, keypair_var.index],
            Operation::EndTaprootTree { selected_leaf_index: None },
        );
        let scripts_var = builder.force_append_expect_output(
            vec![spend_info_var.index],
            Operation::BuildPayToTaproot,
        );
        let parent = close_tx(builder, &open, scripts_var.index, 50_000);
        let produced_txo = builder.force_append_expect_output(
            vec![parent.index],
            Operation::TakeTxo,
        );
        let child = build_child_tx(builder, produced_txo, plan.child_amount);
        relay(builder, plan.connection, parent, child);
        assert(builder@.code =~~= old(builder)@.code + plan.code(n));
    }
}

impl Generator for TaprootKeyPathGenerator {
    open spec fn ready(&self, program: ProgramView) -> bool {
        program.can_fund() ==> program.can_connect()
    }

    fn generate(&self, builder: &mut ProgramBuilder, rng: &mut StdRng) -> (r: GeneratorResult)
        ensures
            !old(builder)@.can_fund() ==> r == Err::<(), GeneratorError>(
                GeneratorError::MissingVariables,
            ),
            old(builder)@.can_fund() ==> r is Ok && exists|plan: KeyPathPlan|
                #[trigger] plan.drawn_from(old(builder)@) && final(builder)@ == old(
                    builder,
                )@.then_code(plan.code(defined(old(builder)@.code).len() as int)),
            r is Err ==> *final(rng) == *old(rng),
    {
        match self.plan(builder, rng) {
            Some(plan) => {
                self.emit(builder, plan);
                Ok(())
            },
            None => Err(GeneratorError::MissingVariables),
        }
    }

    fn name(&self) -> (r: &'static str)
        ensures
            r@ == "TaprootKeyPathGenerator"@,
    {
        "TaprootKeyPathGenerator"
    }
}

/// Generates a transaction that pays to a Taproot output with one leaf script and
/// one that spends it by the script path.
#[derive(Clone, Copy, Debug)]
pub struct TaprootScriptPathGenerator;

impl Default for TaprootKeyPathGenerator {
    fn default() -> (r: Self)
        ensures
            r == TaprootKeyPathGenerator,
    {
        TaprootKeyPathGenerator
    }
}

impl Default for TaprootScriptPathGenerator {
    fn default() -> (r: Self)
        ensures
            r == TaprootScriptPathGenerator,
    {
        TaprootScriptPathGenerator
    }
}

/// The code that gives the output `txo` an annex, if there is one to give. `n` is
/// the number of the first variable it may define.
pub open spec fn annex_code(n: int, txo: int, annex: Option<Seq<u8>>) -> Seq<InstructionView> {
    match annex {
        Some(annex) => seq![
            step(seq![], Operation::LoadTaprootAnnex { annex }),
            step(seq![txo, n], Operation::TaprootTxoUseAnnex),
        ],
        None => seq![],
    }
}

/// The types of the variables that [`annex_code`] defines.
pub open spec fn annex_vars(annex: Option<Seq<u8>>) -> Seq<Variable> {
    match annex {
        Some(_) => seq![Variable::TaprootAnnex, Variable::Txo],
        None => seq![],
    }
}

/// The number of the output to spend after [`annex_code`].
pub open spec fn annexed(n: int, txo: int, annex: Option<Seq<u8>>) -> int {
    match annex {
        Some(_) => n + 1,
        None => txo,
    }
}

/// The bytes of an annex, if there is one.
pub open spec fn annex_view(annex: Option<Vec<u8>>) -> Option<Seq<u8>> {
    match annex {
        Some(annex) => Some(annex@),
        None => None,
    }
}

/// Gives the output `txo_var` an annex, if there is one to give, and returns the
/// output to spend.
pub fn attach_annex(
    builder: &mut ProgramBuilder,
    txo_var: IndexedVariable,
    annex: Option<Vec<u8>>,
) -> (r: IndexedVariable)
    requires
        old(builder).wf(),
        old(builder)@.holds(txo_var.index as int, Variable::Txo),
        txo_var.var == Variable::Txo,
    ensures
        final(builder).wf(),
        final(builder)@ == old(builder)@.then_code(
            annex_code(
                defined(old(builder)@.code).len() as int,
                txo_var.index as int,
                annex_view(annex),
            ),
        ),
        defined(final(builder)@.code) == defined(old(builder)@.code) + annex_vars(
            annex_view(annex),
        ),
        r.index == annexed(
            defined(old(builder)@.code).len() as int,
            txo_var.index as int,
            annex_view(annex),
        ),
        r.var == Variable::Txo,
        final(builder)@.holds(r.index as int, Variable::Txo),
{
    let ghost n = defined(builder@.code).len() as int;
    let ghost given = annex_view(annex);
    let r = match annex {
        None => txo_var,
        Some(annex) => {
            let annex_var = builder.force_append_expect_output(
                vec![],
                Operation::LoadTaprootAnnex { annex },
            );
            builder.force_append_expect_output(
                vec![txo_var.index, annex_var.index],
                Operation::TaprootTxoUseAnnex,
            )
        },
    };
    assert(builder@.code =~~= old(builder)@.code + annex_code(n, txo_var.index as int, given));
    assert(defined(builder@.code) =~= defined(old(builder)@.code) + annex_vars(given));
    r
}

/// A random annex if one is wanted.
pub fn annex_if(rng: &mut StdRng, wanted: bool) -> (r: Option<Vec<u8>>)
    ensures
        r is Some <==> wanted,
        r matches Some(annex) ==> is_short_annex(annex@),
{
    if wanted {
        Some(random_annex(rng))
    } else {
        None
    }
}

/// An annex, or none, with equal chances: [`annex_if`] of a coin flip.
pub fn maybe_annex(rng: &mut StdRng) -> (r: Option<Vec<u8>>)
    ensures
        r matches Some(annex) ==> is_short_annex(annex@),
{
    let wanted = flip(rng);
    annex_if(rng, wanted)
}

/// A random leaf depth. With `ensure_depth` the leaf is deep enough for a long
/// merkle branch.
pub fn random_leaf_depth(rng: &mut StdRng, ensure_depth: bool) -> (r: u8)
    ensures
        r <= 5,
        ensure_depth ==> 3 <= r,
{
    if ensure_depth {
        draw_u8(rng, 3, 6)
    } else {
        draw_u8(rng, 0, 6)
    }
}

/// A transaction that pays 60,000 to a Taproot output with one leaf, and that
/// output. `n` is the number of the first variable it defines; the transaction is
/// `n + 15` and the output `n + 16`.
pub open spec fn script_parent_code(
    n: int,
    funding: int,
    secret_key: [u8; 32],
    script: Seq<u8>,
    depth: u8,
) -> Seq<InstructionView> {
    open_tx_code(n, funding) + seq![
        step(seq![], Operation::BuildTaprootKeypair { secret_key }),
        step(seq![], Operation::BeginTaprootTree),
        step(seq![], Operation::LoadBytes(script)),
        step(seq![], Operation::LoadTaprootLeafVersion(DEFAULT_LEAF_VERSION)),
        step(seq![n + 8, n + 9, n + 10], Operation::AddTapLeaf { depth }),
        step(seq![n + 8, n + 7], Operation::EndTaprootTree { selected_leaf_index: Some(0) }),
        step(seq![n + 11], Operation::BuildPayToTaproot),
    ] + close_tx_code(n + 13, n, n + 12, 60_000) + seq![step(seq![n + 15], Operation::TakeTxo)]
}

/// What a [`TaprootScriptPathGenerator`] decides at random.
#[derive(Clone, Debug)]
pub struct ScriptPathPlan {
    pub funding_txo: usize,
    pub secret_key: [u8; 32],
    pub script: Vec<u8>,
    pub depth: u8,
    pub annex: Option<Vec<u8>>,
    pub child_amount: u64,
    pub connection: ConnectionChoice,
}

impl ScriptPathPlan {
    /// Whether the plan is one the generator can draw for `program`.
    pub open spec fn drawn_from(self, program: ProgramView) -> bool {
        &&& unspent(program.code, self.funding_txo as int)
        &&& nonzero_key(self.secret_key)
        &&& is_tapscript(self.script@)
        &&& self.depth <= 5
        &&& annex_view(self.annex) matches Some(annex) ==> is_short_annex(annex)
        &&& 5_000 <= self.child_amount < 20_000
        &&& self.connection.drawn_from(program)
    }

    /// The number of the output that the child spends.
    pub open spec fn spent_txo(self, n: int) -> int {
        annexed(n + 17, n + 16, annex_view(self.annex))
    }

    /// The number of the first variable of the child.
    pub open spec fn child_start(self, n: int) -> int {
        n + 17 + annex_vars(annex_view(self.annex)).len()
    }

    /// The code of the plan. `n` is the number of the first variable it defines.
    ///
    /// The child spends the parent's output, with the annex if there is one.
    pub open spec fn code(self, n: int) -> Seq<InstructionView> {
        let child = self.child_start(n);
        script_parent_code(
            n,
            self.funding_txo as int,
            self.secret_key,
            self.script@,
            self.depth,
        ) + annex_code(n + 17, n + 16, annex_view(self.annex)) + child_tx_code(
            child,
            self.spent_txo(n),
            self.child_amount,
        ) + relay_code(child + 11, self.connection, n + 15, child + 10)
    }
}

impl TaprootScriptPathGenerator {
    /// Draws a plan; `None` if no output is left to spend.
    pub fn plan(&self, builder: &ProgramBuilder, rng: &mut StdRng) -> (r: Option<ScriptPathPlan>)
        requires
            builder.wf(),
            self.ready(builder@),
        ensures
            r is None <==> !builder@.can_fund(),
            r matches Some(plan) ==> plan.drawn_from(builder@),
            r is None ==> *final(rng) == *old(rng),
    {
        let funding_txos = builder.get_random_utxos(rng);
        if funding_txos.is_empty() {
            return None;
        }
        let funding_txo = funding_txos[draw_usize(rng, 0, funding_txos.len())].index;
        let secret_key = gen_secret_key_bytes(rng);
        let script = random_tapscript(rng);
        let depth = random_leaf_depth(rng, false);
        let annex = maybe_annex(rng);
        let child_amount = draw_u64(rng, 5_000, 20_000);
        let connection = builder.choose_connection(rng);
        Some(
            ScriptPathPlan {
                funding_txo,
                secret_key,
                script,
                depth,
                annex,
                child_amount,
                connection,
            },
        )
    }

    /// Writes the parent and returns it with the output it makes.
    fn emit_parent(
        &self,
        builder: &mut ProgramBuilder,
        funding_txo: usize,
        secret_key: [u8; 32],
        script: Vec<u8>,
        depth: u8,
    ) -> (r: (IndexedVariable, IndexedVariable))
        requires
            old(builder).wf(),
            old(builder)@.holds(funding_txo as int, Variable::Txo),
        ensures
            final(builder).wf(),
            final(builder)@ == old(builder)@.then_code(
                script_parent_code(
                    defined(old(builder)@.code).len() as int,
                    funding_txo as int,
                    secret_key,
                    script@,
                    depth,
                ),
            ),
            defined(old(builder)@.code).is_prefix_of(defined(final(builder)@.code)),
            defined(final(builder)@.code).len() == defined(old(builder)@.code).len() + 17,
            r.0.index == defined(old(builder)@.code).len() + 15,
            r.1.index == defined(old(builder)@.code).len() + 16,
            r.1.var == Variable::Txo,
            final(builder)@.holds(r.0.index as int, Variable::ConstTx),
            final(builder)@.holds(r.1.index as int, Variable::Txo),
    {
        let ghost n = defined(builder@.code).len() as int;
        let ghost given_script = script@;
        let open = open_tx(builder, funding_txo);
        let keypair_var = builder.force_append_expect_output(
            vec![],
            Operation::BuildTaprootKeypair { secret_key },
        );
        let mut_tree_var = builder.force_append_expect_output(vec![], Operation::BeginTaprootTree);
        let script_var = builder.force_append_expect_output(vec![], Operation::LoadBytes(script));
        let version_var = builder.force_append_expect_output(
            vec![],
            Operation::LoadTaprootLeafVersion(tapscript_leaf_version()),
        );
        builder.force_append(
            vec![mut_tree_var.index, script_var.index, version_var.index],
            Operation::AddTapLeaf { depth },
        );
        let spend_info_var = builder.force_append_expect_output(
            vec![mut_tree_var.index, keypair_var.index],
            Operation::EndTaprootTree { selected_leaf_index: Some(0) },
        );
        let scripts_var = builder.force_append_expect_output(
            vec![spend_info_var.index],
            Operation::BuildPayToTaproot,
        );
        let parent = close_tx(builder, &open, scripts_var.index, 60_000);
        let produced_txo = builder.force_append_expect_output(
            vec![parent.index],
            Operation::TakeTxo,
        );
        assert(builder@.code =~~= old(builder)@.code + script_parent_code(
            n,
            funding_txo as int,
            secret_key,
            given_script,
            depth,
        ));
        (parent, produced_txo)
    }

    /// Writes the code of a plan.
    pub fn emit(&self, builder: &mut ProgramBuilder, plan: ScriptPathPlan)
        requires
            old(builder).wf(),
            plan.drawn_from(old(builder)@),
        ensures
            final(builder).wf(),
            final(builder)@ == old(builder)@.then_code(
                plan.code(defined(old(builder)@.code).len() as int),
            ),
    {
        let ghost n = defined(builder@.code).len() as int;
        let ghost given = plan;
        let (parent, produced_txo) = self.emit_parent(
            builder,
            plan.funding_txo,
            plan.secret_key,
            plan.script,
            plan.depth,
        );
        let spend_txo = attach_annex(builder, produced_txo, plan.annex);
        let child = build_child_tx(builder, spend_txo, plan.child_amount);
        relay(builder, plan.connection, parent, child);
        assert(builder@.code =~= old(builder)@.code + given.code(n));
    }
}

impl Generator for TaprootScriptPathGenerator {
    open spec fn ready(&self, program: ProgramView) -> bool {
        program.can_fund() ==> program.can_connect()
    }

    fn generate(&self, builder: &mut ProgramBuilder, rng: &mut StdRng) -> (r: GeneratorResult)
        ensures
            !old(builder)@.can_fund() ==> r == Err::<(), GeneratorError>(
                GeneratorError::MissingVariables,
            ),
            old(builder)@.can_fund() ==> r is Ok && exists|plan: ScriptPathPlan|
                #[trigger] plan.drawn_from(old(builder)@) && final(builder)@ == old(
                    builder,
                )@.then_code(plan.code(defined(old(builder)@.code).len() as int)),
            r is Err ==> *final(rng) == *old(rng),
    {
        match self.plan(builder, rng) {
            Some(plan) => {
                let ghost drawn = plan;
                self.emit(builder, plan);
                assert(drawn.drawn_from(old(builder)@));
                Ok(())
            },
            None => Err(GeneratorError::MissingVariables),
        }
    }

    fn name(&self) -> (r: &'static str)
        ensures
            r@ == "TaprootScriptPathGenerator"@,
    {
        "TaprootScriptPathGenerator"
    }
}

/// A key path spend takes its funding, and no other output, from those that were
/// left to spend, and it spends the output it makes.
pub proof fn law_key_path_spends_its_funding(plan: KeyPathPlan, program: ProgramView, v: int)
    requires
        plan.drawn_from(program),
        0 <= v < defined(program.code).len(),
    ensures
        ({
            let n = defined(program.code).len() as int;
            let after = program.then_code(plan.code(n)).code;
            &&& unspent(after, v) <==> unspent(program.code, v) && v != plan.funding_txo
            &&& spent(after, n + 14)
        }),
{
    let n = defined(program.code).len() as int;
    let funding = plan.funding_txo as int;
    let p1 = open_tx_code(n, funding);
    let p2 = seq![
        step(seq![], Operation::BuildTaprootKeypair { secret_key: plan.secret_key }),
        step(seq![], Operation::BeginTaprootTree),
        step(seq![n + 8, n + 7], Operation::EndTaprootTree { selected_leaf_index: None }),
        step(seq![n + 9], Operation::BuildPayToTaproot),
    ];
    let p3 = close_tx_code(n + 11, n, n + 10, 50_000);
    let p4 = seq![step(seq![n + 13], Operation::TakeTxo)];
    let p5 = child_tx_code(n + 15, n + 14, plan.child_amount);
    let p6 = relay_code(n + 26, plan.connection, n + 13, n + 25);
    lemma_tx_spends(n, funding, n, n + 10, 50_000);
    lemma_tx_spends(n + 11, funding, n, n + 10, 50_000);
    lemma_no_spend(p2);
    lemma_no_spend(p4);
    lemma_child_tx_spends(n + 15, n + 14, plan.child_amount);
    lemma_no_spend(p6);
    lemma_spends_concat(p1, p2);
    lemma_spends_concat(p1 + p2, p3);
    lemma_spends_concat(p1 + p2 + p3, p4);
    lemma_spends_concat(p1 + p2 + p3 + p4, p5);
    lemma_spends_concat(p1 + p2 + p3 + p4 + p5, p6);
    assert(spends(plan.code(n)) =~= seq![funding, n + 14]);
    lemma_only_funding_is_spent(program.code, plan.code(n), funding, n + 14, v);
    lemma_second_is_spent(program.code, plan.code(n), funding, n + 14);
}

/// A script path spend takes its funding, and no other output, from those that
/// were left to spend, and it spends the output it makes.
pub proof fn law_script_path_spends_its_funding(plan: ScriptPathPlan, program: ProgramView, v: int)
    requires
        plan.drawn_from(program),
        0 <= v < defined(program.code).len(),
    ensures
        ({
            let n = defined(program.code).len() as int;
            let after = program.then_code(plan.code(n)).code;
            &&& unspent(after, v) <==> unspent(program.code, v) && v != plan.funding_txo
            &&& spent(after, plan.spent_txo(n))
        }),
{
    let n = defined(program.code).len() as int;
    let funding = plan.funding_txo as int;
    let annex = annex_view(plan.annex);
    let child = plan.child_start(n);
    let p0 = open_tx_code(n, funding);
    let p1 = seq![
        step(seq![], Operation::BuildTaprootKeypair { secret_key: plan.secret_key }),
        step(seq![], Operation::BeginTaprootTree),
        step(seq![], Operation::LoadBytes(plan.script@)),
        step(seq![], Operation::LoadTaprootLeafVersion(DEFAULT_LEAF_VERSION)),
        step(seq![n + 8, n + 9, n + 10], Operation::AddTapLeaf { depth: plan.depth }),
        step(seq![n + 8, n + 7], Operation::EndTaprootTree { selected_leaf_index: Some(0) }),
        step(seq![n + 11], Operation::BuildPayToTaproot),
    ];
    let p2 = close_tx_code(n + 13, n, n + 12, 60_000);
    let p3 = seq![step(seq![n + 15], Operation::TakeTxo)];
    let p4 = annex_code(n + 17, n + 16, annex);
    let p5 = child_tx_code(child, plan.spent_txo(n), plan.child_amount);
    let p6 = relay_code(child + 11, plan.connection, n + 15, child + 10);
    lemma_tx_spends(n, funding, n, n + 12, 60_000);
    lemma_tx_spends(n + 13, funding, n, n + 12, 60_000);
    lemma_no_spend(p1);
    lemma_no_spend(p3);
    lemma_no_spend(p4);
    lemma_child_tx_spends(child, plan.spent_txo(n), plan.child_amount);
    lemma_no_spend(p6);
    lemma_spends_concat(p0, p1);
    lemma_spends_concat(p0 + p1, p2);
    lemma_spends_concat(p0 + p1 + p2, p3);
    lemma_spends_concat(p0 + p1 + p2 + p3, p4);
    lemma_spends_concat(p0 + p1 + p2 + p3 + p4, p5);
    lemma_spends_concat(p0 + p1 + p2 + p3 + p4 + p5, p6);
    assert(spends(plan.code(n)) =~= seq![funding, plan.spent_txo(n)]);
    lemma_only_funding_is_spent(program.code, plan.code(n), funding, plan.spent_txo(n), v);
    lemma_second_is_spent(program.code, plan.code(n), funding, plan.spent_txo(n));
}

/// What a key path spend can draw: an output that the program has and does not spend,
/// any key but zero, and any amount from 5,000 up to 20,000.
pub proof fn law_key_path_plans(plan: KeyPathPlan, program: ProgramView)
    ensures
        plan.drawn_from(program) <==> {
            let vars = defined(program.code);
            &&& plan.funding_txo < vars.len() && vars[plan.funding_txo as int] == Variable::Txo
            &&& !spends(program.code).contains(plan.funding_txo as int)
            &&& plan.secret_key@ != Seq::new(32, |i: int| 0u8)
            &&& 5_000 <= plan.child_amount <= 19_999
            &&& plan.connection.drawn_from(program)
        },
{
    lemma_spent_iff(program.code, plan.funding_txo as int);
    lemma_nonzero_key(plan.secret_key);
}

/// What a script path spend can draw: what a key path spend can, and a leaf script at a
/// depth up to five, with an annex or without.
pub proof fn law_script_path_plans(plan: ScriptPathPlan, program: ProgramView)
    ensures
        plan.drawn_from(program) <==> {
            let vars = defined(program.code);
            &&& plan.funding_txo < vars.len() && vars[plan.funding_txo as int] == Variable::Txo
            &&& !spends(program.code).contains(plan.funding_txo as int)
            &&& plan.secret_key@ != Seq::new(32, |i: int| 0u8)
            &&& is_tapscript(plan.script@)
            &&& 0 <= plan.depth <= 5
            &&& plan.annex is Some ==> is_short_annex(plan.annex->0@)
            &&& 5_000 <= plan.child_amount <= 19_999
            &&& plan.connection.drawn_from(program)
        },
{
    lemma_spent_iff(program.code, plan.funding_txo as int);
    lemma_nonzero_key(plan.secret_key);
}

/// A key is not zero exactly if it is not all zeros.
pub proof fn lemma_nonzero_key(key: [u8; 32])
    ensures
        nonzero_key(key) <==> key@ != Seq::new(32, |i: int| 0u8),
{
    if !nonzero_key(key) {
        assert(key@ =~= Seq::new(32, |i: int| 0u8));
    }
}

} // verus!
