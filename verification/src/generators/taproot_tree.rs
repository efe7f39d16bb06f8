//! A generator of Taproot trees with several leaves and hidden nodes.

use super::taproot::{
    annex_code, annex_vars, annex_view, annexed, attach_annex, gen_secret_key_bytes,
    lemma_nonzero_key, maybe_annex, nonzero_key, random_leaf_depth, relay, relay_code,
};
use super::tx::{
    build_single_output_tx, lemma_no_spend, lemma_single_output_tx_spends, single_output_tx_code,
};
use super::{Generator, GeneratorError, GeneratorResult};
use crate::builder::{ConnectionChoice, ProgramBuilder};
use crate::ir::{duplicate_bytes, InstructionView, Operation, ProgramView, Variable};
use crate::random::{choose_item, draw_block, draw_u32, draw_u8, draw_usize, flip};
use crate::tapscript::{
    is_non_default_version, is_short_annex, is_tapscript, pick_strict_non_default_version,
    random_leaf_version, random_tapscript, DEFAULT_LEAF_VERSION,
};
use crate::typing::{
    defined, lemma_defined_prefix, lemma_only_funding_is_spent, lemma_second_is_spent,
    lemma_spends_concat, lemma_spent_iff, spends, spent, step, unspent,
};
use rand::rngs::StdRng;
use vstd::prelude::*;

verus! {

/// Builds a Taproot tree with several leaves and spends it by one of them.
#[derive(Clone, Copy, Debug)]
pub struct TaprootTreeSpendGenerator;

impl Default for TaprootTreeSpendGenerator {
    fn default() -> (r: Self)
        ensures
            r == TaprootTreeSpendGenerator,
    {
        TaprootTreeSpendGenerator
    }
}

/// The value of the parent's output: 80,000 less the fee of 500 it leaves.
pub const PARENT_VALUE: u64 = 79_500;

/// The value of the child's output, a further 500 less.
pub const CHILD_VALUE: u64 = 79_000;

/// A node of which only the hash is known.
#[derive(Clone, Copy, Debug)]
pub struct HiddenNode {
    pub depth: u8,
    pub hash: [u8; 32],
}

/// A leaf, and the hidden nodes that come before it.
#[derive(Clone, Debug)]
pub struct LeafPlan {
    pub hidden: Vec<HiddenNode>,
    pub script: Vec<u8>,
    pub version: u8,
    pub depth: u8,
}

/// The model of a [`LeafPlan`].
#[verifier::ext_equal]
pub struct LeafView {
    pub hidden: Seq<HiddenNode>,
    pub script: Seq<u8>,
    pub version: u8,
    pub depth: u8,
}

impl View for LeafPlan {
    type V = LeafView;

    open spec fn view(&self) -> LeafView {
        LeafView {
            hidden: self.hidden@,
            script: self.script@,
            version: self.version,
            depth: self.depth,
        }
    }
}

impl LeafView {
    /// Whether the leaf is one the generator can draw.
    pub open spec fn drawable(self) -> bool {
        &&& self.hidden.len() <= 2
        &&& forall|k: int| 0 <= k < self.hidden.len() ==> 1 <= (#[trigger] self.hidden[k]).depth <= 3
        &&& is_tapscript(self.script)
        &&& self.version == DEFAULT_LEAF_VERSION || is_non_default_version(self.version)
        &&& self.depth <= 5
    }
}

/// The models of a list of leaves.
pub open spec fn leaf_views(leaves: Seq<LeafPlan>) -> Seq<LeafView> {
    leaves.map_values(|leaf: LeafPlan| leaf@)
}

/// The code that adds hidden nodes to the tree.
pub open spec fn hidden_code(tree: int, nodes: Seq<HiddenNode>) -> Seq<InstructionView> {
    nodes.map_values(
        |node: HiddenNode|
            step(
                seq![tree],
                Operation::AddTaprootHiddenNode { depth: node.depth, hash: node.hash },
            ),
    )
}

/// The code that adds one leaf to the tree. `n` is the number of the first of the
/// two variables it defines.
pub open spec fn leaf_code(tree: int, n: int, leaf: LeafView) -> Seq<InstructionView> {
    hidden_code(tree, leaf.hidden) + seq![
        step(seq![], Operation::LoadBytes(leaf.script)),
        step(seq![], Operation::LoadTaprootLeafVersion(leaf.version)),
        step(seq![tree, n, n + 1], Operation::AddTapLeaf { depth: leaf.depth }),
    ]
}

/// The code that adds the leaves to the tree, in order. `n` is the number of the
/// first variable it defines.
pub open spec fn leaves_code(tree: int, n: int, leaves: Seq<LeafView>) -> Seq<InstructionView>
    decreases leaves.len(),
{
    if leaves.len() == 0 {
        seq![]
    } else {
        leaves_code(tree, n, leaves.drop_last()) + leaf_code(
            tree,
            n + 2 * (leaves.len() - 1),
            leaves.last(),
        )
    }
}

/// The depth of the deepest leaf.
pub open spec fn deepest(leaves: Seq<LeafView>) -> u8
    decreases leaves.len(),
{
    if leaves.len() == 0 {
        0
    } else if deepest(leaves.drop_last()) > leaves.last().depth {
        deepest(leaves.drop_last())
    } else {
        leaves.last().depth
    }
}

/// The hidden nodes of an optional one.
pub open spec fn deep_nodes(node: Option<HiddenNode>) -> Seq<HiddenNode> {
    match node {
        Some(node) => seq![node],
        None => seq![],
    }
}

/// The sibling that hides near the deepest leaf: a node one level above it with
/// the given hash. There is none without a hash, and none where the tree is too
/// shallow.
pub fn deep_hidden_node(deepest_leaf_depth: u8, hash: Option<[u8; 32]>) -> (r: Option<HiddenNode>)
    ensures
        r is Some <==> hash is Some && deepest_leaf_depth > 1,
        r matches Some(node) ==> node == (HiddenNode {
            depth: (deepest_leaf_depth - 1) as u8,
            hash: hash->0,
        }),
{
    if deepest_leaf_depth <= 1 {
        return None;
    }
    match hash {
        Some(hash) => Some(HiddenNode { depth: deepest_leaf_depth - 1, hash }),
        None => None,
    }
}

/// What a [`TaprootTreeSpendGenerator`] decides at random.
#[derive(Clone, Debug)]
pub struct TreeSpendPlan {
    pub funding_txo: usize,
    pub leaves: Vec<LeafPlan>,
    pub deep_node: Option<HiddenNode>,
    pub secret_key: [u8; 32],
    pub annex: Option<Vec<u8>>,
    pub connection: ConnectionChoice,
}

/// Whether a tree is one the generator can draw: two to four leaves, the first of
/// them deep, and at least one of a version other than the default.
pub open spec fn drawable_tree(leaves: Seq<LeafView>) -> bool {
    &&& 2 <= leaves.len() <= 4
    &&& forall|k: int| 0 <= k < leaves.len() ==> (#[trigger] leaves[k]).drawable()
    &&& 3 <= leaves[0].depth
    &&& exists|k: int|
        0 <= k < leaves.len() && is_non_default_version((#[trigger] leaves[k]).version)
}

impl TreeSpendPlan {
    /// Whether the plan is one the generator can draw for `program`.
    pub open spec fn drawn_from(self, program: ProgramView) -> bool {
        &&& unspent(program.code, self.funding_txo as int)
        &&& drawable_tree(leaf_views(self.leaves@))
        &&& self.deep_node matches Some(node) ==> node.depth == deepest(leaf_views(self.leaves@))
            - 1
        &&& nonzero_key(self.secret_key)
        &&& annex_view(self.annex) matches Some(annex) ==> is_short_annex(annex)
        &&& self.connection.drawn_from(program)
    }

    /// The number of the keypair, the first variable behind the leaves.
    pub open spec fn keypair(self, n: int) -> int {
        n + 1 + 2 * self.leaves@.len()
    }

    /// The code of the tree and of the scripts that pay to it. The tree is
    /// variable `n`, the scripts are variable `keypair(n) + 2`.
    pub open spec fn tree_code(self, n: int) -> Seq<InstructionView> {
        let key = self.keypair(n);
        seq![step(seq![], Operation::BeginTaprootTree)] + leaves_code(
            n,
            n + 1,
            leaf_views(self.leaves@),
        ) + hidden_code(n, deep_nodes(self.deep_node)) + seq![
            step(seq![], Operation::BuildTaprootKeypair { secret_key: self.secret_key }),
            step(seq![n, key], Operation::EndTaprootTree { selected_leaf_index: Some(1) }),
            step(seq![key + 1], Operation::BuildPayToTaproot),
        ]
    }

    /// The number of the parent.
    pub open spec fn parent(self, n: int) -> int {
        self.keypair(n) + 12
    }

    /// The number of the output that the child spends.
    pub open spec fn spent_txo(self, n: int) -> int {
        annexed(self.parent(n) + 2, self.parent(n) + 1, annex_view(self.annex))
    }

    /// The number of the scripts that the child pays to.
    pub open spec fn child_scripts(self, n: int) -> int {
        self.parent(n) + 2 + annex_vars(annex_view(self.annex)).len()
    }

    /// The number of the child.
    pub open spec fn child(self, n: int) -> int {
        self.child_scripts(n) + 10
    }

    /// The code of the plan. `n` is the number of the first variable it defines.
    ///
    /// The parent pays to the tree; the child spends that output, with the annex if
    /// there is one, and pays to an anchor.
    pub open spec fn code(self, n: int) -> Seq<InstructionView> {
        let key = self.keypair(n);
        let parent = self.parent(n);
        let scripts = self.child_scripts(n);
        self.tree_code(n) + single_output_tx_code(
            key + 3,
            self.funding_txo as int,
            key + 2,
            PARENT_VALUE,
        ) + seq![step(seq![parent], Operation::TakeTxo)] + annex_code(
            parent + 2,
            parent + 1,
            annex_view(self.annex),
        ) + seq![step(seq![], Operation::BuildPayToAnchor)] + single_output_tx_code(
            scripts + 1,
            self.spent_txo(n),
            scripts,
            CHILD_VALUE,
        ) + relay_code(self.child(n) + 1, self.connection, parent, self.child(n))
    }
}

/// Adds hidden nodes to the tree.
pub fn add_hidden_nodes(
    builder: &mut ProgramBuilder,
    tree_var_index: usize,
    nodes: &[HiddenNode],
)
    requires
        old(builder).wf(),
        old(builder)@.holds(tree_var_index as int, Variable::MutTaprootTree),
    ensures
        final(builder).wf(),
        final(builder)@ == old(builder)@.then_code(hidden_code(tree_var_index as int, nodes@)),
        defined(final(builder)@.code) == defined(old(builder)@.code),
{
    let ghost tree = tree_var_index as int;
    let mut k: usize = 0;
    assert(builder@.code =~= old(builder)@.code + hidden_code(tree, nodes@.take(0)));
    while k < nodes.len()
        invariant
            k <= nodes@.len(),
            tree == tree_var_index,
            builder.wf(),
            builder@.context == old(builder)@.context,
            builder@.code == old(builder)@.code + hidden_code(tree, nodes@.take(k as int)),
            defined(builder@.code) == defined(old(builder)@.code),
            old(builder)@.holds(tree, Variable::MutTaprootTree),
        decreases nodes@.len() - k,
    {
        builder.force_append(
            vec![tree_var_index],
            Operation::AddTaprootHiddenNode { depth: nodes[k].depth, hash: nodes[k].hash },
        );
        assert(defined(builder@.code) =~= defined(old(builder)@.code));
        k += 1;
        assert(builder@.code =~~= old(builder)@.code + hidden_code(tree, nodes@.take(k as int)));
    }
    assert(nodes@.take(k as int) =~= nodes@);
}

/// Adds one leaf, and the hidden nodes before it, to the tree.
fn add_leaf(builder: &mut ProgramBuilder, tree_var_index: usize, leaf: &LeafPlan)
    requires
        old(builder).wf(),
        old(builder)@.holds(tree_var_index as int, Variable::MutTaprootTree),
    ensures
        final(builder).wf(),
        final(builder)@ == old(builder)@.then_code(
            leaf_code(
                tree_var_index as int,
                defined(old(builder)@.code).len() as int,
                leaf@,
            ),
        ),
        defined(final(builder)@.code) == defined(old(builder)@.code) + seq![
            Variable::Bytes,
            Variable::TaprootLeafVersion,
        ],
{
    let ghost n = defined(builder@.code).len() as int;
    add_hidden_nodes(builder, tree_var_index, leaf.hidden.as_slice());
    let script_var = builder.force_append_expect_output(
        vec![],
        Operation::LoadBytes(duplicate_bytes(&leaf.script)),
    );
    let version_var = builder.force_append_expect_output(
        vec![],
        Operation::LoadTaprootLeafVersion(leaf.version),
    );
    builder.force_append(
        vec![tree_var_index, script_var.index, version_var.index],
        Operation::AddTapLeaf { depth: leaf.depth },
    );
    assert(builder@.code =~~= old(builder)@.code + leaf_code(tree_var_index as int, n, leaf@));
    assert(defined(builder@.code) =~= defined(old(builder)@.code) + seq![
        Variable::Bytes,
        Variable::TaprootLeafVersion,
    ]);
}

/// Adds the leaves to the tree, in order.
fn add_leaves(builder: &mut ProgramBuilder, tree_var_index: usize, leaves: &[LeafPlan])
    requires
        old(builder).wf(),
        old(builder)@.holds(tree_var_index as int, Variable::MutTaprootTree),
    ensures
        final(builder).wf(),
        final(builder)@ == old(builder)@.then_code(
            leaves_code(
                tree_var_index as int,
                defined(old(builder)@.code).len() as int,
                leaf_views(leaves@),
            ),
        ),
        defined(old(builder)@.code).is_prefix_of(defined(final(builder)@.code)),
        defined(final(builder)@.code).len() == defined(old(builder)@.code).len() + 2
            * leaves@.len(),
{
    let ghost tree = tree_var_index as int;
    let ghost n = defined(builder@.code).len() as int;
    let ghost views = leaf_views(leaves@);
    let mut k: usize = 0;
    assert(builder@.code =~= old(builder)@.code + leaves_code(tree, n, views.take(0)));
    while k < leaves.len()
        invariant
            k <= leaves@.len(),
            tree == tree_var_index,
            n == defined(old(builder)@.code).len(),
            views == leaf_views(leaves@),
            builder.wf(),
            builder@.context == old(builder)@.context,
            builder@.code == old(builder)@.code + leaves_code(tree, n, views.take(k as int)),
            defined(old(builder)@.code).is_prefix_of(defined(builder@.code)),
            defined(builder@.code).len() == n + 2 * k,
            old(builder)@.holds(tree, Variable::MutTaprootTree),
        decreases leaves@.len() - k,
    {
        proof {
            assert(views.take(k + 1).drop_last() =~= views.take(k as int));
            assert(views.take(k + 1).last() == leaves@[k as int]@);
        }
        add_leaf(builder, tree_var_index, &leaves[k]);
        k += 1;
        assert(builder@.code =~= old(builder)@.code + leaves_code(tree, n, views.take(k as int)));
    }
    assert(views.take(k as int) =~= views);
}

impl TaprootTreeSpendGenerator {
    /// Writes the tree and returns the scripts that pay to it.
    fn emit_tree(&self, builder: &mut ProgramBuilder, plan: &TreeSpendPlan) -> (r: usize)
        requires
            old(builder).wf(),
        ensures
            final(builder).wf(),
            final(builder)@ == old(builder)@.then_code(
                plan.tree_code(defined(old(builder)@.code).len() as int),
            ),
            defined(old(builder)@.code).is_prefix_of(defined(final(builder)@.code)),
            defined(final(builder)@.code).len() == plan.keypair(
                defined(old(builder)@.code).len() as int,
            ) + 3,
            r == plan.keypair(defined(old(builder)@.code).len() as int) + 2,
            final(builder)@.holds(r as int, Variable::Scripts),
    {
        let ghost n = defined(builder@.code).len() as int;
        let mut_tree_var = builder.force_append_expect_output(vec![], Operation::BeginTaprootTree);
        let ghost vars = defined(builder@.code);
        add_leaves(builder, mut_tree_var.index, plan.leaves.as_slice());
        assert(defined(builder@.code).take(vars.len() as int)[n] == vars[n]);
        let deep: Vec<HiddenNode> = match plan.deep_node {
            Some(node) => vec![node],
            None => vec![],
        };
        assert(deep@ =~= deep_nodes(plan.deep_node));
        add_hidden_nodes(builder, mut_tree_var.index, deep.as_slice());
        let keypair_var = builder.force_append_expect_output(
            vec![],
            Operation::BuildTaprootKeypair { secret_key: plan.secret_key },
        );
        let spend_info_var = builder.force_append_expect_output(
            vec![mut_tree_var.index, keypair_var.index],
            Operation::EndTaprootTree { selected_leaf_index: Some(1) },
        );
        let scripts_var = builder.force_append_expect_output(
            vec![spend_info_var.index],
            Operation::BuildPayToTaproot,
        );
        proof {
            assert(builder@.code =~~= old(builder)@.code + plan.tree_code(n));
            lemma_defined_prefix(old(builder)@.code, plan.tree_code(n));
        }
        scripts_var.index
    }

    /// Writes the code of a plan.
    pub fn emit(&self, builder: &mut ProgramBuilder, plan: TreeSpendPlan)
        requires
            old(builder).wf(),
            plan.drawn_from(old(builder)@),
        ensures
            final(builder).wf(),
            final(builder)@ == old(builder)@.then_code(
                plan.code(defined(old(builder)@.code).len() as int),
            ),
    {
        let ghost n = defined(builder@.code).len() as int;
        let ghost given = plan;
        let scripts = self.emit_tree(builder, &plan);
        let parent = build_single_output_tx(builder, plan.funding_txo, scripts, PARENT_VALUE);
        let produced_txo = builder.force_append_expect_output(
            vec![parent.index],
            Operation::TakeTxo,
        );
        let spend_txo = attach_annex(builder, produced_txo, plan.annex);
        let child_scripts = builder.force_append_expect_output(vec![], Operation::BuildPayToAnchor);
        let child = build_single_output_tx(
            builder,
            spend_txo.index,
            child_scripts.index,
            CHILD_VALUE,
        );
        relay(builder, plan.connection, parent, child);
        assert(builder@.code =~~= old(builder)@.code + given.code(n));
    }
}

/// As many random hidden nodes as asked for.
pub fn random_hidden_nodes(rng: &mut StdRng, count: usize) -> (r: Vec<HiddenNode>)
    ensures
        r@.len() == count,
        forall|k: int| 0 <= k < r@.len() ==> 1 <= (#[trigger] r@[k]).depth <= 3,
{
    let mut r: Vec<HiddenNode> = Vec::new();
    while r.len() < count
        invariant
            r@.len() <= count,
            forall|k: int| 0 <= k < r@.len() ==> 1 <= (#[trigger] r@[k]).depth <= 3,
        decreases count - r@.len(),
    {
        let depth = draw_u8(rng, 1, 4);
        r.push(HiddenNode { depth, hash: draw_block(rng) });
    }
    r
}

/// One or two random hidden nodes if any are wanted.
pub fn hidden_nodes_if(rng: &mut StdRng, wanted: bool) -> (r: Vec<HiddenNode>)
    ensures
        !wanted ==> r@.len() == 0,
        wanted ==> 1 <= r@.len() <= 2,
        forall|k: int| 0 <= k < r@.len() ==> 1 <= (#[trigger] r@[k]).depth <= 3,
{
    if !wanted {
        return Vec::new();
    }
    let hidden_count = draw_usize(rng, 1, 3);
    random_hidden_nodes(rng, hidden_count)
}

/// Random hidden nodes to put before a leaf, or none, with equal chances:
/// [`hidden_nodes_if`] of a coin flip.
pub fn maybe_hidden_nodes(rng: &mut StdRng) -> (r: Vec<HiddenNode>)
    ensures
        r@.len() <= 2,
        forall|k: int| 0 <= k < r@.len() ==> 1 <= (#[trigger] r@[k]).depth <= 3,
{
    let wanted = flip(rng);
    hidden_nodes_if(rng, wanted)
}

/// Whether a leaf cannot keep its default version: it is the last one, and the tree
/// has no other version yet.
pub open spec fn forces_version(last: bool, seen: bool, is_non_default: bool) -> bool {
    last && !seen && !is_non_default
}

/// The version of a leaf and whether it differs from the default: `strict` where
/// the leaf cannot keep its default version, and `candidate` elsewhere. `seen`
/// tells whether an earlier leaf has a version other than the default.
pub fn final_version(last: bool, seen: bool, candidate: (u8, bool), strict: u8) -> (r: (u8, bool))
    ensures
        forces_version(last, seen, candidate.1) ==> r == (strict, true),
        !forces_version(last, seen, candidate.1) ==> r == candidate,
{
    if last && !seen && !candidate.1 {
        (strict, true)
    } else {
        candidate
    }
}

/// [`final_version`] with a random version where one is forced. Nothing is drawn
/// where none is.
pub fn settle_version(rng: &mut StdRng, last: bool, seen: bool, candidate: (u8, bool)) -> (r: (
    u8,
    bool,
))
    ensures
        forces_version(last, seen, candidate.1) ==> r.1 && is_non_default_version(r.0),
        !forces_version(last, seen, candidate.1) ==> r == candidate && *final(rng) == *old(rng),
{
    let strict = if last && !seen && !candidate.1 {
        pick_strict_non_default_version(rng)
    } else {
        candidate.0
    };
    final_version(last, seen, candidate, strict)
}

/// The leaves of a random tree, and the depth of the deepest of them.
fn random_leaves(rng: &mut StdRng) -> (r: (Vec<LeafPlan>, u8))
    ensures
        drawable_tree(leaf_views(r.0@)),
        r.1 == deepest(leaf_views(r.0@)),
{
    let leaf_count = draw_u32(rng, 2, 5) as usize;
    let mut leaves: Vec<LeafPlan> = Vec::new();
    let mut deepest_leaf_depth: u8 = 0;
    let mut saw_non_default_version = false;
    while leaves.len() < leaf_count
        invariant
            2 <= leaf_count <= 4,
            leaves@.len() <= leaf_count,
            forall|k: int| 0 <= k < leaves@.len() ==> (#[trigger] leaf_views(leaves@)[k]).drawable(),
            leaves@.len() > 0 ==> 3 <= leaf_views(leaves@)[0].depth,
            deepest_leaf_depth == deepest(leaf_views(leaves@)),
            saw_non_default_version ==> exists|k: int|
                0 <= k < leaves@.len() && is_non_default_version(
                    (#[trigger] leaf_views(leaves@)[k]).version,
                ),
            leaves@.len() == leaf_count ==> saw_non_default_version,
        decreases leaf_count - leaves@.len(),
    {
        let ghost before = leaf_views(leaves@);
        let hidden = maybe_hidden_nodes(rng);
        let script = random_tapscript(rng);
        let candidate = random_leaf_version(rng);
        let last = leaves.len() == leaf_count - 1;
        let (version, produced_non_default) = settle_version(
            rng,
            last,
            saw_non_default_version,
            candidate,
        );
        let depth = random_leaf_depth(rng, leaves.len() == 0);
        if depth > deepest_leaf_depth {
            deepest_leaf_depth = depth;
        }
        let leaf = LeafPlan { hidden, script, version, depth };
        let ghost view = leaf@;
        leaves.push(leaf);
        proof {
            let after = leaf_views(leaves@);
            assert(after =~= before.push(view));
            assert(after.drop_last() =~= before);
            assert(forall|k: int| 0 <= k < before.len() ==> after[k] == before[k]);
            if produced_non_default {
                assert(is_non_default_version(after[before.len() as int].version));
            } else if saw_non_default_version {
                let k = choose|k: int|
                    0 <= k < before.len() && is_non_default_version((#[trigger] before[k]).version);
                assert(is_non_default_version(after[k].version));
            }
        }
        saw_non_default_version = saw_non_default_version || produced_non_default;
    }
    (leaves, deepest_leaf_depth)
}

impl TaprootTreeSpendGenerator {
    /// Draws a plan; `None` if no output is left to spend.
    pub fn plan(&self, builder: &ProgramBuilder, rng: &mut StdRng) -> (r: Option<TreeSpendPlan>)
        requires
            builder.wf(),
            self.ready(builder@),
        ensures
            r is None <==> !builder@.can_fund(),
            r matches Some(plan) ==> plan.drawn_from(builder@),
            r is None ==> *final(rng) == *old(rng),
    {
        let funding_txos = builder.get_random_utxos(rng);
        if funding_txos.is_empty() {
            return None;
        }
        let funding_txo = match choose_item(rng, funding_txos.as_slice()) {
            Some(txo) => txo.index,
            None => return None,
        };
        let (leaves, deepest_leaf_depth) = random_leaves(rng);
        let hash = if deepest_leaf_depth > 1 && flip(rng) {
            Some(draw_block(rng))
        } else {
            None
        };
        let deep_node = deep_hidden_node(deepest_leaf_depth, hash);
        let secret_key = gen_secret_key_bytes(rng);
        let annex = maybe_annex(rng);
        let connection = builder.choose_connection(rng);
        Some(TreeSpendPlan { funding_txo, leaves, deep_node, secret_key, annex, connection })
    }
}

impl Generator for TaprootTreeSpendGenerator {
    open spec fn ready(&self, program: ProgramView) -> bool {
        program.can_fund() ==> program.can_connect()
    }

    fn generate(&self, builder: &mut ProgramBuilder, rng: &mut StdRng) -> (r: GeneratorResult)
        ensures
            !old(builder)@.can_fund() ==> r == Err::<(), GeneratorError>(
                GeneratorError::MissingVariables,
            ),
            old(builder)@.can_fund() ==> r is Ok && exists|plan: TreeSpendPlan|
                #[trigger] plan.drawn_from(old(builder)@) && final(builder)@ == old(
                    builder,
                )@.then_code(plan.code(defined(old(builder)@.code).len() as int)),
            r is Err ==> *final(rng) == *old(rng),
    {
        match self.plan(builder, rng) {
            Some(plan) => {
                let ghost drawn = plan;
                self.emit(builder, plan);
                assert(drawn.drawn_from(old(builder)@));
                Ok(())
            },
            None => Err(GeneratorError::MissingVariables),
        }
    }

    fn name(&self) -> (r: &'static str)
        ensures
            r@ == "TaprootTreeSpendGenerator"@,
    {
        "TaprootTreeSpendGenerator"
    }
}

/// A tree spend takes its funding, and no other output, from those that were left
/// to spend, and it spends the output it makes.
pub proof fn law_tree_spend_spends_its_funding(plan: TreeSpendPlan, program: ProgramView, v: int)
    requires
        plan.drawn_from(program),
        0 <= v < defined(program.code).len(),
    ensures
        ({
            let n = defined(program.code).len() as int;
            let after = program.then_code(plan.code(n)).code;
            &&& unspent(after, v) <==> unspent(program.code, v) && v != plan.funding_txo
            &&& spent(after, plan.spent_txo(n))
        }),
{
    let n = defined(program.code).len() as int;
    let funding = plan.funding_txo as int;
    let key = plan.keypair(n);
    let parent = plan.parent(n);
    let scripts = plan.child_scripts(n);
    let annex = annex_view(plan.annex);
    let t0 = seq![step(seq![], Operation::<Seq<u8>>::BeginTaprootTree)];
    let t1 = leaves_code(n, n + 1, leaf_views(plan.leaves@));
    let t2 = hidden_code(n, deep_nodes(plan.deep_node));
    let t3 = seq![
        step(seq![], Operation::BuildTaprootKeypair { secret_key: plan.secret_key }),
        step(seq![n, key], Operation::EndTaprootTree { selected_leaf_index: Some(1) }),
        step(seq![key + 1], Operation::BuildPayToTaproot),
    ];
    lemma_no_spend(t0);
    lemma_leaves_spend_nothing(n, n + 1, leaf_views(plan.leaves@));
    lemma_no_spend(t2);
    lemma_no_spend(t3);
    lemma_spends_concat(t0, t1);
    lemma_spends_concat(t0 + t1, t2);
    lemma_spends_concat(t0 + t1 + t2, t3);
    let p0 = plan.tree_code(n);
    let p1 = single_output_tx_code(key + 3, funding, key + 2, PARENT_VALUE);
    let p2 = seq![step(seq![parent], Operation::TakeTxo)];
    let p3 = annex_code(parent + 2, parent + 1, annex);
    let p4 = seq![step(seq![], Operation::<Seq<u8>>::BuildPayToAnchor)];
    let p5 = single_output_tx_code(scripts + 1, plan.spent_txo(n), scripts, CHILD_VALUE);
    let p6 = relay_code(plan.child(n) + 1, plan.connection, parent, plan.child(n));
    assert(spends(p0) =~= seq![]);
    lemma_single_output_tx_spends(key + 3, funding, key + 2, PARENT_VALUE);
    lemma_no_spend(p2);
    lemma_no_spend(p3);
    lemma_no_spend(p4);
    lemma_single_output_tx_spends(scripts + 1, plan.spent_txo(n), scripts, CHILD_VALUE);
    lemma_no_spend(p6);
    lemma_spends_concat(p0, p1);
    lemma_spends_concat(p0 + p1, p2);
    lemma_spends_concat(p0 + p1 + p2, p3);
    lemma_spends_concat(p0 + p1 + p2 + p3, p4);
    lemma_spends_concat(p0 + p1 + p2 + p3 + p4, p5);
    lemma_spends_concat(p0 + p1 + p2 + p3 + p4 + p5, p6);
    assert(spends(plan.code(n)) =~= seq![funding, plan.spent_txo(n)]);
    lemma_only_funding_is_spent(program.code, plan.code(n), funding, plan.spent_txo(n), v);
    lemma_second_is_spent(program.code, plan.code(n), funding, plan.spent_txo(n));
}

/// Leaves spend nothing.
proof fn lemma_leaves_spend_nothing(tree: int, n: int, leaves: Seq<LeafView>)
    ensures
        spends(leaves_code(tree, n, leaves)) == Seq::<int>::empty(),
    decreases leaves.len(),
{
    if leaves.len() > 0 {
        let shorter = leaves.drop_last();
        let leaf = leaf_code(tree, n + 2 * (leaves.len() - 1), leaves.last());
        lemma_leaves_spend_nothing(tree, n, shorter);
        lemma_no_spend(leaf);
        lemma_spends_concat(leaves_code(tree, n, shorter), leaf);
        assert(Seq::<int>::empty() + Seq::<int>::empty() =~= Seq::<int>::empty());
    }
}

/// The deepest of some leaves: no leaf is deeper, and one is as deep.
pub proof fn law_deepest_leaf(leaves: Seq<LeafView>)
    ensures
        forall|k: int| 0 <= k < leaves.len() ==> (#[trigger] leaves[k]).depth <= deepest(leaves),
        leaves.len() > 0 ==> exists|k: int|
            0 <= k < leaves.len() && (#[trigger] leaves[k]).depth == deepest(leaves),
        leaves.len() == 0 ==> deepest(leaves) == 0,
    decreases leaves.len(),
{
    if leaves.len() > 0 {
        let shorter = leaves.drop_last();
        law_deepest_leaf(shorter);
        assert forall|k: int| 0 <= k < leaves.len() implies (#[trigger] leaves[k]).depth <= deepest(
            leaves,
        ) by {
            if k < shorter.len() {
                assert(shorter[k].depth <= deepest(shorter));
            }
        }
        if deepest(leaves) == leaves.last().depth {
            assert(leaves[leaves.len() - 1].depth == deepest(leaves));
        } else {
            let k = choose|k: int|
                0 <= k < shorter.len() && (#[trigger] shorter[k]).depth == deepest(shorter);
            assert(leaves[k].depth == deepest(leaves));
        }
    }
}

/// What a tree spend can draw: two to four leaves, the first at depth three to five and
/// at least one of a version other than the default; before each leaf at most two hidden
/// nodes at depth one to three; and, or not, a hidden node one level above the deepest
/// leaf.
pub proof fn law_tree_spend_plans(plan: TreeSpendPlan, program: ProgramView)
    ensures
        plan.drawn_from(program) <==> {
            let vars = defined(program.code);
            let leaves = leaf_views(plan.leaves@);
            &&& plan.funding_txo < vars.len() && vars[plan.funding_txo as int] == Variable::Txo
            &&& !spends(program.code).contains(plan.funding_txo as int)
            &&& plan.secret_key@ != Seq::new(32, |i: int| 0u8)
            &&& leaves.len() == 2 || leaves.len() == 3 || leaves.len() == 4
            &&& forall|k: int|
                0 <= k < leaves.len() ==> {
                    let leaf = #[trigger] leaves[k];
                    &&& is_tapscript(leaf.script)
                    &&& leaf.version == 0xc0 || is_non_default_version(leaf.version)
                    &&& leaf.depth <= 5
                    &&& k == 0 ==> leaf.depth >= 3
                    &&& leaf.hidden.len() <= 2
                    &&& forall|h: int|
                        0 <= h < leaf.hidden.len() ==> 1 <= (#[trigger] leaf.hidden[h]).depth <= 3
                }
            &&& exists|k: int|
                0 <= k < leaves.len() && (#[trigger] leaves[k]).version != 0xc0
            &&& plan.deep_node is Some ==> plan.deep_node->0.depth + 1 == deepest(leaves)
            &&& plan.annex is Some ==> is_short_annex(plan.annex->0@)
            &&& plan.connection.drawn_from(program)
        },
{
    lemma_spent_iff(program.code, plan.funding_txo as int);
    lemma_nonzero_key(plan.secret_key);
    let leaves = leaf_views(plan.leaves@);
    if exists|k: int| 0 <= k < leaves.len() && (#[trigger] leaves[k]).version != 0xc0 {
        let k = choose|k: int| 0 <= k < leaves.len() && (#[trigger] leaves[k]).version != 0xc0;
        assert(leaves[k].drawable() ==> is_non_default_version(leaves[k].version));
    }
    assert(forall|k: int|
        0 <= k < leaves.len() ==> (leaves[k].drawable() <==> {
            let leaf = #[trigger] leaves[k];
            &&& is_tapscript(leaf.script)
            &&& leaf.version == 0xc0 || is_non_default_version(leaf.version)
            &&& leaf.depth <= 5
            &&& leaf.hidden.len() <= 2
            &&& forall|h: int|
                0 <= h < leaf.hidden.len() ==> 1 <= (#[trigger] leaf.hidden[h]).depth <= 3
        }));
}

/// A version is forced on the last leaf only, on a tree that would else have the default
/// version alone; and there it is forced.
pub proof fn law_versions_are_forced_where_needed(last: bool, seen: bool, is_non_default: bool)
    ensures
        forces_version(last, seen, is_non_default) ==> last,
        forces_version(last, seen, is_non_default) ==> !seen && !is_non_default,
        last && !forces_version(last, seen, is_non_default) ==> seen || is_non_default,
{
}

/// Leaves with the same model are the same leaf: nothing of a leaf is lost in its model.
pub proof fn law_leaves_have_models_of_their_own(a: LeafPlan, b: LeafPlan)
    ensures
        a@ == b@ <==> a.hidden@ == b.hidden@ && a.script@ == b.script@ && a.version == b.version
            && a.depth == b.depth,
{
}

} // verus!
