//! Generators of address relay.

use super::{Generator, GeneratorError, GeneratorResult};
use crate::builder::{ConnectionChoice, ProgramBuilder};
use crate::ir::{AddrNetwork, AddrRecord, InstructionView, Operation, ProgramView, Variable};
use crate::random::{draw_usize, shuffle_items};
use crate::typing::{defined, step};
use rand::rngs::StdRng;
use vstd::prelude::*;

verus! {

/// The two messages that relay addresses.
#[derive(Clone, Copy, Debug, PartialEq, Eq, Structural)]
pub enum RelayKind {
    Addr,
    AddrV2,
}

impl RelayKind {
    /// Whether the message can relay an address: `addr` relays `V1` records, and
    /// `addrv2` those `V2` records that are not of the retired Tor v2 network.
    pub open spec fn relays<B>(self, record: AddrRecord<B>) -> bool {
        match self {
            RelayKind::Addr => record is V1,
            RelayKind::AddrV2 => record matches AddrRecord::V2 { network, .. } && network
                != AddrNetwork::TorV2,
        }
    }

    /// The operation that starts a list.
    pub open spec fn begin<B>(self) -> Operation<B> {
        match self {
            RelayKind::Addr => Operation::BeginBuildAddrList,
            RelayKind::AddrV2 => Operation::BeginBuildAddrListV2,
        }
    }

    /// The operation that adds an address to a list.
    pub open spec fn put<B>(self) -> Operation<B> {
        match self {
            RelayKind::Addr => Operation::AddAddr,
            RelayKind::AddrV2 => Operation::AddAddrV2,
        }
    }

    /// The operation that finishes a list.
    pub open spec fn end<B>(self) -> Operation<B> {
        match self {
            RelayKind::Addr => Operation::EndBuildAddrList,
            RelayKind::AddrV2 => Operation::EndBuildAddrListV2,
        }
    }

    /// The operation that sends a list.
    pub open spec fn send<B>(self) -> Operation<B> {
        match self {
            RelayKind::Addr => Operation::SendAddr,
            RelayKind::AddrV2 => Operation::SendAddrV2,
        }
    }

    /// Whether the message can relay `record`.
    pub fn can_relay(self, record: &AddrRecord) -> (r: bool)
        ensures
            r == self.relays(record@),
    {
        match self {
            RelayKind::Addr => match record {
                AddrRecord::V1 { .. } => true,
                AddrRecord::V2 { .. } => false,
            },
            RelayKind::AddrV2 => match record {
                AddrRecord::V2 { network, .. } => match network {
                    AddrNetwork::TorV2 => false,
                    _ => true,
                },
                AddrRecord::V1 { .. } => false,
            },
        }
    }
}

/// The models of a list of records.
pub open spec fn record_views(records: Seq<AddrRecord>) -> Seq<AddrRecord<Seq<u8>>> {
    records.map_values(|record: AddrRecord| record@)
}

/// The records that a message can relay, in order.
pub open spec fn relayable(kind: RelayKind, records: Seq<AddrRecord<Seq<u8>>>) -> Seq<
    AddrRecord<Seq<u8>>,
> {
    records.filter(|record: AddrRecord<Seq<u8>>| kind.relays(record))
}

/// The records of `records` that a message can relay, in order.
pub fn relayable_records(kind: RelayKind, records: &[AddrRecord]) -> (r: Vec<AddrRecord>)
    ensures
        record_views(r@) == relayable(kind, record_views(records@)),
{
    let ghost all = record_views(records@);
    let ghost wanted = |record: AddrRecord<Seq<u8>>| kind.relays(record);
    let mut r: Vec<AddrRecord> = Vec::new();
    let mut i: usize = 0;
    proof {
        reveal(Seq::filter);
        assert(record_views(r@) =~= all.take(0).filter(wanted));
    }
    while i < records.len()
        invariant
            i <= records@.len(),
            all == record_views(records@),
            wanted == (|record: AddrRecord<Seq<u8>>| kind.relays(record)),
            record_views(r@) == all.take(i as int).filter(wanted),
        decreases records@.len() - i,
    {
        let ghost before = r@;
        proof {
            reveal(Seq::filter);
            assert(all.take(i + 1).drop_last() =~= all.take(i as int));
            assert(all.take(i + 1).last() == records@[i as int]@);
        }
        if kind.can_relay(&records[i]) {
            r.push(records[i].duplicate());
            assert(record_views(r@) =~= record_views(before).push(records@[i as int]@));
        }
        i += 1;
    }
    assert(all.take(i as int) =~= all);
    r
}

/// What an address relay generator decides at random: the connection, and which
/// of the records to relay, in which order.
#[derive(Clone, Debug)]
pub struct AddrRelayPlan {
    pub connection: ConnectionChoice,
    pub order: Vec<usize>,
}

/// The code that puts records into the list that is variable `list`. Their own
/// variables follow it.
pub open spec fn entries_code(
    kind: RelayKind,
    list: int,
    records: Seq<AddrRecord<Seq<u8>>>,
    order: Seq<usize>,
) -> Seq<InstructionView>
    decreases order.len(),
{
    if order.len() == 0 {
        seq![]
    } else {
        entries_code(kind, list, records, order.drop_last()) + seq![
            step(seq![], Operation::LoadAddr(records[order.last() as int])),
            step(seq![list, list + order.len()], kind.put()),
        ]
    }
}

impl AddrRelayPlan {
    /// Whether the plan is one that can be drawn for `program` and `count` records:
    /// it relays at least one and at most sixteen of them, none twice.
    pub open spec fn drawn_from(self, program: ProgramView, count: nat) -> bool {
        &&& self.connection.drawn_from(program)
        &&& 1 <= self.order@.len() <= 16
        &&& self.order@.len() <= count
        &&& self.order@.no_duplicates()
        &&& forall|k: int| 0 <= k < self.order@.len() ==> (#[trigger] self.order@[k]) < count
    }

    /// The code of the plan. `n` is the number of the first variable it defines.
    pub open spec fn code(
        self,
        kind: RelayKind,
        n: int,
        records: Seq<AddrRecord<Seq<u8>>>,
    ) -> Seq<InstructionView> {
        let list = n + self.connection.loads().len();
        let done = list + 1 + self.order@.len();
        self.connection.code() + seq![step(seq![], kind.begin())] + entries_code(
            kind,
            list,
            records,
            self.order@,
        ) + seq![
            step(seq![list], kind.end()),
            step(seq![self.connection.variable(n), done], kind.send()),
        ]
    }
}

/// The numbers below `count`, in order.
fn numbers_below(count: usize) -> (r: Vec<usize>)
    ensures
        r@.len() == count,
        forall|k: int| 0 <= k < count ==> #[trigger] r@[k] == k,
{
    let mut r: Vec<usize> = Vec::with_capacity(count);
    let mut i: usize = 0;
    while i < count
        invariant
            i <= count,
            r@.len() == i,
            forall|k: int| 0 <= k < i ==> #[trigger] r@[k] == k,
        decreases count - i,
    {
        r.push(i);
        i += 1;
    }
    r
}

/// Draws a plan to relay some of `count` records.
pub fn draw_relay_plan(builder: &ProgramBuilder, rng: &mut StdRng, count: usize) -> (r:
    AddrRelayPlan)
    requires
        builder.wf(),
        builder@.can_connect(),
        count > 0,
    ensures
        r.drawn_from(builder@, count as nat),
{
    let connection = builder.choose_connection(rng);
    let max_entries: usize = if count < 16 {
        count
    } else {
        16
    };
    let entries = draw_usize(rng, 1, max_entries + 1);
    let mut order = numbers_below(count);
    let ghost ordered = order@;
    shuffle_items(rng, &mut order);
    proof {
        assert(ordered.no_duplicates());
        ordered.lemma_multiset_has_no_duplicates();
        order@.lemma_multiset_has_no_duplicates_conv();
        ordered.to_multiset_ensures();
        order@.to_multiset_ensures();
        assert forall|k: int| 0 <= k < order@.len() implies #[trigger] order@[k] < count by {
            assert(order@.to_multiset().count(order@[k]) > 0);
            assert(ordered.contains(order@[k]));
        }
    }
    order.truncate(entries);
    AddrRelayPlan { connection, order }
}

/// Writes the code of a plan.
pub fn relay_records(
    kind: RelayKind,
    builder: &mut ProgramBuilder,
    records: &[AddrRecord],
    plan: &AddrRelayPlan,
)
    requires
        old(builder).wf(),
        plan.drawn_from(old(builder)@, records@.len()),
    ensures
        final(builder).wf(),
        final(builder)@ == old(builder)@.then_code(
            plan.code(kind, defined(old(builder)@.code).len() as int, record_views(records@)),
        ),
{
    let ghost n = defined(builder@.code).len() as int;
    let ghost views = record_views(records@);
    let conn_var = builder.connect(plan.connection);
    let begin: Operation = match kind {
        RelayKind::Addr => Operation::BeginBuildAddrList,
        RelayKind::AddrV2 => Operation::BeginBuildAddrListV2,
    };
    let mut_list = builder.force_append_expect_output(vec![], begin);
    let ghost list = mut_list.index as int;
    let ghost prefix = builder@.code;
    let ghost vars = defined(builder@.code);
    let mut k: usize = 0;
    assert(builder@.code =~= prefix + entries_code(kind, list, views, plan.order@.take(0)));
    while k < plan.order.len()
        invariant
            k <= plan.order@.len(),
            list == mut_list.index,
            views == record_views(records@),
            builder.wf(),
            builder@.context == old(builder)@.context,
            forall|j: int|
                0 <= j < plan.order@.len() ==> (#[trigger] plan.order@[j]) < records@.len(),
            builder@.code == prefix + entries_code(kind, list, views, plan.order@.take(k as int)),
            defined(builder@.code).len() == vars.len() + k,
            vars.len() == list + 1,
            conn_var.index < list,
            defined(builder@.code)[conn_var.index as int] == Variable::Connection,
            defined(builder@.code)[list] == kind.begin::<Seq<u8>>().gives()[0],
        decreases plan.order@.len() - k,
    {
        let ghost before = builder@.code;
        let ghost order = plan.order@.take(k as int);
        let ghost longer = plan.order@.take(k + 1);
        let record = &records[plan.order[k]];
        assert(views[plan.order@[k as int] as int] == record@);
        let addr_var = builder.force_append_expect_output(
            vec![],
            Operation::LoadAddr(record.duplicate()),
        );
        let put: Operation = match kind {
            RelayKind::Addr => Operation::AddAddr,
            RelayKind::AddrV2 => Operation::AddAddrV2,
        };
        builder.force_append(vec![mut_list.index, addr_var.index], put);
        proof {
            assert(longer.drop_last() =~= order);
            assert(builder@.code =~~= before + seq![
                step(seq![], Operation::LoadAddr(views[longer.last() as int])),
                step(seq![list, list + longer.len()], kind.put()),
            ]);
            assert(builder@.code =~= prefix + entries_code(kind, list, views, longer));
        }
        k += 1;
    }
    assert(plan.order@.take(k as int) =~= plan.order@);
    let end: Operation = match kind {
        RelayKind::Addr => Operation::EndBuildAddrList,
        RelayKind::AddrV2 => Operation::EndBuildAddrListV2,
    };
    let list_var = builder.force_append_expect_output(vec![mut_list.index], end);
    let send: Operation = match kind {
        RelayKind::Addr => Operation::SendAddr,
        RelayKind::AddrV2 => Operation::SendAddrV2,
    };
    builder.force_append(vec![conn_var.index, list_var.index], send);
    assert(builder@.code =~~= old(builder)@.code + plan.code(kind, n, views));
}

/// Generates address relay with `addr`.
#[derive(Clone, Debug)]
pub struct AddrRelayGenerator {
    addresses: Vec<AddrRecord>,
}

/// Generates address relay with `addrv2`.
#[derive(Clone, Debug)]
pub struct AddrRelayV2Generator {
    addresses: Vec<AddrRecord>,
}

impl AddrRelayGenerator {
    /// The records the generator picks from.
    pub closed spec fn records(self) -> Seq<AddrRecord<Seq<u8>>> {
        record_views(self.addresses@)
    }

    pub fn new(addresses: Vec<AddrRecord>) -> (r: Self)
        ensures
            r.records() == record_views(addresses@),
    {
        AddrRelayGenerator { addresses }
    }
}

impl AddrRelayV2Generator {
    /// The records the generator picks from.
    pub closed spec fn records(self) -> Seq<AddrRecord<Seq<u8>>> {
        record_views(self.addresses@)
    }

    pub fn new(addresses: Vec<AddrRecord>) -> (r: Self)
        ensures
            r.records() == record_views(addresses@),
    {
        AddrRelayV2Generator { addresses }
    }
}

impl Default for AddrRelayGenerator {
    fn default() -> (r: Self)
        ensures
            r.records() == Seq::<AddrRecord<Seq<u8>>>::empty(),
    {
        let r = AddrRelayGenerator { addresses: Vec::new() };
        assert(r.records() =~= seq![]);
        r
    }
}

impl Default for AddrRelayV2Generator {
    fn default() -> (r: Self)
        ensures
            r.records() == Seq::<AddrRecord<Seq<u8>>>::empty(),
    {
        let r = AddrRelayV2Generator { addresses: Vec::new() };
        assert(r.records() =~= seq![]);
        r
    }
}

/// What an address relay generator does to a program: it fails in this context
/// where it has nothing to relay, and otherwise relays some of what it has.
pub open spec fn relays_some(
    kind: RelayKind,
    records: Seq<AddrRecord<Seq<u8>>>,
    before: ProgramView,
    after: ProgramView,
    result: GeneratorResult,
) -> bool {
    let usable = relayable(kind, records);
    if usable.len() == 0 {
        result == Err::<(), GeneratorError>(GeneratorError::InvalidContext(before.context))
    } else {
        &&& result is Ok
        &&& exists|plan: AddrRelayPlan|
            #[trigger] plan.drawn_from(before, usable.len()) && after == before.then_code(
                plan.code(kind, defined(before.code).len() as int, usable),
            )
    }
}

/// Relays some of the given records at random.
fn generate_relay(
    kind: RelayKind,
    addresses: &Vec<AddrRecord>,
    builder: &mut ProgramBuilder,
    rng: &mut StdRng,
) -> (r: GeneratorResult)
    requires
        old(builder).wf(),
        relayable(kind, record_views(addresses@)).len() > 0 ==> old(builder)@.can_connect(),
    ensures
        final(builder).wf(),
        final(builder)@.context == old(builder)@.context,
        old(builder)@.code.is_prefix_of(final(builder)@.code),
        r is Err ==> final(builder)@ == old(builder)@,
        relays_some(kind, record_views(addresses@), old(builder)@, final(builder)@, r),
        r is Err ==> *final(rng) == *old(rng),
{
    let usable = relayable_records(kind, addresses.as_slice());
    if usable.is_empty() {
        return Err(GeneratorError::InvalidContext(*builder.context()));
    }
    let plan = draw_relay_plan(builder, rng, usable.len());
    relay_records(kind, builder, usable.as_slice(), &plan);
    assert(plan.drawn_from(old(builder)@, record_views(usable@).len()));
    Ok(())
}

impl Generator for AddrRelayGenerator {
    open spec fn ready(&self, program: ProgramView) -> bool {
        relayable(RelayKind::Addr, self.records()).len() > 0 ==> program.can_connect()
    }

    fn generate(&self, builder: &mut ProgramBuilder, rng: &mut StdRng) -> (r: GeneratorResult)
        ensures
            relays_some(RelayKind::Addr, self.records(), old(builder)@, final(builder)@, r),
            r is Err ==> *final(rng) == *old(rng),
    {
        generate_relay(RelayKind::Addr, &self.addresses, builder, rng)
    }

    fn name(&self) -> (r: &'static str)
        ensures
            r@ == "AddrRelayGenerator"@,
    {
        "AddrRelayGenerator"
    }
}

impl Generator for AddrRelayV2Generator {
    open spec fn ready(&self, program: ProgramView) -> bool {
        relayable(RelayKind::AddrV2, self.records()).len() > 0 ==> program.can_connect()
    }

    fn generate(&self, builder: &mut ProgramBuilder, rng: &mut StdRng) -> (r: GeneratorResult)
        ensures
            relays_some(RelayKind::AddrV2, self.records(), old(builder)@, final(builder)@, r),
            r is Err ==> *final(rng) == *old(rng),
    {
        generate_relay(RelayKind::AddrV2, &self.addresses, builder, rng)
    }

    fn name(&self) -> (r: &'static str)
        ensures
            r@ == "AddrRelayV2Generator"@,
    {
        "AddrRelayV2Generator"
    }
}

/// Only records that the message can relay are relayed, at most sixteen of them.
pub proof fn law_only_relayable_records_are_relayed(
    kind: RelayKind,
    records: Seq<AddrRecord<Seq<u8>>>,
    plan: AddrRelayPlan,
    program: ProgramView,
    n: int,
    i: int,
)
    requires
        plan.drawn_from(program, relayable(kind, records).len()),
        0 <= i < plan.code(kind, n, relayable(kind, records)).len(),
    ensures
        plan.code(kind, n, relayable(kind, records))[i].operation matches Operation::LoadAddr(
            record,
        ) ==> kind.relays(record) && records.contains(record),
        plan.code(kind, n, relayable(kind, records)).len() <= 2 * 16 + 4,
{
    let usable = relayable(kind, records);
    let list = n + plan.connection.loads().len();
    let entries = entries_code(kind, list, usable, plan.order@);
    lemma_entries(kind, list, records, plan.order@);
    let head = plan.connection.code() + seq![step(seq![], kind.begin())];
    let code = plan.code(kind, n, usable);
    if head.len() <= i < head.len() + entries.len() {
        assert(code[i] == entries[i - head.len()]);
    }
}

/// Entries are loaded from the records that the message can relay.
proof fn lemma_entries(
    kind: RelayKind,
    list: int,
    records: Seq<AddrRecord<Seq<u8>>>,
    order: Seq<usize>,
)
    requires
        forall|k: int|
            0 <= k < order.len() ==> (#[trigger] order[k]) < relayable(kind, records).len(),
    ensures
        entries_code(kind, list, relayable(kind, records), order).len() == 2 * order.len(),
        forall|i: int|
            0 <= i < entries_code(kind, list, relayable(kind, records), order).len() ==> ((
            #[trigger] entries_code(
                kind,
                list,
                relayable(kind, records),
                order,
            )[i]).operation matches Operation::LoadAddr(record) ==> kind.relays(record)
                && records.contains(record)),
    decreases order.len(),
{
    if order.len() > 0 {
        let usable = relayable(kind, records);
        let shorter = order.drop_last();
        assert forall|k: int| 0 <= k < shorter.len() implies (#[trigger] shorter[k])
            < usable.len() by {
            assert(order[k] < usable.len());
        }
        lemma_entries(kind, list, records, shorter);
        lemma_relayable(kind, records, order.last() as int);
        let before = entries_code(kind, list, usable, shorter);
        let all = entries_code(kind, list, usable, order);
        assert forall|i: int| 0 <= i < all.len() implies ((
        #[trigger] all[i]).operation matches Operation::LoadAddr(record) ==> kind.relays(record)
            && records.contains(record)) by {
            if i < before.len() {
                assert(all[i] == before[i]);
            }
        }
    }
}

/// What a message can relay is among the records, and it can relay it.
proof fn lemma_relayable(kind: RelayKind, records: Seq<AddrRecord<Seq<u8>>>, i: int)
    requires
        0 <= i < relayable(kind, records).len(),
    ensures
        kind.relays(relayable(kind, records)[i]),
        records.contains(relayable(kind, records)[i]),
    decreases records.len(),
{
    let wanted = |record: AddrRecord<Seq<u8>>| kind.relays(record);
    reveal(Seq::filter);
    let shorter = records.drop_last();
    let found = relayable(kind, records)[i];
    if i < relayable(kind, shorter).len() {
        lemma_relayable(kind, shorter, i);
        assert(found == relayable(kind, shorter)[i]);
        let k = choose|k: int| 0 <= k < shorter.len() && shorter[k] == found;
        assert(records[k] == found);
    } else {
        assert(wanted(records.last()));
        assert(found == records.last());
        assert(records[records.len() - 1] == found);
    }
}

/// What a message can relay: `addr` relays every `V1` record and no other; `addrv2`
/// relays the `V2` records of every network but Tor v2, and no other.
pub proof fn law_what_can_be_relayed(record: AddrRecord<Seq<u8>>)
    ensures
        match record {
            AddrRecord::V1 { .. } => {
                &&& relayable(RelayKind::Addr, seq![record]) == seq![record]
                &&& relayable(RelayKind::AddrV2, seq![record]) == Seq::<
                    AddrRecord<Seq<u8>>,
                >::empty()
            },
            AddrRecord::V2 { network, .. } => {
                &&& relayable(RelayKind::Addr, seq![record]) == Seq::<
                    AddrRecord<Seq<u8>>,
                >::empty()
                &&& match network {
                    AddrNetwork::TorV2 => relayable(RelayKind::AddrV2, seq![record]) == Seq::<
                        AddrRecord<Seq<u8>>,
                    >::empty(),
                    AddrNetwork::IPv4 => relayable(RelayKind::AddrV2, seq![record]) == seq![record],
                    AddrNetwork::IPv6 => relayable(RelayKind::AddrV2, seq![record]) == seq![record],
                    AddrNetwork::TorV3 => relayable(RelayKind::AddrV2, seq![record]) == seq![
                        record,
                    ],
                    AddrNetwork::I2P => relayable(RelayKind::AddrV2, seq![record]) == seq![record],
                    AddrNetwork::Cjdns => relayable(RelayKind::AddrV2, seq![record]) == seq![
                        record,
                    ],
                    AddrNetwork::Yggdrasil => relayable(RelayKind::AddrV2, seq![record]) == seq![
                        record,
                    ],
                    AddrNetwork::Unknown(_) => relayable(RelayKind::AddrV2, seq![record]) == seq![
                        record,
                    ],
                }
            },
        },
{
    lemma_relayable_one(RelayKind::Addr, record);
    lemma_relayable_one(RelayKind::AddrV2, record);
}

/// What can be relayed of one record.
proof fn lemma_relayable_one(kind: RelayKind, record: AddrRecord<Seq<u8>>)
    ensures
        kind.relays(record) ==> relayable(kind, seq![record]) == seq![record],
        !kind.relays(record) ==> relayable(kind, seq![record]) == Seq::<
            AddrRecord<Seq<u8>>,
        >::empty(),
{
    reveal(Seq::filter);
    let wanted = |r: AddrRecord<Seq<u8>>| kind.relays(r);
    let none = Seq::<AddrRecord<Seq<u8>>>::empty();
    assert(seq![record].drop_last() =~= none);
    assert(none.filter(wanted) =~= none);
    assert(seq![record].filter(wanted) == if wanted(record) {
        none.filter(wanted).push(record)
    } else {
        none.filter(wanted)
    });
    assert(none.push(record) =~= seq![record]);
}

/// What can be relayed of some records and more is what can be relayed of the ones and
/// then of the others.
pub proof fn law_relayable_records_keep_their_order(
    kind: RelayKind,
    a: Seq<AddrRecord<Seq<u8>>>,
    b: Seq<AddrRecord<Seq<u8>>>,
)
    ensures
        relayable(kind, a + b) == relayable(kind, a) + relayable(kind, b),
    decreases b.len(),
{
    reveal(Seq::filter);
    let wanted = |r: AddrRecord<Seq<u8>>| kind.relays(r);
    if b.len() == 0 {
        assert(a + b =~= a);
        assert(b.filter(wanted) =~= b);
        assert(relayable(kind, a) + relayable(kind, b) =~= relayable(kind, a));
    } else {
        law_relayable_records_keep_their_order(kind, a, b.drop_last());
        assert((a + b).drop_last() =~= a + b.drop_last());
        assert((a + b).last() == b.last());
        assert(relayable(kind, a + b) =~= relayable(kind, a) + relayable(kind, b));
    }
}

/// A generator has something to relay as soon as one of its records can be relayed.
pub proof fn law_one_relayable_record_is_enough(
    kind: RelayKind,
    records: Seq<AddrRecord<Seq<u8>>>,
    i: int,
)
    requires
        0 <= i < records.len(),
        match records[i] {
            AddrRecord::V1 { .. } => kind == RelayKind::Addr,
            AddrRecord::V2 { network, .. } => kind == RelayKind::AddrV2 && network
                != AddrNetwork::TorV2,
        },
    ensures
        relayable(kind, records).len() > 0,
        relayable(kind, records).contains(records[i]),
{
    let before = records.take(i);
    let one = seq![records[i]];
    let behind = records.skip(i + 1);
    assert(records =~= before + one + behind);
    law_what_can_be_relayed(records[i]);
    law_relayable_records_keep_their_order(kind, before + one, behind);
    law_relayable_records_keep_their_order(kind, before, one);
    let at = relayable(kind, before).len() as int;
    assert(relayable(kind, records)[at] == records[i]);
}

/// What an address relay can draw: one to sixteen of the records, none of them twice.
pub proof fn law_relay_plans(plan: AddrRelayPlan, program: ProgramView, count: nat)
    ensures
        plan.drawn_from(program, count) <==> {
            &&& plan.connection.drawn_from(program)
            &&& 0 < plan.order@.len() < 17
            &&& forall|k: int| 0 <= k < plan.order@.len() ==> (#[trigger] plan.order@[k]) < count
            &&& forall|j: int, k: int|
                0 <= j < k < plan.order@.len() ==> plan.order@[j] != plan.order@[k]
        },
{
    if (forall|k: int| 0 <= k < plan.order@.len() ==> (#[trigger] plan.order@[k]) < count) && (
    forall|j: int, k: int| 0 <= j < k < plan.order@.len() ==> plan.order@[j] != plan.order@[k]) {
        assert(plan.order@.no_duplicates());
        lemma_distinct_below(plan.order@, count);
    }
}

/// There are at most `count` different numbers below `count`.
proof fn lemma_distinct_below(numbers: Seq<usize>, count: nat)
    requires
        numbers.no_duplicates(),
        forall|k: int| 0 <= k < numbers.len() ==> (#[trigger] numbers[k]) < count,
    ensures
        numbers.len() <= count,
{
    let ints = numbers.map_values(|k: usize| k as int);
    assert(ints.no_duplicates());
    ints.unique_seq_to_set();
    vstd::set_lib::lemma_int_range(0, count as int);
    let all = vstd::set_lib::set_int_range(0, count as int);
    assert(ints.to_set().subset_of(all));
    vstd::set_lib::lemma_len_subset(ints.to_set(), all);
}

} // verus!
