use vstd::prelude::*;

use crate::chunk::concat;
use crate::store::{EntryKey, NameStore, reconciled, with_added};

verus! {

/// How an asset is held on the ledger.
#[derive(Clone, Debug)]
pub enum AssetInfo {
    Native(String),
    Cw20(String),
    Cw1155(String, String),
}

/// Names a contract by the protocol it belongs to and its role there.
#[derive(Clone, Debug)]
pub struct ContractEntry {
    pub protocol: String,
    pub contract: String,
}

/// Names an inter-chain channel by the chain it reaches and the protocol it carries.
#[derive(Clone, Debug)]
pub struct ChannelEntry {
    pub connected_chain: String,
    pub protocol: String,
}

#[derive(PartialEq, Eq, Structural, Clone, Copy, Debug)]
pub enum PoolType {
    ConstantProduct,
    Stable,
    Weighted,
    LiquidityBootstrap,
}

/// What the registry knows of a liquidity pool.
#[derive(Clone, Debug)]
pub struct PoolMetadata {
    pub dex: String,
    pub pool_type: PoolType,
    pub assets: Vec<String>,
}

/// Why one reconciliation call was refused.
#[derive(Clone, Debug)]
pub enum AnsError {
    /// A pool names a protocol that was never registered as a dex.
    UnknownDex { dex: String },
}

/// A refused chunk of a chunked submission: which one, and why.
#[derive(Clone, Debug)]
pub struct ReconcileError {
    pub chunk_index: usize,
    pub cause: AnsError,
}

fn same_text(a: &String, b: &String) -> (r: bool)
    ensures
        r == (a@ == b@),
{
    *a == *b
}

impl EntryKey for ContractEntry {
    open spec fn key_view(&self) -> Seq<Seq<char>> {
        seq![self.protocol@, self.contract@]
    }

    fn same_key(&self, other: &ContractEntry) -> (r: bool) {
        let r = same_text(&self.protocol, &other.protocol) && same_text(
            &self.contract,
            &other.contract,
        );
        proof {
            if r {
                assert(self.key_view() =~= other.key_view());
            } else if self.protocol@ != other.protocol@ {
                assert(self.key_view()[0] != other.key_view()[0]);
            } else {
                assert(self.key_view()[1] != other.key_view()[1]);
            }
        }
        r
    }
}

impl EntryKey for ChannelEntry {
    open spec fn key_view(&self) -> Seq<Seq<char>> {
        seq![self.connected_chain@, self.protocol@]
    }

    fn same_key(&self, other: &ChannelEntry) -> (r: bool) {
        let r = same_text(&self.connected_chain, &other.connected_chain) && same_text(
            &self.protocol,
            &other.protocol,
        );
        proof {
            if r {
                assert(self.key_view() =~= other.key_view());
            } else if self.connected_chain@ != other.connected_chain@ {
                assert(self.key_view()[0] != other.key_view()[0]);
            } else {
                assert(self.key_view()[1] != other.key_view()[1]);
            }
        }
        r
    }
}

/// The key under which a protocol name is kept in the dex set.
pub open spec fn dex_key(dex: Seq<char>) -> Seq<Seq<char>> {
    seq![dex]
}

/// Every pool of `adds` names a registered dex.
pub open spec fn pools_known(dexes: Map<Seq<Seq<char>>, ()>, adds: Seq<(String, PoolMetadata)>) -> bool {
    forall|i: int| 0 <= i < adds.len() ==> dexes.contains_key(dex_key(#[trigger] adds[i].1.dex@))
}

/// `dex` is the protocol of the first pool of `adds` whose dex is not registered.
pub open spec fn first_unknown_dex(
    dexes: Map<Seq<Seq<char>>, ()>,
    adds: Seq<(String, PoolMetadata)>,
    dex: Seq<char>,
) -> bool {
    exists|i: int|
        0 <= i < adds.len() && !dexes.contains_key(dex_key(#[trigger] adds[i].1.dex@))
            && pools_known(dexes, adds.take(i)) && adds[i].1.dex@ == dex
}

/// The pool table after the chunks were upserted one after another.
pub open spec fn added_chunks<V>(m: Map<Seq<Seq<char>>, V>, chunks: Seq<Vec<(String, V)>>) -> Map<
    Seq<Seq<char>>,
    V,
>
    decreases chunks.len(),
{
    if chunks.len() == 0 {
        m
    } else {
        with_added(added_chunks(m, chunks.drop_last()), chunks.last()@)
    }
}

/// Protocol names paired with the unit value that the dex set stores.
pub open spec fn as_members(names: Seq<String>) -> Seq<(String, ())> {
    names.map_values(|n: String| (n, ()))
}

/// Upserting two lists in turn is upserting their concatenation.
pub proof fn lemma_with_added_append<K: EntryKey, V>(
    m: Map<Seq<Seq<char>>, V>,
    a: Seq<(K, V)>,
    b: Seq<(K, V)>,
)
    ensures
        with_added(m, a + b) == with_added(with_added(m, a), b),
    decreases a.len(),
{
    if a.len() == 0 {
        assert(a + b =~= b);
    } else {
        assert((a + b).drop_first() =~= a.drop_first() + b);
        assert((a + b)[0] == a[0]);
        lemma_with_added_append(m.insert(a[0].0.key_view(), a[0].1), a.drop_first(), b);
    }
}

/// Submitting chunks one after another upserts the whole dataset they were split from.
pub proof fn chunks_add_up<V>(m: Map<Seq<Seq<char>>, V>, chunks: Seq<Vec<(String, V)>>)
    ensures
        added_chunks(m, chunks) == with_added(m, concat(chunks)),
    decreases chunks.len(),
{
    if chunks.len() > 0 {
        chunks_add_up(m, chunks.drop_last());
        lemma_with_added_append(m, concat(chunks.drop_last()), chunks.last()@);
    } else {
        assert(with_added(m, Seq::<(String, V)>::empty()) == m);
    }
}

/// The protocol that each pool names, in order.
pub open spec fn dex_names(pools: Seq<(String, PoolMetadata)>) -> Seq<Seq<char>> {
    pools.map_values(|p: (String, PoolMetadata)| p.1.dex@)
}

/// The text of each string, in order.
pub open spec fn texts(names: Seq<String>) -> Seq<Seq<char>> {
    names.map_values(|n: String| n@)
}

/// The names of the distinct protocols that `pools` reference, each once, in order of first
/// appearance.
pub fn distinct_dexes(pools: &Vec<(String, PoolMetadata)>) -> (r: Vec<String>)
    ensures
        texts(r@).to_set() == dex_names(pools@).to_set(),
        texts(r@).no_duplicates(),
{
    let mut out: Vec<String> = Vec::new();
    let mut i: usize = 0;
    assert(texts(out@).to_set() =~= dex_names(pools@.take(0)).to_set());
    while i < pools.len()
        invariant
            i <= pools@.len(),
            texts(out@).to_set() == dex_names(pools@.take(i as int)).to_set(),
            texts(out@).no_duplicates(),
        decreases pools@.len() - i,
    {
        let dex = &pools[i].1.dex;
        let mut k: usize = 0;
        let mut seen = false;
        while k < out.len()
            invariant
                k <= out@.len(),
                seen ==> texts(out@).contains(dex@),
                !seen ==> forall|m: int| 0 <= m < k ==> texts(out@)[m] != dex@,
            decreases out@.len() - k,
        {
            if same_text(&out[k], dex) {
                assert(texts(out@)[k as int] == dex@);
                seen = true;
            }
            k = k + 1;
        }
        let ghost prev = texts(out@);
        assert(dex_names(pools@.take(i + 1)) =~= dex_names(pools@.take(i as int)).push(dex@));
        proof {
            dex_names(pools@.take(i as int)).lemma_push_to_set_commute(dex@);
        }
        if !seen {
            out.push(dex.clone());
            assert(texts(out@) =~= prev.push(dex@));
            proof {
                prev.lemma_push_to_set_commute(dex@);
            }
        } else {
            assert(texts(out@).to_set().contains(dex@));
            assert(texts(out@).to_set().insert(dex@) =~= texts(out@).to_set());
        }
        i = i + 1;
    }
    assert(pools@.take(i as int) =~= pools@);
    out
}

/// The name-resolution tables of one deployment: assets, contracts, channels, pools, and the
/// set of protocols registered as dexes.
pub struct AnsRegistry {
    assets: NameStore<String, AssetInfo>,
    contracts: NameStore<ContractEntry, String>,
    channels: NameStore<ChannelEntry, String>,
    pools: NameStore<String, PoolMetadata>,
    dexes: NameStore<String, ()>,
}

impl AnsRegistry {
    pub closed spec fn wf(&self) -> bool {
        &&& self.assets.wf()
        &&& self.contracts.wf()
        &&& self.channels.wf()
        &&& self.pools.wf()
        &&& self.dexes.wf()
    }

    pub closed spec fn assets(&self) -> Map<Seq<Seq<char>>, AssetInfo> {
        self.assets@
    }

    pub closed spec fn contracts(&self) -> Map<Seq<Seq<char>>, String> {
        self.contracts@
    }

    pub closed spec fn channels(&self) -> Map<Seq<Seq<char>>, String> {
        self.channels@
    }

    pub closed spec fn pools(&self) -> Map<Seq<Seq<char>>, PoolMetadata> {
        self.pools@
    }

    pub closed spec fn dexes(&self) -> Map<Seq<Seq<char>>, ()> {
        self.dexes@
    }

    pub fn new() -> (r: AnsRegistry)
        ensures
            r.wf(),
            r.assets() == Map::<Seq<Seq<char>>, AssetInfo>::empty(),
            r.contracts() == Map::<Seq<Seq<char>>, String>::empty(),
            r.channels() == Map::<Seq<Seq<char>>, String>::empty(),
            r.pools() == Map::<Seq<Seq<char>>, PoolMetadata>::empty(),
            r.dexes() == Map::<Seq<Seq<char>>, ()>::empty(),
    {
        AnsRegistry {
            assets: NameStore::new(),
            contracts: NameStore::new(),
            channels: NameStore::new(),
            pools: NameStore::new(),
            dexes: NameStore::new(),
        }
    }

    pub fn asset(&self, name: &String) -> (r: Option<&AssetInfo>)
        requires
            self.wf(),
        ensures
            r is Some == self.assets().contains_key(name.key_view()),
            r matches Some(v) ==> *v == self.assets()[name.key_view()],
    {
        self.assets.get(name)
    }

    pub fn contract(&self, entry: &ContractEntry) -> (r: Option<&String>)
        requires
            self.wf(),
        ensures
            r is Some == self.contracts().contains_key(entry.key_view()),
            r matches Some(v) ==> *v == self.contracts()[entry.key_view()],
    {
        self.contracts.get(entry)
    }

    pub fn channel(&self, entry: &ChannelEntry) -> (r: Option<&String>)
        requires
            self.wf(),
        ensures
            r is Some == self.channels().contains_key(entry.key_view()),
            r matches Some(v) ==> *v == self.channels()[entry.key_view()],
    {
        self.channels.get(entry)
    }

    pub fn pool(&self, address: &String) -> (r: Option<&PoolMetadata>)
        requires
            self.wf(),
        ensures
            r is Some == self.pools().contains_key(address.key_view()),
            r matches Some(v) ==> *v == self.pools()[address.key_view()],
    {
        self.pools.get(address)
    }

    pub fn is_dex_registered(&self, dex: &String) -> (r: bool)
        requires
            self.wf(),
        ensures
            r == self.dexes().contains_key(dex_key(dex@)),
    {
        self.dexes.get(dex).is_some()
    }

    /// Reconciles the asset table; the other tables stay as they were.
    pub fn update_assets(&mut self, to_add: Vec<(String, AssetInfo)>, to_remove: Vec<String>)
        requires
            old(self).wf(),
        ensures
            final(self).wf(),
            final(self).assets() == reconciled(old(self).assets(), to_add@, to_remove@),
            final(self).contracts() == old(self).contracts(),
            final(self).channels() == old(self).channels(),
            final(self).pools() == old(self).pools(),
            final(self).dexes() == old(self).dexes(),
    {
        self.assets.reconcile(to_add, &to_remove);
    }

    /// Reconciles the contract table; the other tables stay as they were.
    pub fn update_contracts(
        &mut self,
        to_add: Vec<(ContractEntry, String)>,
        to_remove: Vec<ContractEntry>,
    )
        requires
            old(self).wf(),
        ensures
            final(self).wf(),
            final(self).contracts() == reconciled(old(self).contracts(), to_add@, to_remove@),
            final(self).assets() == old(self).assets(),
            final(self).channels() == old(self).channels(),
            final(self).pools() == old(self).pools(),
            final(self).dexes() == old(self).dexes(),
    {
        self.contracts.reconcile(to_add, &to_remove);
    }

    /// Reconciles the channel table; the other tables stay as they were.
    pub fn update_channels(
        &mut self,
        to_add: Vec<(ChannelEntry, String)>,
        to_remove: Vec<ChannelEntry>,
    )
        requires
            old(self).wf(),
        ensures
            final(self).wf(),
            final(self).channels() == reconciled(old(self).channels(), to_add@, to_remove@),
            final(self).assets() == old(self).assets(),
            final(self).contracts() == old(self).contracts(),
            final(self).pools() == old(self).pools(),
            final(self).dexes() == old(self).dexes(),
    {
        self.channels.reconcile(to_add, &to_remove);
    }

    /// Adds protocols to, then removes protocols from, the dex set.
    pub fn update_dexes(&mut self, to_add: Vec<String>, to_remove: Vec<String>)
        requires
            old(self).wf(),
        ensures
            final(self).wf(),
            final(self).dexes() == reconciled(old(self).dexes(), as_members(to_add@), to_remove@),
            final(self).assets() == old(self).assets(),
            final(self).contracts() == old(self).contracts(),
            final(self).channels() == old(self).channels(),
            final(self).pools() == old(self).pools(),
    {
        let mut members: Vec<(String, ())> = Vec::new();
        let mut i: usize = 0;
        while i < to_add.len()
            invariant
                i <= to_add@.len(),
                members@ == as_members(to_add@.take(i as int)),
            decreases to_add@.len() - i,
        {
            members.push((to_add[i].clone(), ()));
            i = i + 1;
            assert(members@ =~= as_members(to_add@.take(i as int)));
        }
        assert(to_add@.take(i as int) =~= to_add@);
        self.dexes.reconcile(members, &to_remove);
    }

    /// Whether every pool of `to_add` names a registered dex; if not, the first that does not.
    fn check_pools(&self, to_add: &Vec<(String, PoolMetadata)>) -> (r: Result<(), AnsError>)
        requires
            self.wf(),
        ensures
            r is Ok == pools_known(self.dexes(), to_add@),
            r matches Err(AnsError::UnknownDex { dex }) ==> first_unknown_dex(
                self.dexes(),
                to_add@,
                dex@,
            ),
    {
        let mut i: usize = 0;
        while i < to_add.len()
            invariant
                self.wf(),
                i <= to_add@.len(),
                pools_known(self.dexes(), to_add@.take(i as int)),
            decreases to_add@.len() - i,
        {
            let dex = &to_add[i].1.dex;
            if !self.is_dex_registered(dex) {
                assert(!self.dexes().contains_key(dex_key(to_add@[i as int].1.dex@)));
                return Err(AnsError::UnknownDex { dex: dex.clone() });
            }
            i = i + 1;
            assert forall|j: int| 0 <= j < i implies self.dexes().contains_key(
                dex_key(#[trigger] to_add@.take(i as int)[j].1.dex@),
            ) by {
                if j < i - 1 {
                    assert(to_add@.take(i as int)[j] == to_add@.take(i - 1)[j]);
                }
            }
        }
        assert(to_add@.take(i as int) =~= to_add@);
        Ok(())
    }

    /// Reconciles the pool table when every added pool names a registered dex; otherwise
    /// refuses the whole call, naming the first unregistered dex, and changes nothing.
    pub fn update_pools(
        &mut self,
        to_add: Vec<(String, PoolMetadata)>,
        to_remove: Vec<String>,
    ) -> (r: Result<(), AnsError>)
        requires
            old(self).wf(),
        ensures
            final(self).wf(),
            r is Ok == pools_known(old(self).dexes(), to_add@),
            r is Ok ==> final(self).pools() == reconciled(old(self).pools(), to_add@, to_remove@),
            r is Err ==> final(self).pools() == old(self).pools(),
            r matches Err(AnsError::UnknownDex { dex }) ==> first_unknown_dex(
                old(self).dexes(),
                to_add@,
                dex@,
            ),
            final(self).assets() == old(self).assets(),
            final(self).contracts() == old(self).contracts(),
            final(self).channels() == old(self).channels(),
            final(self).dexes() == old(self).dexes(),
    {
        match self.check_pools(&to_add) {
            Ok(()) => {
                self.pools.reconcile(to_add, &to_remove);
                Ok(())
            },
            Err(e) => Err(e),
        }
    }

    /// Submits pool chunks in order, each on its own, stopping at the first refused chunk.
    /// The chunks before it stay applied; the refused chunk leaves no trace.
    pub fn update_pools_chunked(&mut self, chunks: Vec<Vec<(String, PoolMetadata)>>) -> (r: Result<
        (),
        ReconcileError,
    >)
        requires
            old(self).wf(),
        ensures
            final(self).wf(),
            r is Ok == forall|k: int|
                0 <= k < chunks@.len() ==> pools_known(old(self).dexes(), #[trigger] chunks@[k]@),
            r is Ok ==> final(self).pools() == added_chunks(old(self).pools(), chunks@),
            r matches Err(e) ==> {
                &&& e.chunk_index < chunks@.len()
                &&& forall|k: int|
                    0 <= k < e.chunk_index ==> pools_known(
                        old(self).dexes(),
                        #[trigger] chunks@[k]@,
                    )
                &&& e.cause matches AnsError::UnknownDex { dex } && first_unknown_dex(
                    old(self).dexes(),
                    chunks@[e.chunk_index as int]@,
                    dex@,
                )
                &&& final(self).pools() == added_chunks(
                    old(self).pools(),
                    chunks@.take(e.chunk_index as int),
                )
            },
            final(self).assets() == old(self).assets(),
            final(self).contracts() == old(self).contracts(),
            final(self).channels() == old(self).channels(),
            final(self).dexes() == old(self).dexes(),
    {
        let ghost all = chunks@;
        let total: usize = chunks.len();
        let mut rest = chunks;
        let mut index: usize = 0;
        assert(all.take(0) =~= Seq::<Vec<(String, PoolMetadata)>>::empty());
        while index < total
            invariant
                self.wf(),
                index <= all.len(),
                all == chunks@,
                all.len() == total,
                rest@ == all.subrange(index as int, all.len() as int),
                forall|k: int| 0 <= k < index ==> pools_known(old(self).dexes(), #[trigger] all[k]@),
                self.pools() == added_chunks(old(self).pools(), all.take(index as int)),
                self.assets() == old(self).assets(),
                self.contracts() == old(self).contracts(),
                self.channels() == old(self).channels(),
                self.dexes() == old(self).dexes(),
            decreases total - index,
        {
            let chunk = rest.remove(0);
            assert(chunk == all[index as int]);
            match self.update_pools(chunk, Vec::new()) {
                Ok(()) => {},
                Err(cause) => {
                    assert(!pools_known(old(self).dexes(), all[index as int]@));
                    return Err(ReconcileError { chunk_index: index, cause });
                },
            }
            assert(all.take(index + 1).drop_last() =~= all.take(index as int));
            index = index + 1;
            assert(rest@ =~= all.subrange(index as int, all.len() as int));
        }
        assert(all.take(index as int) =~= all);
        Ok(())
    }
}

} // verus!
