use account_os::ans::{
    distinct_dexes, AnsError, AnsRegistry, AssetInfo, ChannelEntry, ContractEntry, PoolMetadata,
    PoolType,
};
use account_os::chunk::{split_chunks, CHUNK_SIZE};
use account_os::store::NameStore;

fn s(x: &str) -> String {
    x.to_string()
}

fn pool(dex: &str) -> PoolMetadata {
    PoolMetadata { dex: s(dex), pool_type: PoolType::ConstantProduct, assets: vec![s("a"), s("b")] }
}

#[test]
fn reconcile_upserts_then_removes() {
    let mut st: NameStore<String, u64> = NameStore::new();
    st.reconcile(vec![(s("a"), 1), (s("b"), 2), (s("a"), 3)], &vec![]);
    assert_eq!(st.get(&s("a")), Some(&3));
    assert_eq!(st.get(&s("b")), Some(&2));
    st.reconcile(vec![(s("c"), 4)], &vec![s("b"), s("missing")]);
    assert_eq!(st.get(&s("b")), None);
    assert_eq!(st.get(&s("c")), Some(&4));
    assert_eq!(st.get(&s("a")), Some(&3));
}

#[test]
fn reconcile_twice_same_as_once() {
    let mut once: NameStore<String, u64> = NameStore::new();
    let mut twice: NameStore<String, u64> = NameStore::new();
    for st in [&mut once, &mut twice] {
        st.reconcile(vec![(s("x"), 9), (s("y"), 1)], &vec![]);
    }
    let adds = vec![(s("y"), 5), (s("z"), 6), (s("y"), 7)];
    let removes = vec![s("x")];
    once.reconcile(adds.clone(), &removes);
    twice.reconcile(adds.clone(), &removes);
    twice.reconcile(adds, &removes);
    for k in ["x", "y", "z"] {
        assert_eq!(once.get(&s(k)), twice.get(&s(k)));
    }
    assert_eq!(twice.get(&s("y")), Some(&7));
    assert_eq!(twice.get(&s("x")), None);
}

#[test]
fn tables_of_each_kind() {
    let mut ans = AnsRegistry::new();
    ans.update_assets(vec![(s("junox"), AssetInfo::Native(s("ujunox")))], vec![]);
    assert!(matches!(ans.asset(&s("junox")), Some(AssetInfo::Native(d)) if d == "ujunox"));
    let staking = ContractEntry { protocol: s("junoswap"), contract: s("staking/crab,junox") };
    ans.update_contracts(vec![(staking.clone(), s("juno1vhx"))], vec![]);
    assert_eq!(ans.contract(&staking), Some(&s("juno1vhx")));
    let other = ContractEntry { protocol: s("junoswap"), contract: s("staking") };
    assert_eq!(ans.contract(&other), None);
    let channel = ChannelEntry { connected_chain: s("osmosis"), protocol: s("ics20") };
    ans.update_channels(vec![(channel.clone(), s("channel-0"))], vec![]);
    assert_eq!(ans.channel(&channel), Some(&s("channel-0")));
    ans.update_channels(vec![], vec![channel.clone()]);
    assert_eq!(ans.channel(&channel), None);
    // the other tables are untouched
    assert!(ans.asset(&s("junox")).is_some());
}

#[test]
fn pool_with_unregistered_dex_is_refused() {
    let mut ans = AnsRegistry::new();
    let r = ans.update_pools(vec![(s("pool1"), pool("alpha"))], vec![]);
    assert!(matches!(r, Err(AnsError::UnknownDex { dex }) if dex == "alpha"));
    assert!(ans.pool(&s("pool1")).is_none());
    assert!(!ans.is_dex_registered(&s("alpha")));
}

#[test]
fn pool_after_dex_registration_is_accepted() {
    let mut ans = AnsRegistry::new();
    ans.update_dexes(vec![s("alpha")], vec![]);
    assert!(ans.is_dex_registered(&s("alpha")));
    assert!(ans.update_pools(vec![(s("pool1"), pool("alpha"))], vec![]).is_ok());
    assert_eq!(ans.pool(&s("pool1")).map(|p| p.dex.clone()), Some(s("alpha")));
    let r = ans.update_pools(vec![(s("pool2"), pool("alpha")), (s("pool3"), pool("beta"))], vec![]);
    assert!(matches!(r, Err(AnsError::UnknownDex { dex }) if dex == "beta"));
    assert!(ans.pool(&s("pool2")).is_none());
    ans.update_dexes(vec![], vec![s("alpha")]);
    assert!(!ans.is_dex_registered(&s("alpha")));
}

#[test]
fn split_into_chunks_of_twenty_five() {
    let items: Vec<u32> = (0..60).collect();
    let chunks = split_chunks(items, CHUNK_SIZE);
    let sizes: Vec<usize> = chunks.iter().map(|c| c.len()).collect();
    assert_eq!(sizes, vec![25, 25, 10]);
    assert_eq!(chunks[1][0], 25);
    assert_eq!(chunks[2][9], 59);
    assert!(split_chunks(Vec::<u32>::new(), CHUNK_SIZE).is_empty());
    assert_eq!(split_chunks((0..25).collect::<Vec<u32>>(), CHUNK_SIZE).len(), 1);
}

#[test]
fn failed_chunk_keeps_earlier_chunks() {
    let mut ans = AnsRegistry::new();
    ans.update_dexes(vec![s("alpha")], vec![]);
    let chunks = vec![
        vec![(s("p1"), pool("alpha")), (s("p2"), pool("alpha"))],
        vec![(s("p3"), pool("alpha")), (s("p4"), pool("gamma"))],
        vec![(s("p5"), pool("alpha"))],
    ];
    let r = ans.update_pools_chunked(chunks);
    let e = r.unwrap_err();
    assert_eq!(e.chunk_index, 1);
    assert!(matches!(e.cause, AnsError::UnknownDex { dex } if dex == "gamma"));
    assert!(ans.pool(&s("p1")).is_some());
    assert!(ans.pool(&s("p2")).is_some());
    assert!(ans.pool(&s("p3")).is_none());
    assert!(ans.pool(&s("p5")).is_none());
}

#[test]
fn all_chunks_accepted() {
    let mut ans = AnsRegistry::new();
    ans.update_dexes(vec![s("alpha")], vec![]);
    let pools: Vec<(String, PoolMetadata)> =
        (0..30).map(|i| (format!("p{}", i), pool("alpha"))).collect();
    let chunks = split_chunks(pools, CHUNK_SIZE);
    assert!(ans.update_pools_chunked(chunks).is_ok());
    assert!(ans.pool(&s("p0")).is_some());
    assert!(ans.pool(&s("p29")).is_some());
}

#[test]
fn distinct_dexes_of_pools() {
    let pools = vec![
        (s("p1"), pool("alpha")),
        (s("p2"), pool("beta")),
        (s("p3"), pool("alpha")),
    ];
    assert_eq!(distinct_dexes(&pools), vec![s("alpha"), s("beta")]);
    assert!(distinct_dexes(&vec![]).is_empty());
}
