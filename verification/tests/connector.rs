use darkside::connector::DarksideConnector;
use darkside::messages::{
    Call, DarksideBlock, DarksideBlocksUrl, DarksideEmptyBlocks, DarksideHeight, DarksideMetaState,
    RawTransaction, TreeState,
};
use http::Uri;

fn connector(address: &str) -> DarksideConnector {
    DarksideConnector(address.parse().unwrap())
}

fn local() -> DarksideConnector {
    connector("http://127.0.0.1:9067")
}

fn request(server: &str, address: &str) -> Option<String> {
    let uri: Uri = address.parse().unwrap();
    connector(server).request_uri(&uri).map(|uri| uri.to_string())
}

#[test]
fn request_goes_to_the_server() {
    assert_eq!(
        request("http://127.0.0.1:9067", "/rpc.DarksideStreamer/Reset"),
        Some("http://127.0.0.1:9067/rpc.DarksideStreamer/Reset".to_string())
    );
    assert_eq!(
        request("https://user@host:1/ignored?also", "http://other:2/path?q=1"),
        Some("https://user@host:1/path?q=1".to_string())
    );
    assert_eq!(request("http://host", "http://other"), Some("http://host/".to_string()));
}

#[test]
fn request_needs_a_server_and_a_path() {
    assert_eq!(request("/no/server", "/path"), None);
    assert_eq!(request("host:80", "/path"), None);
    assert_eq!(request("http://host", "host:80"), None);
}

#[test]
fn connector_clone_is_the_same_server() {
    assert_eq!(local().clone().0, local().0);
}

#[test]
fn calls_carry_their_parameters() {
    assert_eq!(local().apply_staged(-3), Call::ApplyStaged(DarksideHeight { height: -3 }));
    assert_eq!(
        local().reset(1, "b".to_string(), "c".to_string()),
        Call::Reset(DarksideMetaState {
            sapling_activation: 1,
            branch_id: "b".to_string(),
            chain_name: "c".to_string(),
        })
    );
    assert_eq!(
        local().stage_blocks("u".to_string()),
        Call::StageBlocks(DarksideBlocksUrl { url: "u".to_string() })
    );
    assert_eq!(
        local().stage_blocks_create(4, 5, 6),
        Call::StageBlocksCreate(DarksideEmptyBlocks { height: 4, count: 5, nonce: 6 })
    );
    let state = TreeState {
        network: "n".to_string(),
        height: 1,
        hash: String::new(),
        time: 2,
        sapling_tree: "00".to_string(),
        orchard_tree: "01".to_string(),
    };
    assert_eq!(local().add_tree_state(state.clone()), Call::AddTreeState(state));
    assert_eq!(local().get_incoming_transactions(), Call::GetIncomingTransactions);
    assert_eq!(local().clear_incoming_transactions(), Call::ClearIncomingTransactions);
    assert_eq!(local().clear_address_utxo(), Call::ClearAddressUtxo);
}

#[test]
fn staged_blocks_keep_their_order() {
    let blocks = vec!["x".to_string(), "".to_string(), "y".to_string()];
    assert_eq!(
        local().stage_blocks_stream(blocks.clone()),
        Call::StageBlocksStream(
            blocks.into_iter().map(|block| DarksideBlock { block }).collect()
        )
    );
    assert_eq!(local().stage_blocks_stream(vec![]), Call::StageBlocksStream(vec![]));
}

#[test]
fn staged_transactions_keep_their_order() {
    assert_eq!(
        local().stage_transactions_stream(vec![(vec![1, 2], 3), (vec![], u64::MAX)]),
        Call::StageTransactionsStream(vec![
            RawTransaction { data: vec![1, 2], height: 3 },
            RawTransaction { data: vec![], height: u64::MAX },
        ])
    );
}
