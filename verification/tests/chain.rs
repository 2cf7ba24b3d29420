use darkside::chain::{
    generate_blocks, init_darksidewalletd, prepare_darksidewalletd, send_and_stage_transaction,
    server_address, stage_transaction, update_tree_states_for_transaction, ChainConstants,
};
use darkside::connector::DarksideConnector;
use darkside::dataset::read_dataset;
use darkside::flow::{
    Abort, OnFailure, Outcome, Output, Progress, Reply, Request, Script, Source, Step,
};
use darkside::messages::{
    Call, DarksideBlock, DarksideEmptyBlocks, DarksideHeight, DarksideMetaState, RawTransaction,
    TreeState,
};
use darkside::transaction::{write_raw_transaction, RecordError};
use darkside::update::TreeUpdateError;
use zcash_protocol::consensus::BranchId;

/// A transaction with one Sapling output.
const ONE_OUTPUT: &str = "\
    050000800a27a726b4d0d6c21fc998c31f4dd2080100000000000000000000000000000000000000\
    00000000000000000000000000ffffffff06041f4dd20800ffffffff015058e5754c2104000753ac\
    51530051520001e5849f96bae6f2056f33ab1e6989d7d264adc97855a990103b4d1e6350d5c31a39\
    c3caf69459e462f141be8b39037ffa255ce27e4ad7b566a29620a9f011ab08fb2ad3050652b3f65b\
    8e34526a2a15fc2ddc5b5113e4882c7cca0dd5577be067ba7a175dae4bbe3ef4863d53708915090f\
    47a068e227433f9e49d3aa09e356d8d66d0c0121e91a3c4aa3f27fa1b63396e2b41db908fdab8b18\
    cc7304e94e970568f9421c0dbbbaf84598d972b0534f48a5e52670436aaa776ed2482ad703430201\
    e53443c36dcfd34a0cb6637876105e79bf3bd58ec148cb64970e3223a91f71dfcfd5a04b667fbaf3\
    d4b3b908b9828820dfecdd753750b5f9d2216e56c615272f854464c0ca4b1e85aedd038292c4e1a5\
    7744ebba010b9ebfbb011bd6f0b78805025d27f3c17746bae116c15d9f471f0f6288a150647b2afe\
    9df7cccf01f5cde5f04680bbfed87f6cf429fb27ad6babe791766611cf5bc20e48bef119259b9b8a\
    0e39c3df28cb9582ea338601cdc481b32fb82adeebb3dade25d1a3df20c37e712506b5d996c49a9f\
    0f30ddcb91fe9004e1e83294a6c9203d94e8dc2cbb449de4155032604e47997016b304fd437d8235\
    045e255a19b743a0a9f2e336b44cae307bb3987bd3e4e777fbb34c0ab8cc3d67466c0a88dd4ccad1\
    8a07a8d1068df5b629e5718d0f6df5c957cf71bb00a5178f175caca944e635c5159f738e2402a2d2\
    1aa081e10e456afb00b9f62416c8b9c0f7228f510729e0be3f305313d77f7379dc2af24869c6c74e\
    e4471498861d192f0ff0f508285dab6b6a36ccf7d12256cc76b95503720ac672d08268d2cf7773b6\
    ba2a5f664847bf707f2fc10c98f2f006ec22ccb5a8c8b7c40c7c2d49a6639b9f2ce33c25c04bc461\
    e744dfa536b00d94baddf4f4d14044c695a33881477df124f0fcf206a9fb2e65e304cdbf0c4d2390\
    170c130ab849c2f22b5cdd3921640c8cf1976ae1010b0dfd9cb2543e45f99749cc4d61f2e8aabfe9\
    8bd905fa39951b33ea769c45ab9531c57209862ad12fd76ba4807e65417b6cd12fa8ec916f013ebb\
    8706a9a556c762f88500006effeda06c4be24b04846392e9d1e6930eae01fa21fbd700583fb598b9\
    2c8f4eb8a61aa6235db60f2841cf3a1c6ab54c67066844711d091eb931a1bd6281aedf2a0e8fab18\
    817202a9be06402ed9cc720c16bfe881e4df4255e87afb7fc62f38116bbe03cd8a3cb11a27d56841\
    4782f47b1a44c97c680467694bc9709d32916c97e8006cbb07ba0e4180a3738038c374c4cce8f329\
    59afb25f303f5815c4533124acf9d18940e77522ac5dc4b9570aae8f47b7f57fd8767bea1a24ae7b\
    ed65b409e1dd26b8dddd68858d6f5161f073d90636860a9aaee18629b06330a8ee30591debfcef56\
    a026bb28c3b06ec2cfaf5b79ab72694d1d012a7594dd80ae7dfa0c00\
";

/// A transaction without shielded parts.
const NO_SHIELDED_PART: &str = "\
    050000800a27a726b4d0d6c2c2eb518f68984d020100000000000000000000000000000000000000\
    00000000000000000000000000ffffffff060468984d0200ffffffff00000000\
";

const CMU: &str = "39c3caf69459e462f141be8b39037ffa255ce27e4ad7b566a29620a9f011ab08";

fn connector() -> DarksideConnector {
    DarksideConnector(server_address("9067").parse().unwrap())
}

fn state(height: u64, sapling_tree: &str) -> TreeState {
    TreeState {
        network: "regtest".to_string(),
        height,
        hash: String::new(),
        time: 0,
        sapling_tree: sapling_tree.to_string(),
        orchard_tree: "000000".to_string(),
    }
}

fn constants(transaction: &str) -> ChainConstants {
    ChainConstants {
        branch_id: "2bb40e60".to_string(),
        genesis_block: "04".to_string(),
        first_tree_state: state(1, "000000"),
        transaction_incoming_100taz: transaction.to_string(),
    }
}

fn with_output(height: u64) -> TreeState {
    state(height, &format!("01{CMU}0000"))
}

fn raw(text: &str) -> RawTransaction {
    RawTransaction { data: hex::decode(text).unwrap(), height: 77 }
}

/// Runs a script on the given replies: the requests that it makes, and how it ends.
fn run(script: Script, replies: Vec<Reply>) -> (Vec<Request>, Progress) {
    let mut requests = vec![];
    let mut progress = script.start();
    for reply in replies {
        match progress {
            Progress::Waiting { request, flow } => {
                requests.push(request);
                progress = flow.resume(reply);
            }
            end => panic!("a reply too many after {:?}", end),
        }
    }
    (requests, progress)
}

fn done(n: usize) -> Vec<Reply> {
    (0..n).map(|_| Reply::Done).collect()
}

fn replies(parts: Vec<Vec<Reply>>) -> Vec<Reply> {
    parts.into_iter().flatten().collect()
}

fn call(call: Call) -> Request {
    Request::Call(call)
}

fn blocks(height: i32, count: i32, nonce: i32) -> Request {
    call(Call::StageBlocksCreate(DarksideEmptyBlocks { height, count, nonce }))
}

fn add(state: TreeState) -> Request {
    call(Call::AddTreeState(state))
}

fn apply(height: i32) -> Request {
    call(Call::ApplyStaged(DarksideHeight { height }))
}

fn stage(text: &str, height: u64) -> Request {
    let data = hex::decode(text).unwrap();
    call(Call::StageTransactionsStream(vec![RawTransaction { data, height }]))
}

fn fresh() -> Vec<Request> {
    vec![
        call(Call::ClearAddressUtxo),
        call(Call::Reset(DarksideMetaState {
            sapling_activation: 1,
            branch_id: "2bb40e60".to_string(),
            chain_name: "regtest".to_string(),
        })),
        call(Call::StageBlocksStream(vec![DarksideBlock { block: "04".to_string() }])),
    ]
}

fn waits_for(progress: &Progress, expected: Request) -> bool {
    match progress {
        Progress::Waiting { request, .. } => *request == expected,
        _ => false,
    }
}

#[test]
fn server_is_at_a_local_port() {
    assert_eq!(server_address("9067"), "http://127.0.0.1:9067");
}

#[test]
fn prepare_without_funds() {
    let script = prepare_darksidewalletd(&connector(), &constants("no hex"), false);
    let (requests, end) = run(script, done(9));
    let mut expected = fresh();
    expected.push(blocks(2, 2, 0));
    expected.push(add(state(1, "000000")));
    expected.push(add(state(2, "000000")));
    expected.push(add(state(3, "000000")));
    expected.push(Request::Sleep { seconds: 2 });
    expected.push(apply(3));
    assert_eq!(requests, expected);
    assert_eq!(end, Progress::Returned(Ok(Output::Nothing)));
}

#[test]
fn prepare_with_funds() {
    let script = prepare_darksidewalletd(&connector(), &constants(ONE_OUTPUT), true);
    let trees = Reply::Trees(state(1, "000000"));
    let (requests, end) = run(script, replies(vec![done(6), vec![trees], done(4)]));
    let mut expected = fresh();
    expected.push(blocks(2, 2, 0));
    expected.push(add(state(1, "000000")));
    expected.push(stage(ONE_OUTPUT, 2));
    expected.push(Request::GetTrees { height: 1 });
    expected.push(add(with_output(2)));
    expected.push(add(with_output(3)));
    expected.push(Request::Sleep { seconds: 2 });
    expected.push(apply(3));
    assert_eq!(requests, expected);
    assert_eq!(end, Progress::Returned(Ok(Output::Nothing)));
}

#[test]
fn prepare_with_funds_that_are_no_transaction() {
    let script = prepare_darksidewalletd(&connector(), &constants("xy"), true);
    assert_eq!(run(script, done(5)).1, Progress::Aborted(Abort::NotHexadecimal));
    let script = prepare_darksidewalletd(&connector(), &constants("0102"), true);
    let trees = Reply::Trees(state(1, "000000"));
    let (_, end) = run(script, replies(vec![done(6), vec![trees]]));
    assert_eq!(end, Progress::Aborted(Abort::Trees(TreeUpdateError::Transaction)));
}

#[test]
fn prepare_returns_two_errors_and_aborts_on_the_others() {
    for n in 0..9 {
        let script = prepare_darksidewalletd(&connector(), &constants(""), false);
        let failed = vec![Reply::Failed("down".to_string())];
        let (requests, end) = run(script, replies(vec![done(n), failed]));
        assert_eq!(requests.len(), n + 1);
        if n == 2 || n == 8 {
            assert_eq!(end, Progress::Returned(Err("down".to_string())));
        } else {
            assert_eq!(end, Progress::Aborted(Abort::Failed("down".to_string())));
        }
    }
}

#[test]
fn init_stages_the_first_block() {
    let (requests, end) = run(init_darksidewalletd(&connector(), &constants("")), done(4));
    let mut expected = fresh();
    expected.push(add(state(1, "000000")));
    assert_eq!(requests, expected);
    assert_eq!(end, Progress::Returned(Ok(Output::Nothing)));
}

#[test]
fn init_returns_the_error_of_the_first_block() {
    let script = init_darksidewalletd(&connector(), &constants(""));
    let failed = vec![Reply::Failed("no".to_string())];
    let (_, end) = run(script, replies(vec![done(2), failed]));
    assert_eq!(end, Progress::Returned(Err("no".to_string())));
}

#[test]
fn generate_reaches_the_target() {
    let script = generate_blocks(&connector(), state(5, "000000"), 5, 12, 3);
    let (requests, end) = run(script, done(3));
    assert_eq!(requests, vec![blocks(6, 7, 3), add(state(12, "000000")), apply(12)]);
    assert_eq!(end, Progress::Returned(Ok(Output::Height(12))));
}

#[test]
fn generate_of_no_blocks_and_of_blocks_below() {
    let script = generate_blocks(&connector(), state(5, "000000"), 5, 5, 0);
    assert_eq!(run(script, done(3)).0[0], blocks(6, 0, 0));
    let script = generate_blocks(&connector(), state(5, "000000"), 0, -1, 0);
    let (requests, end) = run(script, done(3));
    assert_eq!(requests, vec![blocks(1, -1, 0), add(state(u64::MAX, "000000")), apply(-1)]);
    assert_eq!(end, Progress::Returned(Ok(Output::Height(-1))));
}

#[test]
fn generate_goes_on_where_it_ended() {
    let first = run(generate_blocks(&connector(), state(1, "000000"), 1, 4, 0), done(3));
    assert_eq!(first.0[0], blocks(2, 3, 0));
    let second = run(generate_blocks(&connector(), state(1, "000000"), 4, 6, 0), done(3));
    assert_eq!(second.0[0], blocks(5, 2, 0));
}

#[test]
fn generate_aborts_on_every_failure() {
    for n in 0..3 {
        let script = generate_blocks(&connector(), state(1, "000000"), 1, 2, 0);
        let failed = vec![Reply::Failed("f".to_string())];
        let (_, end) = run(script, replies(vec![done(n), failed]));
        assert_eq!(end, Progress::Aborted(Abort::Failed("f".to_string())));
    }
}

#[test]
fn update_script_adds_the_new_tree_state() {
    let script = update_tree_states_for_transaction(raw(ONE_OUTPUT), 8, "regtest");
    let (requests, end) =
        run(script, vec![Reply::Trees(state(7, "000000")), Reply::Done]);
    assert_eq!(requests, vec![Request::GetTrees { height: 7 }, add(with_output(8))]);
    assert_eq!(end, Progress::Returned(Ok(Output::TreeState(with_output(8)))));
}

#[test]
fn update_script_has_no_block_before_the_first() {
    let script = update_tree_states_for_transaction(raw(ONE_OUTPUT), 0, "regtest");
    assert_eq!(script.start(), Progress::Aborted(Abort::NoBlockBefore));
}

#[test]
fn update_script_aborts_on_bad_trees() {
    let script = update_tree_states_for_transaction(raw(ONE_OUTPUT), 8, "regtest");
    let (_, end) = run(script, vec![Reply::Trees(state(7, "x"))]);
    assert_eq!(end, Progress::Aborted(Abort::Trees(TreeUpdateError::SaplingText)));
}

#[test]
fn staged_transaction_gives_its_tree_state_twice() {
    let script = stage_transaction(&connector(), 4, &ONE_OUTPUT.to_uppercase(), "regtest");
    let trees = Reply::Trees(state(3, "000000"));
    let (requests, end) = run(script, replies(vec![done(2), vec![trees], done(2)]));
    assert_eq!(
        requests,
        vec![
            blocks(4, 1, 0),
            stage(ONE_OUTPUT, 4),
            Request::GetTrees { height: 3 },
            add(with_output(4)),
            add(with_output(4)),
        ]
    );
    assert_eq!(end, Progress::Returned(Ok(Output::TreeState(with_output(4)))));
}

#[test]
fn staged_transaction_has_to_be_hexadecimal() {
    for text in ["abc", "0x12", "g0"] {
        let script = stage_transaction(&connector(), 4, text, "regtest");
        let (requests, end) = run(script, done(1));
        assert_eq!(requests, vec![blocks(4, 1, 0)]);
        assert_eq!(end, Progress::Aborted(Abort::NotHexadecimal));
    }
}

#[test]
fn staged_transaction_height_is_cut_to_32_bits() {
    let script = stage_transaction(&connector(), 0x1_0000_0005, "", "regtest");
    assert!(waits_for(&script.start(), blocks(5, 1, 0)));
    let script = stage_transaction(&connector(), 0xffff_ffff, "", "regtest");
    assert!(waits_for(&script.start(), blocks(-1, 1, 0)));
}

fn sending() -> Vec<Request> {
    vec![
        blocks(6, 1, 0),
        Request::Send { receiver: "addr".to_string(), value: 40_000 },
        call(Call::GetIncomingTransactions),
        call(Call::ClearIncomingTransactions),
        Request::NextTransaction,
    ]
}

fn send() -> Script {
    send_and_stage_transaction(&connector(), "addr", 40_000, 6, "regtest")
}

#[test]
fn sent_transaction_is_recorded_and_staged() {
    let (requests, end) = run(
        send(),
        replies(vec![
            done(4),
            vec![Reply::Transaction(Some(raw(ONE_OUTPUT))), Reply::Transaction(None)],
            done(2),
            vec![Reply::Trees(state(5, "000000"))],
            done(1),
        ]),
    );
    let mut expected = sending();
    expected.push(Request::NextTransaction);
    expected.push(Request::AppendToFile {
        path: "transaction_hex.txt".to_string(),
        text: format!("{ONE_OUTPUT}\n"),
    });
    expected.push(stage(ONE_OUTPUT, 6));
    expected.push(Request::GetTrees { height: 5 });
    expected.push(add(with_output(6)));
    assert_eq!(requests, expected);
    assert_eq!(end, Progress::Returned(Ok(Output::TreeState(with_output(6)))));
}

#[test]
fn send_without_a_transaction_is_given_up() {
    let (requests, end) =
        run(send(), replies(vec![done(4), vec![Reply::Transaction(None)]]));
    assert_eq!(requests, sending());
    assert_eq!(end, Progress::Aborted(Abort::NoTransaction));
}

#[test]
fn send_with_two_transactions_is_given_up() {
    let two = vec![
        Reply::Transaction(Some(raw(ONE_OUTPUT))),
        Reply::Transaction(Some(raw(NO_SHIELDED_PART))),
    ];
    let (requests, end) = run(send(), replies(vec![done(4), two]));
    assert_eq!(requests.len(), 6);
    assert_eq!(end, Progress::Aborted(Abort::TooManyTransactions));
}

#[test]
fn send_of_something_else_is_given_up() {
    let other = RawTransaction { data: vec![1, 2, 3], height: 6 };
    let messages = vec![Reply::Transaction(Some(other)), Reply::Transaction(None)];
    let (_, end) = run(send(), replies(vec![done(4), messages]));
    assert_eq!(end, Progress::Aborted(Abort::Record(RecordError::NotATransaction)));
}

#[test]
fn reply_of_the_wrong_kind_is_given_up() {
    let (_, end) = run(send(), vec![Reply::Transaction(None)]);
    assert_eq!(end, Progress::Aborted(Abort::UnexpectedReply));
    let (_, end) = run(send(), replies(vec![done(4), vec![Reply::Done]]));
    assert_eq!(end, Progress::Aborted(Abort::UnexpectedReply));
}

#[test]
fn prepared_chain_has_one_tree_state_for_each_later_block() {
    for funds in [false, true] {
        let script = prepare_darksidewalletd(&connector(), &constants(ONE_OUTPUT), funds);
        let answers = if funds {
            replies(vec![done(6), vec![Reply::Trees(state(1, "000000"))], done(4)])
        } else {
            done(9)
        };
        let (requests, _) = run(script, answers);
        let added = |wanted: u64| {
            let states: Vec<&TreeState> = requests
                .iter()
                .filter_map(|request| match request {
                    Request::Call(Call::AddTreeState(state)) => Some(state),
                    _ => None,
                })
                .filter(|state| state.height == wanted)
                .collect();
            assert_eq!(states.len(), 1);
            (states[0].sapling_tree.clone(), states[0].orchard_tree.clone())
        };
        assert_eq!(added(2), added(3));
        let staged = requests
            .iter()
            .any(|request| matches!(request, Request::Call(Call::StageTransactionsStream(_))));
        assert_eq!(staged, funds);
        let applied = requests
            .iter()
            .filter(|request| matches!(request, Request::Call(Call::ApplyStaged(_))))
            .count();
        assert_eq!(applied, 1);
        assert_eq!(requests.last(), Some(&apply(3)));
    }
}

/// Carries out what a build asks to be written to the record file.
fn append_records(file: &mut String, requests: Vec<Request>) {
    for request in requests {
        if let Request::AppendToFile { path, text } = request {
            assert_eq!(path, "transaction_hex.txt");
            file.push_str(&text);
        }
    }
}

#[test]
fn records_of_a_chain_build_are_a_dataset() {
    let mut file = String::new();
    let transactions = [ONE_OUTPUT, NO_SHIELDED_PART, ONE_OUTPUT];
    for text in transactions {
        let messages = vec![Reply::Transaction(Some(raw(text))), Reply::Transaction(None)];
        let trees = vec![Reply::Trees(state(5, "000000"))];
        let (requests, _) = run(
            send(),
            replies(vec![done(4), messages, done(2), trees, done(1)]),
        );
        append_records(&mut file, requests);
        let blocks = generate_blocks(&connector(), state(6, "000000"), 6, 9, 0);
        append_records(&mut file, run(blocks, done(3)).0);
    }
    assert_eq!(read_dataset(&file), transactions);
    for line in read_dataset(&file) {
        let data = hex::decode(&line).unwrap();
        let again = write_raw_transaction(&RawTransaction { data, height: 0 }, BranchId::Nu5);
        assert_eq!(again, Ok(format!("{line}\n")));
    }
}

#[test]
fn records_stand_behind_what_the_file_held() {
    let mut file = "earlier\n".to_string();
    let messages = vec![Reply::Transaction(Some(raw(ONE_OUTPUT))), Reply::Transaction(None)];
    let trees = vec![Reply::Trees(state(5, "000000"))];
    let (requests, _) =
        run(send(), replies(vec![done(4), messages, done(2), trees, done(1)]));
    append_records(&mut file, requests);
    assert_eq!(file, format!("earlier\n{ONE_OUTPUT}\n"));
}

#[test]
fn send_that_fails_later_stays_recorded() {
    let taken = || vec![Reply::Transaction(Some(raw(ONE_OUTPUT))), Reply::Transaction(None)];
    let failed = || vec![Reply::Failed("down".to_string())];
    let trees = |text: &str| vec![Reply::Trees(state(5, text))];
    let cases = [
        replies(vec![done(4), taken(), done(1), failed()]),
        replies(vec![done(4), taken(), done(2), failed()]),
        replies(vec![done(4), taken(), done(2), trees("x")]),
        replies(vec![done(4), taken(), done(2), trees("000000"), failed()]),
    ];
    let mut file = String::new();
    for (n, answers) in cases.into_iter().enumerate() {
        let (requests, end) = run(send(), answers);
        assert!(matches!(end, Progress::Aborted(_)));
        let appended = |request: &Request| matches!(request, Request::AppendToFile { .. });
        assert_eq!(requests.iter().position(appended), Some(6));
        assert_eq!(requests.iter().filter(|request| appended(request)).count(), 1);
        append_records(&mut file, requests);
        assert_eq!(file, format!("{ONE_OUTPUT}\n").repeat(n + 1));
    }
}

#[test]
fn send_that_fails_before_is_not_recorded() {
    let other = RawTransaction { data: vec![1, 2, 3], height: 6 };
    let mut cases: Vec<Vec<Reply>> = (0..4)
        .map(|n| replies(vec![done(n), vec![Reply::Failed("down".to_string())]]))
        .collect();
    cases.push(replies(vec![done(4), vec![Reply::Transaction(None)]]));
    cases.push(replies(vec![done(4), vec![Reply::Transaction(Some(raw(ONE_OUTPUT))), Reply::Done]]));
    cases.push(replies(vec![
        done(4),
        vec![Reply::Transaction(Some(other)), Reply::Transaction(None)],
    ]));
    for answers in cases {
        let mut file = "earlier\n".to_string();
        append_records(&mut file, run(send(), answers).0);
        assert_eq!(file, "earlier\n");
    }
}

#[test]
fn prepared_chain_adds_the_first_tree_state_at_its_own_height() {
    let mut constants = constants("");
    constants.first_tree_state.height = 2;
    let (requests, _) = run(prepare_darksidewalletd(&connector(), &constants, false), done(9));
    assert_eq!(
        requests[4..7],
        [add(state(2, "000000")), add(state(2, "000000")), add(state(3, "000000"))]
    );
}

fn script(steps: Vec<Step>, outcome: Outcome) -> Script {
    Script { steps, network: "regtest".to_string(), outcome }
}

#[test]
fn steps_need_what_they_work_on() {
    let add = script(vec![Step::AddTreeState { at: None }], Outcome::Nothing);
    assert_eq!(add.start(), Progress::Aborted(Abort::NoTreeState));
    let record = script(vec![Step::RecordTransaction], Outcome::Nothing);
    assert_eq!(record.start(), Progress::Aborted(Abort::NoTransaction));
    let stage = Step::StageTransaction { source: Source::Taken, height: 1 };
    assert_eq!(
        script(vec![stage], Outcome::Nothing).start(),
        Progress::Aborted(Abort::NoTransaction)
    );
    assert_eq!(
        script(vec![], Outcome::TreeState).start(),
        Progress::Aborted(Abort::NoTreeState)
    );
}

#[test]
fn script_without_steps_returns_at_once() {
    assert_eq!(
        script(vec![], Outcome::Nothing).start(),
        Progress::Returned(Ok(Output::Nothing))
    );
    assert_eq!(
        script(vec![], Outcome::Height(4)).start(),
        Progress::Returned(Ok(Output::Height(4)))
    );
}

#[test]
fn script_makes_one_request_for_each_step() {
    let sleeps = (0..5).map(|seconds| Step::Sleep { seconds }).collect();
    let (requests, end) = run(script(sleeps, Outcome::Nothing), done(5));
    let expected: Vec<Request> = (0..5).map(|seconds| Request::Sleep { seconds }).collect();
    assert_eq!(requests, expected);
    assert_eq!(end, Progress::Returned(Ok(Output::Nothing)));
}

#[test]
fn call_is_made_as_it_was_packed() {
    let call = connector().stage_blocks("http://blocks".to_string());
    let step = Step::Perform { call, on_failure: OnFailure::Return };
    let (requests, end) = run(
        script(vec![step], Outcome::Nothing),
        vec![Reply::Failed("gone".to_string())],
    );
    let packed = connector().stage_blocks("http://blocks".to_string());
    assert_eq!(requests, vec![Request::Call(packed)]);
    assert_eq!(end, Progress::Returned(Err("gone".to_string())));
}
