use darkside::connector::DarksideConnector;
use darkside::handler::{
    after_kill, launch_plan, shutdown, DarksideHandler, KillOutcome, LaunchPlan, Shutdown,
};
use darkside::scenario::{client_request, ClientRequest, DarksideScenarioBuilder};

#[test]
fn launch_is_planned_for_a_local_port() {
    assert_eq!(
        launch_plan("9067"),
        LaunchPlan {
            logs: "logs".to_string(),
            conf: "conf".to_string(),
            data: "data".to_string(),
            binary: "lightwalletd_bin".to_string(),
            check_interval_millis: 300,
            grpc_bind_addr: Some("127.0.0.1:9067".to_string()),
        }
    );
}

#[test]
fn handler_holds_what_it_is_given() {
    let handler = DarksideHandler::new(5u8, "80".to_string(), "dir");
    assert_eq!(handler.lightwalletd_handle, 5);
    assert_eq!(handler.grpc_port, "80");
    assert_eq!(handler.darkside_dir, "dir");
}

#[test]
fn process_is_killed_harder_unless_the_command_worked() {
    assert_eq!(shutdown(77), Shutdown::RunKill { process: 77 });
    assert_eq!(after_kill(KillOutcome::Worked), Shutdown::Finished);
    assert_eq!(after_kill(KillOutcome::Failed), Shutdown::KillChild);
    assert_eq!(after_kill(KillOutcome::NotRun), Shutdown::KillChild);
}

fn scenario() -> DarksideScenarioBuilder<u8, u16, u32, String> {
    DarksideScenarioBuilder::new(
        1,
        DarksideConnector("http://127.0.0.1:1".parse().unwrap()),
        2,
        3,
    )
}

#[test]
fn scenario_starts_without_wallets() {
    let builder = scenario();
    assert_eq!(builder.darkside_handler, 1);
    assert_eq!(builder.client_builder, 2);
    assert_eq!(builder.regtest_network, 3);
    assert_eq!(builder.darkside_connector.0.to_string(), "http://127.0.0.1:1/");
    assert_eq!(builder.faucet, None);
    assert!(builder.lightclients.is_empty());
    assert_eq!(builder.blockheight, 1);
}

#[test]
fn scenario_has_one_faucet() {
    let request = ClientRequest { seed: "seed words".to_string(), birthday: 0, overwrite: true };
    assert_eq!(client_request("seed words"), request);
    let builder = scenario();
    assert_eq!(builder.request_faucet("seed words"), Some(request));
    let builder = builder.build_faucet("faucet".to_string());
    assert_eq!(builder.faucet, Some("faucet".to_string()));
    assert_eq!(builder.request_faucet("seed words"), None);
    assert!(builder.lightclients.is_empty());
}

#[test]
fn scenario_keeps_wallets_in_order() {
    let builder = scenario()
        .build_client("a".to_string())
        .build_faucet("f".to_string())
        .build_client("b".to_string());
    assert_eq!(builder.lightclients, vec!["a", "b"]);
    assert_eq!(builder.faucet, Some("f".to_string()));
    assert_eq!(builder.blockheight, 1);
}
