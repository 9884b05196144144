use terra_script::confirm::{
    first_attribute, parse_u64_decimal, poll_step, resolve_confirmation, LogAttribute, PollStep,
    TxConfirmation, TxOutcome,
};
use terra_script::contract::{
    resolve_wasm_path, ContractInstance, GroupConfig, CONFIRM_ATTEMPTS,
};
use terra_script::error::ScriptError;
use terra_script::message::{Coin, MessageBody};
use terra_script::multisig::Multisig;
use terra_script::network::{Network, WaitPolicy};
use terra_script::state::StateDoc;

fn s(t: &str) -> String {
    t.to_string()
}

fn group(proposal: bool) -> GroupConfig {
    GroupConfig {
        name: s("dev"),
        proposal,
        network: Network::LocalTerra,
        wait_policy: WaitPolicy::customary(),
        file_path: s("state.json"),
    }
}

fn attr(event: &str, key: &str, value: &str) -> LogAttribute {
    LogAttribute { event_type: s(event), key: s(key), value: s(value) }
}

fn confirmation(attrs: Vec<LogAttribute>) -> TxConfirmation {
    TxConfirmation { txhash: s("CAFEBABE"), attributes: attrs }
}

#[test]
fn create_proposal_wraps_payload() {
    let msg = Multisig::create_proposal(
        &s("{\"increment\":{}}"),
        &s("dev"),
        &s("A"),
        &s("M"),
        &s("S"),
        Vec::new(),
    );
    assert_eq!(msg.contract, s("M"));
    assert_eq!(msg.sender, s("S"));
    assert!(msg.coins.is_empty());
    match msg.body {
        MessageBody::Proposal { title, description, actions } => {
            assert_eq!(title, s(""));
            assert_eq!(description, s(""));
            assert_eq!(actions.len(), 1);
            assert_eq!(actions[0].contract_addr, s("A"));
            assert_eq!(actions[0].msg_b64, s("eyJpbmNyZW1lbnQiOnt9fQ=="));
            assert!(actions[0].funds.is_empty());
        },
        MessageBody::Direct { .. } => panic!("expected a proposal body"),
    }
}

#[test]
fn create_proposal_carries_funds_inside_action() {
    let coins = vec![Coin { denom: s("uluna"), amount: s("1000") }];
    let msg = Multisig::create_proposal(
        &s("{\"increment\":{}}"),
        &s("dev"),
        &s("A"),
        &s("M"),
        &s("S"),
        coins.clone(),
    );
    assert!(msg.coins.is_empty());
    match msg.body {
        MessageBody::Proposal { actions, .. } => {
            assert_eq!(actions[0].funds, coins);
        },
        MessageBody::Direct { .. } => panic!("expected a proposal body"),
    }
}

#[test]
fn execute_not_found_without_address() {
    let mut doc = StateDoc::new();
    let c = ContractInstance::new(s("counter"), group(false), &mut doc);
    let r = c.prepare_execute(&doc, &s("{\"increment\":{}}"), Vec::new(), &s("S"), None);
    assert_eq!(r.unwrap_err(), ScriptError::NotFound);
}

#[test]
fn query_not_found_without_address() {
    let mut doc = StateDoc::new();
    let c = ContractInstance::new(s("counter"), group(false), &mut doc);
    let r = c.prepare_query(&doc, s("{\"count\":{}}"));
    assert_eq!(r.unwrap_err(), ScriptError::NotFound);
}

#[test]
fn instantiate_not_found_without_code_id() {
    let mut doc = StateDoc::new();
    let c = ContractInstance::new(s("counter"), group(false), &mut doc);
    let r = c.prepare_instantiate(&doc, s("{\"count\":0}"), None, Vec::new());
    assert_eq!(r.unwrap_err(), ScriptError::NotFound);
}

#[test]
fn execute_builds_direct_message() {
    let mut doc = StateDoc::new();
    let c = ContractInstance::new(s("counter"), group(false), &mut doc);
    c.save_contract_address(&mut doc, s("terra1abc"));
    let coins = vec![Coin { denom: s("uluna"), amount: s("5") }];
    let msg = c
        .prepare_execute(&doc, &s("{\"increment\":{}}"), coins.clone(), &s("S"), None)
        .unwrap();
    assert_eq!(msg.sender, s("S"));
    assert_eq!(msg.contract, s("terra1abc"));
    assert_eq!(msg.coins, coins);
    assert_eq!(msg.body, MessageBody::Direct { payload: s("{\"increment\":{}}") });
}

#[test]
fn execute_in_proposal_group_needs_multisig_address() {
    let mut doc = StateDoc::new();
    let c = ContractInstance::new(s("counter"), group(true), &mut doc);
    c.save_contract_address(&mut doc, s("terra1abc"));
    let r = c.prepare_execute(&doc, &s("{\"increment\":{}}"), Vec::new(), &s("S"), None);
    assert_eq!(r.unwrap_err(), ScriptError::ConfigurationError);
}

#[test]
fn execute_in_proposal_group_wraps_payload() {
    let mut doc = StateDoc::new();
    let c = ContractInstance::new(s("counter"), group(true), &mut doc);
    c.save_contract_address(&mut doc, s("terra1abc"));
    let multisig = s("terra1multisig");
    let msg = c
        .prepare_execute(&doc, &s("{\"increment\":{}}"), Vec::new(), &s("S"), Some(&multisig))
        .unwrap();
    assert_eq!(msg.contract, s("terra1multisig"));
    assert_eq!(msg.sender, s("S"));
    assert!(msg.coins.is_empty());
    match msg.body {
        MessageBody::Proposal { actions, .. } => {
            assert_eq!(actions.len(), 1);
            assert_eq!(actions[0].contract_addr, s("terra1abc"));
            assert_eq!(actions[0].msg_b64, s("eyJpbmNyZW1lbnQiOnt9fQ=="));
        },
        MessageBody::Direct { .. } => panic!("expected a proposal body"),
    }
}

#[test]
fn execute_outcome_carries_nonzero_error_code() {
    let mut doc = StateDoc::new();
    let c = ContractInstance::new(s("counter"), group(false), &mut doc);
    let outcome = TxOutcome { txhash: s("CAFEBABE"), error_code: Some(11) };
    let r = c.finish_execute(outcome).unwrap();
    assert_eq!(r.txhash, s("CAFEBABE"));
    assert_eq!(r.error_code, Some(11));
}

#[test]
fn upload_round_trip_records_code_id() {
    let mut doc = StateDoc::new();
    let c = ContractInstance::new(s("counter"), group(false), &mut doc);
    let conf = confirmation(vec![attr("store_code", "code_id", "42")]);
    assert_eq!(c.finish_upload(&conf, &mut doc), Ok(42));
    assert_eq!(c.get_code_id(&doc), Ok(42));
}

#[test]
fn upload_with_unparseable_code_id_is_malformed() {
    let mut doc = StateDoc::new();
    let c = ContractInstance::new(s("counter"), group(false), &mut doc);
    let conf = confirmation(vec![attr("store_code", "code_id", "4x2")]);
    assert_eq!(c.finish_upload(&conf, &mut doc), Err(ScriptError::MalformedChainResponse));
    assert_eq!(c.get_code_id(&doc), Err(ScriptError::NotFound));
}

#[test]
fn upload_without_attribute_is_malformed() {
    let mut doc = StateDoc::new();
    let c = ContractInstance::new(s("counter"), group(false), &mut doc);
    let conf = confirmation(vec![attr("store_code", "sender", "terra1abc")]);
    assert_eq!(c.finish_upload(&conf, &mut doc), Err(ScriptError::MalformedChainResponse));
    assert_eq!(c.get_code_id(&doc), Err(ScriptError::NotFound));
}

#[test]
fn instantiate_round_trip_records_address() {
    let mut doc = StateDoc::new();
    let c = ContractInstance::new(s("counter"), group(false), &mut doc);
    let conf = confirmation(vec![attr("instantiate_contract", "contract_address", "terra1abc")]);
    assert_eq!(c.finish_instantiate(&conf, &mut doc), Ok(s("terra1abc")));
    assert_eq!(c.get_address(&doc), Ok(s("terra1abc")));
}

#[test]
fn instantiate_without_attribute_is_malformed() {
    let mut doc = StateDoc::new();
    let c = ContractInstance::new(s("counter"), group(false), &mut doc);
    let conf = confirmation(vec![attr("wasm", "action", "instantiate")]);
    assert_eq!(
        c.finish_instantiate(&conf, &mut doc),
        Err(ScriptError::MalformedChainResponse)
    );
    assert_eq!(c.get_address(&doc), Err(ScriptError::NotFound));
}

#[test]
fn instantiate_request_carries_code_id_and_memo() {
    let mut doc = StateDoc::new();
    let c = ContractInstance::new(s("counter"), group(false), &mut doc);
    c.save_code_id(&mut doc, 42);
    let req = c.prepare_instantiate(&doc, s("{\"count\":0}"), Some(s("terra1admin")), Vec::new())
        .unwrap();
    assert_eq!(req.code_id, 42);
    assert_eq!(req.payload, s("{\"count\":0}"));
    assert_eq!(req.admin, Some(s("terra1admin")));
    assert_eq!(req.memo, s("Contract: counter, Group: dev"));
}

#[test]
fn first_attribute_takes_first_match() {
    let attrs = vec![
        attr("wasm", "action", "store"),
        attr("store_code", "code_id", "42"),
        attr("store_code", "code_id", "43"),
    ];
    let found = first_attribute(&attrs, &s("store_code"), &s("code_id"));
    assert_eq!(found, Some(s("42")));
    assert_eq!(first_attribute(&attrs, &s("store_code"), &s("sender")), None);
}

#[test]
fn parse_u64_exact_values() {
    assert_eq!(parse_u64_decimal("0"), Some(0));
    assert_eq!(parse_u64_decimal("42"), Some(42));
    assert_eq!(parse_u64_decimal("18446744073709551615"), Some(u64::MAX));
}

#[test]
fn parse_u64_rejects_bad_input() {
    assert_eq!(parse_u64_decimal(""), None);
    assert_eq!(parse_u64_decimal("4x2"), None);
    assert_eq!(parse_u64_decimal("-1"), None);
    assert_eq!(parse_u64_decimal(" 42"), None);
    assert_eq!(parse_u64_decimal("18446744073709551616"), None);
}

#[test]
fn poll_never_finding_hash_times_out() {
    let mut responses: Vec<Option<TxConfirmation>> = Vec::new();
    for _ in 0..20 {
        responses.push(None);
    }
    let r = resolve_confirmation(responses, CONFIRM_ATTEMPTS);
    assert_eq!(r.unwrap_err(), ScriptError::ConfirmationTimeout);
}

#[test]
fn poll_with_no_responses_times_out() {
    let r = resolve_confirmation(Vec::new(), CONFIRM_ATTEMPTS);
    assert_eq!(r.unwrap_err(), ScriptError::ConfirmationTimeout);
}

#[test]
fn poll_returns_first_confirmation_within_budget() {
    let conf = confirmation(vec![attr("store_code", "code_id", "42")]);
    let responses = vec![None, None, Some(conf.clone())];
    let r = resolve_confirmation(responses, CONFIRM_ATTEMPTS).unwrap();
    assert_eq!(r, conf);
}

#[test]
fn poll_confirmation_past_budget_is_missed() {
    let conf = confirmation(vec![attr("store_code", "code_id", "42")]);
    let responses = vec![None, None, Some(conf)];
    let r = resolve_confirmation(responses, 2);
    assert_eq!(r.unwrap_err(), ScriptError::ConfirmationTimeout);
}

#[test]
fn poll_step_decisions() {
    let conf = confirmation(vec![]);
    match poll_step(5, Some(conf.clone())) {
        PollStep::Confirmed(c) => assert_eq!(c, conf),
        _ => panic!("expected a confirmation"),
    }
    match poll_step(5, None) {
        PollStep::Retry(left) => assert_eq!(left, 4),
        _ => panic!("expected a retry"),
    }
    match poll_step(1, None) {
        PollStep::TimedOut => {},
        _ => panic!("expected a timeout"),
    }
}

#[test]
fn wasm_path_resolution() {
    assert_eq!(
        resolve_wasm_path(&s("counter"), Some(s("/tmp/x.wasm")), Some(s("/art"))),
        Ok(s("/tmp/x.wasm"))
    );
    assert_eq!(
        resolve_wasm_path(&s("counter"), None, Some(s("/art"))),
        Ok(s("/art/counter.wasm"))
    );
    assert_eq!(
        resolve_wasm_path(&s("counter"), None, None),
        Err(ScriptError::ConfigurationError)
    );
}

#[test]
fn upload_request_uses_memo_and_path() {
    let mut doc = StateDoc::new();
    let c = ContractInstance::new(s("counter"), group(false), &mut doc);
    let req = c.prepare_upload(&s("counter"), None, Some(s("/art"))).unwrap();
    assert_eq!(req.wasm_path, s("/art/counter.wasm"));
    assert_eq!(req.memo, s("Contract: counter, Group: dev"));
    assert_eq!(
        c.prepare_upload(&s("counter"), None, None).unwrap_err(),
        ScriptError::ConfigurationError
    );
}

#[test]
fn wait_policy_delays_by_network_class() {
    let policy = WaitPolicy::customary();
    assert_eq!(policy.delay_seconds(Network::LocalTerra), 6);
    assert_eq!(policy.delay_seconds(Network::Testnet), 30);
    assert_eq!(policy.delay_seconds(Network::Mainnet), 60);

    let fast = WaitPolicy { local_secs: 0, testnet_secs: 1, mainnet_secs: 2 };
    assert_eq!(fast.delay_seconds(Network::Mainnet), 2);
}
