use mpp_test_sdk::json::{Json, JsonNumber};
use mpp_test_sdk::rpc::{
    read_airdrop, read_latest_blockhash, read_sent, read_transaction, read_verdict, take_result,
    ConfirmAction, ConfirmEvent, ConfirmFlow, RpcClient, RpcError, RpcFault, RpcReply, Verdict,
    CONFIRM_NANOS,
};

fn render(json: &Json) -> String {
    match json {
        Json::Null => "null".to_string(),
        Json::Bool(b) => format!("{b}"),
        Json::Number(JsonNumber::PosInt(n)) => format!("{n}"),
        Json::Number(JsonNumber::NegInt(n)) => format!("{n}"),
        Json::Number(JsonNumber::Float(bits)) => format!("{}", f64::from_bits(*bits)),
        Json::String(s) => format!("{s:?}"),
        Json::Array(items) => {
            let items: Vec<String> = items.iter().map(render).collect();
            format!("[{}]", items.join(","))
        }
        Json::Object(members) => {
            let members: Vec<String> =
                members.iter().map(|(k, v)| format!("{k:?}:{}", render(v))).collect();
            format!("{{{}}}", members.join(","))
        }
    }
}

fn object(members: Vec<(&str, Json)>) -> Json {
    Json::object(members.into_iter().map(|(k, v)| (k.to_string(), v)).collect())
}

fn answer(result: Json) -> Result<RpcReply, RpcFault> {
    Ok(RpcReply { result: Some(result), error: None })
}

#[test]
fn the_call_for_a_blockhash() {
    let call = RpcClient::new("http://node").get_latest_blockhash();
    assert_eq!(call.endpoint, "http://node");
    assert_eq!(
        render(&call.body),
        r#"{"jsonrpc":"2.0","id":1,"method":"getLatestBlockhash","params":[{"commitment":"confirmed"}]}"#
    );
}

#[test]
fn the_call_for_an_airdrop() {
    let call = RpcClient::new("http://node").request_airdrop("addr", 2_000_000_000);
    assert_eq!(
        render(&call.body),
        r#"{"jsonrpc":"2.0","id":1,"method":"requestAirdrop","params":["addr",2000000000]}"#
    );
}

#[test]
fn the_call_for_a_status() {
    let call = RpcClient::new("http://node").signature_statuses("sig");
    assert_eq!(
        render(&call.body),
        r#"{"jsonrpc":"2.0","id":1,"method":"getSignatureStatuses","params":[["sig"],{"searchTransactionHistory":true}]}"#
    );
}

#[test]
fn the_call_that_submits_a_transaction() {
    let call = RpcClient::new("http://node").send_transaction("AAAA");
    assert_eq!(
        render(&call.body),
        r#"{"jsonrpc":"2.0","id":1,"method":"sendTransaction","params":["AAAA",{"encoding":"base64"}]}"#
    );
}

#[test]
fn the_call_for_a_transaction() {
    let call = RpcClient::new("http://node").get_transaction("sig");
    assert_eq!(
        render(&call.body),
        r#"{"jsonrpc":"2.0","id":1,"method":"getTransaction","params":["sig",{"commitment":"confirmed","encoding":"jsonParsed","maxSupportedTransactionVersion":0}]}"#
    );
}

#[test]
fn faults_and_errors_of_a_call() {
    assert_eq!(
        take_result(Err(RpcFault::Marshal("x".to_string()))).unwrap_err(),
        "rpc marshal: x"
    );
    assert_eq!(take_result(Err(RpcFault::Http("x".to_string()))).unwrap_err(), "rpc http: x");
    assert_eq!(take_result(Err(RpcFault::Decode("x".to_string()))).unwrap_err(), "rpc decode: x");
    let refused = RpcReply {
        result: Some(Json::whole(1)),
        error: Some(RpcError { code: -32602, message: "bad".to_string() }),
    };
    assert_eq!(take_result(Ok(refused)).unwrap_err(), "rpc error -32602: bad");
    let lowest = RpcReply {
        result: None,
        error: Some(RpcError { code: i32::MIN, message: String::new() }),
    };
    assert_eq!(take_result(Ok(lowest)).unwrap_err(), "rpc error -2147483648: ");
}

#[test]
fn an_answer_without_a_result_is_an_error() {
    let empty = RpcReply { result: None, error: None };
    assert_eq!(take_result(Ok(empty)).unwrap_err(), "rpc: null result");
    assert_eq!(take_result(answer(Json::Null)).unwrap_err(), "rpc: null result");
    assert_eq!(take_result(answer(Json::whole(3))).unwrap().as_u64(), Some(3));
}

#[test]
fn a_blockhash_is_read() {
    let value = object(vec![
        ("blockhash", Json::text("hash")),
        ("lastValidBlockHeight", Json::whole(77)),
    ]);
    assert_eq!(
        read_latest_blockhash(answer(object(vec![("value", value)]))),
        Ok(("hash".to_string(), 77))
    );
    let value = object(vec![("blockhash", Json::text("hash"))]);
    assert_eq!(
        read_latest_blockhash(answer(object(vec![("value", value)]))),
        Ok(("hash".to_string(), 0))
    );
    assert_eq!(
        read_latest_blockhash(answer(Json::text("x"))),
        Err("getLatestBlockhash: missing blockhash".to_string())
    );
}

#[test]
fn signatures_are_read() {
    assert_eq!(read_airdrop(answer(Json::text("sig"))), Ok("sig".to_string()));
    assert_eq!(
        read_airdrop(answer(Json::whole(1))),
        Err("requestAirdrop: invalid response".to_string())
    );
    assert_eq!(read_sent(answer(Json::text("sig"))), Ok("sig".to_string()));
    assert_eq!(
        read_sent(answer(Json::Bool(true))),
        Err("sendTransaction: invalid response".to_string())
    );
}

#[test]
fn transactions_are_read() {
    assert_eq!(read_transaction(answer(Json::Null)).unwrap_err(), "rpc: null result");
    assert!(read_transaction(answer(object(vec![]))).unwrap().is_some());
    assert_eq!(
        read_transaction(Err(RpcFault::Http("down".to_string()))).unwrap_err(),
        "rpc http: down"
    );
}

fn statuses(status: Vec<Json>) -> Json {
    object(vec![("value", Json::array(status))])
}

fn status_of(err: Json, conf: &str) -> Json {
    object(vec![("err", err), ("confirmationStatus", Json::text(conf))])
}

#[test]
fn verdicts() {
    assert!(matches!(
        read_verdict(&statuses(vec![status_of(Json::Null, "confirmed")])),
        Verdict::Confirmed
    ));
    assert!(matches!(
        read_verdict(&statuses(vec![status_of(Json::Null, "finalized")])),
        Verdict::Confirmed
    ));
    assert!(matches!(
        read_verdict(&statuses(vec![status_of(Json::Null, "processed")])),
        Verdict::Pending
    ));
    assert!(matches!(
        read_verdict(&statuses(vec![status_of(Json::text("e"), "finalized")])),
        Verdict::Failed
    ));
    assert!(matches!(read_verdict(&statuses(vec![Json::Null])), Verdict::Pending));
    assert!(matches!(read_verdict(&statuses(vec![])), Verdict::Pending));
    assert!(matches!(read_verdict(&Json::Null), Verdict::Pending));
}

fn tell(flow: &mut ConfirmFlow, event: ConfirmEvent) -> ConfirmAction {
    assert!(flow.accepts(&event));
    flow.step(event)
}

#[test]
fn a_wait_that_is_confirmed() {
    let mut flow = RpcClient::new("http://node").confirm_transaction("sig");
    assert!(!flow.accepts(&ConfirmEvent::Status(answer(Json::Null))));
    match tell(&mut flow, ConfirmEvent::Clock { elapsed_nanos: 0 }) {
        ConfirmAction::Query(call) => assert!(render(&call.body).contains("[\"sig\"]")),
        _ => panic!("no call"),
    }
    let pending = answer(statuses(vec![Json::Null]));
    match tell(&mut flow, ConfirmEvent::Status(pending)) {
        ConfirmAction::Wait { seconds } => assert_eq!(seconds, 2),
        _ => panic!("no pause"),
    }
    let last = ConfirmEvent::Clock { elapsed_nanos: CONFIRM_NANOS };
    assert!(matches!(tell(&mut flow, last), ConfirmAction::Query(_)));
    let confirmed = answer(statuses(vec![status_of(Json::Null, "confirmed")]));
    assert!(matches!(tell(&mut flow, ConfirmEvent::Status(confirmed)), ConfirmAction::Done));
    assert!(!flow.accepts(&ConfirmEvent::Clock { elapsed_nanos: 0 }));
}

#[test]
fn a_wait_that_takes_too_long() {
    let mut flow = RpcClient::new("http://node").confirm_transaction("sig");
    match tell(&mut flow, ConfirmEvent::Clock { elapsed_nanos: CONFIRM_NANOS + 1 }) {
        ConfirmAction::Fail(message) => {
            assert_eq!(message, "confirmTransaction: timed out waiting for sig")
        }
        _ => panic!("no failure"),
    }
}

#[test]
fn a_wait_for_a_failed_transaction() {
    let mut flow = RpcClient::new("http://node").confirm_transaction("sig");
    tell(&mut flow, ConfirmEvent::Clock { elapsed_nanos: 1 });
    let failed = answer(statuses(vec![status_of(Json::text("e"), "confirmed")]));
    match tell(&mut flow, ConfirmEvent::Status(failed)) {
        ConfirmAction::Fail(message) => assert_eq!(message, "transaction sig failed on chain"),
        _ => panic!("no failure"),
    }
}

#[test]
fn a_wait_without_an_answer() {
    let mut flow = RpcClient::new("http://node").confirm_transaction("sig");
    tell(&mut flow, ConfirmEvent::Clock { elapsed_nanos: 1 });
    match tell(&mut flow, ConfirmEvent::Status(Err(RpcFault::Http("down".to_string())))) {
        ConfirmAction::Fail(message) => assert_eq!(message, "rpc http: down"),
        _ => panic!("no failure"),
    }
}
