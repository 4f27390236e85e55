use mina_mesh::error::MinaMeshError;
use mina_mesh::light_node::{
    reading_of_status, LightMempool, LightMethod, LightNodeClient, LightReading, LightReply,
};

fn message(error: MinaMeshError) -> String {
    match error {
        MinaMeshError::Exception(m) => m,
        other => panic!("{other:?}"),
    }
}

#[test]
fn base_url_ends_without_slashes() {
    for base in ["http://node:3000", "http://node:3000/", "http://node:3000//"] {
        let client = LightNodeClient::new(base.to_string());
        assert_eq!(client.tip().url, "http://node:3000/tip");
        assert_eq!(client.clone().mempool().url, "http://node:3000/mempool");
    }
}

#[test]
fn reads_are_gets() {
    let client = LightNodeClient::new("http://node".to_string());
    for (request, path) in [
        (client.tip(), "/tip"),
        (client.mempool(), "/mempool"),
        (client.account("B62qk"), "/account?pubkey=B62qk"),
        (client.get_json("/x"), "/x"),
    ] {
        assert_eq!(request.method, LightMethod::Get);
        assert_eq!(request.path, path);
        assert_eq!(request.url, format!("http://node{path}"));
        assert_eq!(request.body, None);
    }
}

#[test]
fn submission_posts_the_transaction() {
    let request = LightNodeClient::new("http://node/".to_string()).submit("00ff");
    assert_eq!(request.method, LightMethod::Post);
    assert_eq!(request.path, "/submit");
    assert_eq!(request.url, "http://node/submit");
    assert_eq!(request.body.unwrap().to_string(), "{\"tx_hex\":\"00ff\"}");
}

#[test]
fn success_is_two_hundred_to_two_hundred_ninety_nine() {
    assert_eq!(reading_of_status(199), LightReading::Refusal);
    assert_eq!(reading_of_status(200), LightReading::Decode);
    assert_eq!(reading_of_status(299), LightReading::Decode);
    assert_eq!(reading_of_status(300), LightReading::Refusal);
    assert_eq!(reading_of_status(404), LightReading::Refusal);
    assert_eq!(reading_of_status(500), LightReading::Refusal);
}

#[test]
fn answer_is_handed_on() {
    let request = LightNodeClient::new("http://node".to_string()).mempool();
    let answer = LightMempool { count: 1, transaction_ids: vec!["t".to_string()] };
    let mempool = request.result(LightReply::Answer(answer)).unwrap();
    assert_eq!(mempool.count, 1);
    assert_eq!(mempool.transaction_ids, vec!["t".to_string()]);
}

#[test]
fn failures_name_the_request() {
    let client = LightNodeClient::new("http://node".to_string());
    let tip = client.tip();
    assert_eq!(
        message(tip.result::<u8>(LightReply::Unreachable("refused".to_string())).unwrap_err()),
        "light-node GET /tip: refused"
    );
    assert_eq!(
        message(
            tip.result::<u8>(LightReply::Refused(
                "404 Not Found".to_string(),
                Some("no tip".to_string())
            ))
            .unwrap_err()
        ),
        "light-node GET /tip -> 404 Not Found: no tip"
    );
    assert_eq!(
        message(
            tip.result::<u8>(LightReply::Refused("500 Internal Server Error".to_string(), None))
                .unwrap_err()
        ),
        "light-node GET /tip -> 500 Internal Server Error: "
    );
    assert_eq!(
        message(tip.result::<u8>(LightReply::Malformed("bad json".to_string())).unwrap_err()),
        "light-node GET /tip decode: bad json"
    );
    assert_eq!(
        message(
            client
                .account("B62qk")
                .result::<u8>(LightReply::Unreachable("timeout".to_string()))
                .unwrap_err()
        ),
        "light-node GET /account?pubkey=B62qk: timeout"
    );
    assert_eq!(
        message(
            client
                .submit("00")
                .result::<u8>(LightReply::Malformed("bad json".to_string()))
                .unwrap_err()
        ),
        "light-node POST /submit decode: bad json"
    );
}
