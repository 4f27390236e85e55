//! The client of the trustless light node's HTTP surface.
//!
//! The light node serves live state (mempool, frontier balance, submit) without a trusted daemon:
//! it proves balances against a recursively verified ledger root and submits by gossip.

use vstd::prelude::*;

use crate::error::MinaMeshError;
use crate::json::json_object;
use crate::text::trim_trailing_slashes;
use crate::types::text_or_empty;

verus! {

/// A light node, behind its base URL.
#[derive(Debug)]
pub struct LightNodeClient {
    base_url: String,
}

/// Whether a base URL ends without a slash, so that a path can follow it.
pub open spec fn is_bare(url: Seq<char>) -> bool {
    url.len() > 0 ==> url.last() != '/'
}

impl LightNodeClient {
    #[verifier::type_invariant]
    spec fn has_bare_url(self) -> bool {
        is_bare(self.base_url@)
    }
}

impl Clone for LightNodeClient {
    fn clone(&self) -> (copy: LightNodeClient)
        ensures
            copy == *self,
    {
        proof {
            use_type_invariant(self);
        }
        LightNodeClient { base_url: self.base_url.clone() }
    }
}

/// The verified best tip.
#[derive(Debug)]
pub struct LightTip {
    pub network: String,
    pub height: u32,
    pub state_hash: String,
    pub staking_epoch_ledger_hash: String,
}

/// The pending transactions, as far as the gossip tap has seen them.
#[derive(Debug)]
pub struct LightMempool {
    pub count: usize,
    pub transaction_ids: Vec<String>,
}

/// A proved balance and nonce.
#[derive(Debug)]
pub struct LightAccount {
    pub public_key: String,
    pub balance: u64,
    pub nonce: u32,
    pub anchored_height: u32,
    pub anchored_state_hash: String,
    /// Which ledger the balance is proved against (e.g. `staking_epoch`).
    pub ledger: String,
}

/// What became of a submitted transaction.
#[derive(Debug)]
pub struct LightSubmit {
    pub tx_id: String,
    pub published: bool,
    pub echoes: usize,
}

/// What came of a request to the light node.
#[derive(Debug)]
pub enum LightReply<T> {
    /// The request was not sent, or nothing came back; why.
    Unreachable(String),
    /// The answer had a status other than success: the status line, and the body, if it could be
    /// read.
    Refused(String, Option<String>),
    /// The answer's body was not what was due; why.
    Malformed(String),
    /// The answer.
    Answer(T),
}

/// What to do with an answer once its status code is known.
#[derive(Clone, Copy, Debug, PartialEq, Eq, Structural)]
pub enum LightReading {
    /// Decode the body as the answer.
    Decode,
    /// Read the body as the text of a refusal.
    Refusal,
}

/// Tells success (2xx) from every other status code.
pub fn reading_of_status(code: u16) -> (reading: LightReading)
    ensures
        reading == if 200 <= code < 300 {
            LightReading::Decode
        } else {
            LightReading::Refusal
        },
{
    if 200 <= code && code < 300 {
        LightReading::Decode
    } else {
        LightReading::Refusal
    }
}

/// The method of a request.
#[derive(Clone, Copy, Debug, PartialEq, Eq, Structural)]
pub enum LightMethod {
    Get,
    Post,
}

/// A request to the light node.
#[derive(Debug)]
pub struct LightRequest {
    pub method: LightMethod,
    /// The path, with the query if there is one.
    pub path: String,
    pub url: String,
    /// The JSON body, for a POST.
    pub body: Option<serde_json::Value>,
}

impl LightRequest {
    /// How messages name the request: its method and its path.
    pub open spec fn label(self) -> Seq<char> {
        match self.method {
            LightMethod::Get => "GET "@ + self.path@,
            LightMethod::Post => "POST "@ + self.path@,
        }
    }

    /// The message for what came of the request, where that is no answer.
    pub open spec fn failure_message<T>(self, reply: LightReply<T>) -> Seq<char> {
        match reply {
            LightReply::Unreachable(e) => "light-node "@ + self.label() + ": "@ + e@,
            LightReply::Refused(status, body) => "light-node "@ + self.label() + " -> "@ + status@
                + ": "@ + crate::types::or_empty(body.deep_view()),
            LightReply::Malformed(e) => "light-node "@ + self.label() + " decode: "@ + e@,
            LightReply::Answer(_) => Seq::empty(),
        }
    }

    /// The result of the request, from what came of it: the answer, or an error that says what
    /// failed.
    pub fn result<T>(&self, reply: LightReply<T>) -> (result: Result<T, MinaMeshError>)
        ensures
            match reply {
                LightReply::Answer(value) => result == Ok::<T, MinaMeshError>(value),
                _ => result matches Err(e) && e.is_exception(self.failure_message(reply)),
            },
    {
        let label = match self.method {
            LightMethod::Get => joined("GET ", self.path.as_str()),
            LightMethod::Post => joined("POST ", self.path.as_str()),
        };
        let mut message = joined("light-node ", label.as_str());
        match reply {
            LightReply::Answer(value) => Ok(value),
            LightReply::Unreachable(e) => {
                message.append(": ");
                message.append(e.as_str());
                Err(MinaMeshError::Exception(message))
            },
            LightReply::Refused(status, body) => {
                message.append(" -> ");
                message.append(status.as_str());
                message.append(": ");
                message.append(text_or_empty(&body).as_str());
                Err(MinaMeshError::Exception(message))
            },
            LightReply::Malformed(e) => {
                message.append(" decode: ");
                message.append(e.as_str());
                Err(MinaMeshError::Exception(message))
            },
        }
    }
}

fn joined(a: &str, b: &str) -> (text: String)
    ensures
        text@ == a@ + b@,
{
    let mut text = a.to_owned();
    text.append(b);
    text
}

impl LightNodeClient {
    /// The base URL, without slashes at its end.
    pub closed spec fn url(self) -> Seq<char> {
        self.base_url@
    }

    /// Whether `request` is a GET of `path`.
    pub open spec fn is_get(self, request: LightRequest, path: Seq<char>) -> bool {
        &&& request.method == LightMethod::Get
        &&& request.path@ == path
        &&& request.url@ == self.url() + path
        &&& request.body is None
    }

    /// A client for the light node at `base_url`.
    pub fn new(base_url: String) -> (client: LightNodeClient)
        ensures
            client.url() == crate::text::without_trailing_slashes(base_url@),
    {
        proof {
            crate::text::trailing_slashes_are_gone(base_url@);
        }
        LightNodeClient { base_url: trim_trailing_slashes(base_url.as_str()) }
    }

    /// Asks for `path`.
    pub fn get_json(&self, path: &str) -> (request: LightRequest)
        ensures
            self.is_get(request, path@),
            is_bare(self.url()),
    {
        proof {
            use_type_invariant(self);
        }
        LightRequest {
            method: LightMethod::Get,
            path: path.to_owned(),
            url: joined(self.base_url.as_str(), path),
            body: None,
        }
    }

    /// Asks for the verified best tip (height and epoch-ledger root).
    pub fn tip(&self) -> (request: LightRequest)
        ensures
            self.is_get(request, "/tip"@),
    {
        self.get_json("/tip")
    }

    /// Asks for the pending transaction hashes of the gossip tap.
    pub fn mempool(&self) -> (request: LightRequest)
        ensures
            self.is_get(request, "/mempool"@),
    {
        self.get_json("/mempool")
    }

    /// Asks for the proved balance and nonce of `pubkey`.
    pub fn account(&self, pubkey: &str) -> (request: LightRequest)
        ensures
            self.is_get(request, "/account?pubkey="@ + pubkey@),
    {
        self.get_json(joined("/account?pubkey=", pubkey).as_str())
    }

    /// Asks to broadcast a signed user command, hex binprot, to the transaction pool's gossip
    /// topic.
    pub fn submit(&self, tx_hex: &str) -> (request: LightRequest)
        ensures
            request.method == LightMethod::Post,
            request.path@ == "/submit"@,
            request.url@ == self.url() + "/submit"@,
            request.body matches Some(body) && crate::json::json_members(body)
                == crate::json::single_member("tx_hex"@, tx_hex@),
    {
        LightRequest {
            method: LightMethod::Post,
            path: "/submit".to_owned(),
            url: joined(self.base_url.as_str(), "/submit"),
            body: Some(json_object("tx_hex".to_owned(), tx_hex.to_owned())),
        }
    }
}

/// A request is sent to the path below the base URL, and a GET carries no body.
pub proof fn requests_go_below_the_base_url(
    client: LightNodeClient,
    request: LightRequest,
    path: Seq<char>,
)
    requires
        client.is_get(request, path),
    ensures
        request.method is Get,
        request.path@ == path,
        request.url@.len() == client.url().len() + path.len(),
        request.url@.take(client.url().len() as int) == client.url(),
        request.url@.skip(client.url().len() as int) == path,
        request.body is None,
{
    assert(request.url@.take(client.url().len() as int) =~= client.url());
    assert(request.url@.skip(client.url().len() as int) =~= path);
}

/// The message of a failure names the light node, the request by its method and its path, and what
/// happened to it.
pub proof fn failures_name_the_request_and_the_cause<T>(
    request: LightRequest,
    e: String,
    status: String,
    body: Option<String>,
)
    ensures
        ({
            let method = match request.method {
                LightMethod::Get => "GET "@,
                LightMethod::Post => "POST "@,
            };
            let name = "light-node "@ + method + request.path@;
            &&& request.failure_message(LightReply::<T>::Unreachable(e)) == name + ": "@ + e@
            &&& request.failure_message(LightReply::<T>::Malformed(e)) == name + " decode: "@ + e@
            &&& body matches Some(b) ==> request.failure_message(
                LightReply::<T>::Refused(status, body),
            ) == name + " -> "@ + status@ + ": "@ + b@
            &&& body is None ==> request.failure_message(LightReply::<T>::Refused(status, body))
                == name + " -> "@ + status@ + ": "@
        }),
{
    let method = match request.method {
        LightMethod::Get => "GET "@,
        LightMethod::Post => "POST "@,
    };
    assert("light-node "@ + (method + request.path@) =~= "light-node "@ + method + request.path@);
    if body is None {
        let start = "light-node "@ + method + request.path@ + " -> "@ + status@ + ": "@;
        assert(start + Seq::<char>::empty() =~= start);
    }
}

/// An answer is decoded exactly if its status is a success, from 200 to 299.
pub proof fn only_successes_are_decoded(code: u16, reading: LightReading)
    requires
        call_ensures(reading_of_status, (code,), reading),
    ensures
        reading is Decode <==> 200 <= code <= 299,
        reading is Refusal <==> code < 200 || code > 299,
{
}

/// A request succeeds exactly with an answer, and with that very answer.
pub proof fn requests_succeed_with_their_answer<T>(
    request: LightRequest,
    reply: LightReply<T>,
    result: Result<T, MinaMeshError>,
)
    requires
        call_ensures(LightRequest::result::<T>, (&request, reply), result),
    ensures
        result is Ok <==> reply is Answer,
        result matches Ok(value) ==> reply == LightReply::Answer(value),
        result matches Err(e) ==> e is Exception && e->Exception_0@ == request.failure_message(
            reply,
        ),
{
}

/// What is asked of the light node: the tip, the mempool and an account by GET, each at its own
/// path, the account by its public key, and a submission by POST, with the transaction as the only
/// member of its body. All go to the base URL, without slashes at its end.
pub proof fn light_node_is_asked_at_its_paths(
    base_url: String,
    client: LightNodeClient,
    pubkey: &str,
    tx_hex: &str,
    tip: LightRequest,
    mempool: LightRequest,
    account: LightRequest,
    submit: LightRequest,
)
    requires
        call_ensures(LightNodeClient::new, (base_url,), client),
        call_ensures(LightNodeClient::tip, (&client,), tip),
        call_ensures(LightNodeClient::mempool, (&client,), mempool),
        call_ensures(LightNodeClient::account, (&client, pubkey), account),
        call_ensures(LightNodeClient::submit, (&client, tx_hex), submit),
    ensures
        ({
            let base = crate::text::without_trailing_slashes(base_url@);
            &&& tip.method is Get && mempool.method is Get && account.method is Get
            &&& submit.method is Post
            &&& tip.path@ == "/tip"@ && tip.url@ == base + "/tip"@
            &&& mempool.path@ == "/mempool"@ && mempool.url@ == base + "/mempool"@
            &&& account.path@ == "/account?pubkey="@ + pubkey@
            &&& account.url@ == base + ("/account?pubkey="@ + pubkey@)
            &&& submit.path@ == "/submit"@ && submit.url@ == base + "/submit"@
            &&& tip.body is None && mempool.body is None && account.body is None
            &&& submit.body matches Some(body) && crate::json::json_members(body)
                == Map::<Seq<char>, Option<Seq<char>>>::empty().insert("tx_hex"@, Some(tx_hex@))
        }),
{
}

} // verus!
