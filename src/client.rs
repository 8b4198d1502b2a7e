//! The node client: where to send, with which credentials, what to send for
//! each call, and how each answer is read.
use vstd::prelude::*;
use vstd::string::StringSliceAdditionalSpecFns;
use crate::json::{
    field, find_field, get_i64, get_number, get_str, get_u32, integer_field, is_digit,
    json_document, json_model, lemma_json_model_parts, number_field, parse_json, str_field, Json,
    JsonModel, RpcError,
};
use crate::memo::decoded_memo;
use crate::model::{Args, Balance, BlockchainInfo, Transaction, ZTransaction};

verus! {

/// The standard base64 text of the bytes, with padding.
pub uninterp spec fn base64_text(b: Seq<u8>) -> Seq<char>;

/// The JSON string literal, quotes and escapes included, that serde_json
/// writes for the text.
pub uninterp spec fn json_string_text(s: Seq<char>) -> Seq<char>;

/// Relies on base64::encode (standard alphabet, padded). It panics where the
/// output length overflows usize, which the bound excludes.
#[verifier::external_body]
fn base64_encode(s: &str) -> (r: String)
    requires
        s.spec_bytes().len() <= usize::MAX / 2,
    ensures
        r@ == base64_text(s.spec_bytes()),
{
    base64::encode(s)
}

/// Relies on the Display of serde_json::Value for a string value: the JSON
/// string literal of the text.
#[verifier::external_body]
fn json_quote(s: &str) -> (r: String)
    ensures
        r@ == json_string_text(s@),
{
    serde_json::Value::String(s.to_owned()).to_string()
}

/// Endpoint of a local node on the test network.
pub const TESTNET_URL: &'static str = "http://127.0.0.1:18232/";

/// Endpoint of a local node on the main network.
pub const MAINNET_URL: &'static str = "http://127.0.0.1:8232/";

/// The endpoint for a network name, `testnet` or `mainnet`.
pub open spec fn node_url_for(network: Seq<char>) -> Option<Seq<char>> {
    if network == "testnet"@ {
        Some(TESTNET_URL@)
    } else if network == "mainnet"@ {
        Some(MAINNET_URL@)
    } else {
        None
    }
}

/// The value of the HTTP Basic authorization header.
pub open spec fn basic_auth(username: Seq<char>, password: Seq<char>) -> Seq<char> {
    "Basic "@ + base64_text(vstd::utf8::encode_utf8(username + ":"@ + password))
}

/// Where a node is and how to authenticate to it.
pub struct ZcashNodeClient {
    uri: String,
    auth: String,
}

impl ZcashNodeClient {
    /// A client for the node at `uri` with HTTP Basic credentials.
    pub fn new(uri: String, username: String, password: String) -> (r: ZcashNodeClient)
        requires
            vstd::utf8::encode_utf8(username@ + ":"@ + password@).len() <= usize::MAX / 2,
        ensures
            r.uri_view() == uri@,
            r.auth_view() == basic_auth(username@, password@),
    {
        let mut creds = username;
        creds.append(":");
        creds.append(password.as_str());
        let encoded = base64_encode(creds.as_str());
        let auth = String::from_str("Basic ").concat(encoded.as_str());
        ZcashNodeClient { uri, auth }
    }

    /// A client for the local node of the network that `args` names; none
    /// where the name is neither `testnet` nor `mainnet`.
    pub fn from_args(args: &Args) -> (r: Option<ZcashNodeClient>)
        requires
            vstd::utf8::encode_utf8(args.username@ + ":"@ + args.password@).len() <= usize::MAX
                / 2,
        ensures
            match r {
                Some(c) => node_url_for(args.network@) == Some(c.uri_view()) && c.auth_view()
                    == basic_auth(args.username@, args.password@),
                None => node_url_for(args.network@) is None,
            },
    {
        let url = if args.network == String::from_str("testnet") {
            TESTNET_URL
        } else if args.network == String::from_str("mainnet") {
            MAINNET_URL
        } else {
            return None;
        };
        Some(ZcashNodeClient::new(url.to_owned(), args.username.clone(), args.password.clone()))
    }

    pub closed spec fn uri_view(&self) -> Seq<char> {
        self.uri@
    }

    /// The endpoint requests go to.
    pub fn uri(&self) -> (r: &String)
        ensures
            r@ == self.uri_view(),
    {
        &self.uri
    }

    /// The value of the authorization header.
    pub fn auth(&self) -> (r: &String)
        ensures
            r@ == self.auth_view(),
    {
        &self.auth
    }

    pub closed spec fn auth_view(&self) -> Seq<char> {
        self.auth@
    }
}

/// One call to the node and its arguments. Amounts are decimal text.
#[derive(Debug, Clone)]
pub enum RpcCall {
    GetBlockchainInfo,
    ListTransactions,
    ZGetBalance(String),
    ZGetTotalBalance,
    ZListAddresses,
    ZListReceivedByAddress(String),
    ZSendMany { from: String, to: String, amount: String },
}

/// The remote method that a call invokes.
pub open spec fn method_name(c: RpcCall) -> Seq<char> {
    match c {
        RpcCall::GetBlockchainInfo => "getblockchaininfo"@,
        RpcCall::ListTransactions => "listtransactions"@,
        RpcCall::ZGetBalance(_) => "z_getbalance"@,
        RpcCall::ZGetTotalBalance => "z_gettotalbalance"@,
        RpcCall::ZListAddresses => "z_listaddresses"@,
        RpcCall::ZListReceivedByAddress(_) => "z_listreceivedbyaddress"@,
        RpcCall::ZSendMany { .. } => "z_sendmany"@,
    }
}

/// The positional arguments of a call, as JSON text without the brackets.
pub open spec fn params_text(c: RpcCall) -> Seq<char> {
    match c {
        RpcCall::ZGetBalance(a) => json_string_text(a@),
        RpcCall::ZListReceivedByAddress(a) => json_string_text(a@),
        RpcCall::ZSendMany { from, to, amount } => json_string_text(from@) + ",[{\"address\":"@
            + json_string_text(to@) + ",\"amount\":"@ + amount@ + "}]"@,
        _ => Seq::empty(),
    }
}

/// The JSON-RPC 1.0 request body of a call.
pub open spec fn request_text(c: RpcCall) -> Seq<char> {
    "{\"jsonrpc\":\"1.0\",\"id\":\"test\",\"method\":\""@ + method_name(c) + "\",\"params\":["@
        + params_text(c) + "]}"@
}

/// Decimal text that JSON reads as a number: digits, at most one point with
/// digits on both sides, no leading zero before other digits.
pub open spec fn is_decimal(t: Seq<char>) -> bool {
    &&& t.len() > 0
    &&& is_digit(t[0])
    &&& is_digit(t[t.len() - 1])
    &&& forall|i: int| 0 <= i < t.len() ==> is_digit(#[trigger] t[i]) || t[i] == '.'
    &&& forall|i: int, j: int|
        0 <= i < t.len() && 0 <= j < t.len() && #[trigger] t[i] == '.' && #[trigger] t[j] == '.'
            ==> i == j
    &&& t[0] == '0' ==> t.len() == 1 || t[1] == '.'
}

/// Whether a call can be sent: a payment needs a decimal amount.
pub open spec fn call_is_valid(c: RpcCall) -> bool {
    match c {
        RpcCall::ZSendMany { amount, .. } => is_decimal(amount@),
        _ => true,
    }
}

fn is_digit_char(c: char) -> (r: bool)
    ensures
        r == is_digit(c),
{
    (c as u32) >= 48 && (c as u32) <= 57
}

/// Whether the text is a decimal amount that JSON reads as a number.
pub fn check_decimal(t: &str) -> (r: bool)
    ensures
        r == is_decimal(t@),
{
    let n = t.unicode_len();
    if n == 0 {
        return false;
    }
    if !is_digit_char(t.get_char(0)) || !is_digit_char(t.get_char(n - 1)) {
        return false;
    }
    if n > 1 && t.get_char(0) == '0' && t.get_char(1) != '.' {
        return false;
    }
    let mut dot: Option<usize> = None;
    let mut i: usize = 0;
    while i < n
        invariant
            n == t@.len(),
            i <= n,
            match dot {
                Some(p) => p < i && t@[p as int] == '.' && forall|k: int|
                    0 <= k < i && k != p ==> is_digit(#[trigger] t@[k]),
                None => forall|k: int| 0 <= k < i ==> is_digit(#[trigger] t@[k]),
            },
        decreases n - i,
    {
        let c = t.get_char(i);
        if c == '.' {
            if dot.is_some() {
                proof {
                    let p = dot->0;
                    assert(t@[p as int] == '.' && t@[i as int] == '.');
                }
                return false;
            }
            dot = Some(i);
        } else if !is_digit_char(c) {
            return false;
        }
        i = i + 1;
    }
    proof {
        assert forall|a: int, b: int|
            0 <= a < t@.len() && 0 <= b < t@.len() && #[trigger] t@[a] == '.' && #[trigger] t@[b]
                == '.' implies a == b by {
            if let Some(p) = dot {
                if a != p {
                    assert(is_digit(t@[a]));
                }
                if b != p {
                    assert(is_digit(t@[b]));
                }
            } else {
                assert(is_digit(t@[a]));
            }
        }
        assert forall|k: int| 0 <= k < t@.len() implies is_digit(#[trigger] t@[k]) || t@[k]
            == '.' by {
            if let Some(p) = dot {
                if k != p {
                    assert(is_digit(t@[k]));
                }
            }
        }
    }
    true
}

/// The request body for a call; none for a payment whose amount is not
/// decimal text.
pub fn request_body(call: &RpcCall) -> (r: Option<String>)
    ensures
        match r {
            Some(s) => call_is_valid(*call) && s@ == request_text(*call),
            None => !call_is_valid(*call),
        },
{
    let mut body = String::from_str("{\"jsonrpc\":\"1.0\",\"id\":\"test\",\"method\":\"");
    let method = match call {
        RpcCall::GetBlockchainInfo => "getblockchaininfo",
        RpcCall::ListTransactions => "listtransactions",
        RpcCall::ZGetBalance(_) => "z_getbalance",
        RpcCall::ZGetTotalBalance => "z_gettotalbalance",
        RpcCall::ZListAddresses => "z_listaddresses",
        RpcCall::ZListReceivedByAddress(_) => "z_listreceivedbyaddress",
        RpcCall::ZSendMany { .. } => "z_sendmany",
    };
    body.append(method);
    body.append("\",\"params\":[");
    match call {
        RpcCall::ZGetBalance(a) => {
            body.append(json_quote(a.as_str()).as_str());
        },
        RpcCall::ZListReceivedByAddress(a) => {
            body.append(json_quote(a.as_str()).as_str());
        },
        RpcCall::ZSendMany { from, to, amount } => {
            if !check_decimal(amount.as_str()) {
                return None;
            }
            body.append(json_quote(from.as_str()).as_str());
            body.append(",[{\"address\":");
            body.append(json_quote(to.as_str()).as_str());
            body.append(",\"amount\":");
            body.append(amount.as_str());
            body.append("}]");
        },
        _ => {},
    }
    body.append("]}");
    assert(body@ =~= request_text(*call));
    Some(body)
}

/// The `result` member of a response document.
pub open spec fn envelope_result(doc: JsonModel) -> Option<JsonModel> {
    match doc {
        JsonModel::Object(f) => field(f, "result"@),
        _ => None,
    }
}

/// Takes the `result` member out of a response document; `Envelope` where
/// the document is not an object or has no such member.
pub fn result_of(doc: Json) -> (r: Result<Json, RpcError>)
    ensures
        match envelope_result(json_model(doc)) {
            Some(m) => r matches Ok(j) && json_model(j) == m,
            None => r == Err::<Json, RpcError>(RpcError::Envelope),
        },
{
    proof {
        lemma_json_model_parts(doc);
    }
    match doc {
        Json::Object(fields) => {
            let mut fields = fields;
            let key = String::from_str("result");
            match find_field(&fields, &key) {
                Some(i) => {
                    let (_, j) = fields.remove(i);
                    Ok(j)
                },
                None => Err(RpcError::Envelope),
            }
        },
        _ => Err(RpcError::Envelope),
    }
}

/// What reading a response body down to its `result` gives.
pub open spec fn result_read(body: Seq<u8>, r: Result<Json, RpcError>) -> bool {
    match json_document(body) {
        Some(d) => match envelope_result(d) {
            Some(m) => r matches Ok(j) && json_model(j) == m,
            None => r == Err::<Json, RpcError>(RpcError::Envelope),
        },
        None => r == Err::<Json, RpcError>(RpcError::Envelope),
    }
}

/// Reads a response body down to its `result` member; `Envelope` where the
/// body is not JSON or has no `result`.
pub fn read_result(body: &[u8]) -> (r: Result<Json, RpcError>)
    ensures
        result_read(body@, r),
{
    match parse_json(body) {
        Ok(doc) => result_of(doc),
        Err(e) => Err(e),
    }
}

/// `b` is what the result `j` of `getblockchaininfo` says.
pub open spec fn blockchain_info_is(j: JsonModel, b: BlockchainInfo) -> bool {
    match j {
        JsonModel::Object(f) => {
            &&& str_field(f, "chain"@) == Some(b.chain@)
            &&& integer_field(f, "blocks"@, 0, u32::MAX as int) == Some(b.blocks as int)
            &&& number_field(f, "difficulty"@) == Some(b.difficulty@)
        },
        _ => false,
    }
}

/// `j` has the shape of a `getblockchaininfo` result.
pub open spec fn is_blockchain_info(j: JsonModel) -> bool {
    match j {
        JsonModel::Object(f) => {
            &&& str_field(f, "chain"@) is Some
            &&& integer_field(f, "blocks"@, 0, u32::MAX as int) is Some
            &&& number_field(f, "difficulty"@) is Some
        },
        _ => false,
    }
}

/// What reading `j` as a `getblockchaininfo` result gives.
pub open spec fn blockchain_info_read(j: JsonModel, r: Result<BlockchainInfo, RpcError>) -> bool {
    &&& r is Ok <==> is_blockchain_info(j)
    &&& r matches Ok(b) ==> blockchain_info_is(j, b)
    &&& r matches Err(e) ==> e == RpcError::Schema
}

/// Reads the result of `getblockchaininfo`; `Schema` where it has another
/// shape.
pub fn blockchain_info_of(j: &Json) -> (r: Result<BlockchainInfo, RpcError>)
    ensures
        blockchain_info_read(json_model(*j), r),
{
    proof {
        lemma_json_model_parts(*j);
    }
    match j {
        Json::Object(f) => {
            let chain = get_str(f, &String::from_str("chain"));
            let blocks = get_u32(f, &String::from_str("blocks"));
            let difficulty = get_number(f, &String::from_str("difficulty"));
            match (chain, blocks, difficulty) {
                (Ok(chain), Ok(blocks), Ok(difficulty)) => Ok(
                    BlockchainInfo { chain, blocks, difficulty },
                ),
                _ => Err(RpcError::Schema),
            }
        },
        _ => Err(RpcError::Schema),
    }
}

/// `b` is what the result `j` of `z_gettotalbalance` says.
pub open spec fn balance_is(j: JsonModel, b: Balance) -> bool {
    match j {
        JsonModel::Object(f) => {
            &&& str_field(f, "transparent"@) == Some(b.transparent@)
            &&& str_field(f, "private"@) == Some(b.private@)
            &&& str_field(f, "total"@) == Some(b.total@)
        },
        _ => false,
    }
}

/// `j` has the shape of a `z_gettotalbalance` result.
pub open spec fn is_balance(j: JsonModel) -> bool {
    match j {
        JsonModel::Object(f) => {
            &&& str_field(f, "transparent"@) is Some
            &&& str_field(f, "private"@) is Some
            &&& str_field(f, "total"@) is Some
        },
        _ => false,
    }
}

/// What reading `j` as a `z_gettotalbalance` result gives.
pub open spec fn balance_read(j: JsonModel, r: Result<Balance, RpcError>) -> bool {
    &&& r is Ok <==> is_balance(j)
    &&& r matches Ok(b) ==> balance_is(j, b)
    &&& r matches Err(e) ==> e == RpcError::Schema
}

/// Reads the result of `z_gettotalbalance`; `Schema` where it has another
/// shape.
pub fn balance_of(j: &Json) -> (r: Result<Balance, RpcError>)
    ensures
        balance_read(json_model(*j), r),
{
    proof {
        lemma_json_model_parts(*j);
    }
    match j {
        Json::Object(f) => {
            let transparent = get_str(f, &String::from_str("transparent"));
            let private = get_str(f, &String::from_str("private"));
            let total = get_str(f, &String::from_str("total"));
            match (transparent, private, total) {
                (Ok(transparent), Ok(private), Ok(total)) => Ok(
                    Balance { transparent, private, total },
                ),
                _ => Err(RpcError::Schema),
            }
        },
        _ => Err(RpcError::Schema),
    }
}

/// `t` is what the entry `j` of a `listtransactions` result says.
pub open spec fn transaction_is(j: JsonModel, t: Transaction) -> bool {
    match j {
        JsonModel::Object(f) => {
            &&& str_field(f, "address"@) == Some(t.address@)
            &&& str_field(f, "category"@) == Some(t.category@)
            &&& number_field(f, "amount"@) == Some(t.amount@)
            &&& str_field(f, "txid"@) == Some(t.txid@)
            &&& integer_field(f, "time"@, i64::MIN as int, i64::MAX as int) == Some(t.time as int)
            &&& integer_field(f, "timereceived"@, 0, u32::MAX as int) == Some(
                t.timereceived as int,
            )
        },
        _ => false,
    }
}

/// `j` has the shape of an entry of a `listtransactions` result.
pub open spec fn is_transaction(j: JsonModel) -> bool {
    match j {
        JsonModel::Object(f) => {
            &&& str_field(f, "address"@) is Some
            &&& str_field(f, "category"@) is Some
            &&& number_field(f, "amount"@) is Some
            &&& str_field(f, "txid"@) is Some
            &&& integer_field(f, "time"@, i64::MIN as int, i64::MAX as int) is Some
            &&& integer_field(f, "timereceived"@, 0, u32::MAX as int) is Some
        },
        _ => false,
    }
}

/// Reads one entry of a `listtransactions` result; `Schema` where it has
/// another shape.
pub fn transaction_of(j: &Json) -> (r: Result<Transaction, RpcError>)
    ensures
        r is Ok <==> is_transaction(json_model(*j)),
        r matches Ok(t) ==> transaction_is(json_model(*j), t),
        r matches Err(e) ==> e == RpcError::Schema,
{
    proof {
        lemma_json_model_parts(*j);
    }
    match j {
        Json::Object(f) => {
            let address = get_str(f, &String::from_str("address"));
            let category = get_str(f, &String::from_str("category"));
            let amount = get_number(f, &String::from_str("amount"));
            let txid = get_str(f, &String::from_str("txid"));
            let time = get_i64(f, &String::from_str("time"));
            let timereceived = get_u32(f, &String::from_str("timereceived"));
            match (address, category, amount, txid, time, timereceived) {
                (Ok(address), Ok(category), Ok(amount), Ok(txid), Ok(time), Ok(timereceived)) => {
                    Ok(Transaction { address, category, amount, txid, time, timereceived })
                },
                _ => Err(RpcError::Schema),
            }
        },
        _ => Err(RpcError::Schema),
    }
}

/// `j` is a list of entries of a `listtransactions` result.
pub open spec fn is_transaction_list(j: JsonModel) -> bool {
    match j {
        JsonModel::Array(xs) => forall|i: int| 0 <= i < xs.len() ==> is_transaction(#[trigger] xs[i]),
        _ => false,
    }
}

/// What reading `j` as a `listtransactions` result gives: every entry, in
/// order, or `Schema`.
pub open spec fn transactions_read(j: JsonModel, r: Result<Vec<Transaction>, RpcError>) -> bool {
    &&& r is Ok <==> is_transaction_list(j)
    &&& r matches Ok(v) ==> (j matches JsonModel::Array(xs) && v@.len() == xs.len() && forall|
        i: int,
    | 0 <= i < xs.len() ==> transaction_is(#[trigger] xs[i], v@[i]))
    &&& r matches Err(e) ==> e == RpcError::Schema
}

/// Reads the result of `listtransactions`, a list kept in its order;
/// `Schema` where it or one of its entries has another shape.
pub fn transactions_of(j: &Json) -> (r: Result<Vec<Transaction>, RpcError>)
    ensures
        transactions_read(json_model(*j), r),
{
    proof {
        lemma_json_model_parts(*j);
    }
    match j {
        Json::Array(items) => {
            let ghost xs = json_model(*j)->Array_0;
            let mut out: Vec<Transaction> = Vec::new();
            let mut i: usize = 0;
            while i < items.len()
                invariant
                    json_model(*j) == JsonModel::Array(xs),
                    xs.len() == items@.len(),
                    forall|k: int| 0 <= k < xs.len() ==> xs[k] == json_model(#[trigger] items@[k]),
                    i <= items@.len(),
                    out@.len() == i,
                    forall|k: int| 0 <= k < i ==> transaction_is(#[trigger] xs[k], out@[k]),
                    forall|k: int| 0 <= k < i ==> is_transaction(#[trigger] xs[k]),
                decreases items.len() - i,
            {
                match transaction_of(&items[i]) {
                    Ok(t) => out.push(t),
                    Err(e) => {
                        assert(!is_transaction(xs[i as int]));
                        assert(!(forall|k: int|
                            0 <= k < xs.len() ==> is_transaction(#[trigger] xs[k])));
                        assert(json_model(*j) matches JsonModel::Array(ys) && ys == xs);
                        assert(e == RpcError::Schema);
                        assert(!is_transaction_list(json_model(*j)));
                        return Err(e);
                    },
                }
                i = i + 1;
            }
            Ok(out)
        },
        _ => Err(RpcError::Schema),
    }
}

/// What reading `j` as a string result, as `z_getbalance` returns, gives.
pub open spec fn string_read(j: JsonModel, r: Result<String, RpcError>) -> bool {
    match r {
        Ok(s) => j == JsonModel::Str(s@),
        Err(e) => !(j is Str) && e == RpcError::Schema,
    }
}

/// Reads a result that is a string, as `z_getbalance` returns; `Schema`
/// otherwise.
pub fn string_of(j: &Json) -> (r: Result<String, RpcError>)
    ensures
        string_read(json_model(*j), r),
{
    match j {
        Json::Str(s) => Ok(s.clone()),
        _ => Err(RpcError::Schema),
    }
}

/// What reading `j` as a list of strings, as `z_listaddresses` returns,
/// gives: every string, in order, or `Schema`.
pub open spec fn strings_read(j: JsonModel, r: Result<Vec<String>, RpcError>) -> bool {
    &&& r is Ok <==> (j matches JsonModel::Array(xs) && forall|i: int|
        0 <= i < xs.len() ==> (#[trigger] xs[i]) is Str)
    &&& r matches Ok(v) ==> (j matches JsonModel::Array(xs) && v@.len() == xs.len() && forall|
        i: int,
    | 0 <= i < xs.len() ==> #[trigger] xs[i] == JsonModel::Str(v@[i]@))
    &&& r matches Err(e) ==> e == RpcError::Schema
}

/// Reads a result that is a list of strings, as `z_listaddresses` returns,
/// in its order; `Schema` otherwise.
pub fn strings_of(j: &Json) -> (r: Result<Vec<String>, RpcError>)
    ensures
        strings_read(json_model(*j), r),
{
    proof {
        lemma_json_model_parts(*j);
    }
    match j {
        Json::Array(items) => {
            let ghost xs = json_model(*j)->Array_0;
            let mut out: Vec<String> = Vec::new();
            let mut i: usize = 0;
            while i < items.len()
                invariant
                    json_model(*j) == JsonModel::Array(xs),
                    xs.len() == items@.len(),
                    forall|k: int| 0 <= k < xs.len() ==> xs[k] == json_model(#[trigger] items@[k]),
                    i <= items@.len(),
                    out@.len() == i,
                    forall|k: int| 0 <= k < i ==> #[trigger] xs[k] == JsonModel::Str(out@[k]@),
                decreases items.len() - i,
            {
                assert(xs[i as int] == json_model(items@[i as int]));
                match &items[i] {
                    Json::Str(s) => out.push(s.clone()),
                    _ => {
                        assert(!(xs[i as int] is Str));
                        return Err(RpcError::Schema);
                    },
                }
                i = i + 1;
            }
            Ok(out)
        },
        _ => Err(RpcError::Schema),
    }
}

/// What reading `j` as a string or null, as `z_sendmany` returns, gives.
pub open spec fn optional_string_read(j: JsonModel, r: Result<Option<String>, RpcError>) -> bool {
    match r {
        Ok(Some(s)) => j == JsonModel::Str(s@),
        Ok(None) => j == JsonModel::Null,
        Err(e) => !(j is Str) && !(j is Null) && e == RpcError::Schema,
    }
}

/// Reads a result that is a string or null, as `z_sendmany` returns;
/// `Schema` otherwise.
pub fn optional_string_of(j: &Json) -> (r: Result<Option<String>, RpcError>)
    ensures
        optional_string_read(json_model(*j), r),
{
    match j {
        Json::Str(s) => Ok(Some(s.clone())),
        Json::Null => Ok(None),
        _ => Err(RpcError::Schema),
    }
}

/// What an entry `j` of a `z_listreceivedbyaddress` result gives: its
/// transaction id, amount text and decoded memo, or why it gives none.
pub open spec fn ztransaction_outcome(j: JsonModel) -> Result<
    (Seq<char>, Seq<char>, Seq<char>),
    RpcError,
> {
    match j {
        JsonModel::Object(f) => match (
            str_field(f, "txid"@),
            number_field(f, "amount"@),
            str_field(f, "memo"@),
        ) {
            (Some(txid), Some(amount), Some(memo)) => match decoded_memo(memo) {
                Ok(text) => Ok((txid, amount, text)),
                Err(e) => Err(RpcError::Memo(e)),
            },
            _ => Err(RpcError::Schema),
        },
        _ => Err(RpcError::Schema),
    }
}

/// Reads one entry of a `z_listreceivedbyaddress` result and decodes its
/// memo.
pub fn ztransaction_of(j: &Json) -> (r: Result<ZTransaction, RpcError>)
    ensures
        match r {
            Ok(z) => ztransaction_outcome(json_model(*j)) == Ok::<_, RpcError>(
                (z.txid@, z.amount@, z.memo@),
            ),
            Err(e) => ztransaction_outcome(json_model(*j)) == Err::<
                (Seq<char>, Seq<char>, Seq<char>),
                _,
            >(e),
        },
{
    proof {
        lemma_json_model_parts(*j);
    }
    match j {
        Json::Object(f) => {
            let txid = get_str(f, &String::from_str("txid"));
            let amount = get_number(f, &String::from_str("amount"));
            let memo = get_str(f, &String::from_str("memo"));
            match (txid, amount, memo) {
                (Ok(txid), Ok(amount), Ok(memo)) => {
                    match ZTransaction::new(txid.as_str(), amount.as_str(), memo.as_str()) {
                        Ok(z) => Ok(z),
                        Err(e) => Err(RpcError::Memo(e)),
                    }
                },
                _ => Err(RpcError::Schema),
            }
        },
        _ => Err(RpcError::Schema),
    }
}

/// What reading `j` as a `z_listreceivedbyaddress` result gives: every
/// entry, in order, with its memo decoded; or the first entry's failure.
pub open spec fn ztransactions_read(j: JsonModel, r: Result<Vec<ZTransaction>, RpcError>) -> bool {
    match j {
        JsonModel::Array(xs) => match r {
            Ok(v) => v@.len() == xs.len() && forall|i: int|
                0 <= i < xs.len() ==> ztransaction_outcome(#[trigger] xs[i]) == Ok::<_, RpcError>(
                    (v@[i].txid@, v@[i].amount@, v@[i].memo@),
                ),
            Err(e) => exists|k: int|
                0 <= k < xs.len() && ztransaction_outcome(#[trigger] xs[k]) == Err::<
                    (Seq<char>, Seq<char>, Seq<char>),
                    _,
                >(e) && forall|i: int| 0 <= i < k ==> (#[trigger] ztransaction_outcome(xs[i])) is Ok,
        },
        _ => r == Err::<Vec<ZTransaction>, RpcError>(RpcError::Schema),
    }
}

/// Reads the result of `z_listreceivedbyaddress`, a list kept in its order,
/// decoding each memo; fails with the first entry's failure, in list order.
pub fn ztransactions_of(j: &Json) -> (r: Result<Vec<ZTransaction>, RpcError>)
    ensures
        ztransactions_read(json_model(*j), r),
{
    proof {
        lemma_json_model_parts(*j);
    }
    match j {
        Json::Array(items) => {
            let ghost xs = json_model(*j)->Array_0;
            let mut out: Vec<ZTransaction> = Vec::new();
            let mut i: usize = 0;
            while i < items.len()
                invariant
                    json_model(*j) == JsonModel::Array(xs),
                    xs.len() == items@.len(),
                    forall|k: int| 0 <= k < xs.len() ==> xs[k] == json_model(#[trigger] items@[k]),
                    i <= items@.len(),
                    out@.len() == i,
                    forall|k: int|
                        0 <= k < i ==> ztransaction_outcome(#[trigger] xs[k]) == Ok::<_, RpcError>(
                            (out@[k].txid@, out@[k].amount@, out@[k].memo@),
                        ),
                decreases items.len() - i,
            {
                assert(xs[i as int] == json_model(items@[i as int]));
                match ztransaction_of(&items[i]) {
                    Ok(z) => out.push(z),
                    Err(e) => {
                        assert(ztransaction_outcome(xs[i as int]) == Err::<
                            (Seq<char>, Seq<char>, Seq<char>),
                            RpcError,
                        >(e));
                        return Err(e);
                    },
                }
                i = i + 1;
            }
            Ok(out)
        },
        _ => Err(RpcError::Schema),
    }
}

/// Reads the response body of `getblockchaininfo`: `Envelope` where the body is not JSON or
/// has no `result`, else as `blockchain_info_of` on the result.
pub fn read_blockchain_info(body: &[u8]) -> (r: Result<BlockchainInfo, RpcError>)
    ensures
        match json_document(body@) {
            Some(d) => match envelope_result(d) {
                Some(m) => blockchain_info_read(m, r),
                None => r == Err::<BlockchainInfo, RpcError>(RpcError::Envelope),
            },
            None => r == Err::<BlockchainInfo, RpcError>(RpcError::Envelope),
        },
{
    match read_result(body) {
        Ok(j) => blockchain_info_of(&j),
        Err(e) => Err(e),
    }
}

/// Reads the response body of `listtransactions`: `Envelope` where the body is not JSON or
/// has no `result`, else as `transactions_of` on the result.
pub fn read_transactions(body: &[u8]) -> (r: Result<Vec<Transaction>, RpcError>)
    ensures
        match json_document(body@) {
            Some(d) => match envelope_result(d) {
                Some(m) => transactions_read(m, r),
                None => r == Err::<Vec<Transaction>, RpcError>(RpcError::Envelope),
            },
            None => r == Err::<Vec<Transaction>, RpcError>(RpcError::Envelope),
        },
{
    match read_result(body) {
        Ok(j) => transactions_of(&j),
        Err(e) => Err(e),
    }
}

/// Reads the response body of `z_getbalance`: `Envelope` where the body is not JSON or
/// has no `result`, else as `string_of` on the result.
pub fn read_balance_text(body: &[u8]) -> (r: Result<String, RpcError>)
    ensures
        match json_document(body@) {
            Some(d) => match envelope_result(d) {
                Some(m) => string_read(m, r),
                None => r == Err::<String, RpcError>(RpcError::Envelope),
            },
            None => r == Err::<String, RpcError>(RpcError::Envelope),
        },
{
    match read_result(body) {
        Ok(j) => string_of(&j),
        Err(e) => Err(e),
    }
}

/// Reads the response body of `z_gettotalbalance`: `Envelope` where the body is not JSON or
/// has no `result`, else as `balance_of` on the result.
pub fn read_total_balance(body: &[u8]) -> (r: Result<Balance, RpcError>)
    ensures
        match json_document(body@) {
            Some(d) => match envelope_result(d) {
                Some(m) => balance_read(m, r),
                None => r == Err::<Balance, RpcError>(RpcError::Envelope),
            },
            None => r == Err::<Balance, RpcError>(RpcError::Envelope),
        },
{
    match read_result(body) {
        Ok(j) => balance_of(&j),
        Err(e) => Err(e),
    }
}

/// Reads the response body of `z_listaddresses`: `Envelope` where the body is not JSON or
/// has no `result`, else as `strings_of` on the result.
pub fn read_addresses(body: &[u8]) -> (r: Result<Vec<String>, RpcError>)
    ensures
        match json_document(body@) {
            Some(d) => match envelope_result(d) {
                Some(m) => strings_read(m, r),
                None => r == Err::<Vec<String>, RpcError>(RpcError::Envelope),
            },
            None => r == Err::<Vec<String>, RpcError>(RpcError::Envelope),
        },
{
    match read_result(body) {
        Ok(j) => strings_of(&j),
        Err(e) => Err(e),
    }
}

/// Reads the response body of `z_listreceivedbyaddress`: `Envelope` where the body is not JSON or
/// has no `result`, else as `ztransactions_of` on the result.
pub fn read_received(body: &[u8]) -> (r: Result<Vec<ZTransaction>, RpcError>)
    ensures
        match json_document(body@) {
            Some(d) => match envelope_result(d) {
                Some(m) => ztransactions_read(m, r),
                None => r == Err::<Vec<ZTransaction>, RpcError>(RpcError::Envelope),
            },
            None => r == Err::<Vec<ZTransaction>, RpcError>(RpcError::Envelope),
        },
{
    match read_result(body) {
        Ok(j) => ztransactions_of(&j),
        Err(e) => Err(e),
    }
}

/// Reads the response body of `z_sendmany`: `Envelope` where the body is not JSON or
/// has no `result`, else as `optional_string_of` on the result.
pub fn read_operation_id(body: &[u8]) -> (r: Result<Option<String>, RpcError>)
    ensures
        match json_document(body@) {
            Some(d) => match envelope_result(d) {
                Some(m) => optional_string_read(m, r),
                None => r == Err::<Option<String>, RpcError>(RpcError::Envelope),
            },
            None => r == Err::<Option<String>, RpcError>(RpcError::Envelope),
        },
{
    match read_result(body) {
        Ok(j) => optional_string_of(&j),
        Err(e) => Err(e),
    }
}

} // verus!
