//! The records that the node's answers are read into.
use vstd::prelude::*;
use crate::memo::{decode_memo, decoded_memo, MemoError};

verus! {

/// How to reach the node.
#[derive(Debug, Clone)]
pub struct Args {
    pub verbose: bool,
    pub network: String,
    pub username: String,
    pub password: String,
}

/// Balances of the wallet, as the decimal text the node sends.
#[derive(Debug, Clone, PartialEq)]
pub struct Balance {
    pub transparent: String,
    pub private: String,
    pub total: String,
}

/// State of the chain. `difficulty` is the text of the JSON number.
#[derive(Debug, Clone, PartialEq)]
pub struct BlockchainInfo {
    pub chain: String,
    pub blocks: u32,
    pub difficulty: String,
}

/// A shielded transaction as the node lists it, memo still in hexadecimal.
/// `amount` is the text of the JSON number.
#[derive(Debug, Clone, PartialEq)]
pub struct RawZTransaction {
    pub txid: String,
    pub amount: String,
    pub memo: String,
}

/// A shielded transaction with its memo decoded to text. `amount` is the
/// text of the JSON number.
#[derive(Debug, Clone, PartialEq)]
pub struct ZTransaction {
    pub txid: String,
    pub amount: String,
    pub memo: String,
}

/// A wallet transaction. `amount` is the text of the JSON number; `time` is
/// in seconds since the Unix epoch.
#[derive(Debug, Clone, PartialEq)]
pub struct Transaction {
    pub address: String,
    pub category: String,
    pub amount: String,
    pub txid: String,
    pub time: i64,
    pub timereceived: u32,
}

/// The text that chrono writes for `secs` seconds after the Unix epoch, in
/// UTC, after `pattern`; none where chrono has no such date.
pub uninterp spec fn utc_text(secs: int, pattern: Seq<char>) -> Option<Seq<char>>;

/// Relies on chrono::DateTime::from_timestamp and DateTime::format, for the
/// two patterns below, whose items chrono always renders.
#[verifier::external_body]
fn format_utc(secs: i64, pattern: &str) -> (r: Option<String>)
    requires
        pattern@ == "%Y-%m-%d %H:%M:%S"@ || pattern@ == "%b %d"@,
    ensures
        match r {
            Some(s) => utc_text(secs as int, pattern@) == Some(s@),
            None => utc_text(secs as int, pattern@) is None,
        },
{
    chrono::DateTime::from_timestamp(secs, 0).map(|t| t.format(pattern).to_string())
}

impl Transaction {
    /// Date and time of the transaction, `2018-04-01 12:30:00`, UTC; none
    /// where the time lies outside the dates chrono knows.
    pub fn get_date_time(&self) -> (r: Option<String>)
        ensures
            match r {
                Some(s) => utc_text(self.time as int, "%Y-%m-%d %H:%M:%S"@) == Some(s@),
                None => utc_text(self.time as int, "%Y-%m-%d %H:%M:%S"@) is None,
            },
    {
        format_utc(self.time, "%Y-%m-%d %H:%M:%S")
    }

    /// Month and day of the transaction, `Apr 01`, UTC; none where the time
    /// lies outside the dates chrono knows.
    pub fn get_date(&self) -> (r: Option<String>)
        ensures
            match r {
                Some(s) => utc_text(self.time as int, "%b %d"@) == Some(s@),
                None => utc_text(self.time as int, "%b %d"@) is None,
            },
    {
        format_utc(self.time, "%b %d")
    }
}

impl ZTransaction {
    /// A shielded transaction with its memo decoded from hexadecimal; fails
    /// with the memo's error where it cannot be decoded.
    pub fn new(txid: &str, amount: &str, memo: &str) -> (r: Result<ZTransaction, MemoError>)
        ensures
            match r {
                Ok(z) => z.txid@ == txid@ && z.amount@ == amount@ && decoded_memo(memo@) == Ok::<
                    Seq<char>,
                    MemoError,
                >(z.memo@),
                Err(e) => decoded_memo(memo@) == Err::<Seq<char>, MemoError>(e),
            },
    {
        match decode_memo(memo) {
            Ok(text) => Ok(ZTransaction { txid: txid.to_owned(), amount: amount.to_owned(), memo: text }),
            Err(e) => Err(e),
        }
    }

    /// Decodes the memo of a transaction as the node listed it.
    pub fn from_raw(raw: &RawZTransaction) -> (r: Result<ZTransaction, MemoError>)
        ensures
            match r {
                Ok(z) => z.txid@ == raw.txid@ && z.amount@ == raw.amount@ && decoded_memo(raw.memo@)
                    == Ok::<Seq<char>, MemoError>(z.memo@),
                Err(e) => decoded_memo(raw.memo@) == Err::<Seq<char>, MemoError>(e),
            },
    {
        ZTransaction::new(raw.txid.as_str(), raw.amount.as_str(), raw.memo.as_str())
    }
}

} // verus!
