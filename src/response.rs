use vstd::prelude::*;
use crate::address::{decode_payment_address, is_valid_address};
use crate::config::{Fees, fees_from, fees_shaped, fees_valid, fits_u64, parse_fees};
use crate::error::TokenError;
use crate::json::{Json, elements, get_int_member, get_str_member, int_member, str_member};

verus! {

/// An unspent output reported by the ledger.
#[derive(Debug)]
pub struct UtxoRecord {
    pub payment_address: String,
    pub sequence: u64,
    pub amount: u64,
}

/// A response element with a decodable `address` and in-range integer
/// `sequence` and `amount`.
pub open spec fn utxo_valid(e: Json) -> bool {
    &&& str_member(e, "address"@) is Some
    &&& is_valid_address(str_member(e, "address"@).unwrap())
    &&& int_member(e, "sequence"@) is Some
    &&& fits_u64(int_member(e, "sequence"@).unwrap())
    &&& int_member(e, "amount"@) is Some
    &&& fits_u64(int_member(e, "amount"@).unwrap())
}

/// An array of valid unspent-output elements.
pub open spec fn utxo_response_valid(j: Json) -> bool {
    &&& j is Array
    &&& forall|i: int| 0 <= i < elements(j).len() ==> #[trigger] utxo_valid(elements(j)[i])
}

/// `u` holds what the element `e` states.
pub open spec fn utxo_from(u: UtxoRecord, e: Json) -> bool {
    &&& u.payment_address@ == str_member(e, "address"@).unwrap()
    &&& u.sequence as int == int_member(e, "sequence"@).unwrap()
    &&& u.amount as int == int_member(e, "amount"@).unwrap()
}

/// Reads the unspent outputs from a ledger response: an array of objects with
/// `address`, `sequence` and `amount`. The records keep the response's order.
/// Any element that is not such a record, or whose address does not decode,
/// makes the whole response a `ParseError`.
pub fn parse_get_utxo_response(j: &Json) -> (r: Result<Vec<UtxoRecord>, TokenError>)
    ensures
        r is Ok <==> utxo_response_valid(*j),
        r matches Err(e) ==> e == TokenError::ParseError,
        r matches Ok(v) ==> v@.len() == elements(*j).len()
            && forall|i: int| 0 <= i < v@.len() ==> #[trigger] utxo_from(v@[i], elements(*j)[i]),
{
    let a = match j {
        Json::Array(a) => a,
        _ => return Err(TokenError::ParseError),
    };
    let n = a.len();
    let mut v: Vec<UtxoRecord> = Vec::new();
    let mut i: usize = 0;
    while i < n
        invariant
            n == a@.len(),
            elements(*j) == a@,
            i <= n,
            v@.len() == i,
            forall|p: int| 0 <= p < i ==> #[trigger] utxo_valid(a@[p]),
            forall|p: int| 0 <= p < i ==> #[trigger] utxo_from(v@[p], a@[p]),
        decreases n - i,
    {
        let address = match get_str_member(&a[i], "address") {
            Some(s) => s,
            None => {
                assert(!utxo_valid(a@[i as int]));
                return Err(TokenError::ParseError);
            },
        };
        let sequence = match get_int_member(&a[i], "sequence") {
            Some(m) => m,
            None => {
                assert(!utxo_valid(a@[i as int]));
                return Err(TokenError::ParseError);
            },
        };
        let amount = match get_int_member(&a[i], "amount") {
            Some(m) => m,
            None => {
                assert(!utxo_valid(a@[i as int]));
                return Err(TokenError::ParseError);
            },
        };
        if sequence < 0 || sequence > u64::MAX as i128 || amount < 0 || amount > u64::MAX as i128 {
            assert(!utxo_valid(a@[i as int]));
            return Err(TokenError::ParseError);
        }
        if decode_payment_address(address.as_str()).is_err() {
            assert(!utxo_valid(a@[i as int]));
            return Err(TokenError::ParseError);
        }
        v.push(UtxoRecord { payment_address: address, sequence: sequence as u64, amount: amount as u64 });
        i = i + 1;
    }
    Ok(v)
}

/// Reads the fee mapping from a fee-query response. Succeeds exactly when
/// `parse_fees` would, with the same entries; otherwise `ParseError`.
pub fn parse_get_txn_fees_response(j: &Json) -> (r: Result<Fees, TokenError>)
    ensures
        r is Ok <==> fees_shaped(*j) && fees_valid(*j),
        r matches Err(e) ==> e == TokenError::ParseError,
        r matches Ok(f) ==> fees_from(f.entries@, *j),
{
    match parse_fees(j) {
        Ok(f) => Ok(f),
        Err(_) => Err(TokenError::ParseError),
    }
}

} // verus!
