use vstd::prelude::*;
use crate::address::{decode_payment_address, is_valid_address, MAX_DID_LEN};
use vstd::string::StringExecFns;
use crate::config::{
    Fee, Fees, Input, Output, fees_from, fees_shaped, fees_valid, inputs_from, inputs_shaped,
    inputs_valid, outputs_from, outputs_shaped, outputs_valid, parse_fees, parse_inputs,
    parse_outputs, check_no_inputs,
};
use crate::json::{Json, elements};
use crate::error::TokenError;
use crate::text::{decimal, push_char, push_decimal, push_quoted, push_text, quoted};

verus! {

/// A transfer: the unspent outputs consumed and the outputs created.
#[derive(Debug)]
pub struct PaymentRequest {
    pub identifier: String,
    pub inputs: Vec<Input>,
    pub outputs: Vec<Output>,
}

/// An issuance of new tokens to the outputs.
#[derive(Debug)]
pub struct MintRequest {
    pub identifier: String,
    pub outputs: Vec<Output>,
}

/// An update of the fee for each transaction kind.
#[derive(Debug)]
pub struct SetFeesRequest {
    pub identifier: String,
    pub fees: Fees,
}

/// The text of one input.
pub open spec fn input_text(i: Input) -> Seq<char> {
    "{\"address\":"@ + quoted(i.address@) + ",\"sequence\":"@ + decimal(i.sequence as nat) + "}"@
}

/// The text of one output.
pub open spec fn output_text(o: Output) -> Seq<char> {
    "{\"address\":"@ + quoted(o.address@) + ",\"amount\":"@ + decimal(o.amount as nat) + "}"@
}

/// The text of one fee entry, as an object member.
pub open spec fn fee_text(f: Fee) -> Seq<char> {
    quoted(f.txn_type@) + ":"@ + decimal(f.amount as nat)
}

/// The inputs' texts, in order, separated by commas.
pub open spec fn inputs_text(s: Seq<Input>) -> Seq<char>
    decreases s.len(),
{
    if s.len() == 0 {
        Seq::empty()
    } else if s.len() == 1 {
        input_text(s[0])
    } else {
        inputs_text(s.drop_last()) + seq![','] + input_text(s.last())
    }
}

/// The outputs' texts, in order, separated by commas.
pub open spec fn outputs_text(s: Seq<Output>) -> Seq<char>
    decreases s.len(),
{
    if s.len() == 0 {
        Seq::empty()
    } else if s.len() == 1 {
        output_text(s[0])
    } else {
        outputs_text(s.drop_last()) + seq![','] + output_text(s.last())
    }
}

/// The fee entries' texts, in order, separated by commas.
pub open spec fn fees_text(s: Seq<Fee>) -> Seq<char>
    decreases s.len(),
{
    if s.len() == 0 {
        Seq::empty()
    } else if s.len() == 1 {
        fee_text(s[0])
    } else {
        fees_text(s.drop_last()) + seq![','] + fee_text(s.last())
    }
}

/// The canonical text of a payment request.
pub open spec fn payment_text(did: Seq<char>, ins: Seq<Input>, outs: Seq<Output>) -> Seq<char> {
    "{\"operation\":\"PAY\",\"protocolVersion\":1,\"identifier\":"@ + quoted(did)
        + ",\"inputs\":["@ + inputs_text(ins) + "],\"outputs\":["@ + outputs_text(outs) + "]}"@
}

/// The canonical text of a mint request.
pub open spec fn mint_text(did: Seq<char>, outs: Seq<Output>) -> Seq<char> {
    "{\"operation\":\"MINT\",\"protocolVersion\":1,\"identifier\":"@ + quoted(did)
        + ",\"outputs\":["@ + outputs_text(outs) + "]}"@
}

/// The canonical text of a set-fees request.
pub open spec fn set_fees_text(did: Seq<char>, fees: Seq<Fee>) -> Seq<char> {
    "{\"operation\":\"SET_FEES\",\"protocolVersion\":1,\"identifier\":"@ + quoted(did)
        + ",\"fees\":{"@ + fees_text(fees) + "}}"@
}

/// The canonical text of a query for the unspent outputs of an address.
pub open spec fn get_utxo_text(did: Seq<char>, address: Seq<char>) -> Seq<char> {
    "{\"operation\":\"GET_UTXO\",\"protocolVersion\":1,\"identifier\":"@ + quoted(did)
        + ",\"address\":"@ + quoted(address) + "}"@
}

/// The canonical text of a query for the current fees.
pub open spec fn get_fees_text(did: Seq<char>) -> Seq<char> {
    "{\"operation\":\"GET_FEES\",\"protocolVersion\":1,\"identifier\":"@ + quoted(did) + "}"@
}

/// Two input lists with the same addresses and sequence numbers, in the same order.
pub open spec fn same_inputs(x: Seq<Input>, y: Seq<Input>) -> bool {
    &&& x.len() == y.len()
    &&& forall|i: int| 0 <= i < x.len() ==> {
        &&& (#[trigger] x[i]).address@ == y[i].address@
        &&& x[i].sequence == y[i].sequence
    }
}

/// Two output lists with the same addresses and amounts, in the same order.
pub open spec fn same_outputs(x: Seq<Output>, y: Seq<Output>) -> bool {
    &&& x.len() == y.len()
    &&& forall|i: int| 0 <= i < x.len() ==> {
        &&& (#[trigger] x[i]).address@ == y[i].address@
        &&& x[i].amount == y[i].amount
    }
}

/// Two fee lists with the same names and amounts, in the same order.
pub open spec fn same_fees(x: Seq<Fee>, y: Seq<Fee>) -> bool {
    &&& x.len() == y.len()
    &&& forall|i: int| 0 <= i < x.len() ==> {
        &&& (#[trigger] x[i]).txn_type@ == y[i].txn_type@
        &&& x[i].amount == y[i].amount
    }
}

fn push_inputs(out: &mut String, v: &Vec<Input>)
    ensures
        final(out)@ == old(out)@ + inputs_text(v@),
{
    let ghost start = out@;
    let n = v.len();
    let mut i: usize = 0;
    while i < n
        invariant
            n == v@.len(),
            i <= n,
            out@ == start + inputs_text(v@.subrange(0, i as int)),
        decreases n - i,
    {
        let ghost before = out@;
        if i > 0 {
            push_char(out, ',');
        }
        push_text(out, "{\"address\":");
        push_quoted(out, v[i].address.as_str());
        push_text(out, ",\"sequence\":");
        push_decimal(out, v[i].sequence);
        push_text(out, "}");
        proof {
            let t = v@.subrange(0, i as int + 1);
            assert(t.drop_last() =~= v@.subrange(0, i as int));
            if i == 0 {
                assert(out@ =~= before + input_text(v@[0]));
            } else {
                assert(out@ =~= before + seq![','] + input_text(v@[i as int]));
            }
        }
        i = i + 1;
    }
    assert(v@.subrange(0, n as int) =~= v@);
}

fn push_outputs(out: &mut String, v: &Vec<Output>)
    ensures
        final(out)@ == old(out)@ + outputs_text(v@),
{
    let ghost start = out@;
    let n = v.len();
    let mut i: usize = 0;
    while i < n
        invariant
            n == v@.len(),
            i <= n,
            out@ == start + outputs_text(v@.subrange(0, i as int)),
        decreases n - i,
    {
        let ghost before = out@;
        if i > 0 {
            push_char(out, ',');
        }
        push_text(out, "{\"address\":");
        push_quoted(out, v[i].address.as_str());
        push_text(out, ",\"amount\":");
        push_decimal(out, v[i].amount);
        push_text(out, "}");
        proof {
            let t = v@.subrange(0, i as int + 1);
            assert(t.drop_last() =~= v@.subrange(0, i as int));
            if i == 0 {
                assert(out@ =~= before + output_text(v@[0]));
            } else {
                assert(out@ =~= before + seq![','] + output_text(v@[i as int]));
            }
        }
        i = i + 1;
    }
    assert(v@.subrange(0, n as int) =~= v@);
}

fn push_fees(out: &mut String, v: &Vec<Fee>)
    ensures
        final(out)@ == old(out)@ + fees_text(v@),
{
    let ghost start = out@;
    let n = v.len();
    let mut i: usize = 0;
    while i < n
        invariant
            n == v@.len(),
            i <= n,
            out@ == start + fees_text(v@.subrange(0, i as int)),
        decreases n - i,
    {
        let ghost before = out@;
        if i > 0 {
            push_char(out, ',');
        }
        push_quoted(out, v[i].txn_type.as_str());
        push_text(out, ":");
        push_decimal(out, v[i].amount);
        proof {
            let t = v@.subrange(0, i as int + 1);
            assert(t.drop_last() =~= v@.subrange(0, i as int));
            if i == 0 {
                assert(out@ =~= before + fee_text(v@[0]));
            } else {
                assert(out@ =~= before + seq![','] + fee_text(v@[i as int]));
            }
        }
        i = i + 1;
    }
    assert(v@.subrange(0, n as int) =~= v@);
}

impl PaymentRequest {
    /// Combines validated outputs and inputs into a payment request, keeping
    /// both lists as given.
    pub fn from_config(outputs: Vec<Output>, inputs: Vec<Input>, identifier: String) -> (r: Self)
        ensures
            r.outputs == outputs,
            r.inputs == inputs,
            r.identifier == identifier,
    {
        PaymentRequest { identifier, inputs, outputs }
    }

    /// The canonical text of the request.
    pub fn serialize_to_string(&self) -> (r: String)
        ensures
            r@ == payment_text(self.identifier@, self.inputs@, self.outputs@),
    {
        let mut out = String::new();
        push_text(&mut out, "{\"operation\":\"PAY\",\"protocolVersion\":1,\"identifier\":");
        push_quoted(&mut out, self.identifier.as_str());
        push_text(&mut out, ",\"inputs\":[");
        push_inputs(&mut out, &self.inputs);
        push_text(&mut out, "],\"outputs\":[");
        push_outputs(&mut out, &self.outputs);
        push_text(&mut out, "]}");
        out
    }
}

impl MintRequest {
    /// Wraps validated outputs in a mint request, keeping them as given.
    pub fn from_config(outputs: Vec<Output>, identifier: String) -> (r: Self)
        ensures
            r.outputs == outputs,
            r.identifier == identifier,
    {
        MintRequest { identifier, outputs }
    }

    /// The canonical text of the request.
    pub fn serialize_to_string(&self) -> (r: String)
        ensures
            r@ == mint_text(self.identifier@, self.outputs@),
    {
        let mut out = String::new();
        push_text(&mut out, "{\"operation\":\"MINT\",\"protocolVersion\":1,\"identifier\":");
        push_quoted(&mut out, self.identifier.as_str());
        push_text(&mut out, ",\"outputs\":[");
        push_outputs(&mut out, &self.outputs);
        push_text(&mut out, "]}");
        out
    }
}

impl SetFeesRequest {
    /// Wraps a validated fee mapping in a set-fees request.
    pub fn from_fee_config(fees: Fees, identifier: String) -> (r: Self)
        ensures
            r.fees == fees,
            r.identifier == identifier,
    {
        SetFeesRequest { identifier, fees }
    }

    /// The canonical text of the request.
    pub fn serialize_to_string(&self) -> (r: String)
        ensures
            r@ == set_fees_text(self.identifier@, self.fees.entries@),
    {
        let mut out = String::new();
        push_text(&mut out, "{\"operation\":\"SET_FEES\",\"protocolVersion\":1,\"identifier\":");
        push_quoted(&mut out, self.identifier.as_str());
        push_text(&mut out, ",\"fees\":{");
        push_fees(&mut out, &self.fees.entries);
        push_text(&mut out, "}}");
        out
    }
}

/// Builds the query for the unspent outputs of a payment address. Fails with
/// `InvalidValue` if the submitter identity is empty or longer than
/// `MAX_DID_LEN`, else with `InvalidAddress` if the address does not decode.
pub fn build_get_utxo_request(submitter_did: &str, payment_address: &str) -> (r: Result<String, TokenError>)
    ensures
        !(1 <= submitter_did@.len() <= MAX_DID_LEN) ==> r == Err::<String, TokenError>(TokenError::InvalidValue),
        (1 <= submitter_did@.len() <= MAX_DID_LEN) && !is_valid_address(payment_address@)
            ==> r == Err::<String, TokenError>(TokenError::InvalidAddress),
        (1 <= submitter_did@.len() <= MAX_DID_LEN) && is_valid_address(payment_address@)
            ==> (r matches Ok(t) && t@ == get_utxo_text(submitter_did@, payment_address@)),
{
    let n = submitter_did.unicode_len();
    if n < 1 || n > MAX_DID_LEN {
        return Err(TokenError::InvalidValue);
    }
    if decode_payment_address(payment_address).is_err() {
        return Err(TokenError::InvalidAddress);
    }
    let mut out = String::new();
    push_text(&mut out, "{\"operation\":\"GET_UTXO\",\"protocolVersion\":1,\"identifier\":");
    push_quoted(&mut out, submitter_did);
    push_text(&mut out, ",\"address\":");
    push_quoted(&mut out, payment_address);
    push_text(&mut out, "}");
    Ok(out)
}

/// A submitter identity of usable length: non-empty and at most `MAX_DID_LEN`.
pub open spec fn did_ok(did: Seq<char>) -> bool {
    1 <= did.len() <= MAX_DID_LEN
}

/// `t` is the payment request text for the identity and the parsed payloads.
pub open spec fn payment_built(did: Seq<char>, ins: Json, outs: Json, t: Seq<char>) -> bool {
    exists|vi: Seq<Input>, vo: Seq<Output>|
        #![trigger inputs_from(vi, ins), outputs_from(vo, outs)]
        inputs_from(vi, ins) && outputs_from(vo, outs) && t == payment_text(did, vi, vo)
}

/// `t` is the mint request text for the identity and the parsed outputs.
pub open spec fn mint_built(did: Seq<char>, outs: Json, t: Seq<char>) -> bool {
    exists|vo: Seq<Output>| #[trigger] outputs_from(vo, outs) && t == mint_text(did, vo)
}

/// `t` is the set-fees request text for the identity and the parsed fees.
pub open spec fn set_fees_built(did: Seq<char>, fees: Json, t: Seq<char>) -> bool {
    exists|vf: Seq<Fee>| #[trigger] fees_from(vf, fees) && t == set_fees_text(did, vf)
}

/// Validates the identity, the outputs and then the inputs, and builds the
/// payment request text. The first check that fails gives the error:
/// `InvalidValue` for the identity, then what `parse_outputs` and
/// `parse_inputs` report.
pub fn build_payment_req(
    submitter_did: &str,
    inputs_json: &Json,
    outputs_json: &Json,
    allow_zero: bool,
) -> (r: Result<String, TokenError>)
    ensures
        !did_ok(submitter_did@) ==> r == Err::<String, TokenError>(TokenError::InvalidValue),
        did_ok(submitter_did@) && !outputs_shaped(*outputs_json)
            ==> r == Err::<String, TokenError>(TokenError::MalformedConfig),
        did_ok(submitter_did@) && outputs_shaped(*outputs_json) && !outputs_valid(*outputs_json, allow_zero)
            ==> r == Err::<String, TokenError>(TokenError::InvalidValue),
        did_ok(submitter_did@) && outputs_shaped(*outputs_json) && outputs_valid(*outputs_json, allow_zero)
            && !inputs_shaped(*inputs_json) ==> r == Err::<String, TokenError>(TokenError::MalformedConfig),
        did_ok(submitter_did@) && outputs_shaped(*outputs_json) && outputs_valid(*outputs_json, allow_zero)
            && inputs_shaped(*inputs_json) && !inputs_valid(*inputs_json)
            ==> r == Err::<String, TokenError>(TokenError::InvalidValue),
        did_ok(submitter_did@) && outputs_shaped(*outputs_json) && outputs_valid(*outputs_json, allow_zero)
            && inputs_shaped(*inputs_json) && inputs_valid(*inputs_json) ==> r is Ok,
        r matches Ok(t) ==> payment_built(submitter_did@, *inputs_json, *outputs_json, t@),
{
    let n = submitter_did.unicode_len();
    if n < 1 || n > MAX_DID_LEN {
        return Err(TokenError::InvalidValue);
    }
    let outputs = match parse_outputs(outputs_json, allow_zero) {
        Ok(v) => v,
        Err(e) => return Err(e),
    };
    let inputs = match parse_inputs(inputs_json) {
        Ok(v) => v,
        Err(e) => return Err(e),
    };
    let req = PaymentRequest::from_config(outputs, inputs, String::from_str(submitter_did));
    let t = req.serialize_to_string();
    assert(inputs_from(req.inputs@, *inputs_json) && outputs_from(req.outputs@, *outputs_json));
    Ok(t)
}

/// Validates the identity, the outputs, and that no inputs are given, and
/// builds the mint request text. The first check that fails gives the error.
pub fn build_mint_txn(
    submitter_did: &str,
    outputs_json: &Json,
    inputs_json: &Json,
    allow_zero: bool,
) -> (r: Result<String, TokenError>)
    ensures
        !did_ok(submitter_did@) ==> r == Err::<String, TokenError>(TokenError::InvalidValue),
        did_ok(submitter_did@) && !outputs_shaped(*outputs_json)
            ==> r == Err::<String, TokenError>(TokenError::MalformedConfig),
        did_ok(submitter_did@) && outputs_shaped(*outputs_json) && !outputs_valid(*outputs_json, allow_zero)
            ==> r == Err::<String, TokenError>(TokenError::InvalidValue),
        did_ok(submitter_did@) && outputs_shaped(*outputs_json) && outputs_valid(*outputs_json, allow_zero)
            && !(inputs_json is Null || inputs_json is Array)
            ==> r == Err::<String, TokenError>(TokenError::MalformedConfig),
        did_ok(submitter_did@) && outputs_shaped(*outputs_json) && outputs_valid(*outputs_json, allow_zero)
            && inputs_json is Array && elements(*inputs_json).len() > 0
            ==> r == Err::<String, TokenError>(TokenError::InvalidValue),
        did_ok(submitter_did@) && outputs_shaped(*outputs_json) && outputs_valid(*outputs_json, allow_zero)
            && (inputs_json is Null || (inputs_json is Array && elements(*inputs_json).len() == 0))
            ==> r is Ok,
        r matches Ok(t) ==> mint_built(submitter_did@, *outputs_json, t@),
{
    let n = submitter_did.unicode_len();
    if n < 1 || n > MAX_DID_LEN {
        return Err(TokenError::InvalidValue);
    }
    let outputs = match parse_outputs(outputs_json, allow_zero) {
        Ok(v) => v,
        Err(e) => return Err(e),
    };
    match check_no_inputs(inputs_json) {
        Ok(()) => {},
        Err(e) => return Err(e),
    }
    let req = MintRequest::from_config(outputs, String::from_str(submitter_did));
    let t = req.serialize_to_string();
    assert(outputs_from(req.outputs@, *outputs_json));
    Ok(t)
}

/// Validates the identity and the fee mapping, and builds the set-fees
/// request text. The first check that fails gives the error.
pub fn build_set_txn_fees(submitter_did: &str, fees_json: &Json) -> (r: Result<String, TokenError>)
    ensures
        !did_ok(submitter_did@) ==> r == Err::<String, TokenError>(TokenError::InvalidValue),
        did_ok(submitter_did@) && !fees_shaped(*fees_json)
            ==> r == Err::<String, TokenError>(TokenError::MalformedConfig),
        did_ok(submitter_did@) && fees_shaped(*fees_json) && !fees_valid(*fees_json)
            ==> r == Err::<String, TokenError>(TokenError::InvalidValue),
        did_ok(submitter_did@) && fees_shaped(*fees_json) && fees_valid(*fees_json) ==> r is Ok,
        r matches Ok(t) ==> set_fees_built(submitter_did@, *fees_json, t@),
{
    let n = submitter_did.unicode_len();
    if n < 1 || n > MAX_DID_LEN {
        return Err(TokenError::InvalidValue);
    }
    let fees = match parse_fees(fees_json) {
        Ok(f) => f,
        Err(e) => return Err(e),
    };
    let req = SetFeesRequest::from_fee_config(fees, String::from_str(submitter_did));
    let t = req.serialize_to_string();
    assert(fees_from(req.fees.entries@, *fees_json));
    Ok(t)
}

/// Builds the query for the current fees. Fails with `InvalidValue` if the
/// submitter identity is empty or longer than `MAX_DID_LEN`.
pub fn build_get_txn_fees(submitter_did: &str) -> (r: Result<String, TokenError>)
    ensures
        !did_ok(submitter_did@) ==> r == Err::<String, TokenError>(TokenError::InvalidValue),
        did_ok(submitter_did@) ==> (r matches Ok(t) && t@ == get_fees_text(submitter_did@)),
{
    let n = submitter_did.unicode_len();
    if n < 1 || n > MAX_DID_LEN {
        return Err(TokenError::InvalidValue);
    }
    let mut out = String::new();
    push_text(&mut out, "{\"operation\":\"GET_FEES\",\"protocolVersion\":1,\"identifier\":");
    push_quoted(&mut out, submitter_did);
    push_text(&mut out, "}");
    Ok(out)
}

proof fn lemma_inputs_text_same(x: Seq<Input>, y: Seq<Input>)
    requires
        same_inputs(x, y),
    ensures
        inputs_text(x) == inputs_text(y),
    decreases x.len(),
{
    if x.len() > 0 {
        assert(x[0].address@ == y[0].address@);
        assert(x.last().address@ == y.last().address@);
        if x.len() > 1 {
            assert forall|i: int| 0 <= i < x.len() - 1 implies {
                &&& (#[trigger] x.drop_last()[i]).address@ == y.drop_last()[i].address@
                &&& x.drop_last()[i].sequence == y.drop_last()[i].sequence
            } by {
                assert(x[i].address@ == y[i].address@);
            }
            lemma_inputs_text_same(x.drop_last(), y.drop_last());
        }
    }
}

proof fn lemma_outputs_text_same(x: Seq<Output>, y: Seq<Output>)
    requires
        same_outputs(x, y),
    ensures
        outputs_text(x) == outputs_text(y),
    decreases x.len(),
{
    if x.len() > 0 {
        assert(x[0].address@ == y[0].address@);
        assert(x.last().address@ == y.last().address@);
        if x.len() > 1 {
            assert forall|i: int| 0 <= i < x.len() - 1 implies {
                &&& (#[trigger] x.drop_last()[i]).address@ == y.drop_last()[i].address@
                &&& x.drop_last()[i].amount == y.drop_last()[i].amount
            } by {
                assert(x[i].address@ == y[i].address@);
            }
            lemma_outputs_text_same(x.drop_last(), y.drop_last());
        }
    }
}

proof fn lemma_fees_text_same(x: Seq<Fee>, y: Seq<Fee>)
    requires
        same_fees(x, y),
    ensures
        fees_text(x) == fees_text(y),
    decreases x.len(),
{
    if x.len() > 0 {
        assert(x[0].txn_type@ == y[0].txn_type@);
        assert(x.last().txn_type@ == y.last().txn_type@);
        if x.len() > 1 {
            assert forall|i: int| 0 <= i < x.len() - 1 implies {
                &&& (#[trigger] x.drop_last()[i]).txn_type@ == y.drop_last()[i].txn_type@
                &&& x.drop_last()[i].amount == y.drop_last()[i].amount
            } by {
                assert(x[i].txn_type@ == y[i].txn_type@);
            }
            lemma_fees_text_same(x.drop_last(), y.drop_last());
        }
    }
}

/// Building a payment request twice from the same identity and payloads
/// gives the same text.
pub proof fn lemma_payment_deterministic(did: Seq<char>, ins: Json, outs: Json, t1: Seq<char>, t2: Seq<char>)
    requires
        payment_built(did, ins, outs, t1),
        payment_built(did, ins, outs, t2),
    ensures
        t1 == t2,
{
    let (vi1, vo1) = choose|vi: Seq<Input>, vo: Seq<Output>|
        #![trigger inputs_from(vi, ins), outputs_from(vo, outs)]
        inputs_from(vi, ins) && outputs_from(vo, outs) && t1 == payment_text(did, vi, vo);
    let (vi2, vo2) = choose|vi: Seq<Input>, vo: Seq<Output>|
        #![trigger inputs_from(vi, ins), outputs_from(vo, outs)]
        inputs_from(vi, ins) && outputs_from(vo, outs) && t2 == payment_text(did, vi, vo);
    assert forall|i: int| 0 <= i < vi1.len() implies {
        &&& (#[trigger] vi1[i]).address@ == vi2[i].address@
        &&& vi1[i].sequence == vi2[i].sequence
    } by {
        assert(crate::config::input_from(vi1[i], elements(ins)[i]));
        assert(crate::config::input_from(vi2[i], elements(ins)[i]));
    }
    assert forall|i: int| 0 <= i < vo1.len() implies {
        &&& (#[trigger] vo1[i]).address@ == vo2[i].address@
        &&& vo1[i].amount == vo2[i].amount
    } by {
        assert(crate::config::output_from(vo1[i], elements(outs)[i]));
        assert(crate::config::output_from(vo2[i], elements(outs)[i]));
    }
    lemma_inputs_text_same(vi1, vi2);
    lemma_outputs_text_same(vo1, vo2);
}

/// Building a mint request twice from the same identity and outputs gives the
/// same text.
pub proof fn lemma_mint_deterministic(did: Seq<char>, outs: Json, t1: Seq<char>, t2: Seq<char>)
    requires
        mint_built(did, outs, t1),
        mint_built(did, outs, t2),
    ensures
        t1 == t2,
{
    let vo1 = choose|vo: Seq<Output>| #[trigger] outputs_from(vo, outs) && t1 == mint_text(did, vo);
    let vo2 = choose|vo: Seq<Output>| #[trigger] outputs_from(vo, outs) && t2 == mint_text(did, vo);
    assert forall|i: int| 0 <= i < vo1.len() implies {
        &&& (#[trigger] vo1[i]).address@ == vo2[i].address@
        &&& vo1[i].amount == vo2[i].amount
    } by {
        assert(crate::config::output_from(vo1[i], elements(outs)[i]));
        assert(crate::config::output_from(vo2[i], elements(outs)[i]));
    }
    lemma_outputs_text_same(vo1, vo2);
}

/// Building a set-fees request twice from the same identity and fees gives
/// the same text.
pub proof fn lemma_set_fees_deterministic(did: Seq<char>, fees: Json, t1: Seq<char>, t2: Seq<char>)
    requires
        set_fees_built(did, fees, t1),
        set_fees_built(did, fees, t2),
    ensures
        t1 == t2,
{
    let vf1 = choose|vf: Seq<Fee>| #[trigger] fees_from(vf, fees) && t1 == set_fees_text(did, vf);
    let vf2 = choose|vf: Seq<Fee>| #[trigger] fees_from(vf, fees) && t2 == set_fees_text(did, vf);
    assert forall|i: int| 0 <= i < vf1.len() implies {
        &&& (#[trigger] vf1[i]).txn_type@ == vf2[i].txn_type@
        &&& vf1[i].amount == vf2[i].amount
    } by {
        assert(vf1[i].txn_type@ == crate::json::members(fees)[i].0@);
        assert(vf2[i].txn_type@ == crate::json::members(fees)[i].0@);
    }
    lemma_fees_text_same(vf1, vf2);
}

/// A payment request writes two inputs in the order given: the first, a
/// comma, then the second.
pub proof fn lemma_input_order_kept(did: Seq<char>, i1: Input, i2: Input, outs: Seq<Output>)
    ensures
        payment_text(did, seq![i1, i2], outs)
            == "{\"operation\":\"PAY\",\"protocolVersion\":1,\"identifier\":"@ + quoted(did)
            + ",\"inputs\":["@ + (input_text(i1) + seq![','] + input_text(i2))
            + "],\"outputs\":["@ + outputs_text(outs) + "]}"@,
{
    let s = seq![i1, i2];
    assert(s.drop_last() =~= seq![i1]);
    assert(s.last() == i2);
    assert(seq![i1][0] == i1);
    assert(inputs_text(seq![i1]) == input_text(i1));
    assert(inputs_text(s) == input_text(i1) + seq![','] + input_text(i2));
}

} // verus!
