use vstd::prelude::*;
use crate::address::{decode_payment_address, is_valid_address};
use crate::error::TokenError;
use crate::json::{
    Json, elements, get_int_member, get_str_member, int_member, member, members, opt_text,
    str_member, get_member,
};
use crate::text::same_text;

verus! {

/// A destination of value: a payment address and an amount.
#[derive(Debug)]
pub struct Output {
    pub address: String,
    pub amount: u64,
}

/// A reference to an unspent output: its payment address and sequence number.
#[derive(Debug)]
pub struct Input {
    pub address: String,
    pub sequence: u64,
}

/// The fee charged for one kind of transaction.
#[derive(Debug)]
pub struct Fee {
    pub txn_type: String,
    pub amount: u64,
}

/// A mapping from transaction kind to fee, in the order given.
#[derive(Debug)]
pub struct Fees {
    pub entries: Vec<Fee>,
}

/// Options for creating a payment address.
#[derive(Debug)]
pub struct PaymentAddressConfig {
    pub seed: Option<String>,
}

/// An integer that fits an amount or a sequence number.
pub open spec fn fits_u64(n: int) -> bool {
    0 <= n <= u64::MAX
}

// ----- outputs -----

/// An output element has a string `address` and an integer `amount`.
pub open spec fn output_shaped(e: Json) -> bool {
    &&& str_member(e, "address"@) is Some
    &&& int_member(e, "amount"@) is Some
}

/// The payload is an array of well-shaped output elements.
pub open spec fn outputs_shaped(j: Json) -> bool {
    &&& j is Array
    &&& forall|i: int| 0 <= i < elements(j).len() ==> #[trigger] output_shaped(elements(j)[i])
}

/// A well-shaped output element whose amount is in range (and positive
/// unless zero amounts are allowed) and whose address decodes.
pub open spec fn output_valid(e: Json, allow_zero: bool) -> bool {
    let n = int_member(e, "amount"@).unwrap();
    &&& fits_u64(n)
    &&& (allow_zero || n > 0)
    &&& is_valid_address(str_member(e, "address"@).unwrap())
}

/// A non-empty list of valid output elements.
pub open spec fn outputs_valid(j: Json, allow_zero: bool) -> bool {
    &&& elements(j).len() > 0
    &&& forall|i: int| 0 <= i < elements(j).len() ==> #[trigger] output_valid(elements(j)[i], allow_zero)
}

/// `o` holds what the element `e` states.
pub open spec fn output_from(o: Output, e: Json) -> bool {
    &&& o.address@ == str_member(e, "address"@).unwrap()
    &&& o.amount as int == int_member(e, "amount"@).unwrap()
}

/// `v` holds the elements of the array `j`, one for one and in order.
pub open spec fn outputs_from(v: Seq<Output>, j: Json) -> bool {
    &&& v.len() == elements(j).len()
    &&& forall|i: int| 0 <= i < v.len() ==> #[trigger] output_from(v[i], elements(j)[i])
}

/// Parses an output list. Fails with `MalformedConfig` unless the payload is an
/// array of objects with a string `address` and an integer `amount`; then with
/// `InvalidValue` if the list is empty, an amount is negative or too large, an
/// amount is zero where `allow_zero` is false, or an address does not decode.
pub fn parse_outputs(j: &Json, allow_zero: bool) -> (r: Result<Vec<Output>, TokenError>)
    ensures
        !outputs_shaped(*j) ==> r == Err::<Vec<Output>, TokenError>(TokenError::MalformedConfig),
        outputs_shaped(*j) && !outputs_valid(*j, allow_zero) ==> r == Err::<Vec<Output>, TokenError>(TokenError::InvalidValue),
        outputs_shaped(*j) && outputs_valid(*j, allow_zero) ==> r is Ok,
        r matches Ok(v) ==> outputs_from(v@, *j),
{
    let a = match j {
        Json::Array(a) => a,
        _ => return Err(TokenError::MalformedConfig),
    };
    let n = a.len();
    let mut i: usize = 0;
    while i < n
        invariant
            n == a@.len(),
            elements(*j) == a@,
            i <= n,
            forall|p: int| 0 <= p < i ==> #[trigger] output_shaped(a@[p]),
        decreases n - i,
    {
        if get_str_member(&a[i], "address").is_none() || get_int_member(&a[i], "amount").is_none() {
            assert(!output_shaped(a@[i as int]));
            return Err(TokenError::MalformedConfig);
        }
        i = i + 1;
    }
    if n == 0 {
        return Err(TokenError::InvalidValue);
    }
    let mut v: Vec<Output> = Vec::new();
    let mut i: usize = 0;
    while i < n
        invariant
            n == a@.len(),
            elements(*j) == a@,
            outputs_shaped(*j),
            i <= n,
            v@.len() == i,
            forall|p: int| 0 <= p < i ==> #[trigger] output_valid(a@[p], allow_zero),
            forall|p: int| 0 <= p < i ==> #[trigger] output_from(v@[p], a@[p]),
        decreases n - i,
    {
        assert(output_shaped(a@[i as int]));
        let address = match get_str_member(&a[i], "address") {
            Some(s) => s,
            None => return Err(TokenError::MalformedConfig),
        };
        let amount = match get_int_member(&a[i], "amount") {
            Some(m) => m,
            None => return Err(TokenError::MalformedConfig),
        };
        if amount < 0 || amount > u64::MAX as i128 || (!allow_zero && amount == 0) {
            assert(!output_valid(a@[i as int], allow_zero));
            return Err(TokenError::InvalidValue);
        }
        if decode_payment_address(address.as_str()).is_err() {
            assert(!output_valid(a@[i as int], allow_zero));
            return Err(TokenError::InvalidValue);
        }
        v.push(Output { address, amount: amount as u64 });
        i = i + 1;
    }
    Ok(v)
}

// ----- inputs -----

/// An input element has a string `address` and an integer `sequence`.
pub open spec fn input_shaped(e: Json) -> bool {
    &&& str_member(e, "address"@) is Some
    &&& int_member(e, "sequence"@) is Some
}

/// The payload is an array of well-shaped input elements.
pub open spec fn inputs_shaped(j: Json) -> bool {
    &&& j is Array
    &&& forall|i: int| 0 <= i < elements(j).len() ==> #[trigger] input_shaped(elements(j)[i])
}

/// A well-shaped input element whose sequence number is in range and whose
/// address decodes.
pub open spec fn input_valid(e: Json) -> bool {
    &&& fits_u64(int_member(e, "sequence"@).unwrap())
    &&& is_valid_address(str_member(e, "address"@).unwrap())
}

/// Elements `p` and `q` name the same unspent output.
pub open spec fn same_reference(a: Seq<Json>, p: int, q: int) -> bool {
    &&& str_member(a[p], "address"@) == str_member(a[q], "address"@)
    &&& int_member(a[p], "sequence"@) == int_member(a[q], "sequence"@)
}

/// A non-empty list of valid input elements, no two naming the same output.
pub open spec fn inputs_valid(j: Json) -> bool {
    &&& elements(j).len() > 0
    &&& forall|i: int| 0 <= i < elements(j).len() ==> #[trigger] input_valid(elements(j)[i])
    &&& forall|p: int, q: int|
        0 <= p < q < elements(j).len() ==> !#[trigger] same_reference(elements(j), p, q)
}

/// `x` holds what the element `e` states.
pub open spec fn input_from(x: Input, e: Json) -> bool {
    &&& x.address@ == str_member(e, "address"@).unwrap()
    &&& x.sequence as int == int_member(e, "sequence"@).unwrap()
}

/// `v` holds the elements of the array `j`, one for one and in order.
pub open spec fn inputs_from(v: Seq<Input>, j: Json) -> bool {
    &&& v.len() == elements(j).len()
    &&& forall|i: int| 0 <= i < v.len() ==> #[trigger] input_from(v[i], elements(j)[i])
}

/// Parses an input list. Fails with `MalformedConfig` unless the payload is an
/// array of objects with a string `address` and an integer `sequence`; then with
/// `InvalidValue` if the list is empty, a sequence number is negative or too
/// large, an address does not decode, or two elements name the same output.
pub fn parse_inputs(j: &Json) -> (r: Result<Vec<Input>, TokenError>)
    ensures
        !inputs_shaped(*j) ==> r == Err::<Vec<Input>, TokenError>(TokenError::MalformedConfig),
        inputs_shaped(*j) && !inputs_valid(*j) ==> r == Err::<Vec<Input>, TokenError>(TokenError::InvalidValue),
        inputs_shaped(*j) && inputs_valid(*j) ==> r is Ok,
        r matches Ok(v) ==> inputs_from(v@, *j),
{
    let a = match j {
        Json::Array(a) => a,
        _ => return Err(TokenError::MalformedConfig),
    };
    let n = a.len();
    let mut i: usize = 0;
    while i < n
        invariant
            n == a@.len(),
            elements(*j) == a@,
            i <= n,
            forall|p: int| 0 <= p < i ==> #[trigger] input_shaped(a@[p]),
        decreases n - i,
    {
        if get_str_member(&a[i], "address").is_none() || get_int_member(&a[i], "sequence").is_none() {
            assert(!input_shaped(a@[i as int]));
            return Err(TokenError::MalformedConfig);
        }
        i = i + 1;
    }
    if n == 0 {
        return Err(TokenError::InvalidValue);
    }
    let mut v: Vec<Input> = Vec::new();
    let mut i: usize = 0;
    while i < n
        invariant
            n == a@.len(),
            elements(*j) == a@,
            inputs_shaped(*j),
            i <= n,
            v@.len() == i,
            forall|p: int| 0 <= p < i ==> #[trigger] input_valid(a@[p]),
            forall|p: int| 0 <= p < i ==> #[trigger] input_from(v@[p], a@[p]),
        decreases n - i,
    {
        assert(input_shaped(a@[i as int]));
        let address = match get_str_member(&a[i], "address") {
            Some(s) => s,
            None => return Err(TokenError::MalformedConfig),
        };
        let sequence = match get_int_member(&a[i], "sequence") {
            Some(m) => m,
            None => return Err(TokenError::MalformedConfig),
        };
        if sequence < 0 || sequence > u64::MAX as i128 {
            assert(!input_valid(a@[i as int]));
            return Err(TokenError::InvalidValue);
        }
        if decode_payment_address(address.as_str()).is_err() {
            assert(!input_valid(a@[i as int]));
            return Err(TokenError::InvalidValue);
        }
        v.push(Input { address, sequence: sequence as u64 });
        i = i + 1;
    }
    let mut q: usize = 1;
    while q < n
        invariant
            n == a@.len(),
            elements(*j) == a@,
            n == v@.len(),
            1 <= q <= n,
            forall|p: int| 0 <= p < n ==> #[trigger] input_from(v@[p], a@[p]),
            forall|p: int| 0 <= p < n ==> #[trigger] input_shaped(a@[p]),
            forall|p1: int, p2: int| 0 <= p1 < p2 < q ==> !#[trigger] same_reference(a@, p1, p2),
        decreases n - q,
    {
        let mut p: usize = 0;
        while p < q
            invariant
                n == a@.len(),
                elements(*j) == a@,
                n == v@.len(),
                1 <= q < n,
                p <= q,
                forall|p: int| 0 <= p < n ==> #[trigger] input_from(v@[p], a@[p]),
                forall|p: int| 0 <= p < n ==> #[trigger] input_shaped(a@[p]),
                forall|p1: int, p2: int| 0 <= p1 < p2 < q ==> !#[trigger] same_reference(a@, p1, p2),
                forall|p1: int| 0 <= p1 < p ==> !#[trigger] same_reference(a@, p1, q as int),
            decreases q - p,
        {
            assert(input_from(v@[p as int], a@[p as int]));
            assert(input_from(v@[q as int], a@[q as int]));
            assert(input_shaped(a@[p as int]));
            assert(input_shaped(a@[q as int]));
            if v[p].sequence == v[q].sequence && same_text(v[p].address.as_str(), v[q].address.as_str()) {
                assert(same_reference(a@, p as int, q as int));
                return Err(TokenError::InvalidValue);
            }
            p = p + 1;
        }
        q = q + 1;
    }
    Ok(v)
}

// ----- fees -----

/// The payload is an object whose members are integers, with no name twice.
pub open spec fn fees_shaped(j: Json) -> bool {
    &&& j is Object
    &&& forall|i: int| 0 <= i < members(j).len() ==> (#[trigger] members(j)[i]).1 is Integer
    &&& forall|p: int, q: int|
        0 <= p < q < members(j).len() ==> #[trigger] members(j)[p].0@ != #[trigger] members(j)[q].0@
}

/// Every fee amount is in range.
pub open spec fn fees_valid(j: Json) -> bool {
    forall|i: int| 0 <= i < members(j).len() ==> fits_u64((#[trigger] members(j)[i]).1->Integer_0 as int)
}

/// `v` holds the members of the object `j`, one for one and in order.
pub open spec fn fees_from(v: Seq<Fee>, j: Json) -> bool {
    &&& v.len() == members(j).len()
    &&& forall|i: int| 0 <= i < v.len() ==> {
        &&& (#[trigger] v[i]).txn_type@ == members(j)[i].0@
        &&& v[i].amount as int == members(j)[i].1->Integer_0 as int
    }
}

/// Parses a fee mapping. Fails with `MalformedConfig` unless the payload is an
/// object of integer members with distinct names; then with `InvalidValue` if
/// an amount is negative or too large.
pub fn parse_fees(j: &Json) -> (r: Result<Fees, TokenError>)
    ensures
        !fees_shaped(*j) ==> r == Err::<Fees, TokenError>(TokenError::MalformedConfig),
        fees_shaped(*j) && !fees_valid(*j) ==> r == Err::<Fees, TokenError>(TokenError::InvalidValue),
        fees_shaped(*j) && fees_valid(*j) ==> r is Ok,
        r matches Ok(f) ==> fees_from(f.entries@, *j),
{
    let f = match j {
        Json::Object(f) => f,
        _ => return Err(TokenError::MalformedConfig),
    };
    let n = f.len();
    let mut q: usize = 0;
    while q < n
        invariant
            n == f@.len(),
            members(*j) == f@,
            q <= n,
            forall|i: int| 0 <= i < q ==> (#[trigger] f@[i]).1 is Integer,
            forall|p1: int, p2: int| 0 <= p1 < p2 < q ==> #[trigger] f@[p1].0@ != #[trigger] f@[p2].0@,
        decreases n - q,
    {
        match &f[q].1 {
            Json::Integer(_) => {},
            _ => return Err(TokenError::MalformedConfig),
        }
        let mut p: usize = 0;
        while p < q
            invariant
                n == f@.len(),
                members(*j) == f@,
                q < n,
                p <= q,
                forall|p1: int| 0 <= p1 < p ==> #[trigger] f@[p1].0@ != f@[q as int].0@,
            decreases q - p,
        {
            if same_text(f[p].0.as_str(), f[q].0.as_str()) {
                assert(members(*j)[p as int].0@ == members(*j)[q as int].0@);
                return Err(TokenError::MalformedConfig);
            }
            p = p + 1;
        }
        q = q + 1;
    }
    let mut v: Vec<Fee> = Vec::new();
    let mut i: usize = 0;
    while i < n
        invariant
            n == f@.len(),
            members(*j) == f@,
            fees_shaped(*j),
            i <= n,
            v@.len() == i,
            forall|p: int| 0 <= p < i ==> fits_u64((#[trigger] f@[p]).1->Integer_0 as int),
            forall|p: int| 0 <= p < i ==> {
                &&& (#[trigger] v@[p]).txn_type@ == f@[p].0@
                &&& v@[p].amount as int == f@[p].1->Integer_0 as int
            },
        decreases n - i,
    {
        assert(f@[i as int].1 is Integer);
        let amount: i128 = match &f[i].1 {
            Json::Integer(m) => *m,
            _ => return Err(TokenError::MalformedConfig),
        };
        if amount < 0 || amount > u64::MAX as i128 {
            return Err(TokenError::InvalidValue);
        }
        v.push(Fee { txn_type: f[i].0.clone(), amount: amount as u64 });
        i = i + 1;
    }
    Ok(Fees { entries: v })
}

// ----- other payloads -----

/// The payload is an object whose `seed`, if present, is a string.
pub open spec fn address_config_shaped(j: Json) -> bool {
    &&& j is Object
    &&& match member(members(j), "seed"@) {
        None => true,
        Some(v) => v is Str,
    }
}

/// Parses the options for creating a payment address. Fails with
/// `MalformedConfig` unless the payload is an object whose `seed`, if present,
/// is a string.
pub fn parse_payment_address_config(j: &Json) -> (r: Result<PaymentAddressConfig, TokenError>)
    ensures
        r is Ok <==> address_config_shaped(*j),
        r matches Err(e) ==> e == TokenError::MalformedConfig,
        r matches Ok(c) ==> opt_text(c.seed) == str_member(*j, "seed"@),
{
    match j {
        Json::Object(f) => match get_member(f, "seed") {
            None => Ok(PaymentAddressConfig { seed: None }),
            Some(Json::Str(s)) => Ok(PaymentAddressConfig { seed: Some(s.clone()) }),
            Some(_) => Err(TokenError::MalformedConfig),
        },
        _ => Err(TokenError::MalformedConfig),
    }
}

/// A mint takes no inputs: an absent (`null`) or empty input list passes;
/// a non-empty list is `InvalidValue`; anything else is `MalformedConfig`.
pub fn check_no_inputs(j: &Json) -> (r: Result<(), TokenError>)
    ensures
        r is Ok <==> (j is Null || (j is Array && elements(*j).len() == 0)),
        r == Err::<(), TokenError>(TokenError::InvalidValue) <==> (j is Array && elements(*j).len() > 0),
        r == Err::<(), TokenError>(TokenError::MalformedConfig) <==> !(j is Null || j is Array),
{
    match j {
        Json::Null => Ok(()),
        Json::Array(a) => if a.len() == 0 { Ok(()) } else { Err(TokenError::InvalidValue) },
        _ => Err(TokenError::MalformedConfig),
    }
}

/// An output list with an element that lacks an integer `amount` or a string
/// `address` is malformed, and one whose elements are all well-shaped but one
/// has a negative amount is invalid.
pub proof fn lemma_outputs_completeness(j: Json, i: int, allow_zero: bool)
    requires
        0 <= i < elements(j).len(),
    ensures
        int_member(elements(j)[i], "amount"@) is None ==> !outputs_shaped(j),
        str_member(elements(j)[i], "address"@) is None ==> !outputs_shaped(j),
        int_member(elements(j)[i], "amount"@) matches Some(n) && n < 0 ==> !outputs_valid(j, allow_zero),
{
    if int_member(elements(j)[i], "amount"@) is None || str_member(elements(j)[i], "address"@) is None {
        assert(!output_shaped(elements(j)[i]));
    }
    if int_member(elements(j)[i], "amount"@) matches Some(n) && n < 0 {
        assert(!output_valid(elements(j)[i], allow_zero));
    }
}

/// An input list with an element that lacks an integer `sequence` or a string
/// `address` is malformed, and one whose elements are all well-shaped but one
/// has a negative sequence number is invalid.
pub proof fn lemma_inputs_completeness(j: Json, i: int)
    requires
        0 <= i < elements(j).len(),
    ensures
        int_member(elements(j)[i], "sequence"@) is None ==> !inputs_shaped(j),
        str_member(elements(j)[i], "address"@) is None ==> !inputs_shaped(j),
        int_member(elements(j)[i], "sequence"@) matches Some(n) && n < 0 ==> !inputs_valid(j),
{
    if int_member(elements(j)[i], "sequence"@) is None || str_member(elements(j)[i], "address"@) is None {
        assert(!input_shaped(elements(j)[i]));
    }
    if int_member(elements(j)[i], "sequence"@) matches Some(n) && n < 0 {
        assert(!input_valid(elements(j)[i]));
    }
}

/// A fee mapping with a member that is not an integer is malformed, and one
/// with a negative amount is invalid.
pub proof fn lemma_fees_completeness(j: Json, i: int)
    requires
        j is Object,
        0 <= i < members(j).len(),
    ensures
        !(members(j)[i].1 is Integer) ==> !fees_shaped(j),
        members(j)[i].1 matches Json::Integer(n) && n < 0 ==> !fees_valid(j),
{
}

} // verus!
