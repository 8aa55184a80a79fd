//! The envelope of the relay's framed protocol: each payload is UTF-8 JSON,
//! an object with a "type" field and a "data" field. The extraction leans on
//! serde_json behind one trusted reader whose results are named, so that
//! what the relay decides about a payload is pinned for every payload.

use vstd::prelude::*;

verus! {

/// Whether a byte sequence is one well-formed JSON text, in the sense that
/// serde_json's parser accepts it.
pub uninterp spec fn is_json(bytes: Seq<u8>) -> bool;

/// The envelope's "type" field: the field's text when the bytes parse to a
/// JSON object carrying a string under "type", nothing otherwise. A function
/// of the bytes alone.
pub uninterp spec fn envelope_type(bytes: Seq<u8>) -> Option<Seq<u8>>;

/// Whether the bytes parse to a JSON object carrying a "data" field. A
/// function of the bytes alone.
pub uninterp spec fn envelope_has_data(bytes: Seq<u8>) -> bool;

/// Relies on serde_json: `from_slice::<Value>` parses the payload, and
/// `Value::get` and `Value::as_str` read the envelope's "type" string and
/// probe its "data" field. Parsing succeeds exactly on well-formed JSON
/// text, and the whole result is a function of the payload bytes alone;
/// none of the calls panics.
#[verifier::external_body]
fn read_envelope(payload: &[u8]) -> (r: Option<(Vec<u8>, bool)>)
    ensures
        !is_json(payload@) ==> r is None,
        match r {
            Some((t, d)) => envelope_type(payload@) == Some(t@) && d == envelope_has_data(
                payload@,
            ),
            None => envelope_type(payload@) is None,
        },
{
    let v: serde_json::Value = match serde_json::from_slice(payload) {
        Ok(v) => v,
        Err(_) => return None,
    };
    let t = match v.get("type").and_then(|t| t.as_str()) {
        Some(t) => t.as_bytes().to_vec(),
        None => return None,
    };
    Some((t, v.get("data").is_some()))
}

/// The bytes of the one recognized request type, "check_hover".
pub open spec fn check_hover_type() -> Seq<u8> {
    seq![99u8, 104u8, 101u8, 99u8, 107u8, 95u8, 104u8, 111u8, 118u8, 101u8, 114u8]
}

/// What one framed payload asks of the relay.
pub enum InboundRequest {
    /// A well-formed envelope asking for a hover check.
    HoverCheck,
    /// A well-formed envelope of an unrecognized type, carried along for the
    /// error reply.
    Unknown(Vec<u8>),
    /// Not JSON, or not an object with a "type" string and a "data" field.
    Malformed,
}

fn bytes_eq(a: &Vec<u8>, b: &Vec<u8>) -> (r: bool)
    ensures
        r == (a@ == b@),
{
    let n = a.len();
    if n != b.len() {
        proof {
            assert(a@.len() != b@.len());
        }
        return false;
    }
    let mut i: usize = 0;
    while i < n
        invariant
            n == a@.len(),
            n == b@.len(),
            0 <= i <= n,
            forall|k: int| 0 <= k < i ==> a@[k] == b@[k],
        decreases n - i,
    {
        if a[i] != b[i] {
            return false;
        }
        i = i + 1;
    }
    proof {
        assert(a@ =~= b@);
    }
    true
}

/// Routes a well-formed envelope by its "type" field: the hover-check
/// request is the one recognized kind; any other type is unknown and is
/// echoed back for the error reply.
pub fn route(msg_type: Vec<u8>) -> (r: InboundRequest)
    ensures
        msg_type@ == check_hover_type() ==> r is HoverCheck,
        msg_type@ != check_hover_type() ==> (r matches InboundRequest::Unknown(t) && t@ == msg_type@),
{
    let expected: Vec<u8> = vec![99, 104, 101, 99, 107, 95, 104, 111, 118, 101, 114];
    proof {
        assert(expected@ =~= check_hover_type());
    }
    if bytes_eq(&msg_type, &expected) {
        InboundRequest::HoverCheck
    } else {
        InboundRequest::Unknown(msg_type)
    }
}

/// Classifies one framed payload: malformed unless it is JSON carrying a
/// "type" string and a "data" field, a hover check when that type is
/// "check_hover", and unknown, with the type echoed, for any other type.
pub fn parse_request(payload: &Vec<u8>) -> (r: InboundRequest)
    ensures
        !is_json(payload@) ==> r is Malformed,
        envelope_type(payload@) is None ==> r is Malformed,
        (envelope_type(payload@) is Some && !envelope_has_data(payload@)) ==> r is Malformed,
        (envelope_type(payload@) == Some(check_hover_type()) && envelope_has_data(payload@))
            ==> r is HoverCheck,
        (envelope_type(payload@) is Some && envelope_type(payload@) != Some(check_hover_type())
            && envelope_has_data(payload@)) ==> (r matches InboundRequest::Unknown(u)
            && envelope_type(payload@) == Some(u@)),
{
    let (name, has_data) = match read_envelope(payload.as_slice()) {
        Some(p) => p,
        None => {
            return InboundRequest::Malformed;
        },
    };
    if !has_data {
        return InboundRequest::Malformed;
    }
    route(name)
}

} // verus!
