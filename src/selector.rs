use vstd::prelude::*;
use vstd::string::*;
use vstd::utf8::encode_utf8;
use crate::ast::{ParameterList, Type};

verus! {

/// The 32-byte Keccak-256 digest of `data`.
pub uninterp spec fn keccak_of(data: Seq<u8>) -> Seq<u8>;

/// Relies on keccak_hash::keccak: it returns the 32-byte Keccak-256 digest of
/// its input, which depends on the input alone.
#[verifier::external_body]
fn keccak_digest(data: &[u8]) -> (r: Vec<u8>)
    ensures
        r@ == keccak_of(data@),
        r@.len() == 32,
{
    keccak_hash::keccak(data).0.to_vec()
}

/// The lowercase hexadecimal digit for `n < 16`.
pub open spec fn hex_digit(n: nat) -> char {
    seq!['0', '1', '2', '3', '4', '5', '6', '7', '8', '9', 'a', 'b', 'c', 'd', 'e', 'f'][n as int]
}

/// Two lowercase hex digits per byte, high nibble first.
pub open spec fn hex_of(bytes: Seq<u8>) -> Seq<char>
    decreases bytes.len(),
{
    if bytes.len() == 0 {
        Seq::empty()
    } else {
        hex_of(bytes.drop_last()) + seq![
            hex_digit((bytes.last() / 16) as nat),
            hex_digit((bytes.last() % 16) as nat),
        ]
    }
}

/// The selector of a signature: the first four bytes of its digest, in hex.
pub open spec fn selector_of(signature: Seq<char>) -> Seq<char> {
    hex_of(keccak_of(encode_utf8(signature)).take(4))
}

/// The text of the type list in a canonical signature: `bool` or nothing.
pub open spec fn param_types_text(params: ParameterList) -> Option<Seq<char>> {
    match params.param {
        None => Some(Seq::empty()),
        Some(p) => if p.ty == Type::Bool {
            Some(seq!['b', 'o', 'o', 'l'])
        } else {
            None
        },
    }
}

/// `name(types)`, or `None` where a parameter's type has no canonical text.
pub open spec fn signature_of(name: Seq<char>, params: ParameterList) -> Option<Seq<char>> {
    match param_types_text(params) {
        Some(t) => Some(name + seq!['('] + t + seq![')']),
        None => None,
    }
}

fn append_hex_digit(out: &mut String, n: u8)
    requires
        n < 16,
    ensures
        final(out)@ == old(out)@.push(hex_digit(n as nat)),
{
    let digits: &str = "0123456789abcdef";
    proof {
        reveal_strlit("0123456789abcdef");
    }
    let d = digits.substring_char(n as usize, n as usize + 1);
    assert(d@ =~= seq![hex_digit(n as nat)]);
    out.append(d);
}

/// The selector of a signature string: the first four bytes of its
/// Keccak-256 digest as eight lowercase hex digits.
pub fn get_func_sig(in_str: String) -> (r: String)
    ensures
        r@ == selector_of(in_str@),
        r@.len() == 8,
{
    let digest = keccak_digest(in_str.as_str().as_bytes());
    let mut out = String::new();
    let mut i: usize = 0;
    while i < 4
        invariant
            i <= 4,
            digest@.len() == 32,
            out@ == hex_of(digest@.take(i as int)),
            out@.len() == 2 * i,
        decreases 4 - i,
    {
        let b = digest[i];
        append_hex_digit(&mut out, b / 16);
        append_hex_digit(&mut out, b % 16);
        assert(digest@.take(i + 1).drop_last() =~= digest@.take(i as int));
        i = i + 1;
    }
    out
}

/// The selector of a function with this name and parameters, or `None` where
/// a parameter's type is not `bool`.
pub fn find_function_signature(name: &String, params: &ParameterList) -> (r: Option<String>)
    ensures
        match signature_of(name@, *params) {
            Some(sig) => r is Some && r->Some_0@ == selector_of(sig),
            None => r is None,
        },
{
    let mut sig = name.clone();
    sig.append("(");
    match &params.param {
        None => {},
        Some(p) => {
            if p.ty == Type::Bool {
                sig.append("bool");
            } else {
                return None;
            }
        },
    }
    sig.append(")");
    proof {
        reveal_strlit("(");
        reveal_strlit(")");
        reveal_strlit("bool");
    }
    assert(signature_of(name@, *params) is Some);
    assert(sig@ =~= signature_of(name@, *params)->Some_0);
    Some(get_func_sig(sig))
}

} // verus!
