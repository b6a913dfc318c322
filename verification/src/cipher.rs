//! The cipher under which an exported configuration is put: each byte of
//! the data is combined, by exclusive or, with the byte of the password
//! that falls to it when the password is repeated along the data.

use vstd::prelude::*;

verus! {

/// The data combined with the repeated key.
pub open spec fn xor_bytes(data: Seq<u8>, key: Seq<u8>) -> Seq<u8> {
    Seq::new(data.len(), |i: int| data[i] ^ key[i % key.len() as int])
}

/// Combines the data with the repeated key.
pub fn xor_with(data: &[u8], key: &[u8]) -> (combined: Vec<u8>)
    requires
        key.len() > 0,
    ensures
        combined@ == xor_bytes(data@, key@),
{
    let mut combined: Vec<u8> = Vec::new();
    let mut i: usize = 0;
    while i < data.len()
        invariant
            i <= data.len(),
            key.len() > 0,
            combined.len() == i,
            forall|j: int| 0 <= j < i ==> combined[j] == data[j] ^ key[j % key.len() as int],
        decreases data.len() - i,
    {
        combined.push(data[i] ^ key[i % key.len()]);
        i += 1;
    }
    assert(combined@ =~= xor_bytes(data@, key@));
    combined
}

/// Combines the data with the bytes of the password, repeated. There is
/// no result where there is data and the password is empty.
pub fn xor_with_password(data: &[u8], password: &str) -> (combined: Option<Vec<u8>>)
    ensures
        match combined {
            Some(bytes) => {
                &&& password@.len() > 0 || data@.len() == 0
                &&& bytes@ == xor_bytes(data@, vstd::utf8::encode_utf8(password@))
            },
            None => password@.len() == 0 && data@.len() > 0,
        },
{
    let key = password.as_bytes();
    proof {
        vstd::utf8::encode_utf8_decode_utf8(password@);
        if key@.len() == 0 {
            assert(vstd::utf8::decode_utf8(key@) =~= Seq::<char>::empty());
        }
        if password@.len() == 0 {
            assert(password@ =~= Seq::<char>::empty());
        }
    }
    if key.len() > 0 {
        Some(xor_with(data, key))
    } else if data.len() == 0 {
        let nothing: Vec<u8> = Vec::new();
        assert(nothing@ =~= xor_bytes(data@, key@));
        Some(nothing)
    } else {
        None
    }
}

/// What was combined with a key is had back by combining it again.
pub proof fn law_xor_twice(data: Seq<u8>, key: Seq<u8>)
    requires
        key.len() > 0,
    ensures
        xor_bytes(xor_bytes(data, key), key) == data,
{
    let once = xor_bytes(data, key);
    assert forall|i: int| 0 <= i < data.len() implies xor_bytes(once, key)[i] == data[i] by {
        let d = data[i];
        let k = key[i % key.len() as int];
        assert((d ^ k) ^ k == d) by (bit_vector);
    }
    assert(xor_bytes(once, key) =~= data);
}

} // verus!
