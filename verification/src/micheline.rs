use vstd::prelude::*;
use vstd::string::StringSliceAdditionalSpecFns;

use crate::errors::AppError;

verus! {

/// A 32-bit value as four big-endian bytes.
pub open spec fn be32(n: u32) -> Seq<u8> {
    seq![(n >> 24) as u8, ((n >> 16) & 0xff) as u8, ((n >> 8) & 0xff) as u8, (n & 0xff) as u8]
}

/// The packed form a wallet signs over: the packed-data marker 0x05, the
/// string tag 0x01, the four-byte big-endian byte length, then the UTF-8
/// bytes themselves.
pub open spec fn micheline_packed_of(bytes: Seq<u8>) -> Seq<u8> {
    seq![5u8, 1u8] + be32(bytes.len() as u32) + bytes
}

/// Serialize a UTF-8 string into the tag-length-value layout wallets sign
/// over. Total but for a byte length beyond the four-byte length field.
pub fn pack_micheline_string(data: &str) -> (r: Result<Vec<u8>, AppError>)
    ensures
        data.spec_bytes().len() <= u32::MAX ==> (r matches Ok(v) && v@ == micheline_packed_of(
            data.spec_bytes(),
        )),
        data.spec_bytes().len() > u32::MAX ==> (r matches Err(e) && e is ValidationError),
{
    let s = data.as_bytes();
    if s.len() > u32::MAX as usize {
        return Err(AppError::ValidationError("String too long to pack".to_owned()));
    }
    let n = s.len() as u32;
    let mut packed: Vec<u8> = Vec::new();
    packed.push(5);
    packed.push(1);
    packed.push((n >> 24) as u8);
    packed.push(((n >> 16) & 0xff) as u8);
    packed.push(((n >> 8) & 0xff) as u8);
    packed.push((n & 0xff) as u8);
    packed.extend_from_slice(s);
    proof {
        assert(packed@ =~= micheline_packed_of(data.spec_bytes()));
    }
    Ok(packed)
}

} // verus!
