//! Response-cache keys: the normalized request path, with the crop parameters
//! appended when present. The negotiated format is deliberately not part of
//! the key; the stored response carries its own headers.

use vstd::prelude::*;
use crate::crop::CropRect;

verus! {

/// The decimal digits of `n`, most significant first.
pub open spec fn dec_digits(n: int) -> Seq<u8>
    decreases n,
{
    if n < 0 {
        seq![]
    } else if n < 10 {
        seq![(48 + n) as u8]
    } else {
        dec_digits(n / 10).push((48 + n % 10) as u8)
    }
}

/// Append the decimal form of `n`.
pub fn push_u32_dec(out: &mut Vec<u8>, n: u32)
    ensures
        final(out)@ == old(out)@ + dec_digits(n as int),
    decreases n,
{
    let ghost pre = out@;
    if n >= 10 {
        push_u32_dec(out, n / 10);
    }
    out.push(48 + (n % 10) as u8);
    proof {
        if n < 10 {
            assert(pre.push((48 + n as int) as u8) =~= pre + dec_digits(n as int));
        } else {
            assert((pre + dec_digits(n as int / 10)).push((48 + n as int % 10) as u8) =~= pre
                + dec_digits(n as int));
        }
    }
}

/// The key under which a response is cached: the path alone for a full-image
/// request, the path followed by `?x..&y..&w..&h..` for a crop.
pub open spec fn spec_response_key(path: Seq<u8>, crop: Option<CropRect>) -> Seq<u8> {
    match crop {
        None => path,
        Some(r) => path + seq![63u8, 120u8] + dec_digits(r.x as int) + seq![38u8, 121u8]
            + dec_digits(r.y as int) + seq![38u8, 119u8] + dec_digits(r.w as int) + seq![
            38u8,
            104u8,
        ] + dec_digits(r.h as int),
    }
}

pub fn response_cache_key(path: &Vec<u8>, crop: &Option<CropRect>) -> (key: Vec<u8>)
    ensures
        key@ == spec_response_key(path@, *crop),
{
    let n = path.len();
    let mut key = crate::bytes::subvec(path, 0, n);
    proof {
        assert(path@.subrange(0, path@.len() as int) =~= path@);
    }
    match crop {
        None => key,
        Some(r) => {
            key.push(63);
            key.push(120);
            proof {
                assert(path@.push(63u8).push(120u8) =~= path@ + seq![63u8, 120u8]);
            }
            push_u32_dec(&mut key, r.x);
            key.push(38);
            key.push(121);
            push_u32_dec(&mut key, r.y);
            key.push(38);
            key.push(119);
            push_u32_dec(&mut key, r.w);
            key.push(38);
            key.push(104);
            push_u32_dec(&mut key, r.h);
            proof {
                assert(key@ =~= spec_response_key(path@, *crop));
            }
            key
        },
    }
}

} // verus!
