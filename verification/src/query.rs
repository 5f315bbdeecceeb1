//! The request descriptor's raw query parameters, parsed from the query
//! string: `format`, and the four crop fields `x`, `y`, `w`, `h` as unsigned
//! integers. A value that is not a number (or does not fit in 32 bits) counts
//! as absent, and the all-or-nothing crop rule then treats the request as
//! "no crop".

use vstd::prelude::*;
use crate::bytes::{bytes_eq, find_byte, find_first, lemma_find_first_props, subvec};

verus! {

/// The value of the first `name=value` pair of the `&`-separated query.
/// A segment without `=` is a key with an empty value.
pub open spec fn spec_param(q: Seq<u8>, name: Seq<u8>) -> Option<Seq<u8>>
    decreases q.len(),
    when true
    via spec_param_dec
{
    let seg_end = match find_first(q, 38) {
        Some(i) => i,
        None => q.len() as int,
    };
    let seg = q.subrange(0, seg_end);
    let key = match find_first(seg, 61) {
        Some(i) => seg.subrange(0, i),
        None => seg,
    };
    let value = match find_first(seg, 61) {
        Some(i) => seg.subrange(i + 1, seg.len() as int),
        None => Seq::<u8>::empty(),
    };
    if key == name {
        Some(value)
    } else {
        match find_first(q, 38) {
            Some(i) => spec_param(q.subrange(i + 1, q.len() as int), name),
            None => None,
        }
    }
}

#[via_fn]
proof fn spec_param_dec(q: Seq<u8>, name: Seq<u8>) {
    lemma_find_first_props(q, 38);
}

/// Find the first `name=value` pair, in query order.
pub fn param(q: &Vec<u8>, name: &Vec<u8>) -> (r: Option<Vec<u8>>)
    ensures
        match r {
            Some(v) => spec_param(q@, name@) == Some(v@),
            None => spec_param(q@, name@) is None,
        },
    decreases q@.len(),
{
    let amp = find_byte(q, 38);
    proof {
        lemma_find_first_props(q@, 38);
    }
    let n = q.len();
    let seg_end = match amp {
        Some(i) => i,
        None => n,
    };
    let seg = subvec(q, 0, seg_end);
    proof {
        lemma_find_first_props(seg@, 61);
    }
    let sn = seg.len();
    let (key, value) = match find_byte(&seg, 61) {
        Some(i) => (subvec(&seg, 0, i), subvec(&seg, i + 1, sn)),
        None => (subvec(&seg, 0, sn), Vec::new()),
    };
    proof {
        assert(seg@.subrange(0, seg@.len() as int) =~= seg@);
    }
    if bytes_eq(&key, name) {
        Some(value)
    } else {
        match amp {
            Some(i) => {
                let rest = subvec(q, i + 1, n);
                param(&rest, name)
            },
            None => None,
        }
    }
}

/// Whether `s` is one or more decimal digits.
pub open spec fn is_digits(s: Seq<u8>) -> bool {
    s.len() > 0 && forall|i: int| 0 <= i < s.len() ==> 48 <= #[trigger] s[i] && s[i] <= 57
}

/// The number the digit string denotes.
pub open spec fn dec_value(s: Seq<u8>) -> int
    decreases s.len(),
{
    if s.len() == 0 {
        0
    } else {
        dec_value(s.drop_last()) * 10 + (s.last() - 48)
    }
}

/// What parsing an unsigned 32-bit query value yields: the denoted number if
/// `s` is all digits and the number fits, nothing otherwise.
pub open spec fn spec_parse_u32(s: Seq<u8>) -> Option<u32> {
    if is_digits(s) && dec_value(s) <= u32::MAX {
        Some(dec_value(s) as u32)
    } else {
        None
    }
}

pub fn parse_u32(s: &Vec<u8>) -> (r: Option<u32>)
    ensures
        r == spec_parse_u32(s@),
{
    let n = s.len();
    if n == 0 {
        return None;
    }
    let mut acc: u64 = 0;
    let mut over: bool = false;
    let mut i: usize = 0;
    while i < n
        invariant
            n == s@.len(),
            i <= n,
            forall|j: int| 0 <= j < i ==> 48 <= #[trigger] s@[j] && s@[j] <= 57,
            !over ==> acc == dec_value(s@.take(i as int)) && acc <= u32::MAX,
            over ==> dec_value(s@.take(i as int)) > u32::MAX,
        decreases n - i,
    {
        let c = s[i];
        if c < 48 || c > 57 {
            return None;
        }
        proof {
            assert(s@.take(i + 1).drop_last() =~= s@.take(i as int));
            assert(s@.take(i + 1).last() == s@[i as int]);
        }
        if over {
            proof {
                assert(dec_value(s@.take(i + 1)) > u32::MAX);
            }
        } else {
            let t: u64 = 10 * acc + (c - 48) as u64;
            if t > 0xffff_ffff {
                over = true;
            } else {
                acc = t;
            }
        }
        i = i + 1;
    }
    proof {
        assert(s@.take(n as int) =~= s@);
    }
    if over {
        None
    } else {
        Some(acc as u32)
    }
}

/// The raw query parameters the pipeline reads.
pub struct QueryParams {
    pub format: Option<Vec<u8>>,
    pub x: Option<u32>,
    pub y: Option<u32>,
    pub w: Option<u32>,
    pub h: Option<u32>,
}

/// The crop field named by `name`: absent (`Some(None)`), present and a valid
/// unsigned 32-bit integer (`Some(Some(n))`), or present but malformed
/// (`None`) — the last rejects the whole request, it is not treated as "no
/// crop".
pub open spec fn spec_numeric_param(q: Seq<u8>, name: Seq<u8>) -> Option<Option<u32>> {
    match spec_param(q, name) {
        Some(v) => match spec_parse_u32(v) {
            Some(n) => Some(Some(n)),
            None => None,
        },
        None => Some(None),
    }
}

fn numeric_param(q: &Vec<u8>, name: &Vec<u8>) -> (r: Option<Option<u32>>)
    ensures
        r == spec_numeric_param(q@, name@),
{
    match param(q, name) {
        Some(v) => match parse_u32(&v) {
            Some(n) => Some(Some(n)),
            None => None,
        },
        None => Some(None),
    }
}

/// Whether every numeric field of the query is absent or a valid unsigned
/// 32-bit integer.
pub open spec fn spec_query_ok(q: Seq<u8>) -> bool {
    &&& spec_numeric_param(q, seq![120u8]) is Some
    &&& spec_numeric_param(q, seq![121u8]) is Some
    &&& spec_numeric_param(q, seq![119u8]) is Some
    &&& spec_numeric_param(q, seq![104u8]) is Some
}

/// Parse a whole query string into the request's raw parameters. A numeric
/// field that is present but not a valid unsigned 32-bit integer makes the
/// whole query malformed (`None`), to be answered with an error response;
/// only a field that is absent altogether means "no value".
pub fn parse_query(q: &Vec<u8>) -> (r: Option<QueryParams>)
    ensures
        r is Some <==> spec_query_ok(q@),
        match r {
            Some(p) => {
                &&& ({
                    let fmt = spec_param(q@, seq![102u8, 111u8, 114u8, 109u8, 97u8, 116u8]);
                    match p.format {
                        Some(v) => fmt == Some(v@),
                        None => fmt is None,
                    }
                })
                &&& Some(p.x) == spec_numeric_param(q@, seq![120u8])
                &&& Some(p.y) == spec_numeric_param(q@, seq![121u8])
                &&& Some(p.w) == spec_numeric_param(q@, seq![119u8])
                &&& Some(p.h) == spec_numeric_param(q@, seq![104u8])
            },
            None => !spec_query_ok(q@),
        },
{
    let mut format_name: Vec<u8> = Vec::new();
    format_name.push(102);
    format_name.push(111);
    format_name.push(114);
    format_name.push(109);
    format_name.push(97);
    format_name.push(116);
    proof {
        assert(format_name@ =~= seq![102u8, 111u8, 114u8, 109u8, 97u8, 116u8]);
    }
    let mut xn: Vec<u8> = Vec::new();
    xn.push(120);
    let mut yn: Vec<u8> = Vec::new();
    yn.push(121);
    let mut wn: Vec<u8> = Vec::new();
    wn.push(119);
    let mut hn: Vec<u8> = Vec::new();
    hn.push(104);
    proof {
        assert(xn@ =~= seq![120u8]);
        assert(yn@ =~= seq![121u8]);
        assert(wn@ =~= seq![119u8]);
        assert(hn@ =~= seq![104u8]);
    }
    let x = match numeric_param(q, &xn) {
        Some(v) => v,
        None => return None,
    };
    let y = match numeric_param(q, &yn) {
        Some(v) => v,
        None => return None,
    };
    let w = match numeric_param(q, &wn) {
        Some(v) => v,
        None => return None,
    };
    let h = match numeric_param(q, &hn) {
        Some(v) => v,
        None => return None,
    };
    Some(QueryParams { format: param(q, &format_name), x, y, w, h })
}

} // verus!
