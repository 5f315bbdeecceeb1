//! Response assembly: the content-disposition filename derived from the
//! request path, the mirrored content-encoding hint, and the fixed CORS and
//! upstream-passthrough header sets.

use vstd::prelude::*;
use crate::bytes::{cut_trim, cut_trim_bytes};
use crate::negotiate::{spec_extension, ImgFormat};

verus! {

/// Index of the last occurrence of `b` in `s`, if any.
pub open spec fn find_last(s: Seq<u8>, b: u8) -> Option<int>
    decreases s.len(),
{
    if s.len() == 0 {
        None
    } else if s.last() == b {
        Some(s.len() - 1)
    } else {
        find_last(s.drop_last(), b)
    }
}

/// Last index of `b` in `v`, scanning right to left.
pub fn find_last_byte(v: &Vec<u8>, b: u8) -> (r: Option<usize>)
    ensures
        match r {
            Some(i) => find_last(v@, b) == Some(i as int) && i < v@.len(),
            None => find_last(v@, b) is None,
        },
{
    let mut i: usize = v.len();
    proof {
        assert(v@.take(v@.len() as int) =~= v@);
    }
    while i > 0
        invariant
            i <= v@.len(),
            find_last(v@, b) == find_last(v@.take(i as int), b),
        decreases i,
    {
        if v[i - 1] == b {
            return Some(i - 1);
        }
        proof {
            assert(v@.take(i as int).drop_last() =~= v@.take(i - 1));
        }
        i = i - 1;
    }
    None
}

/// A byte that may stand in a content-disposition filename: printable ASCII.
/// Anything non-ASCII or a control character is stripped, so the header can
/// neither be malformed nor injected into.
pub open spec fn is_printable(c: u8) -> bool {
    32 <= c && c < 127
}

/// `s` with everything but printable ASCII removed.
pub open spec fn keep_printable(s: Seq<u8>) -> Seq<u8>
    decreases s.len(),
{
    if s.len() == 0 {
        seq![]
    } else {
        keep_printable(s.drop_last()) + (if is_printable(s.last()) {
            seq![s.last()]
        } else {
            seq![]
        })
    }
}

fn printable_copy(v: &Vec<u8>) -> (r: Vec<u8>)
    ensures
        r@ == keep_printable(v@),
{
    let mut r: Vec<u8> = Vec::new();
    let mut i: usize = 0;
    proof {
        assert(v@.take(0) =~= Seq::<u8>::empty());
    }
    while i < v.len()
        invariant
            i <= v@.len(),
            r@ == keep_printable(v@.take(i as int)),
        decreases v@.len() - i,
    {
        proof {
            assert(v@.take(i + 1).drop_last() =~= v@.take(i as int));
            assert(v@.take(i + 1).last() == v@[i as int]);
        }
        let c = v[i];
        if 32 <= c && c < 127 {
            r.push(c);
            proof {
                assert(keep_printable(v@.take(i as int)).push(v@[i as int]) =~= keep_printable(
                    v@.take(i + 1),
                ));
            }
        }
        i = i + 1;
    }
    proof {
        assert(v@.take(v@.len() as int) =~= v@);
    }
    r
}

/// The file name part of the path: everything after the last slash.
pub open spec fn basename(path: Seq<u8>) -> Seq<u8> {
    match find_last(path, 47) {
        Some(i) => path.subrange(i + 1, path.len() as int),
        None => path,
    }
}

/// The name with its extension (everything from the last dot on) removed. A
/// dot in first position marks a hidden file, not an extension: ".env" has no
/// extension to replace, and keeps its name.
pub open spec fn stem(name: Seq<u8>) -> Seq<u8> {
    match find_last(name, 46) {
        Some(i) => if i > 0 {
            name.subrange(0, i)
        } else {
            name
        },
        None => name,
    }
}

/// The inline filename for the content-disposition header: the path's file
/// name with its extension replaced by the negotiated format's canonical one,
/// stripped of anything but printable ASCII.
pub open spec fn spec_disposition_filename(path: Seq<u8>, f: ImgFormat) -> Seq<u8> {
    keep_printable(stem(basename(path)) + seq![46u8] + spec_extension(f))
}

pub fn disposition_filename(path: &Vec<u8>, f: ImgFormat) -> (r: Vec<u8>)
    ensures
        r@ == spec_disposition_filename(path@, f),
{
    let n = path.len();
    let base = match find_last_byte(path, 47) {
        Some(i) => crate::bytes::subvec(path, i + 1, n),
        None => crate::bytes::subvec(path, 0, n),
    };
    proof {
        assert(path@.subrange(0, path@.len() as int) =~= path@);
    }
    let bn = base.len();
    let mut name = match find_last_byte(&base, 46) {
        Some(i) => if i > 0 {
            crate::bytes::subvec(&base, 0, i)
        } else {
            crate::bytes::subvec(&base, 0, bn)
        },
        None => crate::bytes::subvec(&base, 0, bn),
    };
    proof {
        assert(base@.subrange(0, base@.len() as int) =~= base@);
    }
    name.push(46);
    let mut ext = crate::negotiate::extension(f);
    name.append(&mut ext);
    proof {
        assert(name@ =~= stem(basename(path@)) + seq![46u8] + spec_extension(f));
    }
    printable_copy(&name)
}

/// The content-encoding hint mirrored back so the platform may compress: the
/// first comma-separated token of the request's accept-encoding value,
/// trimmed. Empty when the header was empty.
pub open spec fn spec_encoding_token(accept_encoding: Seq<u8>) -> Seq<u8> {
    cut_trim(accept_encoding, 44)
}

pub fn encoding_token(accept_encoding: &Vec<u8>) -> (r: Vec<u8>)
    ensures
        r@ == spec_encoding_token(accept_encoding@),
{
    cut_trim_bytes(accept_encoding, 44)
}

/// The CORS headers every successful response carries: any origin, any
/// method, any header, cached for 86400 seconds.
pub fn cors_headers() -> (r: Vec<(&'static str, &'static str)>)
    ensures
        r@.len() == 4,
        r@[0].0@ == "Access-Control-Allow-Origin"@ && r@[0].1@ == "*"@,
        r@[1].0@ == "Access-Control-Allow-Methods"@ && r@[1].1@ == "*"@,
        r@[2].0@ == "Access-Control-Max-Age"@ && r@[2].1@ == "86400"@,
        r@[3].0@ == "Access-Control-Allow-Headers"@ && r@[3].1@ == "*"@,
    {
    let mut r: Vec<(&'static str, &'static str)> = Vec::new();
    r.push(("Access-Control-Allow-Origin", "*"));
    r.push(("Access-Control-Allow-Methods", "*"));
    r.push(("Access-Control-Max-Age", "86400"));
    r.push(("Access-Control-Allow-Headers", "*"));
    r
}

/// The caching-relevant upstream headers copied verbatim onto the response
/// when the origin sent them.
pub fn passthrough_headers() -> (r: Vec<&'static str>)
    ensures
        r@.len() == 5,
        r@[0]@ == "last-modified"@,
        r@[1]@ == "etag"@,
        r@[2]@ == "cache-control"@,
        r@[3]@ == "expires"@,
        r@[4]@ == "date"@,
    {
    let mut r: Vec<&'static str> = Vec::new();
    r.push("last-modified");
    r.push("etag");
    r.push("cache-control");
    r.push("expires");
    r.push("date");
    r
}

} // verus!
