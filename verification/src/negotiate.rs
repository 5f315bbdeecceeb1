//! Content negotiation: the output format is taken from an explicit format
//! parameter when it names a known extension, otherwise from the `Accept`
//! header (first textually matching candidate wins, quality weights are
//! deliberately ignored), and defaults to PNG.

use vstd::prelude::*;
use crate::bytes::{bytes_eq, cut_trim, cut_trim_bytes, eq_ignore_case, find_byte, find_first,
    lemma_find_first_props, lower_seq, subvec};

verus! {

/// The closed set of output codecs, each with a canonical MIME type and file
/// extension.
#[derive(Clone, Copy, PartialEq, Eq, Structural, Debug)]
pub enum ImgFormat {
    Png,
    Jpeg,
    WebP,
    Gif,
}

/// The format named by a file extension, compared ASCII-case-insensitively.
pub open spec fn spec_format_from_extension(s: Seq<u8>) -> Option<ImgFormat> {
    let l = lower_seq(s);
    if l == seq![112u8, 110u8, 103u8] {
        Some(ImgFormat::Png)
    } else if l == seq![106u8, 112u8, 103u8] || l == seq![106u8, 112u8, 101u8, 103u8] {
        Some(ImgFormat::Jpeg)
    } else if l == seq![119u8, 101u8, 98u8, 112u8] {
        Some(ImgFormat::WebP)
    } else if l == seq![103u8, 105u8, 102u8] {
        Some(ImgFormat::Gif)
    } else {
        None
    }
}

/// The format named by a MIME type. MIME types are matched exactly, not
/// case-folded; only file extensions are matched case-insensitively.
pub open spec fn spec_format_from_mime(s: Seq<u8>) -> Option<ImgFormat> {
    if s == seq![105u8, 109u8, 97u8, 103u8, 101u8, 47u8, 112u8, 110u8, 103u8] {
        Some(ImgFormat::Png)
    } else if s == seq![105u8, 109u8, 97u8, 103u8, 101u8, 47u8, 106u8, 112u8, 101u8, 103u8] {
        Some(ImgFormat::Jpeg)
    } else if s == seq![105u8, 109u8, 97u8, 103u8, 101u8, 47u8, 119u8, 101u8, 98u8, 112u8] {
        Some(ImgFormat::WebP)
    } else if s == seq![105u8, 109u8, 97u8, 103u8, 101u8, 47u8, 103u8, 105u8, 102u8] {
        Some(ImgFormat::Gif)
    } else {
        None
    }
}

/// `lit` already being lower-case, case-insensitive equality against it is
/// equality of the folded candidate with it.
proof fn lemma_lower_fixed(lit: Seq<u8>)
    requires
        forall|j: int| 0 <= j < lit.len() ==> !(65 <= #[trigger] lit[j] && lit[j] <= 90),
    ensures
        lower_seq(lit) == lit,
{
    assert(lower_seq(lit) =~= lit);
}

pub fn format_from_extension(s: &Vec<u8>) -> (r: Option<ImgFormat>)
    ensures
        r == spec_format_from_extension(s@),
{
    let png: Vec<u8> = vec![112, 110, 103];
    let jpg: Vec<u8> = vec![106, 112, 103];
    let jpeg: Vec<u8> = vec![106, 112, 101, 103];
    let webp: Vec<u8> = vec![119, 101, 98, 112];
    let gif: Vec<u8> = vec![103, 105, 102];
    proof {
        lemma_lower_fixed(png@);
        lemma_lower_fixed(jpg@);
        lemma_lower_fixed(jpeg@);
        lemma_lower_fixed(webp@);
        lemma_lower_fixed(gif@);
    }
    if eq_ignore_case(s, &png) {
        Some(ImgFormat::Png)
    } else if eq_ignore_case(s, &jpg) || eq_ignore_case(s, &jpeg) {
        Some(ImgFormat::Jpeg)
    } else if eq_ignore_case(s, &webp) {
        Some(ImgFormat::WebP)
    } else if eq_ignore_case(s, &gif) {
        Some(ImgFormat::Gif)
    } else {
        None
    }
}

pub fn format_from_mime(s: &Vec<u8>) -> (r: Option<ImgFormat>)
    ensures
        r == spec_format_from_mime(s@),
{
    let png: Vec<u8> = vec![105, 109, 97, 103, 101, 47, 112, 110, 103];
    let jpeg: Vec<u8> = vec![105, 109, 97, 103, 101, 47, 106, 112, 101, 103];
    let webp: Vec<u8> = vec![105, 109, 97, 103, 101, 47, 119, 101, 98, 112];
    let gif: Vec<u8> = vec![105, 109, 97, 103, 101, 47, 103, 105, 102];
    if bytes_eq(s, &png) {
        Some(ImgFormat::Png)
    } else if bytes_eq(s, &jpeg) {
        Some(ImgFormat::Jpeg)
    } else if bytes_eq(s, &webp) {
        Some(ImgFormat::WebP)
    } else if bytes_eq(s, &gif) {
        Some(ImgFormat::Gif)
    } else {
        None
    }
}

/// The first candidate of a comma-separated `Accept` value that names a known
/// MIME type, after stripping any `;`-delimited parameters (quality weights
/// are ignored by design) and surrounding whitespace.
pub open spec fn spec_accept_pick(s: Seq<u8>) -> Option<ImgFormat>
    decreases s.len(),
    when true
    via spec_accept_pick_dec
{
    let seg_end = match find_first(s, 44) {
        Some(i) => i,
        None => s.len() as int,
    };
    let cand = cut_trim(s.subrange(0, seg_end), 59);
    match spec_format_from_mime(cand) {
        Some(f) => Some(f),
        None => match find_first(s, 44) {
            Some(i) => spec_accept_pick(s.subrange(i + 1, s.len() as int)),
            None => None,
        },
    }
}

#[via_fn]
proof fn spec_accept_pick_dec(s: Seq<u8>) {
    lemma_find_first_props(s, 44);
}

/// Walk the `Accept` candidates in header order; the first match wins.
pub fn accept_pick(v: &Vec<u8>) -> (r: Option<ImgFormat>)
    ensures
        r == spec_accept_pick(v@),
    decreases v@.len(),
{
    let comma = find_byte(v, 44);
    proof {
        lemma_find_first_props(v@, 44);
    }
    let n = v.len();
    let seg_end = match comma {
        Some(i) => i,
        None => n,
    };
    let seg = subvec(v, 0, seg_end);
    let cand = cut_trim_bytes(&seg, 59);
    match format_from_mime(&cand) {
        Some(f) => Some(f),
        None => match comma {
            Some(i) => {
                proof {
                    lemma_find_first_props(v@, 44);
                    assert(i < v@.len());
                }
                let rest = subvec(v, i + 1, n);
                accept_pick(&rest)
            },
            None => None,
        },
    }
}

/// View of an optional byte string.
pub open spec fn opt_view(o: Option<&Vec<u8>>) -> Option<Seq<u8>> {
    match o {
        Some(v) => Some(v@),
        None => None,
    }
}

/// The negotiated format: an explicit parameter naming a known extension wins;
/// otherwise the first matching `Accept` candidate; otherwise PNG. Total: some
/// format always comes out.
pub open spec fn spec_negotiate(explicit: Option<Seq<u8>>, accept: Option<Seq<u8>>) -> ImgFormat {
    let from_explicit = match explicit {
        Some(e) => spec_format_from_extension(e),
        None => None,
    };
    match from_explicit {
        Some(f) => f,
        None => match accept {
            Some(a) => match spec_accept_pick(a) {
                Some(f) => f,
                None => ImgFormat::Png,
            },
            None => ImgFormat::Png,
        },
    }
}

pub fn negotiate(explicit: Option<&Vec<u8>>, accept: Option<&Vec<u8>>) -> (r: ImgFormat)
    ensures
        r == spec_negotiate(opt_view(explicit), opt_view(accept)),
{
    let from_explicit = match explicit {
        Some(e) => format_from_extension(e),
        None => None,
    };
    match from_explicit {
        Some(f) => f,
        None => match accept {
            Some(a) => match accept_pick(a) {
                Some(f) => f,
                None => ImgFormat::Png,
            },
            None => ImgFormat::Png,
        },
    }
}

/// The canonical MIME type, used for the response's content-type header.
pub open spec fn spec_mime_type(f: ImgFormat) -> Seq<char> {
    match f {
        ImgFormat::Png => "image/png"@,
        ImgFormat::Jpeg => "image/jpeg"@,
        ImgFormat::WebP => "image/webp"@,
        ImgFormat::Gif => "image/gif"@,
    }
}

pub fn mime_type(f: ImgFormat) -> (r: &'static str)
    ensures
        r@ == spec_mime_type(f),
{
    match f {
        ImgFormat::Png => "image/png",
        ImgFormat::Jpeg => "image/jpeg",
        ImgFormat::WebP => "image/webp",
        ImgFormat::Gif => "image/gif",
    }
}

/// The canonical file extension, used for the content-disposition filename.
pub open spec fn spec_extension(f: ImgFormat) -> Seq<u8> {
    match f {
        ImgFormat::Png => seq![112u8, 110u8, 103u8],
        ImgFormat::Jpeg => seq![106u8, 112u8, 103u8],
        ImgFormat::WebP => seq![119u8, 101u8, 98u8, 112u8],
        ImgFormat::Gif => seq![103u8, 105u8, 102u8],
    }
}

pub fn extension(f: ImgFormat) -> (r: Vec<u8>)
    ensures
        r@ == spec_extension(f),
{
    match f {
        ImgFormat::Png => vec![112, 110, 103],
        ImgFormat::Jpeg => vec![106, 112, 103],
        ImgFormat::WebP => vec![119, 101, 98, 112],
        ImgFormat::Gif => vec![103, 105, 102],
    }
}

} // verus!
