//! The core of an edge image-transformation proxy: a client asks for an
//! arbitrarily cropped, re-encoded view of a large source image, and the
//! library answers with content negotiation, crop validation and extraction,
//! codec glue, a single-flight decoded-bitmap cache, a response-cache key,
//! and a bounded concurrency limiter. The surrounding program does the I/O:
//! it fetches upstream bytes, stores cached responses, and runs the event
//! loop; every decision in between is made here, under contract.

mod assemble;
mod bitmap;
mod bytes;
mod cachekey;
mod codec;
mod crop;
mod errors;
mod flight;
mod limiter;
mod negotiate;
mod query;

pub use assemble::{basename, cors_headers, disposition_filename, encoding_token, find_last,
    find_last_byte, keep_printable, passthrough_headers, spec_disposition_filename,
    spec_encoding_token, stem};
pub use bitmap::{bm_wf, cropped_pixels, lemma_invalid_crop_rejected, lemma_no_crop_keeps_source,
    lemma_valid_crop_dimensions, output_bitmap, spec_output, Bitmap, BitmapModel};
pub use bytes::{bytes_eq, cut_trim, cut_trim_bytes, eq_ignore_case, find_byte, find_first,
    lower_seq, subvec, trim, trim_bytes};
pub use cachekey::{dec_digits, push_u32_dec, response_cache_key, spec_response_key};
pub use codec::{decode_image, decoded_of, encoded_of, lemma_transform_deterministic,
    spec_transform, transform, transform_bitmap};
pub use crop::{crop_of_params, spec_crop_of_params, CropRect};
pub use errors::{classify_upstream, http_status, spec_classify_upstream, spec_status, Error};
pub use flight::{entry_of, first_ready_index, has_key, key_index, lemma_failed_producer_retries,
    lemma_single_flight, ready_count, slot_wf, spec_complete_ok, spec_promote, unique_keys,
    BitmapCache, Flight, Slot, SlotModel, SlotState};
pub use limiter::{lemma_limiter_fail_fast, Limiter};
pub use negotiate::{accept_pick, extension, format_from_extension, format_from_mime, mime_type,
    negotiate, spec_accept_pick, spec_format_from_extension, spec_format_from_mime, spec_mime_type,
    spec_negotiate, ImgFormat};
pub use query::{is_digits, param, parse_query, parse_u32, spec_numeric_param, spec_param,
    spec_parse_u32, spec_query_ok, QueryParams};
