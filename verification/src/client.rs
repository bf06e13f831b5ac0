//! The remote query client's verified half: validating the HTTP status of
//! a response and naming the per-request raw-response cache file. The
//! transport itself (request construction, sending, decoding) lives in
//! the surrounding application.

use vstd::prelude::*;
use vstd::string::*;
use crate::text::{spec_pad2, u64_to_dec_pad2};

verus! {

/// Whether an HTTP status code is fatal for the run: any client or
/// server error class code is, and nothing else.
pub fn status_indicates_failure(status: u16) -> (r: bool)
    ensures
        r == (400 <= status < 600),
{
    400 <= status && status < 600
}

/// The path of the raw-response cache file for request `seq_num`: the
/// configured prefix, a dot, and the sequence number zero-padded to at
/// least two digits.
pub fn cache_file_name(prefix: &str, seq_num: u64) -> (r: String)
    ensures
        r@ == prefix@ + "."@ + spec_pad2(seq_num as nat),
{
    let mut r = prefix.to_owned();
    r.append(".");
    let d = u64_to_dec_pad2(seq_num);
    r.append(d.as_str());
    proof {
        assert(r@ =~= prefix@ + "."@ + spec_pad2(seq_num as nat));
    }
    r
}

} // verus!
