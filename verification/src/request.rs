use vstd::prelude::*;

use crate::error::ProtocolError;
use crate::scan::{find_byte, idx_of, lemma_idx_of_unique};

verus! {

/// Longest request accepted from one stream: 64 KiB. The read side of the
/// shell caps `read to end` at this length before handing the bytes here.
pub const MAX_REQUEST_LEN: usize = 64 * 1024;

/// The request grammar: at least the 4-byte token `GET ` (71 69 84 32),
/// then a path region, then the closing CR LF (13 10). The path region may
/// be empty, so the shortest well-formed request has 6 bytes.
pub open spec fn well_formed_request(s: Seq<u8>) -> bool {
    &&& s.len() >= 6
    &&& s[0] == 71 && s[1] == 69 && s[2] == 84 && s[3] == 32
    &&& s[s.len() - 2] == 13 && s[s.len() - 1] == 10
}

/// Bytes strictly between the `GET ` prefix and the final CR LF.
pub open spec fn path_region(s: Seq<u8>) -> Seq<u8> {
    s.subrange(4, s.len() - 2)
}

/// The request path: the path region truncated at its first space. An
/// optional trailing token after that space (a protocol tag the client
/// appends) is discarded.
pub open spec fn request_path(s: Seq<u8>) -> Seq<u8> {
    path_region(s).subrange(0, idx_of(path_region(s), 32u8))
}

/// Plain ASCII text: every byte below 128.
pub open spec fn all_ascii(s: Seq<u8>) -> bool {
    forall|i: int| 0 <= i < s.len() ==> s[i] < 128
}

/// A parsed request: the path exactly as it stood on the wire.
#[derive(Debug)]
pub struct Request {
    pub path: Vec<u8>,
}

/// Parse the complete bytes read from one stream against the grammar.
/// Accepts exactly the well-formed requests whose path is ASCII text, and
/// returns the path with any trailing token already discarded.
pub fn parse_request(buf: &Vec<u8>) -> (r: Result<Request, ProtocolError>)
    ensures
        r is Ok <==> well_formed_request(buf@) && all_ascii(request_path(buf@)),
        r matches Ok(req) ==> req.path@ == request_path(buf@),
        r matches Err(e) ==> e == ProtocolError::MalformedRequest,
{
    let n = buf.len();
    if n < 6 {
        return Err(ProtocolError::MalformedRequest);
    }
    if buf[0] != 71 || buf[1] != 69 || buf[2] != 84 || buf[3] != 32 {
        return Err(ProtocolError::MalformedRequest);
    }
    if buf[n - 2] != 13 || buf[n - 1] != 10 {
        return Err(ProtocolError::MalformedRequest);
    }
    let j = find_byte(buf, 4, 32);
    let path_end = if j < n - 2 { j } else { n - 2 };
    proof {
        let region = path_region(buf@);
        if j < n - 2 {
            assert forall|k: int| 0 <= k < j - 4 implies region[k] != 32 by {
                assert(region[k] == buf@[4 + k]);
            }
            assert(region[j - 4] == buf@[j as int]);
            lemma_idx_of_unique(region, 32, j - 4);
        } else {
            assert forall|k: int| 0 <= k < region.len() implies region[k] != 32 by {
                assert(region[k] == buf@[4 + k]);
            }
            lemma_idx_of_unique(region, 32, region.len() as int);
        }
        assert(request_path(buf@) =~= buf@.subrange(4, path_end as int));
    }
    let mut path: Vec<u8> = Vec::new();
    let mut i: usize = 4;
    while i < path_end
        invariant
            4 <= i <= path_end <= buf@.len(),
            path@ == buf@.subrange(4, i as int),
            all_ascii(path@),
            request_path(buf@) == buf@.subrange(4, path_end as int),
            well_formed_request(buf@),
        decreases path_end - i,
    {
        if buf[i] >= 128 {
            proof {
                assert(request_path(buf@)[i - 4] == buf@[i as int]);
            }
            return Err(ProtocolError::MalformedRequest);
        }
        path.push(buf[i]);
        proof {
            assert(buf@.subrange(4, i + 1) =~= buf@.subrange(4, i as int) + seq![buf@[i as int]]);
        }
        i += 1;
    }
    proof {
        assert forall|k: int| 0 <= k < request_path(buf@).len() implies request_path(buf@)[k]
            < 128 by {
            assert(request_path(buf@)[k] == path@[k]);
        }
    }
    Ok(Request { path })
}

} // verus!
