use vstd::prelude::*;

use crate::handler::accepts;
use crate::request::{all_ascii, request_path, well_formed_request};
use crate::resolve::valid_abs_path;
use crate::scan::lemma_idx_of_unique;

verus! {

/// The request line the client sends for a path: the token `GET ` (71 69
/// 84 32), the path, the trailing protocol tag ` HTTP/3` (32 72 84 84 80
/// 47 51), and the closing CR LF (13 10).
pub open spec fn client_request_line(p: Seq<u8>) -> Seq<u8> {
    seq![71u8, 69u8, 84u8, 32u8] + p + seq![32u8, 72u8, 84u8, 84u8, 80u8, 47u8, 51u8, 13u8, 10u8]
}

/// A path fit for the wire: ASCII with no space, carriage return or line
/// feed, so that the grammar's markers cannot occur inside it.
pub open spec fn wire_path(p: Seq<u8>) -> bool {
    forall|i: int| 0 <= i < p.len() ==> #[trigger] p[i] != 32 && p[i] != 13 && p[i] != 10
        && p[i] < 128
}

/// Build the bytes the client writes to its stream for one request.
pub fn format_request(path: &Vec<u8>) -> (line: Vec<u8>)
    ensures
        line@ == client_request_line(path@),
{
    let mut line: Vec<u8> = Vec::new();
    line.push(71);
    line.push(69);
    line.push(84);
    line.push(32);
    let mut i: usize = 0;
    while i < path.len()
        invariant
            i <= path@.len(),
            line@ == seq![71u8, 69u8, 84u8, 32u8] + path@.subrange(0, i as int),
        decreases path@.len() - i,
    {
        line.push(path[i]);
        proof {
            assert(seq![71u8, 69u8, 84u8, 32u8] + path@.subrange(0, i + 1) =~= (seq![
                71u8, 69u8, 84u8, 32u8,
            ] + path@.subrange(0, i as int)).push(path@[i as int]));
        }
        i += 1;
    }
    line.push(32);
    line.push(72);
    line.push(84);
    line.push(84);
    line.push(80);
    line.push(47);
    line.push(51);
    line.push(13);
    line.push(10);
    proof {
        assert(path@.subrange(0, path@.len() as int) =~= path@);
        assert(line@ =~= client_request_line(path@));
    }
    line
}

/// Law: the two sides of the protocol agree. A request line the client
/// builds for a wire-fit path is well formed under the server's grammar,
/// and the server parses exactly the client's path back out of it — the
/// trailing protocol tag is discarded with the rest of the line.
pub proof fn lemma_request_line_round_trip(p: Seq<u8>)
    requires
        wire_path(p),
    ensures
        well_formed_request(client_request_line(p)),
        request_path(client_request_line(p)) == p,
        all_ascii(request_path(client_request_line(p))),
{
    let s = client_request_line(p);
    let n = p.len() as int;
    assert(s.len() == n + 13);
    assert(s[0] == 71 && s[1] == 69 && s[2] == 84 && s[3] == 32);
    assert(s[s.len() - 2] == 13 && s[s.len() - 1] == 10);
    let region = s.subrange(4, s.len() - 2);
    assert(region =~= p + seq![32u8, 72u8, 84u8, 84u8, 80u8, 47u8, 51u8]);
    assert forall|j: int| 0 <= j < n implies region[j] != 32 by {
        assert(region[j] == p[j]);
    }
    assert(region[n] == 32);
    lemma_idx_of_unique(region, 32, n);
    assert(request_path(s) =~= p);
}

/// Law: for a wire-fit path that is a valid absolute path, the server
/// accepts the client's request line outright — the two ends of the
/// protocol agree on the whole grammar, not just on the path.
pub proof fn lemma_client_request_accepted(p: Seq<u8>)
    requires
        wire_path(p),
        valid_abs_path(p),
    ensures
        accepts(client_request_line(p)),
{
    lemma_request_line_round_trip(p);
}

} // verus!
