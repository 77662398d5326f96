use vstd::prelude::*;

use crate::error::ProtocolError;
use crate::request::{all_ascii, parse_request, request_path, well_formed_request};
use crate::resolve::{
    dotdot_at, join_path, join_under, lemma_dotdot_rejected, lemma_joined_under_root,
    lemma_split_no_slash, rel_of, resolve_path, split_rel, valid_abs_path,
};

verus! {

/// Everything the server decides about one stream's request before the
/// filesystem is touched: either the request is rejected, or exactly one
/// path — the served root extended by the validated components — may be
/// opened for it.
pub enum RequestOutcome {
    /// The request never reaches the filesystem.
    Rejected(ProtocolError),
    /// The single path the response streamer may open.
    Open(Vec<u8>),
}

/// Whether the grammar and the path validation both accept the raw bytes.
pub open spec fn accepts(req: Seq<u8>) -> bool {
    &&& well_formed_request(req)
    &&& all_ascii(request_path(req))
    &&& valid_abs_path(request_path(req))
}

/// The error reported for refused bytes: the grammar speaks first.
pub open spec fn rejection(req: Seq<u8>) -> ProtocolError {
    if well_formed_request(req) && all_ascii(request_path(req)) {
        ProtocolError::IllegalPath
    } else {
        ProtocolError::MalformedRequest
    }
}

/// The one filesystem path acceptable bytes may open.
pub open spec fn target_path(root: Seq<u8>, req: Seq<u8>) -> Seq<u8> {
    join_under(root, split_rel(rel_of(request_path(req))))
}

/// One stream's request, from raw bytes to the filesystem decision: parse
/// the grammar, validate the path, join it under the served root. Exactly
/// the accepted requests yield a path to open, and that path is pinned
/// down byte for byte.
pub fn handle_request(root: &Vec<u8>, req: &Vec<u8>) -> (out: RequestOutcome)
    ensures
        out is Open <==> accepts(req@),
        out matches RequestOutcome::Open(p) ==> p@ == target_path(root@, req@),
        out matches RequestOutcome::Rejected(e) ==> e == rejection(req@),
{
    match parse_request(req) {
        Err(e) => RequestOutcome::Rejected(e),
        Ok(parsed) => match resolve_path(&parsed.path) {
            Err(e) => RequestOutcome::Rejected(e),
            Ok(segs) => RequestOutcome::Open(join_path(root, &segs)),
        },
    }
}

/// Law: a request whose path holds a parent-directory component `..`
/// anywhere, at any depth, is rejected — the filesystem is never reached
/// for it.
pub proof fn lemma_request_with_dotdot_rejected(req: Seq<u8>, i: int)
    requires
        dotdot_at(request_path(req), i),
    ensures
        !accepts(req),
{
    lemma_dotdot_rejected(request_path(req), i);
}

/// Law: a request whose path does not start with the root marker `/` is
/// rejected — the filesystem is never reached for it.
pub proof fn lemma_request_not_absolute_rejected(req: Seq<u8>)
    requires
        request_path(req).len() == 0 || request_path(req)[0] != 47,
    ensures
        !accepts(req),
{
}

/// Law: for every accepted request the one path that may be opened begins
/// with the served root byte for byte, and no parent-directory component
/// stands at or after the root's end — whatever the request held, the
/// resolved path cannot escape the served root.
pub proof fn lemma_target_under_root(root: Seq<u8>, req: Seq<u8>)
    requires
        accepts(req),
    ensures
        target_path(root, req).len() >= root.len(),
        target_path(root, req).subrange(0, root.len() as int) == root,
        forall|i: int| root.len() <= i ==> !dotdot_at(target_path(root, req), i),
{
    let p = request_path(req);
    let segs = split_rel(rel_of(p));
    if rel_of(p).len() > 0 {
        lemma_split_no_slash(rel_of(p), seq![]);
    }
    lemma_joined_under_root(root, segs);
}

} // verus!
