use vstd::prelude::*;

use crate::error::ProtocolError;

verus! {

/// A path component that may be appended under the served root: a plain
/// name. Empty components, the current-directory reference `.` (46) and the
/// parent-directory reference `..` (46 46) are not plain.
pub open spec fn plain_seg(s: Seq<u8>) -> bool {
    &&& s.len() > 0
    &&& s != seq![46u8]
    &&& s != seq![46u8, 46u8]
}

/// Components of `r` split at every `/` (47), walking byte by byte; `cur`
/// is the segment collected so far. Splitting at n separators yields n + 1
/// components, so a trailing `/` yields a final empty component.
pub open spec fn split_at_slash(r: Seq<u8>, cur: Seq<u8>) -> Seq<Seq<u8>>
    decreases r.len(),
{
    if r.len() == 0 {
        seq![cur]
    } else if r[0] == 47 {
        seq![cur] + split_at_slash(r.subrange(1, r.len() as int), seq![])
    } else {
        split_at_slash(r.subrange(1, r.len() as int), cur.push(r[0]))
    }
}

/// The part of an absolute path after its leading `/`.
pub open spec fn rel_of(p: Seq<u8>) -> Seq<u8> {
    p.subrange(1, p.len() as int)
}

/// The components of the part of a path after the root marker.
pub open spec fn split_rel(r: Seq<u8>) -> Seq<Seq<u8>> {
    if r.len() == 0 {
        seq![]
    } else {
        split_at_slash(r, seq![])
    }
}

pub open spec fn all_plain(segs: Seq<Seq<u8>>) -> bool {
    forall|i: int| 0 <= i < segs.len() ==> plain_seg(#[trigger] segs[i])
}

/// An acceptable request path: absolute (it begins with the root marker
/// `/`), and every component after the marker is a plain name.
pub open spec fn valid_abs_path(p: Seq<u8>) -> bool {
    &&& p.len() >= 1
    &&& p[0] == 47
    &&& all_plain(split_rel(rel_of(p)))
}

/// Whether one component is a plain name.
fn is_plain(cur: &Vec<u8>) -> (b: bool)
    ensures
        b == plain_seg(cur@),
{
    if cur.len() == 0 {
        return false;
    }
    if cur.len() == 1 && cur[0] == 46 {
        proof {
            assert(cur@ =~= seq![46u8]);
        }
        return false;
    }
    if cur.len() == 2 && cur[0] == 46 && cur[1] == 46 {
        proof {
            assert(cur@ =~= seq![46u8, 46u8]);
        }
        return false;
    }
    true
}

/// Split an untrusted request path into its components, accepting exactly
/// the valid absolute paths: rejection means no component list — and hence
/// no filesystem path — is ever produced for the request.
pub fn resolve_path(path: &Vec<u8>) -> (r: Result<Vec<Vec<u8>>, ProtocolError>)
    ensures
        r is Ok <==> valid_abs_path(path@),
        r matches Ok(segs) ==> segs@.map_values(|v: Vec<u8>| v@) == split_rel(rel_of(path@)),
        r matches Ok(segs) ==> forall|i: int, k: int|
            0 <= i < segs@.len() && 0 <= k < segs@[i]@.len() ==> segs@[i]@[k] != 47,
        r matches Err(e) ==> e == ProtocolError::IllegalPath,
{
    if path.len() == 0 || path[0] != 47 {
        return Err(ProtocolError::IllegalPath);
    }
    let ghost rel = rel_of(path@);
    let mut segs: Vec<Vec<u8>> = Vec::new();
    if path.len() == 1 {
        proof {
            assert(rel.len() == 0);
            assert(segs@.map_values(|v: Vec<u8>| v@) =~= split_rel(rel));
        }
        return Ok(segs);
    }
    let mut cur: Vec<u8> = Vec::new();
    let mut i: usize = 1;
    proof {
        assert(rel.subrange(0, rel.len() as int) =~= rel);
        assert(segs@.map_values(|v: Vec<u8>| v@) + split_at_slash(rel, seq![]) =~= split_at_slash(
            rel,
            seq![],
        ));
    }
    while i < path.len()
        invariant
            1 <= i <= path@.len(),
            path@.len() >= 2,
            path@[0] == 47,
            rel == rel_of(path@),
            split_at_slash(rel, seq![]) == segs@.map_values(|v: Vec<u8>| v@)
                + split_at_slash(rel.subrange(i - 1, rel.len() as int), cur@),
            all_plain(segs@.map_values(|v: Vec<u8>| v@)),
            forall|a: int, k: int|
                0 <= a < segs@.len() && 0 <= k < segs@[a]@.len() ==> segs@[a]@[k] != 47,
            forall|k: int| 0 <= k < cur@.len() ==> cur@[k] != 47,
        decreases path@.len() - i,
    {
        let ghost rest = rel.subrange(i - 1, rel.len() as int);
        let b = path[i];
        proof {
            assert(rest.len() > 0);
            assert(rest[0] == path@[i as int]);
            assert(rest.subrange(1, rest.len() as int) =~= rel.subrange(
                i as int,
                rel.len() as int,
            ));
        }
        if b == 47 {
            if !is_plain(&cur) {
                proof {
                    let whole = split_at_slash(rel, seq![]);
                    let done = segs@.map_values(|v: Vec<u8>| v@);
                    assert(split_at_slash(rest, cur@) == seq![cur@] + split_at_slash(
                        rest.subrange(1, rest.len() as int),
                        seq![],
                    ));
                    assert(whole[done.len() as int] == cur@);
                    assert(!all_plain(whole));
                }
                return Err(ProtocolError::IllegalPath);
            }
            proof {
                let done = segs@.map_values(|v: Vec<u8>| v@);
                assert(split_at_slash(rest, cur@) == seq![cur@] + split_at_slash(
                    rest.subrange(1, rest.len() as int),
                    seq![],
                ));
                assert((segs@.push(cur)).map_values(|v: Vec<u8>| v@) =~= done.push(cur@));
                assert(done.push(cur@) + split_at_slash(
                    rel.subrange(i as int, rel.len() as int),
                    seq![],
                ) =~= done + split_at_slash(rest, cur@));
            }
            segs.push(cur);
            cur = Vec::new();
        } else {
            proof {
                assert(split_at_slash(rest, cur@) == split_at_slash(
                    rest.subrange(1, rest.len() as int),
                    cur@.push(path@[i as int]),
                ));
            }
            cur.push(b);
        }
        i += 1;
    }
    proof {
        assert(rel.subrange(i - 1, rel.len() as int) =~= Seq::<u8>::empty());
        assert(split_at_slash(Seq::<u8>::empty(), cur@) == seq![cur@]);
    }
    if !is_plain(&cur) {
        proof {
            let whole = split_at_slash(rel, seq![]);
            let done = segs@.map_values(|v: Vec<u8>| v@);
            assert(whole[done.len() as int] == cur@);
            assert(!all_plain(whole));
        }
        return Err(ProtocolError::IllegalPath);
    }
    proof {
        let done = segs@.map_values(|v: Vec<u8>| v@);
        assert((segs@.push(cur)).map_values(|v: Vec<u8>| v@) =~= done.push(cur@));
        assert(done.push(cur@) =~= done + seq![cur@]);
    }
    segs.push(cur);
    Ok(segs)
}

/// The filesystem path for validated components: the served root followed,
/// for each component in order, by `/` and the component.
pub open spec fn join_under(root: Seq<u8>, segs: Seq<Seq<u8>>) -> Seq<u8>
    decreases segs.len(),
{
    if segs.len() == 0 {
        root
    } else {
        join_under(root, segs.drop_last()) + seq![47u8] + segs.last()
    }
}

/// Build the one filesystem path a request may open.
pub fn join_path(root: &Vec<u8>, segs: &Vec<Vec<u8>>) -> (p: Vec<u8>)
    ensures
        p@ == join_under(root@, segs@.map_values(|v: Vec<u8>| v@)),
{
    let ghost m = segs@.map_values(|v: Vec<u8>| v@);
    let mut p: Vec<u8> = Vec::new();
    let mut i: usize = 0;
    while i < root.len()
        invariant
            i <= root@.len(),
            p@ == root@.subrange(0, i as int),
        decreases root@.len() - i,
    {
        p.push(root[i]);
        proof {
            assert(root@.subrange(0, i + 1) =~= root@.subrange(0, i as int).push(
                root@[i as int],
            ));
        }
        i += 1;
    }
    proof {
        assert(p@ =~= root@);
        assert(m.subrange(0, 0) =~= Seq::<Seq<u8>>::empty());
    }
    let mut s: usize = 0;
    while s < segs.len()
        invariant
            s <= segs@.len(),
            m == segs@.map_values(|v: Vec<u8>| v@),
            p@ == join_under(root@, m.subrange(0, s as int)),
        decreases segs@.len() - s,
    {
        let ghost before = p@;
        p.push(47);
        let seg = &segs[s];
        proof {
            assert(p@ =~= before + seq![47u8] + seg@.subrange(0, 0));
        }
        let mut k: usize = 0;
        while k < seg.len()
            invariant
                k <= seg@.len(),
                seg@ == segs@[s as int]@,
                s < segs@.len(),
                p@ == before + seq![47u8] + seg@.subrange(0, k as int),
            decreases seg@.len() - k,
        {
            p.push(seg[k]);
            proof {
                assert(before + seq![47u8] + seg@.subrange(0, k + 1) =~= (before + seq![47u8]
                    + seg@.subrange(0, k as int)).push(seg@[k as int]));
            }
            k += 1;
        }
        proof {
            let cut = m.subrange(0, s + 1);
            assert(cut.drop_last() =~= m.subrange(0, s as int));
            assert(cut.last() == m[s as int]);
            assert(seg@.subrange(0, seg@.len() as int) =~= seg@);
            assert(p@ == join_under(root@, cut));
        }
        s += 1;
    }
    proof {
        assert(m.subrange(0, m.len() as int) =~= m);
    }
    p
}

/// A parent-directory component sits at byte position `i` of path `p`:
/// the two bytes `..`, bounded on each side by a `/` or an end of the path.
pub open spec fn dotdot_at(p: Seq<u8>, i: int) -> bool {
    &&& 0 <= i && i + 2 <= p.len()
    &&& p[i] == 46 && p[i + 1] == 46
    &&& i == 0 || p[i - 1] == 47
    &&& i + 2 == p.len() || p[i + 2] == 47
}

/// No component that splitting yields contains the separator `/` itself,
/// as long as the component collected so far does not.
pub proof fn lemma_split_no_slash(r: Seq<u8>, cur: Seq<u8>)
    requires
        forall|k: int| 0 <= k < cur.len() ==> cur[k] != 47,
    ensures
        forall|a: int, k: int|
            0 <= a < split_at_slash(r, cur).len() && 0 <= k < split_at_slash(r, cur)[a].len()
                ==> #[trigger] split_at_slash(r, cur)[a][k] != 47,
    decreases r.len(),
{
    let whole = split_at_slash(r, cur);
    if r.len() == 0 {
        assert forall|a: int, k: int|
            0 <= a < whole.len() && 0 <= k < whole[a].len() implies #[trigger] whole[a][k]
            != 47 by {
            assert(whole[a] == cur);
        }
    } else if r[0] == 47 {
        let tail = split_at_slash(r.subrange(1, r.len() as int), seq![]);
        lemma_split_no_slash(r.subrange(1, r.len() as int), seq![]);
        assert forall|a: int, k: int|
            0 <= a < whole.len() && 0 <= k < whole[a].len() implies #[trigger] whole[a][k]
            != 47 by {
            if a == 0 {
                assert(whole[a] == cur);
            } else {
                assert(whole[a] == tail[a - 1]);
                assert(tail[a - 1][k] != 47);
            }
        }
    } else {
        let cur2 = cur.push(r[0]);
        let rest = split_at_slash(r.subrange(1, r.len() as int), cur2);
        lemma_split_no_slash(r.subrange(1, r.len() as int), cur2);
        assert forall|a: int, k: int|
            0 <= a < whole.len() && 0 <= k < whole[a].len() implies #[trigger] whole[a][k]
            != 47 by {
            assert(whole[a] == rest[a]);
            assert(rest[a][k] != 47);
        }
    }
}

/// Law: a request path that does not begin with the root marker `/` is
/// never a valid absolute path, so it is rejected before any filesystem
/// access.
pub proof fn lemma_relative_rejected(p: Seq<u8>)
    requires
        p.len() == 0 || p[0] != 47,
    ensures
        !valid_abs_path(p),
{
}

/// Splitting a byte sequence with a `/`-bounded `..` in it always yields a
/// component that is not a plain name.
proof fn lemma_dotdot_split(r: Seq<u8>, cur: Seq<u8>, i: int)
    requires
        0 <= i,
        i + 2 <= r.len(),
        r[i] == 46,
        r[i + 1] == 46,
        i == 0 ==> cur.len() == 0,
        i > 0 ==> r[i - 1] == 47,
        i + 2 == r.len() || r[i + 2] == 47,
    ensures
        !all_plain(split_at_slash(r, cur)),
    decreases r.len(),
{
    let r1 = r.subrange(1, r.len() as int);
    if i == 0 {
        let r2 = r1.subrange(1, r1.len() as int);
        let dd = cur.push(46).push(46);
        assert(r2 =~= r.subrange(2, r.len() as int));
        assert(dd =~= seq![46u8, 46u8]);
        assert(split_at_slash(r, cur) == split_at_slash(r1, cur.push(46)));
        assert(split_at_slash(r1, cur.push(46)) == split_at_slash(r2, dd));
        if i + 2 == r.len() {
            assert(split_at_slash(r2, dd) == seq![dd]);
            assert(!plain_seg(split_at_slash(r, cur)[0]));
        } else {
            assert(r2[0] == 47);
            let tail = split_at_slash(r2.subrange(1, r2.len() as int), seq![]);
            assert(split_at_slash(r2, dd) == seq![dd] + tail);
            assert(!plain_seg(split_at_slash(r, cur)[0]));
        }
    } else {
        if r[0] == 47 {
            let tail = split_at_slash(r1, seq![]);
            assert(split_at_slash(r, cur) == seq![cur] + tail);
            lemma_dotdot_split(r1, seq![], i - 1);
            let j = choose|j: int| 0 <= j < tail.len() && !plain_seg(#[trigger] tail[j]);
            assert((seq![cur] + tail)[j + 1] == tail[j]);
            assert(!all_plain(split_at_slash(r, cur)));
        } else {
            assert(i > 1);
            assert(split_at_slash(r, cur) == split_at_slash(r1, cur.push(r[0])));
            lemma_dotdot_split(r1, cur.push(r[0]), i - 1);
        }
    }
}

/// Law: a request path with a parent-directory component `..` anywhere, at
/// any depth, is not a valid absolute path, so it is rejected before any
/// filesystem access — no file outside the served root is ever opened for
/// such a request.
pub proof fn lemma_dotdot_rejected(p: Seq<u8>, i: int)
    requires
        dotdot_at(p, i),
    ensures
        !valid_abs_path(p),
{
    if p.len() >= 1 && p[0] == 47 {
        assert(i >= 1);
        let rel = rel_of(p);
        assert(rel.len() >= 2);
        assert(rel[i - 1] == 46 && rel[i] == 46);
        lemma_dotdot_split(rel, seq![], i - 1);
    }
}

/// Law: the path handed to the filesystem begins with the served root byte
/// for byte, and — because every appended component is a plain, slash-free
/// name — no parent-directory component stands at or after the root's end:
/// the resolved path cannot escape the served root.
pub proof fn lemma_joined_under_root(root: Seq<u8>, segs: Seq<Seq<u8>>)
    requires
        all_plain(segs),
        forall|a: int, k: int|
            0 <= a < segs.len() && 0 <= k < segs[a].len() ==> #[trigger] segs[a][k] != 47,
    ensures
        join_under(root, segs).len() >= root.len(),
        join_under(root, segs).subrange(0, root.len() as int) == root,
        forall|i: int| root.len() <= i ==> !dotdot_at(join_under(root, segs), i),
    decreases segs.len(),
{
    let joined = join_under(root, segs);
    if segs.len() == 0 {
        assert(joined.subrange(0, root.len() as int) =~= root);
    } else {
        let pre = segs.drop_last();
        let last = segs.last();
        let prior = join_under(root, pre);
        assert forall|a: int, k: int|
            0 <= a < pre.len() && 0 <= k < pre[a].len() implies #[trigger] pre[a][k] != 47 by {
            assert(pre[a] == segs[a]);
        }
        assert forall|a: int| 0 <= a < pre.len() implies plain_seg(#[trigger] pre[a]) by {
            assert(pre[a] == segs[a]);
        }
        lemma_joined_under_root(root, pre);
        let bigl = prior.len() as int;
        assert(joined == prior + seq![47u8] + last);
        assert(joined.subrange(0, root.len() as int) =~= prior.subrange(0, root.len() as int));
        assert forall|i: int| root.len() <= i implies !dotdot_at(joined, i) by {
            if dotdot_at(joined, i) {
                assert(joined[bigl] == 47);
                assert(i != bigl && i + 1 != bigl);
                if i + 1 < bigl {
                    assert(joined[i] == prior[i] && joined[i + 1] == prior[i + 1]);
                    assert(i > 0 ==> joined[i - 1] == prior[i - 1]);
                    assert(i + 2 < bigl ==> joined[i + 2] == prior[i + 2]);
                    assert(dotdot_at(prior, i));
                    assert(false);
                } else {
                    assert(i > bigl);
                    let t = i - bigl - 1;
                    assert(joined[i] == last[t] && joined[i + 1] == last[t + 1]);
                    assert(last[t] == 46 && last[t + 1] == 46);
                    if i - 1 > bigl {
                        assert(joined[i - 1] == last[t - 1]);
                        assert(last[t - 1] != 47);
                        assert(false);
                    }
                    assert(t == 0);
                    if i + 2 == joined.len() {
                        assert(last.len() == 2);
                        assert(last =~= seq![46u8, 46u8]);
                        assert(!plain_seg(segs[segs.len() - 1]));
                        assert(false);
                    } else {
                        assert(joined[i + 2] == last[t + 2]);
                        assert(last[t + 2] != 47);
                        assert(false);
                    }
                }
            }
        }
    }
}

} // verus!
