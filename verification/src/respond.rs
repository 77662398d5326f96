use vstd::prelude::*;

verus! {

/// Bytes of the file read and written per chunk: 100 KiB.
pub const CHUNK_SIZE: usize = 100 * 1024;

/// The literal status line sent when the resolved path cannot be opened:
/// `HTTP/3 404 NotFound` followed by CR LF. No other byte accompanies it.
pub open spec fn not_found_line() -> Seq<u8> {
    seq![
        72u8, 84u8, 84u8, 80u8, 47u8, 51u8, 32u8, 52u8, 48u8, 52u8, 32u8, 78u8, 111u8, 116u8,
        70u8, 111u8, 117u8, 110u8, 100u8, 13u8, 10u8,
    ]
}

/// Everything the writes of one response amount to, in order.
pub open spec fn concat_all(chunks: Seq<Seq<u8>>) -> Seq<u8>
    decreases chunks.len(),
{
    if chunks.len() == 0 {
        seq![]
    } else {
        concat_all(chunks.drop_last()) + chunks.last()
    }
}

/// The total bytes the peer receives over one stream: the file's bytes when
/// it opened, the not-found line when it did not. A successful transfer
/// carries no status line and no header — the end of the stream is its only
/// delimiter, so an empty file yields an empty response.
pub open spec fn response_bytes(file: Option<Seq<u8>>) -> Seq<u8> {
    match file {
        Option::Some(data) => data,
        Option::None => not_found_line(),
    }
}

/// The not-found status line as it goes on the wire.
pub fn not_found_response() -> (v: Vec<u8>)
    ensures
        v@ == not_found_line(),
{
    let mut v: Vec<u8> = Vec::new();
    v.push(72);
    v.push(84);
    v.push(84);
    v.push(80);
    v.push(47);
    v.push(51);
    v.push(32);
    v.push(52);
    v.push(48);
    v.push(52);
    v.push(32);
    v.push(78);
    v.push(111);
    v.push(116);
    v.push(70);
    v.push(111);
    v.push(117);
    v.push(110);
    v.push(100);
    v.push(13);
    v.push(10);
    proof {
        assert(v@ =~= not_found_line());
    }
    v
}

/// Cut the file's bytes into the ordered chunks written to the stream:
/// every chunk but the last is exactly `CHUNK_SIZE` bytes, the last is
/// nonempty, and their concatenation is the file, byte for byte — nothing
/// extra, nothing missing.
pub fn chunk_file(data: &Vec<u8>) -> (chunks: Vec<Vec<u8>>)
    ensures
        concat_all(chunks@.map_values(|c: Vec<u8>| c@)) == data@,
        forall|i: int| 0 <= i < chunks@.len() ==> 1 <= #[trigger] chunks@[i]@.len() <= CHUNK_SIZE,
        forall|i: int| 0 <= i < chunks@.len() - 1 ==> #[trigger] chunks@[i]@.len() == CHUNK_SIZE,
        data@.len() == 0 ==> chunks@.len() == 0,
{
    let mut chunks: Vec<Vec<u8>> = Vec::new();
    let mut off: usize = 0;
    proof {
        assert(chunks@.map_values(|c: Vec<u8>| c@) =~= Seq::<Seq<u8>>::empty());
        assert(data@.subrange(0, 0) =~= Seq::<u8>::empty());
    }
    while off < data.len()
        invariant
            off <= data@.len(),
            concat_all(chunks@.map_values(|c: Vec<u8>| c@)) == data@.subrange(0, off as int),
            forall|i: int|
                0 <= i < chunks@.len() ==> 1 <= #[trigger] chunks@[i]@.len() <= CHUNK_SIZE,
            forall|i: int|
                0 <= i < chunks@.len() - 1 ==> #[trigger] chunks@[i]@.len() == CHUNK_SIZE,
            chunks@.len() > 0 && off < data@.len() ==> chunks@[chunks@.len() - 1]@.len()
                == CHUNK_SIZE,
        decreases data@.len() - off,
    {
        let remaining = data.len() - off;
        let take = if remaining < CHUNK_SIZE {
            remaining
        } else {
            CHUNK_SIZE
        };
        let end = off + take;
        let mut chunk: Vec<u8> = Vec::new();
        let mut j: usize = off;
        while j < end
            invariant
                off <= j <= end,
                end <= data@.len(),
                chunk@ == data@.subrange(off as int, j as int),
            decreases end - j,
        {
            chunk.push(data[j]);
            proof {
                assert(data@.subrange(off as int, j + 1) =~= data@.subrange(
                    off as int,
                    j as int,
                ).push(data@[j as int]));
            }
            j += 1;
        }
        proof {
            let done = chunks@.map_values(|c: Vec<u8>| c@);
            assert((chunks@.push(chunk)).map_values(|c: Vec<u8>| c@) =~= done.push(chunk@));
            assert(done.push(chunk@).drop_last() =~= done);
            assert(data@.subrange(0, off as int) + data@.subrange(off as int, off + take)
                =~= data@.subrange(0, off + take));
        }
        chunks.push(chunk);
        off += take;
    }
    proof {
        assert(data@.subrange(0, data@.len() as int) =~= data@);
    }
    chunks
}

/// The full ordered list of writes for one response: the file's bytes in
/// chunks when the file opened, the single not-found line when it did not.
/// Concatenated, the writes are exactly `response_bytes` of the outcome.
pub fn build_response(file: Option<&Vec<u8>>) -> (writes: Vec<Vec<u8>>)
    ensures
        file matches Some(data) ==> concat_all(writes@.map_values(|c: Vec<u8>| c@)) == data@
            && concat_all(writes@.map_values(|c: Vec<u8>| c@)) == response_bytes(
            Some(data@),
        ),
        file matches Some(data) ==> forall|i: int|
            0 <= i < writes@.len() ==> 1 <= #[trigger] writes@[i]@.len() <= CHUNK_SIZE,
        file matches Some(data) ==> forall|i: int|
            0 <= i < writes@.len() - 1 ==> #[trigger] writes@[i]@.len() == CHUNK_SIZE,
        file is None ==> writes@.len() == 1 && writes@[0]@ == not_found_line()
            && concat_all(writes@.map_values(|c: Vec<u8>| c@)) == response_bytes(None),
{
    match file {
        Some(data) => chunk_file(data),
        None => {
            let mut writes: Vec<Vec<u8>> = Vec::new();
            writes.push(not_found_response());
            proof {
                let m = writes@.map_values(|c: Vec<u8>| c@);
                assert(m.len() == 1);
                assert(m[0] == not_found_line());
                assert(m.drop_last() =~= Seq::<Seq<u8>>::empty());
                assert(concat_all(m.drop_last()) == Seq::<u8>::empty());
                assert(concat_all(m) == concat_all(m.drop_last()) + m.last());
                assert(concat_all(m) =~= not_found_line());
            }
            writes
        },
    }
}

} // verus!
