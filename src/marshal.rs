//! Chunked transfers between host values and target memory.
//!
//! One memory command of the probe moves at most `MAX_TRANSFER` bytes. A
//! larger read or write is split here into commands at increasing addresses,
//! and the pieces of a read are joined again. The functions plan and check;
//! the caller moves the bytes.
use vstd::prelude::*;
use crate::error::LinkError;

verus! {

/// Largest number of bytes that one memory command of the probe moves.
pub const MAX_TRANSFER: u32 = 1024;

/// Target memory as the host sees it: one byte at every address.
pub type Memory = spec_fn(int) -> u8;

/// The `len` bytes of `m` from `addr` on.
pub open spec fn read_mem(m: Memory, addr: int, len: int) -> Seq<u8> {
    Seq::new(len as nat, |i: int| m(addr + i))
}

/// `m` after `data` is stored from `addr` on.
pub open spec fn write_mem(m: Memory, addr: int, data: Seq<u8>) -> Memory {
    |k: int|
        if addr <= k < addr + data.len() {
            data[k - addr]
        } else {
            m(k)
        }
}

/// One memory command's share of a read.
#[derive(Clone, Copy, Debug, PartialEq, Eq, Structural)]
pub struct Chunk {
    pub addr: u32,
    pub size: u32,
}

/// One memory command's share of a write.
#[derive(Debug, PartialEq, Eq)]
pub struct WriteChunk {
    pub addr: u32,
    pub data: Vec<u8>,
}

/// How many commands a transfer of `len` bytes takes.
pub open spec fn chunk_count(len: int) -> int {
    (len + MAX_TRANSFER - 1) / MAX_TRANSFER as int
}

/// Size of command `i` of a transfer of `len` bytes.
pub open spec fn chunk_size(len: int, i: int) -> int {
    if len - MAX_TRANSFER * i < MAX_TRANSFER {
        len - MAX_TRANSFER * i
    } else {
        MAX_TRANSFER as int
    }
}

/// The commands that read `len` bytes from `addr`: full-size ones at
/// increasing addresses, then what is left.
pub open spec fn plan_of(addr: u32, len: u32) -> Seq<Chunk> {
    Seq::new(
        chunk_count(len as int) as nat,
        |i: int|
            Chunk {
                addr: (addr + MAX_TRANSFER * i) as u32,
                size: chunk_size(len as int, i) as u32,
            },
    )
}

/// The data of command `i` of a write of `data`.
pub open spec fn piece_of(data: Seq<u8>, i: int) -> Seq<u8> {
    data.subrange(MAX_TRANSFER * i, MAX_TRANSFER * i + chunk_size(data.len() as int, i))
}

/// The pieces of a read joined in order.
pub open spec fn joined(parts: Seq<Seq<u8>>) -> Seq<u8>
    decreases parts.len(),
{
    if parts.len() == 0 {
        Seq::empty()
    } else {
        joined(parts.drop_last()) + parts.last()
    }
}

/// `m` after the writes of `ws`, in order.
pub open spec fn apply_writes(m: Memory, ws: Seq<(int, Seq<u8>)>) -> Memory
    decreases ws.len(),
{
    if ws.len() == 0 {
        m
    } else {
        write_mem(apply_writes(m, ws.drop_last()), ws.last().0, ws.last().1)
    }
}

/// The writes of a list of chunks, as address and bytes.
pub open spec fn writes_of(ws: Seq<WriteChunk>) -> Seq<(int, Seq<u8>)> {
    Seq::new(ws.len(), |i: int| (ws[i].addr as int, ws[i].data@))
}

/// Whether a transfer of `len` bytes at `addr` is aligned to words and lies
/// within the 32-bit address space.
pub open spec fn transfer_ok(addr: u32, len: u32) -> bool {
    addr % 4 == 0 && len % 4 == 0 && addr + len <= 0x1_0000_0000
}

/// The error for a transfer that `transfer_ok` refuses.
pub open spec fn transfer_error(addr: u32, len: u32) -> LinkError {
    if addr % 4 != 0 || len % 4 != 0 {
        LinkError::Alignment
    } else {
        LinkError::OutOfRange
    }
}

/// Checks a transfer of `len` bytes at `addr` before any traffic.
pub fn check_transfer(addr: u32, len: u32) -> (r: Result<(), LinkError>)
    ensures
        r is Ok <==> transfer_ok(addr, len),
        r is Err ==> r == Err::<(), LinkError>(transfer_error(addr, len)),
{
    if addr % 4 != 0 || len % 4 != 0 {
        Err(LinkError::Alignment)
    } else if addr as u64 + len as u64 > 0x1_0000_0000u64 {
        Err(LinkError::OutOfRange)
    } else {
        Ok(())
    }
}

/// The memory commands that read `len` bytes from `addr`.
pub fn plan_read(addr: u32, len: u32) -> (r: Result<Vec<Chunk>, LinkError>)
    ensures
        r is Ok <==> transfer_ok(addr, len),
        r is Ok ==> r.unwrap()@ == plan_of(addr, len),
        r is Err ==> r == Err::<Vec<Chunk>, LinkError>(transfer_error(addr, len)),
{
    match check_transfer(addr, len) {
        Err(e) => {
            return Err(e);
        },
        Ok(()) => {},
    }
    let count: u64 = (len as u64 + 1023) / 1024;
    let mut out: Vec<Chunk> = Vec::new();
    let mut i: u64 = 0;
    while i < count
        invariant
            transfer_ok(addr, len),
            count == chunk_count(len as int),
            i <= count,
            out@ == plan_of(addr, len).take(i as int),
        decreases count - i,
    {
        assert(MAX_TRANSFER * i < len) by (nonlinear_arith)
            requires
                i < count,
                count == (len + 1023) / 1024,
        ;
        let off = (i * 1024) as u32;
        let left = len - off;
        let size = if left < MAX_TRANSFER {
            left
        } else {
            MAX_TRANSFER
        };
        out.push(Chunk { addr: addr + off, size });
        assert(out@ =~= plan_of(addr, len).take(i + 1));
        i = i + 1;
    }
    assert(out@ =~= plan_of(addr, len));
    Ok(out)
}

/// Joins the answers to the commands of `plan`; `Marshal` unless there is
/// one answer per command, of the size that command asked for.
pub fn join_reads(plan: &Vec<Chunk>, parts: &Vec<Vec<u8>>) -> (r: Result<Vec<u8>, LinkError>)
    ensures
        r is Ok <==> (parts@.len() == plan@.len() && forall|i: int|
            0 <= i < plan@.len() ==> #[trigger] parts@[i]@.len() == plan@[i].size),
        r is Ok ==> r.unwrap()@ == joined(parts@.map_values(|p: Vec<u8>| p@)),
        r is Err ==> r == Err::<Vec<u8>, LinkError>(LinkError::Marshal),
{
    if parts.len() != plan.len() {
        return Err(LinkError::Marshal);
    }
    let ghost views = parts@.map_values(|p: Vec<u8>| p@);
    let mut out: Vec<u8> = Vec::new();
    let mut i: usize = 0;
    while i < parts.len()
        invariant
            parts@.len() == plan@.len(),
            views == parts@.map_values(|p: Vec<u8>| p@),
            i <= parts@.len(),
            forall|k: int| 0 <= k < i ==> #[trigger] parts@[k]@.len() == plan@[k].size,
            out@ == joined(views.take(i as int)),
        decreases parts@.len() - i,
    {
        let part = &parts[i];
        if part.len() != plan[i].size as usize {
            return Err(LinkError::Marshal);
        }
        let mut j: usize = 0;
        let ghost before = out@;
        while j < part.len()
            invariant
                i < parts@.len(),
                part == parts@[i as int],
                j <= part@.len(),
                out@ == before + part@.take(j as int),
            decreases part@.len() - j,
        {
            out.push(part[j]);
            assert(out@ =~= before + part@.take(j + 1));
            j = j + 1;
        }
        assert(views.take(i + 1).drop_last() =~= views.take(i as int));
        assert(part@.take(j as int) =~= part@);
        i = i + 1;
    }
    assert(views.take(i as int) =~= views);
    Ok(out)
}

/// The bytes `b[from .. to]` as a vector.
fn copy_range(b: &[u8], from: usize, to: usize) -> (r: Vec<u8>)
    requires
        from <= to <= b@.len(),
    ensures
        r@ == b@.subrange(from as int, to as int),
{
    let mut out: Vec<u8> = Vec::new();
    let mut k: usize = from;
    while k < to
        invariant
            from <= k <= to <= b@.len(),
            out@ == b@.subrange(from as int, k as int),
        decreases to - k,
    {
        out.push(b[k]);
        assert(out@ =~= b@.subrange(from as int, k + 1));
        k = k + 1;
    }
    out
}

/// The memory commands that write `data` from `addr` on.
pub fn plan_write(addr: u32, data: &[u8]) -> (r: Result<Vec<WriteChunk>, LinkError>)
    requires
        data@.len() <= u32::MAX,
    ensures
        r is Ok <==> transfer_ok(addr, data@.len() as u32),
        r is Ok ==> r.unwrap()@.len() == chunk_count(data@.len() as int) && forall|i: int|
            0 <= i < r.unwrap()@.len() ==> (#[trigger] r.unwrap()@[i]).addr == plan_of(
                addr,
                data@.len() as u32,
            )[i].addr && r.unwrap()@[i].data@ == piece_of(data@, i),
        r is Err ==> r == Err::<Vec<WriteChunk>, LinkError>(
            transfer_error(addr, data@.len() as u32),
        ),
{
    let len = data.len() as u32;
    let plan = match plan_read(addr, len) {
        Err(e) => {
            return Err(e);
        },
        Ok(p) => p,
    };
    let mut out: Vec<WriteChunk> = Vec::new();
    let mut i: usize = 0;
    while i < plan.len()
        invariant
            plan@ == plan_of(addr, len),
            len == data@.len(),
            transfer_ok(addr, len),
            i <= plan@.len(),
            out@.len() == i,
            forall|k: int|
                0 <= k < i ==> (#[trigger] out@[k]).addr == plan@[k].addr && out@[k].data@
                    == piece_of(data@, k),
        decreases plan@.len() - i,
    {
        let c = plan[i];
        let off = c.addr - addr;
        let piece = copy_range(data, off as usize, off as usize + c.size as usize);
        out.push(WriteChunk { addr: c.addr, data: piece });
        i = i + 1;
    }
    Ok(out)
}

proof fn lemma_join_prefix(m: Memory, addr: u32, len: u32, parts: Seq<Seq<u8>>, n: int)
    requires
        transfer_ok(addr, len),
        parts.len() == chunk_count(len as int),
        0 <= n <= parts.len(),
        forall|i: int|
            0 <= i < parts.len() ==> #[trigger] parts[i] == read_mem(
                m,
                plan_of(addr, len)[i].addr as int,
                plan_of(addr, len)[i].size as int,
            ),
    ensures
        joined(parts.take(n)) == read_mem(
            m,
            addr as int,
            if MAX_TRANSFER * n < len {
                MAX_TRANSFER * n
            } else {
                len as int
            },
        ),
    decreases n,
{
    if n > 0 {
        lemma_join_prefix(m, addr, len, parts, n - 1);
        assert(parts.take(n).drop_last() =~= parts.take(n - 1));
        let p = plan_of(addr, len)[n - 1];
        assert(MAX_TRANSFER * (n - 1) < len);
        assert(p.addr == addr + MAX_TRANSFER * (n - 1));
        assert(joined(parts.take(n)) =~= read_mem(
            m,
            addr as int,
            if MAX_TRANSFER * n < len {
                MAX_TRANSFER * n
            } else {
                len as int
            },
        ));
    } else {
        assert(joined(parts.take(n)) =~= read_mem(m, addr as int, 0));
    }
}

/// Reading in chunks is transparent: when each command's answer is the
/// memory it names, the joined answers are the memory of the whole range,
/// as one unchunked read would give it.
pub proof fn lemma_chunked_read(m: Memory, addr: u32, len: u32, parts: Seq<Seq<u8>>)
    requires
        transfer_ok(addr, len),
        parts.len() == plan_of(addr, len).len(),
        forall|i: int|
            0 <= i < parts.len() ==> #[trigger] parts[i] == read_mem(
                m,
                plan_of(addr, len)[i].addr as int,
                plan_of(addr, len)[i].size as int,
            ),
    ensures
        joined(parts) == read_mem(m, addr as int, len as int),
{
    let n = parts.len() as int;
    lemma_join_prefix(m, addr, len, parts, n);
    assert(parts.take(n) =~= parts);
    assert(len <= MAX_TRANSFER * n);
}

proof fn lemma_write_prefix(m: Memory, addr: u32, data: Seq<u8>, ws: Seq<(int, Seq<u8>)>, n: int, k: int)
    requires
        transfer_ok(addr, data.len() as u32),
        data.len() <= u32::MAX,
        ws.len() == chunk_count(data.len() as int),
        0 <= n <= ws.len(),
        forall|i: int|
            0 <= i < ws.len() ==> (#[trigger] ws[i]).0 == addr + MAX_TRANSFER * i && ws[i].1
                == piece_of(data, i),
    ensures
        apply_writes(m, ws.take(n))(k) == write_mem(
            m,
            addr as int,
            data.take(
                if MAX_TRANSFER * n < data.len() {
                    MAX_TRANSFER * n
                } else {
                    data.len() as int
                },
            ),
        )(k),
    decreases n,
{
    if n > 0 {
        lemma_write_prefix(m, addr, data, ws, n - 1, k);
        assert(ws.take(n).drop_last() =~= ws.take(n - 1));
        assert(MAX_TRANSFER * (n - 1) < data.len());
    }
}

/// Writing in chunks is transparent: the commands of `plan_write`, applied
/// in order, leave memory as one unchunked write of the whole value would.
pub proof fn lemma_chunked_write(m: Memory, addr: u32, data: Seq<u8>, ws: Seq<WriteChunk>, k: int)
    requires
        data.len() <= u32::MAX,
        transfer_ok(addr, data.len() as u32),
        ws.len() == chunk_count(data.len() as int),
        forall|i: int|
            0 <= i < ws.len() ==> (#[trigger] ws[i]).addr == plan_of(addr, data.len() as u32)[i].addr
                && ws[i].data@ == piece_of(data, i),
    ensures
        apply_writes(m, writes_of(ws))(k) == write_mem(m, addr as int, data)(k),
{
    let w = writes_of(ws);
    let n = ws.len() as int;
    assert forall|i: int| 0 <= i < w.len() implies (#[trigger] w[i]).0 == addr + MAX_TRANSFER * i
        && w[i].1 == piece_of(data, i) by {
        assert(MAX_TRANSFER * i < data.len());
    }
    lemma_write_prefix(m, addr, data, w, n, k);
    assert(w.take(n) =~= w);
    assert(data.len() <= MAX_TRANSFER * n);
    assert(data.take(data.len() as int) =~= data);
}

/// The address and size of `count` elements of `elem_size` bytes that
/// start `index` elements past `addr`; `OutOfRange` when either does not
/// fit in 32 bits.
pub fn element_range(addr: u32, index: u32, count: u32, elem_size: u32) -> (r: Result<
    (u32, u32),
    LinkError,
>)
    ensures
        r is Ok <==> (addr + index * elem_size <= u32::MAX && count * elem_size <= u32::MAX),
        r is Ok ==> r.unwrap() == ((addr + index * elem_size) as u32, (count * elem_size) as u32),
        r is Err ==> r == Err::<(u32, u32), LinkError>(LinkError::OutOfRange),
{
    assert((index as u64) * (elem_size as u64) <= 0xffff_ffffu64 * 0xffff_ffffu64
        && (count as u64) * (elem_size as u64) <= 0xffff_ffffu64 * 0xffff_ffffu64)
        by (nonlinear_arith);
    let start = (index as u64) * (elem_size as u64);
    let size = (count as u64) * (elem_size as u64);
    if addr as u64 + start > u32::MAX as u64 || size > u32::MAX as u64 {
        return Err(LinkError::OutOfRange);
    }
    Ok(((addr as u64 + start) as u32, size as u32))
}

} // verus!
