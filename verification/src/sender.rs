//! What the sending side puts on the wire: the file announcement frame, the
//! chunk frames, how a file is cut into chunks, and the byte signals the
//! desktop side emits for a file it reads.

use vstd::prelude::*;
use vstd::utf8::*;

verus! {

/// Size of the data part of every chunk, and of the announcement frame.
pub const CHUNK_SIZE: u64 = 8192;

/// Decimal digits of `n`, most significant first, as ASCII bytes (what
/// `to_string` gives for an integer).
pub open spec fn decimal(n: nat) -> Seq<u8>
    decreases n,
{
    if n < 10 {
        seq![(48 + n) as u8]
    } else {
        decimal(n / 10).push((48 + n % 10) as u8)
    }
}

/// `bytes` behind one byte that holds their length modulo 256.
pub open spec fn prefixed(bytes: Seq<u8>) -> Seq<u8> {
    seq![(bytes.len() % 256) as u8] + bytes
}

/// `k` zero bytes.
pub open spec fn zeros(k: nat) -> Seq<u8> {
    Seq::new(k, |i: int| 0u8)
}

/// The announcement frame: index 0, the length-prefixed decimal chunk count,
/// the length-prefixed name, zero-filled to `CHUNK_SIZE` bytes; nothing when
/// those parts do not fit.
pub open spec fn header_frame_of(chunk_count: nat, name: Seq<u8>) -> Option<Seq<u8>> {
    let c = prefixed(decimal(chunk_count));
    let n = prefixed(name);
    if 1 + c.len() + n.len() <= CHUNK_SIZE {
        Some(seq![0u8] + c + n + zeros((CHUNK_SIZE - 1 - c.len() - n.len()) as nat))
    } else {
        None
    }
}

/// A chunk frame: the length-prefixed decimal index, then the data
/// zero-filled to `CHUNK_SIZE` bytes.
pub open spec fn chunk_frame_of(idx: nat, data: Seq<u8>) -> Seq<u8> {
    prefixed(decimal(idx)) + data + zeros((CHUNK_SIZE - data.len()) as nat)
}

/// The number of chunks a file of `size` bytes is announced with: the
/// number of `CHUNK_SIZE` pieces needed to hold it, and at least one.
pub open spec fn announced_chunks(size: nat) -> nat {
    let c: nat = size / CHUNK_SIZE as nat + if size % CHUNK_SIZE as nat == 0 { 0nat } else { 1nat };
    if c == 0 { 1 } else { c }
}

/// Renders `n` in decimal.
pub fn decimal_bytes(n: u64) -> (r: Vec<u8>)
    ensures
        r@ == decimal(n as nat),
    decreases n,
{
    if n < 10 {
        let mut v: Vec<u8> = Vec::new();
        v.push((48 + n) as u8);
        v
    } else {
        let mut v = decimal_bytes(n / 10);
        v.push((48 + n % 10) as u8);
        v
    }
}

/// Puts the length of `bytes` (modulo 256) in front of them.
pub fn length_prefixed(bytes: &[u8]) -> (r: Vec<u8>)
    ensures
        r@ == prefixed(bytes@),
{
    let mut v: Vec<u8> = Vec::new();
    v.push((bytes.len() % 256) as u8);
    v.extend_from_slice(bytes);
    v
}

fn push_zeros(v: &mut Vec<u8>, k: usize)
    ensures
        final(v)@ == old(v)@ + zeros(k as nat),
{
    let ghost start = v@;
    let mut i: usize = 0;
    while i < k
        invariant
            i <= k,
            v@ == start + zeros(i as nat),
        decreases k - i,
    {
        v.push(0u8);
        i = i + 1;
        assert(v@ =~= start + zeros(i as nat));
    }
}

/// Builds the announcement frame for a file of `chunk_count` chunks named
/// `filename`; `None` when the two length-prefixed parts do not fit in one
/// frame.
pub fn header_frame(chunk_count: u64, filename: &str) -> (r: Option<Vec<u8>>)
    ensures
        match r {
            Some(f) => header_frame_of(chunk_count as nat, encode_utf8(filename@)) == Some(f@),
            None => header_frame_of(chunk_count as nat, encode_utf8(filename@)) is None,
        },
{
    let c = length_prefixed(decimal_bytes(chunk_count).as_slice());
    let n = length_prefixed(filename.as_bytes());
    if c.len() > 8192 || n.len() > 8192 || 1 + c.len() + n.len() > 8192 {
        return None;
    }
    let mut f: Vec<u8> = Vec::new();
    f.push(0u8);
    f.extend_from_slice(c.as_slice());
    f.extend_from_slice(n.as_slice());
    push_zeros(&mut f, 8192 - 1 - c.len() - n.len());
    assert(f@ =~= seq![0u8] + c@ + n@ + zeros((8192 - 1 - c@.len() - n@.len()) as nat));
    Some(f)
}

/// Builds the frame of chunk `idx` holding `data` (at most `CHUNK_SIZE`
/// bytes, as a slice of the file is).
pub fn chunk_frame(idx: u64, data: &[u8]) -> (r: Vec<u8>)
    requires
        data@.len() <= CHUNK_SIZE,
    ensures
        r@ == chunk_frame_of(idx as nat, data@),
{
    let mut f = length_prefixed(decimal_bytes(idx).as_slice());
    f.extend_from_slice(data);
    push_zeros(&mut f, 8192 - data.len());
    f
}

/// The chunk count announced for a file of `size` bytes.
pub fn chunk_count(size: u64) -> (r: u64)
    ensures
        r == announced_chunks(size as nat),
{
    let c: u64 = size / 8192 + if size % 8192 == 0 { 0 } else { 1 };
    if c == 0 { 1 } else { c }
}

/// One slice of the file that is read and sent as a chunk.
#[derive(Debug, Clone, Copy, PartialEq, Eq)]
pub struct ChunkSlice {
    pub index: u64,
    pub start: u64,
    pub end: u64,
}

/// The slices a file of `size` bytes is sent in: slice `i` (counting from
/// 0) has index `i + 1` and covers bytes `[i * CHUNK_SIZE, (i + 1) * CHUNK_SIZE)`
/// (the file clamps the end), for every start not past `size`.
pub fn chunk_plan(size: u64) -> (r: Vec<ChunkSlice>)
    requires
        size <= u64::MAX - 2 * CHUNK_SIZE,
    ensures
        r@.len() == size / CHUNK_SIZE + 1,
        forall|i: int| 0 <= i < r@.len() ==> #[trigger] r@[i] == (ChunkSlice {
            index: (i + 1) as u64,
            start: (i * CHUNK_SIZE) as u64,
            end: ((i + 1) * CHUNK_SIZE) as u64,
        }),
{
    let mut plan: Vec<ChunkSlice> = Vec::new();
    let mut start: u64 = 0;
    let mut idx: u64 = 1;
    while start <= size
        invariant
            size <= u64::MAX - 2 * CHUNK_SIZE,
            start == (idx - 1) * CHUNK_SIZE,
            idx >= 1,
            plan@.len() == idx - 1,
            start <= size + CHUNK_SIZE,
            (idx - 1) * CHUNK_SIZE <= size + CHUNK_SIZE,
            forall|i: int| 0 <= i < plan@.len() ==> #[trigger] plan@[i] == (ChunkSlice {
                index: (i + 1) as u64,
                start: (i * CHUNK_SIZE) as u64,
                end: ((i + 1) * CHUNK_SIZE) as u64,
            }),
        decreases size + CHUNK_SIZE - start,
    {
        plan.push(ChunkSlice { index: idx, start, end: start + 8192 });
        start = start + 8192;
        idx = idx + 1;
    }
    assert(plan@.len() == size / CHUNK_SIZE + 1) by (nonlinear_arith)
        requires
            start == (plan@.len()) * CHUNK_SIZE,
            start > size,
            start <= size + CHUNK_SIZE,
    ;
    plan
}

/// A signal the desktop side emits while it reads a file.
#[derive(Debug, Clone, Copy, PartialEq, Eq)]
pub struct FileSignalRes {
    pub signal: u8,
    pub chunk: Option<u8>,
}

/// The signals for a file with content `bytes`: one per byte, carrying the
/// byte, then a final signal 1 that the file is done.
pub open spec fn signals_of(bytes: Seq<u8>) -> Seq<FileSignalRes> {
    Seq::new(bytes.len(), |i: int| FileSignalRes { signal: bytes[i], chunk: None })
        .push(FileSignalRes { signal: 1, chunk: None })
}

/// Lists the signals emitted for a file with content `bytes`.
pub fn file_signals(bytes: &[u8]) -> (r: Vec<FileSignalRes>)
    ensures
        r@ == signals_of(bytes@),
{
    let mut out: Vec<FileSignalRes> = Vec::new();
    let mut i: usize = 0;
    while i < bytes.len()
        invariant
            i <= bytes@.len(),
            out@ =~= Seq::new(i as nat, |k: int| FileSignalRes { signal: bytes@[k], chunk: None }),
        decreases bytes@.len() - i,
    {
        out.push(FileSignalRes { signal: bytes[i], chunk: None });
        i = i + 1;
    }
    out.push(FileSignalRes { signal: 1, chunk: None });
    out
}

/// What reading the slice `[start, end)` of a file with content `content`
/// gives: both ends are clamped to the file.
pub open spec fn slice_of(content: Seq<u8>, start: int, end: int) -> Seq<u8> {
    let len: int = content.len() as int;
    let s: int = if start < len { start } else { len };
    let e: int = if end < len { end } else { len };
    content.subrange(s, if e < s { s } else { e })
}

/// The data of the `i`-th slice (counting from 0) of a file.
pub open spec fn piece(content: Seq<u8>, i: int) -> Seq<u8> {
    slice_of(content, i * CHUNK_SIZE, (i + 1) * CHUNK_SIZE)
}

/// Reads the slice `[start, end)` of `content`, clamped to it.
pub fn read_slice(content: &[u8], start: u64, end: u64) -> (r: Vec<u8>)
    ensures
        r@ == slice_of(content@, start as int, end as int),
{
    let len: usize = content.len();
    let s: usize = if (start as u128) < (len as u128) { start as usize } else { len };
    let e: usize = if (end as u128) < (len as u128) { end as usize } else { len };
    let e2: usize = if e < s { s } else { e };
    vstd::slice::slice_to_vec(vstd::slice::slice_subrange(content, s, e2))
}

/// All frames sent for a file named `filename` with content `content`: the
/// announcement, then one chunk frame per slice of the plan, in order;
/// `None` when the announcement does not fit in a frame.
pub fn file_frames(filename: &str, content: &[u8]) -> (r: Option<Vec<Vec<u8>>>)
    requires
        content@.len() <= u64::MAX - 2 * CHUNK_SIZE,
    ensures
        match r {
            None => header_frame_of(announced_chunks(content@.len()), encode_utf8(filename@)) is None,
            Some(fs) => {
                &&& fs@.len() == content@.len() / CHUNK_SIZE as nat + 2
                &&& header_frame_of(announced_chunks(content@.len()), encode_utf8(filename@)) == Some(fs@[0]@)
                &&& forall|i: int| 0 <= i < fs@.len() - 1 ==>
                    #[trigger] fs@[i + 1]@ == chunk_frame_of((i + 1) as nat, piece(content@, i))
            },
        },
{
    let size: u64 = content.len() as u64;
    let header = match header_frame(chunk_count(size), filename) {
        Some(h) => h,
        None => {
            return None;
        },
    };
    let plan = chunk_plan(size);
    let mut frames: Vec<Vec<u8>> = Vec::new();
    frames.push(header);
    let mut k: usize = 0;
    while k < plan.len()
        invariant
            k <= plan@.len(),
            plan@.len() == size / CHUNK_SIZE + 1,
            size == content@.len(),
            forall|i: int| 0 <= i < plan@.len() ==> #[trigger] plan@[i] == (ChunkSlice {
                index: (i + 1) as u64,
                start: (i * CHUNK_SIZE) as u64,
                end: ((i + 1) * CHUNK_SIZE) as u64,
            }),
            size <= u64::MAX - 2 * CHUNK_SIZE,
            frames@.len() == k + 1,
            header_frame_of(announced_chunks(content@.len()), encode_utf8(filename@)) == Some(frames@[0]@),
            forall|i: int| 0 <= i < k ==>
                #[trigger] frames@[i + 1]@ == chunk_frame_of((i + 1) as nat, piece(content@, i)),
        decreases plan@.len() - k,
    {
        let sl = plan[k];
        assert(sl == plan@[k as int]);
        assert((k + 1) * CHUNK_SIZE <= size + CHUNK_SIZE) by (nonlinear_arith)
            requires
                k < size / CHUNK_SIZE + 1,
        ;
        let data = read_slice(content, sl.start, sl.end);
        let f = chunk_frame(sl.index, data.as_slice());
        frames.push(f);
        k = k + 1;
    }
    Some(frames)
}

/// The slices a file is sent in, put back together, give the file: the
/// data of the `content.len() / CHUNK_SIZE + 1` slices of the plan,
/// concatenated in order, is `content`.
pub proof fn lemma_pieces_reassemble(content: Seq<u8>)
    ensures
        Seq::new(content.len() / CHUNK_SIZE as nat + 1, |i: int| piece(content, i)).flatten() == content,
{
    let n: nat = content.len() / CHUNK_SIZE as nat + 1;
    lemma_pieces_prefix(content, n as int);
    assert(n * CHUNK_SIZE >= content.len()) by (nonlinear_arith)
        requires
            n == content.len() / CHUNK_SIZE as nat + 1,
    ;
    assert(content.subrange(0, content.len() as int) =~= content);
}

proof fn lemma_pieces_prefix(content: Seq<u8>, k: int)
    requires
        k >= 0,
    ensures
        Seq::new(k as nat, |i: int| piece(content, i)).flatten()
            == content.subrange(0, if k * CHUNK_SIZE < content.len() { k * CHUNK_SIZE } else { content.len() as int }),
    decreases k,
{
    broadcast use Seq::lemma_flatten_push;
    if k == 0 {
        assert(Seq::new(0nat, |i: int| piece(content, i)) =~= Seq::<Seq<u8>>::empty());
        assert(content.subrange(0, 0) =~= Seq::<u8>::empty());
    } else {
        lemma_pieces_prefix(content, k - 1);
        let prev = Seq::new((k - 1) as nat, |i: int| piece(content, i));
        assert(Seq::new(k as nat, |i: int| piece(content, i)) =~= prev.push(piece(content, k - 1)));
        let len: int = content.len() as int;
        let a: int = if (k - 1) * CHUNK_SIZE < len { (k - 1) * CHUNK_SIZE } else { len };
        let b: int = if k * CHUNK_SIZE < len { k * CHUNK_SIZE } else { len };
        assert(piece(content, k - 1) == content.subrange(a, b));
        assert(content.subrange(0, a) + content.subrange(a, b) =~= content.subrange(0, b));
    }
}

/// The number written by a string of ASCII decimal digits, most
/// significant first.
pub open spec fn digits_value(s: Seq<u8>) -> nat
    decreases s.len(),
{
    if s.len() == 0 {
        0
    } else {
        digits_value(s.drop_last()) * 10 + (s.last() - 48) as nat
    }
}

/// The decimal rendering of `n` is the usual one: at least one byte, every
/// byte an ASCII digit, no leading zero unless `n` is 0 itself, and the
/// digits read back as `n`.
pub proof fn lemma_decimal_digits(n: nat)
    ensures
        decimal(n).len() >= 1,
        forall|i: int| 0 <= i < decimal(n).len() ==> 48 <= #[trigger] decimal(n)[i] <= 57,
        n >= 1 ==> decimal(n)[0] != 48,
        n < 10 ==> decimal(n).len() == 1,
        digits_value(decimal(n)) == n,
    decreases n,
{
    if n < 10 {
        let d = decimal(n);
        assert(d.drop_last() =~= Seq::<u8>::empty());
        assert(digits_value(d.drop_last()) == 0);
        assert(d.last() == 48 + n);
    } else {
        lemma_decimal_digits(n / 10);
        let d = decimal(n);
        let p = decimal(n / 10);
        assert(d == p.push((48 + n % 10) as u8));
        assert(d.drop_last() =~= p);
        assert forall|i: int| 0 <= i < d.len() implies 48 <= #[trigger] d[i] <= 57 by {
            if i < p.len() {
                assert(d[i] == p[i]);
            }
        }
        assert(d[0] == p[0]);
        assert(d.last() == 48 + n % 10);
        assert(digits_value(d) == digits_value(p) * 10 + (d.last() - 48) as nat);
        assert(n == (n / 10) * 10 + n % 10) by (nonlinear_arith);
    }
}

/// The announcement frame's layout: it exists exactly when the count's
/// digits, the name and their three bytes of index and lengths fit in
/// `CHUNK_SIZE` bytes; it is then `CHUNK_SIZE` bytes long and holds index 0,
/// the number of digits of the count, those digits, the name's length
/// (modulo 256), the name, and zeros.
pub proof fn lemma_header_frame_layout(c: nat, name: Seq<u8>)
    ensures
        header_frame_of(c, name) is None <==> 3 + decimal(c).len() + name.len() > CHUNK_SIZE,
        header_frame_of(c, name) matches Some(f) ==> {
            let d = decimal(c);
            let l = d.len() as int;
            &&& f.len() == CHUNK_SIZE
            &&& f[0] == 0
            &&& f[1] as int == l % 256
            &&& forall|i: int| 0 <= i < l ==> f[2 + i] == #[trigger] d[i]
            &&& f[2 + l] as int == name.len() % 256
            &&& forall|i: int| 0 <= i < name.len() ==> f[3 + l + i] == #[trigger] name[i]
            &&& forall|i: int| 3 + l + name.len() <= i < CHUNK_SIZE ==> #[trigger] f[i] == 0
        },
{
    if let Some(f) = header_frame_of(c, name) {
        let d = decimal(c);
        let l = d.len() as int;
        let cp = prefixed(d);
        let np = prefixed(name);
        let z = zeros((CHUNK_SIZE - 1 - cp.len() - np.len()) as nat);
        assert(f == seq![0u8] + cp + np + z);
        assert forall|i: int| 0 <= i < l implies f[2 + i] == #[trigger] d[i] by {
            assert(f[2 + i] == cp[1 + i]);
        }
        assert forall|i: int| 0 <= i < name.len() implies f[3 + l + i] == #[trigger] name[i] by {
            assert(f[3 + l + i] == np[1 + i]);
        }
        assert forall|i: int| 3 + l + name.len() <= i < CHUNK_SIZE implies #[trigger] f[i] == 0 by {
            assert(f[i] == z[i - 3 - l - name.len()]);
        }
        assert(f[1] == cp[0]);
        assert(f[2 + l] == np[0]);
    }
}

/// A chunk frame's layout: the number of digits of the index (modulo 256),
/// those digits, the whole data, then zeros up to `CHUNK_SIZE` bytes of
/// data part.
pub proof fn lemma_chunk_frame_layout(idx: nat, data: Seq<u8>)
    requires
        data.len() <= CHUNK_SIZE,
    ensures
        ({
            let f = chunk_frame_of(idx, data);
            let d = decimal(idx);
            let l = d.len() as int;
            &&& f.len() == 1 + l + CHUNK_SIZE
            &&& f[0] as int == l % 256
            &&& forall|i: int| 0 <= i < l ==> f[1 + i] == #[trigger] d[i]
            &&& forall|i: int| 0 <= i < data.len() ==> f[1 + l + i] == #[trigger] data[i]
            &&& forall|i: int| 1 + l + data.len() <= i < 1 + l + CHUNK_SIZE ==> #[trigger] f[i] == 0
        }),
{
    let f = chunk_frame_of(idx, data);
    let d = decimal(idx);
    let l = d.len() as int;
    let cp = prefixed(d);
    let z = zeros((CHUNK_SIZE - data.len()) as nat);
    assert(f == cp + data + z);
    assert forall|i: int| 0 <= i < l implies f[1 + i] == #[trigger] d[i] by {
        assert(f[1 + i] == cp[1 + i]);
    }
    assert forall|i: int| 0 <= i < data.len() implies f[1 + l + i] == #[trigger] data[i] by {
        assert(f[1 + l + i] == (cp + data)[1 + l + i]);
    }
    assert forall|i: int| 1 + l + data.len() <= i < 1 + l + CHUNK_SIZE implies #[trigger] f[i] == 0 by {
        assert(f[i] == z[i - 1 - l - data.len()]);
    }
    assert(f[0] == cp[0]);
}

/// The signals of a file: exactly one per byte, carrying the byte and no
/// chunk, in the file's order, then the one done signal 1.
pub proof fn lemma_signals_cover_file(bytes: Seq<u8>)
    ensures
        signals_of(bytes).len() == bytes.len() + 1,
        forall|i: int| 0 <= i < bytes.len() ==> #[trigger] signals_of(bytes)[i]
            == (FileSignalRes { signal: bytes[i], chunk: None }),
        signals_of(bytes)[bytes.len() as int] == (FileSignalRes { signal: 1, chunk: None }),
{
}

/// The announced chunk count is the least positive number of
/// `CHUNK_SIZE` pieces that hold the file.
pub proof fn lemma_announced_chunks_least_cover(size: nat)
    ensures
        announced_chunks(size) >= 1,
        announced_chunks(size) * CHUNK_SIZE >= size,
        announced_chunks(size) == 1 || (announced_chunks(size) - 1) * CHUNK_SIZE < size,
{
    let q = size / CHUNK_SIZE as nat;
    let r = size % CHUNK_SIZE as nat;
    assert(size == q * CHUNK_SIZE + r && r < CHUNK_SIZE) by (nonlinear_arith)
        requires
            q == size / CHUNK_SIZE as nat,
            r == size % CHUNK_SIZE as nat,
    ;
}

/// Reading a slice gives the file's bytes from `start` on, in order, and
/// as many as lie between `start` and `end` inside the file.
pub proof fn lemma_slice_reads_the_file(content: Seq<u8>, start: int, end: int)
    requires
        0 <= start,
    ensures
        slice_of(content, start, end).len() == if start >= content.len() || end <= start {
            0
        } else if end < content.len() {
            end - start
        } else {
            content.len() - start
        },
        forall|i: int| 0 <= i < slice_of(content, start, end).len()
            ==> #[trigger] slice_of(content, start, end)[i] == content[start + i],
{
}

} // verus!
