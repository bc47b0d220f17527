//! The receiver's bookkeeping while a file arrives chunk by chunk: which
//! file is being written and how many announcements and chunks have been
//! counted so far.

use vstd::prelude::*;
use vstd::utf8::encode_utf8;
use crate::header::{chunk_of, decode_chunk_payload, decode_file_header, header_of_text, HeaderError, PayloadError};

verus! {

/// The state shared by the announcement handler and the chunk handler.
pub struct FileTransferState {
    filename: Option<String>,
    progress: u8,
}

/// The mathematical picture of [`FileTransferState`].
pub struct ReceiverModel {
    pub filename: Option<Seq<char>>,
    pub progress: u8,
}

/// What the chunk handler asks its caller to do.
pub struct ChunkOutcome {
    /// Append these bytes to the file of this name.
    pub append: Option<(String, Vec<u8>)>,
    /// The transfer is complete: stop listening for chunks.
    pub finished: bool,
}

impl View for FileTransferState {
    type V = ReceiverModel;

    closed spec fn view(&self) -> ReceiverModel {
        ReceiverModel {
            filename: match self.filename {
                Some(s) => Some(s@),
                None => None,
            },
            progress: self.progress,
        }
    }
}

/// The progress counter is a `u8` that wraps around.
pub open spec fn next_count(p: u8) -> u8 {
    if p == 255 {
        0
    } else {
        (p + 1) as u8
    }
}

/// The state before any announcement.
pub open spec fn idle() -> ReceiverModel {
    ReceiverModel { filename: None, progress: 0 }
}

/// An announcement: remember the name and count the announcement.
pub open spec fn announce(m: ReceiverModel, name: Seq<char>) -> ReceiverModel {
    ReceiverModel { filename: Some(name), progress: next_count(m.progress) }
}

/// The model's state after one chunk.
pub open spec fn after_chunk(m: ReceiverModel, chunk_count: u8) -> ReceiverModel {
    if m.progress == chunk_count {
        idle()
    } else {
        ReceiverModel { filename: m.filename, progress: next_count(m.progress) }
    }
}

/// What one chunk writes: its data, to the current file, when its index
/// equals the count before it.
pub open spec fn chunk_write(m: ReceiverModel, idx: u8, data: Seq<u8>) -> Option<(Seq<char>, Seq<u8>)> {
    if m.progress == idx {
        Some((m.filename.unwrap(), data))
    } else {
        None
    }
}

/// The view of an outcome's write.
pub open spec fn write_view(w: Option<(String, Vec<u8>)>) -> Option<(Seq<char>, Seq<u8>)> {
    match w {
        Some((n, d)) => Some((n@, d@)),
        None => None,
    }
}

/// The state and the writes after a sequence of chunks, each an index and
/// its data.
pub open spec fn replay(m: ReceiverModel, chunk_count: u8, chunks: Seq<(u8, Seq<u8>)>) -> (ReceiverModel, Seq<(Seq<char>, Seq<u8>)>)
    decreases chunks.len(),
{
    if chunks.len() == 0 {
        (m, Seq::empty())
    } else {
        let prev = replay(m, chunk_count, chunks.drop_last());
        let c = chunks.last();
        let writes = match chunk_write(prev.0, c.0, c.1) {
            Some(w) => prev.1.push(w),
            None => prev.1,
        };
        (after_chunk(prev.0, chunk_count), writes)
    }
}

impl FileTransferState {
    /// No file is being received.
    pub fn new() -> (s: Self)
        ensures
            s@ == idle(),
    {
        FileTransferState { filename: None, progress: 0 }
    }

    /// The name of the file being received, if any.
    pub fn filename(&self) -> (r: Option<&String>)
        ensures
            match r {
                Some(n) => self@.filename == Some(n@),
                None => self@.filename is None,
            },
    {
        self.filename.as_ref()
    }

    /// The announcements and chunks counted so far.
    pub fn progress(&self) -> (r: u8)
        ensures
            r == self@.progress,
    {
        self.progress
    }

    /// Whether a file is being received, which the chunk handler needs.
    pub fn is_receiving(&self) -> (r: bool)
        ensures
            r == self@.filename is Some,
    {
        self.filename.is_some()
    }

    /// Handles an announcement: remembers the file name and counts it.
    pub fn begin_receive(&mut self, filename: String)
        ensures
            final(self)@ == announce(old(self)@, filename@),
    {
        self.filename = Some(filename);
        self.progress = if self.progress == 255 { 0 } else { self.progress + 1 };
    }

    /// Handles the chunk with index `idx` of a transfer of `chunk_count`
    /// chunks: its data is written when its index equals the count before
    /// it, the count goes up, and the transfer ends (the state returning to
    /// idle) when the count before it equals `chunk_count`.
    pub fn on_chunk(&mut self, chunk_count: u8, idx: u8, data: Vec<u8>) -> (r: ChunkOutcome)
        requires
            old(self)@.filename is Some,
        ensures
            write_view(r.append) == chunk_write(old(self)@, idx, data@),
            r.finished == (old(self)@.progress == chunk_count),
            final(self)@ == after_chunk(old(self)@, chunk_count),
    {
        let progress: u8 = self.progress;
        self.progress = if progress == 255 { 0 } else { progress + 1 };
        let append = if progress == idx {
            match &self.filename {
                Some(name) => Some((name.clone(), data)),
                None => None,
            }
        } else {
            None
        };
        let finished = progress == chunk_count;
        if finished {
            self.filename = None;
            self.progress = 0;
        }
        ChunkOutcome { append, finished }
    }
}

impl Default for FileTransferState {
    /// No file is being received.
    fn default() -> (s: Self)
        ensures
            s@ == idle(),
    {
        FileTransferState::new()
    }
}

/// The chunks `1, 2, ..., datas.len()` carrying `datas` in order.
pub open spec fn in_order(datas: Seq<Seq<u8>>) -> Seq<(u8, Seq<u8>)> {
    Seq::new(datas.len(), |i: int| ((i + 1) as u8, datas[i]))
}

/// A transfer delivered in order is assembled whole: after an announcement
/// of `name` with `datas.len()` chunks (between 1 and 255), and the chunks
/// `1..=datas.len()` in order, every chunk's data has been written to
/// `name` in order; before the last chunk the transfer is still running,
/// and after it the receiver is idle again.
pub proof fn lemma_in_order_transfer_assembles(name: Seq<char>, datas: Seq<Seq<u8>>)
    requires
        1 <= datas.len() <= 255,
    ensures
        forall|k: int| 0 <= k <= datas.len() ==> {
            let r = #[trigger] replay(announce(idle(), name), datas.len() as u8, in_order(datas).take(k));
            &&& r.1 == Seq::new(k as nat, |i: int| (name, datas[i]))
            &&& r.0 == if k < datas.len() {
                ReceiverModel { filename: Some(name), progress: (k + 1) as u8 }
            } else {
                idle()
            }
        },
{
    assert forall|k: int| 0 <= k <= datas.len() implies {
        let r = #[trigger] replay(announce(idle(), name), datas.len() as u8, in_order(datas).take(k));
        &&& r.1 == Seq::new(k as nat, |i: int| (name, datas[i]))
        &&& r.0 == if k < datas.len() {
            ReceiverModel { filename: Some(name), progress: (k + 1) as u8 }
        } else {
            idle()
        }
    } by {
        lemma_in_order_prefix(name, datas, k);
    }
}

proof fn lemma_in_order_prefix(name: Seq<char>, datas: Seq<Seq<u8>>, k: int)
    requires
        1 <= datas.len() <= 255,
        0 <= k <= datas.len(),
    ensures
        ({
            let r = replay(announce(idle(), name), datas.len() as u8, in_order(datas).take(k));
            &&& r.1 == Seq::new(k as nat, |i: int| (name, datas[i]))
            &&& r.0 == if k < datas.len() {
                ReceiverModel { filename: Some(name), progress: (k + 1) as u8 }
            } else {
                idle()
            }
        }),
    decreases k,
{
    let n: u8 = datas.len() as u8;
    let start = announce(idle(), name);
    let evs = in_order(datas).take(k);
    if k == 0 {
        assert(evs.len() == 0);
        assert(Seq::new(0nat, |i: int| (name, datas[i])) =~= Seq::<(Seq<char>, Seq<u8>)>::empty());
    } else {
        lemma_in_order_prefix(name, datas, k - 1);
        assert(evs.drop_last() =~= in_order(datas).take(k - 1));
        let prev = replay(start, n, in_order(datas).take(k - 1));
        assert(evs.last() == (k as u8, datas[k - 1]));
        assert(prev.0.progress == k as u8);
        assert(Seq::new((k - 1) as nat, |i: int| (name, datas[i])).push((name, datas[k - 1]))
            =~= Seq::new(k as nat, |i: int| (name, datas[i])));
    }
}

/// Handles an announcement text (one that reads, see
/// [`decode_file_header`]; any other stops the handler): starts receiving
/// the named file and gives back its chunk count.
pub fn handle_announcement(state: &mut FileTransferState, encoded: &str) -> (r: u8)
    requires
        header_of_text(encode_utf8(encoded@)) is Ok,
    ensures
        header_of_text(encode_utf8(encoded@)) == Ok::<(u8, Seq<char>), HeaderError>((r, final(state)@.filename.unwrap())),
        final(state)@ == announce(old(state)@, final(state)@.filename.unwrap()),
{
    match decode_file_header(encoded) {
        Ok(h) => {
            let count: u8 = h.chunk_count;
            state.begin_receive(h.filename);
            count
        },
        Err(_) => 0,
    }
}

/// Handles a chunk event of a transfer of `chunk_count` chunks while a file
/// is being received (a payload that does not decode, see
/// [`decode_chunk_payload`], stops the handler): an empty payload does
/// nothing; a chunk is applied to the state.
pub fn handle_chunk_event(state: &mut FileTransferState, chunk_count: u8, payload: &str) -> (r: Option<ChunkOutcome>)
    requires
        old(state)@.filename is Some,
        chunk_of(encode_utf8(payload@)) is Ok,
    ensures
        match chunk_of(encode_utf8(payload@)) {
            Ok(Some((idx, data))) => r matches Some(o) && {
                &&& write_view(o.append) == chunk_write(old(state)@, idx, data)
                &&& o.finished == (old(state)@.progress == chunk_count)
                &&& final(state)@ == after_chunk(old(state)@, chunk_count)
            },
            _ => r is None && final(state)@ == old(state)@,
        },
{
    match decode_chunk_payload(payload) {
        Ok(Some((idx, data))) => Some(state.on_chunk(chunk_count, idx, data)),
        _ => None,
    }
}

/// Reads an announcement text and handles it when it reads: starts
/// receiving the named file and gives back its chunk count; otherwise gives
/// back why it was refused, with the state unchanged.
pub fn try_handle_announcement(state: &mut FileTransferState, encoded: &str) -> (r: Result<u8, HeaderError>)
    ensures
        match header_of_text(encode_utf8(encoded@)) {
            Ok((count, name)) => r == Ok::<u8, HeaderError>(count) && final(state)@ == announce(old(state)@, name),
            Err(e) => r == Err::<u8, HeaderError>(e) && final(state)@ == old(state)@,
        },
{
    match decode_file_header(encoded) {
        Err(e) => Err(e),
        Ok(_) => Ok(handle_announcement(state, encoded)),
    }
}

/// Reads a chunk payload and handles it when it reads (while a file is
/// being received); otherwise gives back why it was refused, with the state
/// unchanged.
pub fn try_handle_chunk_event(state: &mut FileTransferState, chunk_count: u8, payload: &str) -> (r: Result<Option<ChunkOutcome>, PayloadError>)
    requires
        old(state)@.filename is Some,
    ensures
        match chunk_of(encode_utf8(payload@)) {
            Err(e) => r == Err::<Option<ChunkOutcome>, PayloadError>(e) && final(state)@ == old(state)@,
            Ok(None) => r matches Ok(None) && final(state)@ == old(state)@,
            Ok(Some((idx, data))) => r matches Ok(Some(o)) && {
                &&& write_view(o.append) == chunk_write(old(state)@, idx, data)
                &&& o.finished == (old(state)@.progress == chunk_count)
                &&& final(state)@ == after_chunk(old(state)@, chunk_count)
            },
        },
{
    match decode_chunk_payload(payload) {
        Err(e) => Err(e),
        Ok(_) => Ok(handle_chunk_event(state, chunk_count, payload)),
    }
}

} // verus!
