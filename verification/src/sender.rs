//! The streaming sender core: chunks arrive in any order, an in-order
//! prefix of their bytes is assembled into a buffer, and the buffer is cut
//! into size-bounded parts that are routed to one of the two backends.
//!
//! The asynchronous shell (queues, tasks, the actual sends) lives outside
//! this crate; everything here is a pure state machine over plain values.

use vstd::prelude::*;

verus! {

use vstd::pervasive::VecAdditionalExecFns;

/// Concatenation of the payloads of chunks `0 .. k`, as recorded in a map
/// from chunk index to payload.
pub open spec fn concat_upto(chunks: Map<int, Seq<u8>>, k: int) -> Seq<u8>
    decreases k,
{
    if k <= 0 {
        Seq::empty()
    } else {
        concat_upto(chunks, k - 1) + chunks[k - 1]
    }
}

/// Concatenation of a sequence of byte strings, in order.
pub open spec fn concat_all(pieces: Seq<Seq<u8>>) -> Seq<u8>
    decreases pieces.len(),
{
    if pieces.len() == 0 {
        Seq::empty()
    } else {
        concat_all(pieces.drop_last()) + pieces.last()
    }
}

/// If the map agrees with `pieces` on every index below `k`, the two
/// notions of concatenation agree on that prefix.
pub proof fn lemma_concat_upto_matches(chunks: Map<int, Seq<u8>>, pieces: Seq<Seq<u8>>, k: int)
    requires
        0 <= k <= pieces.len(),
        forall|i: int| 0 <= i < k ==> #[trigger] chunks.contains_key(i),
        forall|i: int| 0 <= i < k ==> #[trigger] chunks[i] == pieces[i],
    ensures
        concat_upto(chunks, k) == concat_all(pieces.take(k)),
    decreases k,
{
    if k > 0 {
        lemma_concat_upto_matches(chunks, pieces, k - 1);
        assert(chunks.contains_key(k - 1) && chunks[k - 1] == pieces[k - 1]);
        assert(pieces.take(k).drop_last() =~= pieces.take(k - 1));
        assert(pieces.take(k).last() == pieces[k - 1]);
    } else {
        assert(pieces.take(0) =~= Seq::<Seq<u8>>::empty());
    }
}

/// Inserting a chunk at or above index `k` leaves the concatenation of the
/// first `k` chunks unchanged.
pub proof fn lemma_concat_upto_insert_above(m: Map<int, Seq<u8>>, j: int, v: Seq<u8>, k: int)
    requires
        j >= k,
    ensures
        concat_upto(m.insert(j, v), k) == concat_upto(m, k),
    decreases k,
{
    if k > 0 {
        lemma_concat_upto_insert_above(m, j, v, k - 1);
    }
}

/// Concatenating one more piece appends its bytes.
pub proof fn lemma_concat_all_push(pieces: Seq<Seq<u8>>, piece: Seq<u8>)
    ensures
        concat_all(pieces.push(piece)) == concat_all(pieces) + piece,
{
    assert(pieces.push(piece).drop_last() =~= pieces);
    assert(pieces.push(piece).last() == piece);
}

/// Routing policy: odd part numbers go to backend A; even part numbers go
/// to backend B when it is enabled, otherwise also to A.
pub open spec fn spec_routes_to_b(part: u32, b_enabled: bool) -> bool {
    b_enabled && part % 2 == 0
}

/// Decide where a part goes; `true` means backend B.
pub fn routes_to_b(part: u32, b_enabled: bool) -> (r: bool)
    ensures
        r == spec_routes_to_b(part, b_enabled),
{
    b_enabled && part % 2 == 0
}

/// One part cut from the assembled byte stream, ready for dispatch.
pub struct PartPayload {
    /// 1-based part number.
    pub part: u32,
    /// `true` when the routing policy sends this part to backend B.
    pub to_backend_b: bool,
    /// The uncompressed bytes of this part.
    pub data: Vec<u8>,
}

/// The sender's reorder-and-cut state machine.
///
/// Chunks are accepted in any order into a slot table; `assemble` moves the
/// contiguous ready prefix into the byte buffer; `cut_part` and
/// `flush_final` emit parts. The ghost `chunks` map records the payload of
/// every chunk accepted so far, and the ghost `emitted` sequence records
/// every byte already cut into a part, so that the machine's invariant
/// pins the emitted stream to the chunk payloads in index order no matter
/// the order of arrival.
pub struct StreamingSender {
    /// Number of chunks the client announced.
    pub total_chunks: usize,
    /// Uncompressed byte budget of a single part; at least 1.
    pub input_limit: usize,
    /// Whether backend B takes the even-numbered parts.
    pub b_enabled: bool,
    /// Index of the next chunk to append to `buffer`.
    pub next_expected: usize,
    /// Out-of-order arrivals: slot `i` holds chunk `i` until it is
    /// assembled; slots below `next_expected` are cleared.
    pub slots: Vec<Option<Vec<u8>>>,
    /// In-order bytes not yet cut into a part.
    pub buffer: Vec<u8>,
    /// Number of parts cut so far.
    pub parts_cut: u32,
    /// Payload of every chunk accepted so far, by index.
    pub chunks: Ghost<Map<int, Seq<u8>>>,
    /// All bytes already emitted as parts, concatenated in part order.
    pub emitted: Ghost<Seq<u8>>,
}

impl StreamingSender {
    /// The machine's invariant: the emitted bytes followed by the buffered
    /// bytes are exactly the payloads of chunks `0 .. next_expected` in
    /// index order, and the slot table mirrors the ghost chunk log.
    pub open spec fn wf(self) -> bool {
        &&& self.input_limit >= 1
        &&& self.next_expected <= self.total_chunks
        &&& self.slots@.len() == self.total_chunks
        &&& forall|i: int|
            0 <= i < self.next_expected ==> #[trigger] self.chunks@.contains_key(i)
        &&& forall|i: int|
            #![trigger self.slots@[i]]
            0 <= i < self.next_expected ==> self.slots@[i] is None
        &&& forall|i: int|
            #![trigger self.slots@[i]]
            #![trigger self.chunks@.contains_key(i)]
            self.next_expected <= i < self.total_chunks ==> (self.chunks@.contains_key(i)
                <==> self.slots@[i] is Some)
        &&& forall|i: int|
            #![trigger self.slots@[i]]
            self.next_expected <= i < self.total_chunks && self.slots@[i] is Some
                ==> self.chunks@[i] == self.slots@[i]->0@
        &&& forall|i: int|
            #[trigger] self.chunks@.contains_key(i) ==> 0 <= i < self.total_chunks
        &&& self.emitted@ + self.buffer@ == concat_upto(self.chunks@, self.next_expected as int)
    }

    /// A fresh machine: nothing received, nothing buffered, nothing cut.
    pub fn new(total_chunks: usize, input_limit: usize, b_enabled: bool) -> (r: Self)
        requires
            input_limit >= 1,
        ensures
            r.wf(),
            r.total_chunks == total_chunks,
            r.input_limit == input_limit,
            r.b_enabled == b_enabled,
            r.next_expected == 0,
            r.buffer@.len() == 0,
            r.parts_cut == 0,
            r.chunks@ == Map::<int, Seq<u8>>::empty(),
            r.emitted@ == Seq::<u8>::empty(),
    {
        let mut slots: Vec<Option<Vec<u8>>> = Vec::new();
        let mut i: usize = 0;
        while i < total_chunks
            invariant
                i <= total_chunks,
                slots@.len() == i,
                forall|j: int| 0 <= j < i ==> slots@[j] is None,
            decreases total_chunks - i,
        {
            slots.push(None);
            i = i + 1;
        }
        StreamingSender {
            total_chunks,
            input_limit,
            b_enabled,
            next_expected: 0,
            slots,
            buffer: Vec::new(),
            parts_cut: 0,
            chunks: Ghost(Map::empty()),
            emitted: Ghost(Seq::empty()),
        }
    }

    /// Accept one chunk. A chunk is taken iff its index is in range and it
    /// was not seen before; duplicates and out-of-range indices are
    /// ignored, so re-posting a chunk is idempotent.
    pub fn accept_chunk(&mut self, index: usize, data: Vec<u8>) -> (accepted: bool)
        requires
            old(self).wf(),
        ensures
            final(self).wf(),
            accepted == (index < old(self).total_chunks && !old(self).chunks@.contains_key(
                index as int,
            )),
            accepted ==> final(self).chunks@ == old(self).chunks@.insert(index as int, data@),
            !accepted ==> final(self).chunks@ == old(self).chunks@,
            final(self).emitted@ == old(self).emitted@,
            final(self).buffer@ == old(self).buffer@,
            final(self).next_expected == old(self).next_expected,
            final(self).parts_cut == old(self).parts_cut,
            final(self).total_chunks == old(self).total_chunks,
            final(self).input_limit == old(self).input_limit,
            final(self).b_enabled == old(self).b_enabled,
    {
        if index >= self.total_chunks {
            return false;
        }
        if index < self.next_expected {
            return false;
        }
        let taken = self.slots[index].is_some();
        if taken {
            return false;
        }
        self.slots.set(index, Some(data));
        proof {
            lemma_concat_upto_insert_above(
                self.chunks@,
                index as int,
                data@,
                self.next_expected as int,
            );
            self.chunks@ = self.chunks@.insert(index as int, data@);
        }
        true
    }

    /// Move the contiguous ready prefix of the slot table into the byte
    /// buffer, advancing `next_expected` as far as possible.
    pub fn assemble(&mut self)
        requires
            old(self).wf(),
        ensures
            final(self).wf(),
            final(self).chunks@ == old(self).chunks@,
            final(self).emitted@ == old(self).emitted@,
            final(self).parts_cut == old(self).parts_cut,
            final(self).total_chunks == old(self).total_chunks,
            final(self).input_limit == old(self).input_limit,
            final(self).b_enabled == old(self).b_enabled,
            final(self).next_expected >= old(self).next_expected,
            final(self).next_expected == final(self).total_chunks || !final(self).chunks@.contains_key(
                final(self).next_expected as int,
            ),
    {
        while self.next_expected < self.total_chunks && self.slots[self.next_expected].is_some()
            invariant
                self.wf(),
                self.chunks@ == old(self).chunks@,
                self.emitted@ == old(self).emitted@,
                self.parts_cut == old(self).parts_cut,
                self.total_chunks == old(self).total_chunks,
                self.input_limit == old(self).input_limit,
                self.b_enabled == old(self).b_enabled,
                self.next_expected >= old(self).next_expected,
            decreases self.total_chunks - self.next_expected,
        {
            let idx = self.next_expected;
            let mut taken: Option<Vec<u8>> = None;
            self.slots.set_and_swap(idx, &mut taken);
            match taken {
                Some(mut data) => {
                    let ghost buffer_before = self.buffer@;
                    let ghost dv = data@;
                    self.buffer.append(&mut data);
                    self.next_expected = idx + 1;
                    proof {
                        assert(self.chunks@[idx as int] == dv);
                        assert(concat_upto(self.chunks@, idx + 1) == concat_upto(
                            self.chunks@,
                            idx as int,
                        ) + self.chunks@[idx as int]);
                        assert(self.emitted@ + (buffer_before + dv) =~= (self.emitted@
                            + buffer_before) + dv);
                    }
                },
                None => {},
            }
        }
    }

    /// Cut one full part of exactly `input_limit` bytes off the front of
    /// the buffer, if the buffer holds that much.
    pub fn cut_part(&mut self) -> (r: Option<PartPayload>)
        requires
            old(self).wf(),
            old(self).parts_cut < u32::MAX,
        ensures
            final(self).wf(),
            final(self).chunks@ == old(self).chunks@,
            final(self).next_expected == old(self).next_expected,
            final(self).slots@ == old(self).slots@,
            final(self).total_chunks == old(self).total_chunks,
            final(self).input_limit == old(self).input_limit,
            final(self).b_enabled == old(self).b_enabled,
            (r is Some) == (old(self).buffer@.len() >= old(self).input_limit),
            r is None ==> final(self).buffer@ == old(self).buffer@ && final(self).emitted@ == old(
                self,
            ).emitted@ && final(self).parts_cut == old(self).parts_cut,
            r is Some ==> {
                let p = r->0;
                &&& p.part == old(self).parts_cut + 1
                &&& final(self).parts_cut == old(self).parts_cut + 1
                &&& p.to_backend_b == spec_routes_to_b(p.part, old(self).b_enabled)
                &&& p.data@ == old(self).buffer@.take(old(self).input_limit as int)
                &&& p.data@.len() == old(self).input_limit
                &&& final(self).buffer@ == old(self).buffer@.skip(old(self).input_limit as int)
                &&& final(self).emitted@ == old(self).emitted@ + p.data@
            },
    {
        if self.buffer.len() < self.input_limit {
            return None;
        }
        let ghost buffer_before = self.buffer@;
        let mut tail = self.buffer.split_off(self.input_limit);
        core::mem::swap(&mut self.buffer, &mut tail);
        let data = tail;
        self.parts_cut = self.parts_cut + 1;
        let part = self.parts_cut;
        let to_b = routes_to_b(part, self.b_enabled);
        proof {
            let ghost emitted_before = self.emitted@;
            self.emitted@ = self.emitted@ + data@;
            assert(data@ + self.buffer@ =~= buffer_before);
            assert((emitted_before + data@) + self.buffer@ =~= emitted_before + (data@
                + self.buffer@));
        }
        Some(PartPayload { part, to_backend_b: to_b, data })
    }

    /// Cut whatever is left in the buffer as the final, possibly short,
    /// part. Returns nothing when the buffer is empty.
    pub fn flush_final(&mut self) -> (r: Option<PartPayload>)
        requires
            old(self).wf(),
            old(self).parts_cut < u32::MAX,
        ensures
            final(self).wf(),
            final(self).chunks@ == old(self).chunks@,
            final(self).next_expected == old(self).next_expected,
            final(self).slots@ == old(self).slots@,
            final(self).total_chunks == old(self).total_chunks,
            final(self).input_limit == old(self).input_limit,
            final(self).b_enabled == old(self).b_enabled,
            (r is Some) == (old(self).buffer@.len() > 0),
            r is None ==> final(self).buffer@ == old(self).buffer@ && final(self).emitted@ == old(
                self,
            ).emitted@ && final(self).parts_cut == old(self).parts_cut,
            r is Some ==> {
                let p = r->0;
                &&& p.part == old(self).parts_cut + 1
                &&& final(self).parts_cut == old(self).parts_cut + 1
                &&& p.to_backend_b == spec_routes_to_b(p.part, old(self).b_enabled)
                &&& p.data@ == old(self).buffer@
                &&& final(self).buffer@.len() == 0
                &&& final(self).emitted@ == old(self).emitted@ + p.data@
            },
    {
        if self.buffer.len() == 0 {
            return None;
        }
        let mut data: Vec<u8> = Vec::new();
        core::mem::swap(&mut self.buffer, &mut data);
        self.parts_cut = self.parts_cut + 1;
        let part = self.parts_cut;
        let to_b = routes_to_b(part, self.b_enabled);
        proof {
            let ghost emitted_before = self.emitted@;
            self.emitted@ = self.emitted@ + data@;
            assert((emitted_before + data@) + self.buffer@ =~= emitted_before + data@);
        }
        Some(PartPayload { part, to_backend_b: to_b, data })
    }

    /// True once every announced chunk has been assembled into the byte
    /// stream; out-of-order stragglers can then no longer exist.
    pub fn all_in(&self) -> (r: bool)
        requires
            self.wf(),
        ensures
            r == (self.next_expected == self.total_chunks),
    {
        self.next_expected == self.total_chunks
    }

    /// Number of bytes assembled but not yet cut into a part.
    pub fn buffered_len(&self) -> (r: usize)
        ensures
            r == self.buffer@.len(),
    {
        self.buffer.len()
    }

    /// Number of parts cut so far.
    pub fn parts_so_far(&self) -> (r: u32)
        ensures
            r == self.parts_cut,
    {
        self.parts_cut
    }
}

/// How a finished upload is recorded: a single part sent directly, several
/// parts split over backend A alone, or several parts spread over both
/// backends.
#[derive(Clone, Copy, PartialEq, Eq, Structural, Debug)]
pub enum UploadMethod {
    Direct,
    Split,
    Dual,
}

/// One part means `Direct`; more parts mean `Dual` when backend B is
/// enabled and `Split` otherwise.
pub open spec fn spec_classify_method(total_parts: u32, b_enabled: bool) -> UploadMethod {
    if total_parts == 1 {
        UploadMethod::Direct
    } else if b_enabled {
        UploadMethod::Dual
    } else {
        UploadMethod::Split
    }
}

/// Classify a finished upload by its part count and the backend-B flag.
pub fn classify_method(total_parts: u32, b_enabled: bool) -> (r: UploadMethod)
    ensures
        r == spec_classify_method(total_parts, b_enabled),
{
    if total_parts == 1 {
        UploadMethod::Direct
    } else if b_enabled {
        UploadMethod::Dual
    } else {
        UploadMethod::Split
    }
}

/// The views of a sequence of chunk buffers.
pub open spec fn byte_views(chunks: Seq<Vec<u8>>) -> Seq<Seq<u8>> {
    chunks.map_values(|c: Vec<u8>| c@)
}

/// The payload bytes of a sequence of parts.
pub open spec fn payloads(parts: Seq<PartPayload>) -> Seq<Seq<u8>> {
    parts.map_values(|p: PartPayload| p.data@)
}

/// Run the whole sender pipeline on a complete list of chunks: assemble
/// them in index order and cut the byte stream into parts.
///
/// The contract pins the result down: the part payloads concatenate back
/// to the input bytes; parts are numbered 1, 2, ...; every part but the
/// last holds exactly `input_limit` bytes and the last is non-empty and no
/// larger; routing follows the odd/even policy; and the part count is the
/// least number of `input_limit`-sized parts that covers the input.
pub fn cut_all_parts(chunks: &Vec<Vec<u8>>, input_limit: usize, b_enabled: bool) -> (parts: Vec<
    PartPayload,
>)
    requires
        input_limit >= 1,
        concat_all(byte_views(chunks@)).len() <= input_limit * (u32::MAX - 1),
    ensures
        concat_all(payloads(parts@)) == concat_all(byte_views(chunks@)),
        forall|i: int| 0 <= i < parts@.len() ==> (#[trigger] parts@[i]).part == i + 1,
        forall|i: int|
            0 <= i < parts@.len() ==> (#[trigger] parts@[i]).to_backend_b == spec_routes_to_b(
                (i + 1) as u32,
                b_enabled,
            ),
        forall|i: int|
            0 <= i < parts@.len() - 1 ==> (#[trigger] parts@[i]).data@.len() == input_limit,
        parts@.len() > 0 ==> 0 < parts@.last().data@.len() <= input_limit,
        concat_all(byte_views(chunks@)).len() == 0 ==> parts@.len() == 0,
        concat_all(byte_views(chunks@)).len() > 0 ==> (parts@.len() - 1) * input_limit
            < concat_all(byte_views(chunks@)).len() <= parts@.len() * input_limit,
{
    let ghost total_bytes = concat_all(byte_views(chunks@));
    let n = chunks.len();
    let mut m = StreamingSender::new(n, input_limit, b_enabled);
    let mut i: usize = 0;
    while i < n
        invariant
            m.wf(),
            m.total_chunks == n,
            m.input_limit == input_limit,
            m.b_enabled == b_enabled,
            m.next_expected == 0,
            m.parts_cut == 0,
            m.emitted@ == Seq::<u8>::empty(),
            m.buffer@.len() == 0,
            n == chunks@.len(),
            i <= n,
            forall|j: int| 0 <= j < i ==> #[trigger] m.chunks@.contains_key(j),
            forall|j: int| 0 <= j < i ==> #[trigger] m.chunks@[j] == chunks@[j]@,
            forall|j: int| #[trigger] m.chunks@.contains_key(j) ==> 0 <= j < i,
        decreases n - i,
    {
        let data = chunks[i].clone();
        proof {
            assert(data@ =~= chunks@[i as int]@);
        }
        let accepted = m.accept_chunk(i, data);
        proof {
            assert(accepted);
        }
        i = i + 1;
    }
    m.assemble();
    proof {
        if m.next_expected < n {
            assert(m.chunks@.contains_key(m.next_expected as int));
        }
        assert(m.next_expected == n);
        assert forall|j: int| 0 <= j < n implies #[trigger] m.chunks@[j] == byte_views(chunks@)[j] by {
            assert(m.chunks@[j] == chunks@[j]@);
            assert(byte_views(chunks@)[j] == chunks@[j]@);
        }
        lemma_concat_upto_matches(m.chunks@, byte_views(chunks@), n as int);
        assert(byte_views(chunks@).take(n as int) =~= byte_views(chunks@));
        assert(m.buffer@ =~= Seq::<u8>::empty() + m.buffer@);
        assert(m.buffer@ == total_bytes);
    }
    let mut parts: Vec<PartPayload> = Vec::new();
    loop
        invariant
            m.wf(),
            m.input_limit == input_limit,
            m.b_enabled == b_enabled,
            m.emitted@ + m.buffer@ == total_bytes,
            total_bytes.len() <= input_limit * (u32::MAX - 1),
            m.parts_cut == parts@.len(),
            m.parts_cut * input_limit == m.emitted@.len(),
            concat_all(payloads(parts@)) == m.emitted@,
            forall|j: int| 0 <= j < parts@.len() ==> (#[trigger] parts@[j]).part == j + 1,
            forall|j: int|
                0 <= j < parts@.len() ==> (#[trigger] parts@[j]).to_backend_b == spec_routes_to_b(
                    (j + 1) as u32,
                    b_enabled,
                ),
            forall|j: int|
                0 <= j < parts@.len() ==> (#[trigger] parts@[j]).data@.len() == input_limit,
        ensures
            m.buffer@.len() < input_limit,
        decreases m.buffer@.len(),
    {
        proof {
            assert(m.parts_cut < u32::MAX) by (nonlinear_arith)
                requires
                    m.parts_cut * input_limit == m.emitted@.len(),
                    m.emitted@.len() <= input_limit * (u32::MAX - 1),
                    input_limit >= 1,
            ;
        }
        let ghost parts_before = parts@;
        let ghost pc_before = m.parts_cut;
        let ghost em_before = m.emitted@;
        match m.cut_part() {
            Some(p) => {
                proof {
                    assert((pc_before + 1) * input_limit == pc_before * input_limit
                        + input_limit) by (nonlinear_arith);
                    lemma_concat_all_push(payloads(parts_before), p.data@);
                    assert(payloads(parts_before.push(p)) =~= payloads(parts_before).push(
                        p.data@,
                    ));
                }
                parts.push(p);
            },
            None => {
                break ;
            },
        }
    }
    proof {
        assert(m.buffer@.len() < input_limit);
        assert(m.parts_cut < u32::MAX) by (nonlinear_arith)
            requires
                m.parts_cut * input_limit == m.emitted@.len(),
                m.emitted@.len() <= input_limit * (u32::MAX - 1),
                input_limit >= 1,
        ;
    }
    let ghost full_parts = parts@.len() as int;
    let ghost parts_before_flush = parts@;
    match m.flush_final() {
        Some(p) => {
            proof {
                lemma_concat_all_push(payloads(parts_before_flush), p.data@);
                assert(payloads(parts_before_flush.push(p)) =~= payloads(
                    parts_before_flush,
                ).push(p.data@));
            }
            parts.push(p);
        },
        None => {},
    }
    proof {
        assert(m.emitted@ == total_bytes);
        if total_bytes.len() > 0 {
            assert((parts@.len() - 1) * input_limit < total_bytes.len() <= parts@.len()
                * input_limit) by (nonlinear_arith)
                requires
                    full_parts * input_limit + (total_bytes.len() - full_parts * input_limit)
                        == total_bytes.len(),
                    full_parts * input_limit <= total_bytes.len(),
                    total_bytes.len() - full_parts * input_limit < input_limit,
                    parts@.len() == if total_bytes.len() == full_parts * input_limit {
                        full_parts
                    } else {
                        full_parts + 1
                    },
                    input_limit >= 1,
                    total_bytes.len() > 0,
            ;
        }
    }
    parts
}

/// The caption attached to a part's message: scissors, the filename in
/// backticks, and the 1-based part number; the user's message rides along
/// on part 1 only.
pub open spec fn spec_caption(filename: Seq<char>, message: Seq<char>, part: u32) -> Seq<char> {
    let base = seq!['\u{2702}', '\u{fe0f}', ' ', '`'] + filename + seq![
        '`',
        ' ',
        '\u{2014}',
        ' ',
        'P',
        'h',
        '\u{1ea7}',
        'n',
        ' ',
    ] + crate::strutil::spec_decimal(part as nat);
    if message.len() > 0 && part == 1 {
        base.push('\n') + message
    } else {
        base
    }
}

/// Build the caption of one part's message.
pub fn build_caption(filename: &str, message: &str, part_num: u32) -> (r: String)
    ensures
        r@ == spec_caption(filename@, message@, part_num),
{
    let mut s = String::new();
    crate::strutil::push_char(&mut s, '\u{2702}');
    crate::strutil::push_char(&mut s, '\u{fe0f}');
    crate::strutil::push_char(&mut s, ' ');
    crate::strutil::push_char(&mut s, '`');
    s.append(filename);
    crate::strutil::push_char(&mut s, '`');
    crate::strutil::push_char(&mut s, ' ');
    crate::strutil::push_char(&mut s, '\u{2014}');
    crate::strutil::push_char(&mut s, ' ');
    crate::strutil::push_char(&mut s, 'P');
    crate::strutil::push_char(&mut s, 'h');
    crate::strutil::push_char(&mut s, '\u{1ea7}');
    crate::strutil::push_char(&mut s, 'n');
    crate::strutil::push_char(&mut s, ' ');
    crate::strutil::push_decimal(&mut s, part_num as u64);
    let ghost base = s@;
    proof {
        assert(base =~= (seq!['\u{2702}', '\u{fe0f}', ' ', '`'] + filename@ + seq![
            '`',
            ' ',
            '\u{2014}',
            ' ',
            'P',
            'h',
            '\u{1ea7}',
            'n',
            ' ',
        ] + crate::strutil::spec_decimal(part_num as nat)));
    }
    if part_num == 1 && !message.is_empty() {
        crate::strutil::push_char(&mut s, '\n');
        s.append(message);
        proof {
            assert(s@ =~= base.push('\n') + message@);
        }
    }
    s
}

/// The entry name of one part: the filename with a part suffix.
pub open spec fn spec_part_name(filename: Seq<char>, part: u32) -> Seq<char> {
    filename + seq!['.', 'p', 'a', 'r', 't'] + crate::strutil::spec_decimal(part as nat)
}

/// The archive file name of one part: the entry name with the archive
/// extension.
pub open spec fn spec_archive_name(filename: Seq<char>, part: u32) -> Seq<char> {
    spec_part_name(filename, part) + seq!['.', 'z', 'i', 'p']
}

/// Build the entry name of one part.
pub fn part_name(filename: &str, part_num: u32) -> (r: String)
    ensures
        r@ == spec_part_name(filename@, part_num),
{
    let mut s = String::new();
    s.append(filename);
    crate::strutil::push_char(&mut s, '.');
    crate::strutil::push_char(&mut s, 'p');
    crate::strutil::push_char(&mut s, 'a');
    crate::strutil::push_char(&mut s, 'r');
    crate::strutil::push_char(&mut s, 't');
    crate::strutil::push_decimal(&mut s, part_num as u64);
    proof {
        assert(s@ =~= spec_part_name(filename@, part_num));
    }
    s
}

/// Build the archive file name of one part.
pub fn archive_name(filename: &str, part_num: u32) -> (r: String)
    ensures
        r@ == spec_archive_name(filename@, part_num),
{
    let mut s = part_name(filename, part_num);
    crate::strutil::push_char(&mut s, '.');
    crate::strutil::push_char(&mut s, 'z');
    crate::strutil::push_char(&mut s, 'i');
    crate::strutil::push_char(&mut s, 'p');
    proof {
        assert(s@ =~= spec_archive_name(filename@, part_num));
    }
    s
}

/// The assembled byte stream depends only on which chunks were accepted,
/// never on the order they arrived in: two well-formed machines over the
/// same chunk log, with the same assembly cursor, hold exactly the same
/// bytes (emitted parts followed by the buffer).
pub proof fn lemma_arrival_order_irrelevant(a: StreamingSender, b: StreamingSender)
    requires
        a.wf(),
        b.wf(),
        a.chunks@ == b.chunks@,
        a.next_expected == b.next_expected,
    ensures
        a.emitted@ + a.buffer@ == b.emitted@ + b.buffer@,
{
}

/// With backend B disabled, every part routes to backend A: no part of a
/// list numbered under the routing policy is marked for backend B.
pub proof fn lemma_all_parts_on_a_when_b_disabled(parts: Seq<PartPayload>)
    requires
        forall|i: int|
            0 <= i < parts.len() ==> (#[trigger] parts[i]).to_backend_b == spec_routes_to_b(
                (i + 1) as u32,
                false,
            ),
    ensures
        forall|i: int| 0 <= i < parts.len() ==> !(#[trigger] parts[i]).to_backend_b,
{
}

/// With backend B enabled, a part goes to backend B exactly when its
/// 1-based number is even: parts 1, 3, 5 stay on backend A and parts
/// 2, 4 go to backend B.
pub proof fn lemma_alternating_routing(parts: Seq<PartPayload>)
    requires
        parts.len() < u32::MAX,
        forall|i: int|
            0 <= i < parts.len() ==> (#[trigger] parts[i]).to_backend_b == spec_routes_to_b(
                (i + 1) as u32,
                true,
            ),
    ensures
        forall|i: int|
            0 <= i < parts.len() ==> (#[trigger] parts[i]).to_backend_b == ((i + 1) % 2 == 0),
{
    assert forall|i: int| 0 <= i < parts.len() implies (#[trigger] parts[i]).to_backend_b == ((i
        + 1) % 2 == 0) by {
        assert(((i + 1) as u32) % 2 == 0 <==> (i + 1) % 2 == 0);
    }
}

/// A file that fits in a single part is sent the direct way: exactly one
/// part, and the direct method label.
pub proof fn lemma_small_upload_direct(
    parts: Seq<PartPayload>,
    total_len: int,
    input_limit: int,
    b_enabled: bool,
)
    requires
        input_limit >= 1,
        0 < total_len <= input_limit,
        (parts.len() - 1) * input_limit < total_len <= parts.len() * input_limit,
    ensures
        parts.len() == 1,
        spec_classify_method(parts.len() as u32, b_enabled) is Direct,
{
    assert(parts.len() == 1) by (nonlinear_arith)
        requires
            input_limit >= 1,
            0 < total_len <= input_limit,
            (parts.len() - 1) * input_limit < total_len <= parts.len() * input_limit,
    ;
}

} // verus!
