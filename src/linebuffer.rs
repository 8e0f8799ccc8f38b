use unicode_segmentation::UnicodeSegmentation;
use vstd::prelude::*;
use vstd::utf8::*;

verus! {

broadcast use vstd::utf8::encode_utf8_valid_utf8;

/// The byte offsets at which the grapheme clusters of a text start, in order,
/// as the Unicode extended grapheme cluster rules find them.
pub uninterp spec fn grapheme_starts(s: Seq<char>) -> Seq<usize>;

/// A space or a tab: the only bytes that separate words for word-wise moves.
pub open spec fn is_word_sep(b: u8) -> bool {
    b == 0x20u8 || b == 0x09u8
}

/// Offsets that strictly increase from left to right.
pub open spec fn strictly_increasing(g: Seq<usize>) -> bool {
    forall|i: int, j: int| 0 <= i < j < g.len() ==> g[i] < g[j]
}

/// Where `advance` puts a caret at `caret`: the next grapheme start when the
/// caret stands on a start that is not the last one, else the end of the text.
pub open spec fn advance_target(g: Seq<usize>, caret: usize, len: int) -> int {
    if exists|i: int| 0 <= i < g.len() - 1 && g[i] == caret {
        g[(choose|i: int| 0 <= i < g.len() - 1 && g[i] == caret) + 1] as int
    } else {
        len
    }
}

/// Where `retreat` puts a caret at `caret`: the start of the last grapheme when
/// the caret is at the end of a non-empty text; else the start before the
/// caret's, when the caret stands on the third grapheme start or a later one;
/// else the beginning of the text.
pub open spec fn retreat_target(g: Seq<usize>, caret: usize, len: int) -> int {
    if caret == len && g.len() > 0 {
        g.last() as int
    } else if exists|i: int| 1 < i < g.len() && g[i] == caret {
        g[(choose|i: int| 1 < i < g.len() && g[i] == caret) - 1] as int
    } else {
        0
    }
}

/// The last grapheme start strictly before `caret`, or 0 if there is none.
pub open spec fn start_left_of(g: Seq<usize>, caret: usize) -> int {
    if exists|j: int| 0 <= j < g.len() && g[j] < caret {
        g[choose|j: int|
            0 <= j < g.len() && #[trigger] g[j] < caret && (j + 1 == g.len() || g[j + 1] >= caret)] as int
    } else {
        0
    }
}

/// The first grapheme start strictly after `caret`, or `len` if there is none.
pub open spec fn start_right_of(g: Seq<usize>, caret: usize, len: int) -> int {
    if exists|j: int| 0 <= j < g.len() && g[j] > caret {
        g[choose|j: int|
            0 <= j < g.len() && #[trigger] g[j] > caret && (j == 0 || g[j - 1] <= caret)] as int
    } else {
        len
    }
}

/// The position of the last separator byte in `b[0..n]`, or -1 if there is none.
pub open spec fn last_sep_before(b: Seq<u8>, n: int) -> int
    decreases n,
{
    if n <= 0 {
        -1
    } else if is_word_sep(b[n - 1]) {
        n - 1
    } else {
        last_sep_before(b, n - 1)
    }
}

/// The position of the first separator byte in `b[k..]`, or -1 if there is none.
pub open spec fn first_sep_from(b: Seq<u8>, k: int) -> int
    decreases b.len() - k,
{
    if k < 0 || k >= b.len() {
        -1
    } else if is_word_sep(b[k]) {
        k
    } else {
        first_sep_from(b, k + 1)
    }
}

/// Where a word-wise move left from `caret` lands: one past the last separator
/// that lies strictly before `caret - 1`, or 0.
pub open spec fn word_left_target(b: Seq<u8>, caret: int) -> int {
    let n = if caret - 1 < b.len() { caret - 1 } else { b.len() as int };
    last_sep_before(b, n) + 1
}

/// Where a word-wise move right from `caret` lands: one past the first
/// separator that lies strictly after `caret`, or the end of the text.
pub open spec fn word_right_target(b: Seq<u8>, caret: int) -> int {
    let j = first_sep_from(b, caret + 1);
    if j < 0 {
        b.len() as int
    } else {
        j + 1
    }
}

/// Relies on `UnicodeSegmentation::grapheme_indices` (extended clusters), of
/// which only the offsets are kept. The clusters are non-empty and cover the
/// text in order, so the offsets start at 0, increase and stay inside it.
#[verifier::external_body]
fn grapheme_offsets(s: &str) -> (r: Vec<usize>)
    ensures
        r@ == grapheme_starts(s@),
        (r@.len() == 0) == (s@.len() == 0),
        r@.len() > 0 ==> r@[0] == 0,
        strictly_increasing(r@),
        forall|i: int| 0 <= i < r@.len() ==> r@[i] < encode_utf8(s@).len(),
{
    UnicodeSegmentation::grapheme_indices(s, true).map(|(i, _)| i).collect()
}

/// Relies on `String::insert`: the encoding of `c` is put at byte offset `at`.
#[verifier::external_body]
fn string_insert(s: &mut String, at: usize, c: char)
    requires
        at <= encode_utf8(old(s)@).len(),
        is_char_boundary(encode_utf8(old(s)@), at as int),
    ensures
        encode_utf8(final(s)@) == encode_utf8(old(s)@).take(at as int) + encode_utf8(seq![c])
            + encode_utf8(old(s)@).skip(at as int),
{
    s.insert(at, c)
}

/// Relies on `String::remove`: the scalar value whose encoding starts at byte
/// offset `at` is taken out and returned.
#[verifier::external_body]
fn string_remove(s: &mut String, at: usize) -> (r: char)
    requires
        at < encode_utf8(old(s)@).len(),
        is_char_boundary(encode_utf8(old(s)@), at as int),
    ensures
        r as u32 == decode_first_scalar(encode_utf8(old(s)@).skip(at as int)),
        encode_utf8(final(s)@) == encode_utf8(old(s)@).take(at as int) + encode_utf8(
            old(s)@,
        ).skip(at + length_of_first_scalar(encode_utf8(old(s)@).skip(at as int))),
{
    s.remove(at)
}

/// Relies on `String::pop`: the last scalar value is taken out and returned.
#[verifier::external_body]
fn string_pop(s: &mut String) -> (r: Option<char>)
    ensures
        old(s)@.len() == 0 ==> r is None && final(s)@ == old(s)@,
        old(s)@.len() > 0 ==> r == Some(old(s)@.last()) && final(s)@ == old(s)@.drop_last(),
{
    s.pop()
}

/// Word-wise moves need nothing of the caret: a move left from the
/// beginning stays at 0, and a move right from the end stays at the end.
pub proof fn lemma_word_moves_at_edges(b: Seq<u8>)
    ensures
        word_left_target(b, 0) == 0,
        word_right_target(b, b.len() as int) == b.len(),
{
}

/// A valid encoding followed by another valid encoding: the seam is a
/// character boundary of the whole.
proof fn lemma_boundary_at_seam(p: Seq<u8>, x: Seq<u8>)
    requires
        valid_utf8(p),
        valid_utf8(x),
    ensures
        valid_utf8(p + x),
        is_char_boundary(p + x, p.len() as int),
    decreases p.len(),
{
    broadcast use vstd::utf8::valid_utf8_concat;

    if p.len() > 0 {
        let q = p + x;
        let n = length_of_first_scalar(p);
        assert(q[0] == p[0]);
        assert(length_of_first_scalar(q) == n);
        assert(pop_first_scalar(q) =~= pop_first_scalar(p) + x);
        lemma_boundary_at_seam(pop_first_scalar(p), x);
    }
}

/// Removing at the offset where a character was just inserted takes that
/// character out again and gives back the bytes from before the insertion.
pub proof fn lemma_insert_then_remove(b: Seq<u8>, at: int, c: char)
    requires
        valid_utf8(b),
        0 <= at <= b.len(),
        is_char_boundary(b, at),
    ensures
        ({
            let b2 = b.take(at) + encode_utf8(seq![c]) + b.skip(at);
            let tail = b2.skip(at);
            &&& at < b2.len()
            &&& is_char_boundary(b2, at)
            &&& decode_first_scalar(tail) == c as u32
            &&& b2.take(at) + b2.skip(at + length_of_first_scalar(tail)) == b
        }),
{
    broadcast use vstd::utf8::valid_utf8_split, vstd::utf8::decode_utf8_encode_utf8;

    let pre = b.take(at);
    let suf = b.skip(at);
    assert(pre =~= b.subrange(0, at));
    assert(suf =~= b.subrange(at, b.len() as int));
    assert(valid_utf8(pre));
    assert(valid_utf8(suf));
    let sfx = decode_utf8(suf);
    assert(encode_utf8(sfx) == suf);
    let e = encode_utf8(seq![c]);
    let chars = seq![c] + sfx;
    assert(chars.drop_first() =~= sfx);
    assert(encode_utf8(chars) == encode_scalar(c as u32) + encode_utf8(sfx));
    assert(seq![c].drop_first() =~= Seq::<char>::empty());
    assert(seq![c][0] == c);
    assert(encode_utf8(Seq::<char>::empty()) =~= Seq::<u8>::empty());
    assert(e == encode_scalar(c as u32) + encode_utf8(seq![c].drop_first()));
    assert(e =~= encode_scalar(c as u32));
    encode_utf8_first_scalar(chars);
    let b2 = pre + e + suf;
    assert(b2 =~= pre + (e + suf));
    lemma_boundary_at_seam(pre, e + suf);
    let tail = b2.skip(at);
    assert(tail =~= e + suf);
    assert(b2.take(at) =~= pre);
    assert(b2.skip(at + length_of_first_scalar(tail)) =~= suf);
    assert(pre + suf =~= b);
}

/// Why `remove_char` refused to remove anything.
#[derive(Clone, Copy, Debug, PartialEq, Eq, Structural)]
pub enum BufferError {
    /// The offset is at or past the end of the text.
    OutOfRange,
    /// The offset falls inside the encoding of a scalar value.
    NotCharBoundary,
}

/// The text of one line being edited, and the caret: the byte offset at which
/// the next character goes.
pub struct LineBuffer {
    buffer: String,
    insertion_point: usize,
}

impl LineBuffer {
    /// The scalar values of the text.
    pub closed spec fn text(&self) -> Seq<char> {
        self.buffer@
    }

    /// The caret, as a byte offset.
    pub closed spec fn caret(&self) -> usize {
        self.insertion_point
    }

    /// The UTF-8 encoding of the text.
    pub open spec fn bytes(&self) -> Seq<u8> {
        encode_utf8(self.text())
    }

    /// The grapheme starts of the text.
    pub open spec fn graphemes(&self) -> Seq<usize> {
        grapheme_starts(self.text())
    }

    /// The caret stands at a grapheme start or at the end of the text.
    pub open spec fn caret_on_boundary(&self) -> bool {
        self.caret() == self.bytes().len() || self.graphemes().contains(self.caret())
    }

    pub fn new() -> (r: LineBuffer)
        ensures
            r.text() == Seq::<char>::empty(),
            r.caret() == 0,
    {
        LineBuffer { buffer: String::new(), insertion_point: 0 }
    }

    pub fn set_insertion_pos(&mut self, pos: usize)
        ensures
            final(self).text() == old(self).text(),
            final(self).caret() == pos,
    {
        self.insertion_point = pos;
    }

    pub fn get_insertion_pos(&self) -> (r: usize)
        ensures
            r == self.caret(),
    {
        self.insertion_point
    }

    pub fn get_buffer_len(&self) -> (r: usize)
        ensures
            r == self.bytes().len(),
    {
        self.buffer.as_str().as_bytes().len()
    }

    pub fn get_buffer(&self) -> (r: &str)
        ensures
            r@ == self.text(),
    {
        self.buffer.as_str()
    }

    pub fn clear_buffer(&mut self)
        ensures
            final(self).text() == Seq::<char>::empty(),
            final(self).caret() == old(self).caret(),
    {
        self.buffer = String::new();
    }

    /// The byte offsets at which the grapheme clusters of the text start.
    pub fn get_grapheme_indices(&self) -> (r: Vec<usize>)
        ensures
            r@ == self.graphemes(),
            (r@.len() == 0) == (self.text().len() == 0),
            r@.len() > 0 ==> r@[0] == 0,
            strictly_increasing(r@),
            forall|i: int| 0 <= i < r@.len() ==> r@[i] < self.bytes().len(),
    {
        grapheme_offsets(self.buffer.as_str())
    }

    /// Moves the caret to the next grapheme start, or to the end of the text.
    pub fn inc_insertion_pos(&mut self)
        ensures
            final(self).text() == old(self).text(),
            final(self).caret() == advance_target(
                old(self).graphemes(),
                old(self).caret(),
                old(self).bytes().len() as int,
            ),
            final(self).caret_on_boundary(),
    {
        let g = self.get_grapheme_indices();
        let ghost gs = g@;
        let mut i: usize = 0;
        while i < g.len()
            invariant
                gs == g@,
                gs == self.graphemes(),
                strictly_increasing(gs),
                i <= gs.len(),
                self.buffer == old(self).buffer,
                self.insertion_point == old(self).insertion_point,
                forall|k: int| 0 <= k < i && k < gs.len() - 1 ==> gs[k] != self.insertion_point,
            decreases g.len() - i,
        {
            if g[i] == self.insertion_point && i < g.len() - 1 {
                proof {
                    let ghost c = self.insertion_point;
                    assert(0 <= i < gs.len() - 1 && gs[i as int] == c);
                    let k = choose|k: int| 0 <= k < gs.len() - 1 && gs[k] == c;
                    assert(k == i) by {
                        if k < i {
                            assert(gs[k] < gs[i as int]);
                        } else if k > i {
                            assert(gs[k] > gs[i as int]);
                        }
                    }
                }
                self.insertion_point = g[i + 1];
                proof {
                    assert(gs.contains(gs[i + 1]));
                }
                return;
            }
            i += 1;
        }
        proof {
            let c = self.insertion_point;
            assert(!exists|k: int| 0 <= k < gs.len() - 1 && gs[k] == c);
        }
        self.insertion_point = self.get_buffer_len();
    }

    /// Moves the caret back by one grapheme; see `retreat_target` for the exact
    /// rule, which leaves the second grapheme start out.
    pub fn dec_insertion_pos(&mut self)
        ensures
            final(self).text() == old(self).text(),
            final(self).caret() == retreat_target(
                old(self).graphemes(),
                old(self).caret(),
                old(self).bytes().len() as int,
            ),
            final(self).caret_on_boundary(),
            old(self).bytes().len() > 0 ==> final(self).caret() < old(self).bytes().len(),
    {
        let g = self.get_grapheme_indices();
        let ghost gs = g@;
        if self.get_insertion_pos() == self.get_buffer_len() && g.len() > 0 {
            self.insertion_point = g[g.len() - 1];
            proof {
                assert(gs.contains(gs[gs.len() - 1]));
            }
        } else {
            let mut i: usize = 0;
            while i < g.len()
                invariant
                    gs == g@,
                    gs == self.graphemes(),
                    strictly_increasing(gs),
                    i <= gs.len(),
                    self.buffer == old(self).buffer,
                    self.insertion_point == old(self).insertion_point,
                    !(self.insertion_point == self.bytes().len() && gs.len() > 0),
                    forall|k: int| 0 <= k < gs.len() ==> gs[k] < self.bytes().len(),
                    forall|k: int| 1 < k < i ==> gs[k] != self.insertion_point,
                decreases g.len() - i,
            {
                if g[i] == self.insertion_point && i > 1 {
                    proof {
                        let ghost c = self.insertion_point;
                        assert(1 < i < gs.len() && gs[i as int] == c);
                        let k = choose|k: int| 1 < k < gs.len() && gs[k] == c;
                        assert(k == i) by {
                            if k < i {
                                assert(gs[k] < gs[i as int]);
                            } else if k > i {
                                assert(gs[k] > gs[i as int]);
                            }
                        }
                    }
                    self.insertion_point = g[i - 1];
                    proof {
                        assert(gs.contains(gs[i - 1]));
                    }
                    return;
                }
                i += 1;
            }
            proof {
                let c = self.insertion_point;
                assert(!exists|k: int| 1 < k < gs.len() && gs[k] == c);
            }
            self.insertion_point = 0;
            proof {
                if gs.len() > 0 {
                    assert(gs.contains(gs[0]));
                }
            }
        }
    }

    /// The last grapheme start before the caret, or 0.
    pub fn get_grapheme_idx_left(&self) -> (r: usize)
        ensures
            r == start_left_of(self.graphemes(), self.caret()),
    {
        let g = self.get_grapheme_indices();
        let ghost gs = g@;
        let mut prev: usize = 0;
        let mut idx: usize = 0;
        while idx < g.len()
            invariant
                gs == g@,
                gs == self.graphemes(),
                strictly_increasing(gs),
                idx <= gs.len(),
                forall|k: int| 0 <= k < idx ==> gs[k] < self.insertion_point,
                idx == 0 ==> prev == 0,
                idx > 0 ==> prev == gs[idx - 1],
            decreases g.len() - idx,
        {
            if g[idx] >= self.insertion_point {
                proof {
                    if idx > 0 {
                        let j = (idx - 1) as int;
                        assert(0 <= j < gs.len() && gs[j] < self.insertion_point && (j + 1
                            == gs.len() || gs[j + 1] >= self.insertion_point));
                    } else {
                        assert(forall|j: int| 0 <= j < gs.len() ==> #[trigger] gs[j] >= gs[0]);
                    }
                }
                return prev;
            }
            prev = g[idx];
            idx += 1;
        }
        proof {
            if idx > 0 {
                let j = (idx - 1) as int;
                assert(0 <= j < gs.len() && gs[j] < self.insertion_point && (j + 1 == gs.len()
                    || gs[j + 1] >= self.insertion_point));
            }
        }
        prev
    }

    /// The first grapheme start after the caret, or the length of the text.
    pub fn get_grapheme_idx_right(&self) -> (r: usize)
        ensures
            r == start_right_of(self.graphemes(), self.caret(), self.bytes().len() as int),
    {
        let g = self.get_grapheme_indices();
        let ghost gs = g@;
        let mut next: usize = self.get_buffer_len();
        let mut idx: usize = g.len();
        while idx > 0
            invariant
                gs == g@,
                gs == self.graphemes(),
                strictly_increasing(gs),
                idx <= gs.len(),
                forall|k: int| idx <= k < gs.len() ==> gs[k] > self.insertion_point,
                idx == gs.len() ==> next == self.bytes().len(),
                idx < gs.len() ==> next == gs[idx as int],
            decreases idx,
        {
            if g[idx - 1] <= self.insertion_point {
                proof {
                    if idx < gs.len() {
                        let j = idx as int;
                        assert(0 <= j < gs.len() && gs[j] > self.insertion_point && (j == 0
                            || gs[j - 1] <= self.insertion_point));
                    } else {
                        assert(forall|j: int| 0 <= j < gs.len() ==> #[trigger] gs[j] <= gs[gs.len() - 1]);
                    }
                }
                return next;
            }
            next = g[idx - 1];
            idx -= 1;
        }
        proof {
            if gs.len() > 0 {
                let j = 0int;
                assert(0 <= j < gs.len() && gs[j] > self.insertion_point && (j == 0 || gs[j - 1]
                    <= self.insertion_point));
            }
        }
        next
    }

    /// Inserts `c` at byte offset `insertion_point`; the caret does not move.
    pub fn insert_char(&mut self, insertion_point: usize, c: char)
        requires
            insertion_point <= old(self).bytes().len(),
            is_char_boundary(old(self).bytes(), insertion_point as int),
        ensures
            final(self).bytes() == old(self).bytes().take(insertion_point as int) + encode_utf8(
                seq![c],
            ) + old(self).bytes().skip(insertion_point as int),
            final(self).caret() == old(self).caret(),
    {
        string_insert(&mut self.buffer, insertion_point, c);
    }

    /// The text from byte offset `insertion_point` to the end.
    pub fn slice_buffer(&self, insertion_point: usize) -> (r: &str)
        requires
            is_char_boundary(self.bytes(), insertion_point as int),
        ensures
            encode_utf8(r@) == self.bytes().skip(insertion_point as int),
    {
        let (_, tail) = self.buffer.as_str().split_at(insertion_point);
        proof {
            broadcast use vstd::utf8::decode_utf8_encode_utf8;
        }
        tail
    }

    pub fn is_buffer_empty(&self) -> (r: bool)
        ensures
            r == (self.text().len() == 0),
    {
        self.buffer.as_str().is_empty()
    }

    /// Takes the last scalar value out of the text; `None` when it is empty.
    pub fn pop(&mut self) -> (r: Option<char>)
        ensures
            old(self).text().len() == 0 ==> r is None && final(self).text() == old(self).text(),
            old(self).text().len() > 0 ==> r == Some(old(self).text().last())
                && final(self).text() == old(self).text().drop_last(),
            final(self).caret() == old(self).caret(),
    {
        string_pop(&mut self.buffer)
    }

    /// Takes out the scalar value whose encoding starts at byte offset
    /// `remove_idx`, and returns it; the caret does not move.
    pub fn remove_char(&mut self, remove_idx: usize) -> (r: Result<char, BufferError>)
        ensures
            remove_idx >= old(self).bytes().len() ==> r == Err::<char, BufferError>(
                BufferError::OutOfRange,
            ),
            remove_idx < old(self).bytes().len() && !is_char_boundary(
                old(self).bytes(),
                remove_idx as int,
            ) ==> r == Err::<char, BufferError>(BufferError::NotCharBoundary),
            r is Err ==> *final(self) == *old(self),
            r is Ok <==> remove_idx < old(self).bytes().len() && is_char_boundary(
                old(self).bytes(),
                remove_idx as int,
            ),
            r is Ok ==> {
                let b = old(self).bytes();
                let tail = b.skip(remove_idx as int);
                &&& r->Ok_0 as u32 == decode_first_scalar(tail)
                &&& final(self).bytes() == b.take(remove_idx as int) + b.skip(
                    remove_idx + length_of_first_scalar(tail),
                )
            },
            final(self).caret() == old(self).caret(),
    {
        if remove_idx >= self.get_buffer_len() {
            return Err(BufferError::OutOfRange);
        }
        if !self.buffer.as_str().is_char_boundary(remove_idx) {
            return Err(BufferError::NotCharBoundary);
        }
        Ok(string_remove(&mut self.buffer, remove_idx))
    }

    /// Moves the caret one word to the left and returns it.
    pub fn move_word_left(&mut self) -> (r: usize)
        ensures
            final(self).text() == old(self).text(),
            r == final(self).caret(),
            r == word_left_target(old(self).bytes(), old(self).caret() as int),
    {
        let b = self.buffer.as_str().as_bytes();
        let n: usize = if self.insertion_point == 0 {
            0
        } else if self.insertion_point - 1 < b.len() {
            self.insertion_point - 1
        } else {
            b.len()
        };
        let mut j: usize = n;
        while j > 0
            invariant
                b@ == self.bytes(),
                self.buffer == old(self).buffer,
                self.insertion_point == old(self).insertion_point,
                j <= n <= b@.len(),
                last_sep_before(b@, n as int) == word_left_target(b@, self.insertion_point as int)
                    - 1,
                last_sep_before(b@, n as int) == last_sep_before(b@, j as int),
            decreases j,
        {
            if b[j - 1] == 0x20u8 || b[j - 1] == 0x09u8 {
                self.insertion_point = j;
                return j;
            }
            j -= 1;
        }
        self.insertion_point = 0;
        0
    }

    /// Moves the caret one word to the right and returns it.
    pub fn move_word_right(&mut self) -> (r: usize)
        ensures
            final(self).text() == old(self).text(),
            r == final(self).caret(),
            r == word_right_target(old(self).bytes(), old(self).caret() as int),
    {
        let b = self.buffer.as_str().as_bytes();
        if self.insertion_point < b.len() {
            let mut j: usize = self.insertion_point + 1;
            while j < b.len()
                invariant
                    b@ == self.bytes(),
                    self.buffer == old(self).buffer,
                    self.insertion_point < j <= b@.len(),
                    self.insertion_point == old(self).insertion_point,
                    first_sep_from(b@, self.insertion_point + 1) == first_sep_from(b@, j as int),
                decreases b.len() - j,
            {
                if b[j] == 0x20u8 || b[j] == 0x09u8 {
                    self.insertion_point = j + 1;
                    return j + 1;
                }
                j += 1;
            }
        }
        self.insertion_point = b.len();
        b.len()
    }

    /// Replaces the whole text; the caret does not move.
    pub fn set_buffer(&mut self, other: String)
        ensures
            final(self).text() == other@,
            final(self).caret() == old(self).caret(),
    {
        self.buffer = other;
    }

    /// Puts the caret at the end of the text.
    pub fn move_to_end(&mut self)
        ensures
            final(self).text() == old(self).text(),
            final(self).caret() == final(self).bytes().len(),
            final(self).caret_on_boundary(),
    {
        self.insertion_point = self.get_buffer_len();
    }
}

} // verus!
