//! A queue of owned text chunks which supports incrementally consuming
//! characters.  The queue presents one logical character stream — its
//! `stream()` — and every operation's contract is stated against it, so
//! that consumers are insensitive to how the text was split into chunks.

use vstd::prelude::*;
use crate::smallcharset::SmallCharSet;
use crate::strutil::{chars_of, string_from_range};

verus! {

/// Result from `pop_except_from`.
#[derive(Debug)]
pub enum SetResult {
    /// A single character that is a member of the set.
    FromSet(char),
    /// A non-empty run of characters none of which are in the set.
    NotFromSet(String),
}

impl SetResult {
    /// What equality of two results means: same variant, same text.
    pub open spec fn eq_view(&self, other: &SetResult) -> bool {
        match (self, other) {
            (SetResult::FromSet(a), SetResult::FromSet(b)) => a == b,
            (SetResult::NotFromSet(a), SetResult::NotFromSet(b)) => a@ == b@,
            _ => false,
        }
    }
}

impl PartialEq for SetResult {
    fn eq(&self, other: &SetResult) -> (r: bool) {
        match (self, other) {
            (SetResult::FromSet(a), SetResult::FromSet(b)) => *a == *b,
            (SetResult::NotFromSet(a), SetResult::NotFromSet(b)) => *a == *b,
            _ => false,
        }
    }
}

impl vstd::std_specs::cmp::PartialEqSpecImpl for SetResult {
    open spec fn obeys_eq_spec() -> bool {
        true
    }

    open spec fn eq_spec(&self, other: &SetResult) -> bool {
        self.eq_view(other)
    }
}

/// One pushed chunk, with a cursor marking how much of its front has
/// already been consumed.
struct Buffer {
    chars: Vec<char>,
    pos: usize,
}

impl Buffer {
    /// The characters not yet consumed.
    spec fn contents(&self) -> Seq<char> {
        self.chars@.skip(self.pos as int)
    }

    /// A queued buffer always has at least one unconsumed character.
    spec fn wf(&self) -> bool {
        self.pos < self.chars@.len()
    }
}

/// A queue of owned text chunks, consumed a character (or a run) at a time.
pub struct BufferQueue {
    buffers: Vec<Buffer>,
}

/// The length of the longest prefix of `s` holding no member of `set`.
pub open spec fn nonmember_prefix_len(set: SmallCharSet, s: Seq<char>) -> int
    decreases s.len(),
{
    if s.len() == 0 || set.spec_contains(s[0]) {
        0
    } else {
        1 + nonmember_prefix_len(set, s.skip(1))
    }
}

/// ASCII case folding on code points: upper-case letters map to their
/// lower-case counterparts, everything else is unchanged.
pub open spec fn fold_code(x: int) -> int {
    if 65 <= x <= 90 {
        x + 32
    } else {
        x
    }
}

/// Whether two characters match, exactly or (when `ci` is set) up to
/// ASCII case.
pub open spec fn char_matches(a: char, b: char, ci: bool) -> bool {
    a == b || (ci && fold_code(a as int) == fold_code(b as int))
}

/// The stream left after pushing each part of `parts` in order onto the
/// back of a queue whose stream was `stream` — each push extends the
/// stream by exactly the pushed text, as `push_back` ensures.
pub open spec fn feed_all(stream: Seq<char>, parts: Seq<Seq<char>>) -> Seq<char>
    decreases parts.len(),
{
    if parts.len() == 0 {
        stream
    } else {
        feed_all(stream + parts[0], parts.skip(1))
    }
}

/// Chunk invariance at the stream level: feeding a text as any ordered
/// sequence of parts leaves the queue presenting exactly the
/// concatenation of the parts.  Two ways of splitting the same text give
/// the same stream, so downstream consumption depends only on the text.
pub proof fn lemma_stream_chunk_invariant(stream: Seq<char>, parts: Seq<Seq<char>>)
    ensures
        feed_all(stream, parts) == stream + parts.flatten(),
    decreases parts.len(),
{
    if parts.len() == 0 {
        assert(parts.flatten() == Seq::<char>::empty());
        assert(stream + parts.flatten() =~= stream);
    } else {
        lemma_stream_chunk_invariant(stream + parts[0], parts.skip(1));
        assert(parts.drop_first() =~= parts.skip(1));
        assert(parts.flatten() == parts[0] + parts.skip(1).flatten());
        assert((stream + parts[0]) + parts.skip(1).flatten()
            =~= stream + (parts[0] + parts.skip(1).flatten()));
    }
}

/// Flattening a sequence of chunks with one more chunk at the back
/// appends that chunk's text.
proof fn lemma_flatten_push(cs: Seq<Seq<char>>, x: Seq<char>)
    ensures
        cs.push(x).flatten() == cs.flatten() + x,
    decreases cs.len(),
{
    if cs.len() == 0 {
        assert(cs.push(x).drop_first() =~= Seq::<Seq<char>>::empty());
        assert(cs.push(x).flatten() == x + Seq::<Seq<char>>::empty().flatten());
        assert(x + Seq::<char>::empty() =~= x);
        assert(cs.flatten() + x =~= x);
    } else {
        assert(cs.push(x).drop_first() =~= cs.skip(1).push(x));
        assert(cs.drop_first() =~= cs.skip(1));
        lemma_flatten_push(cs.skip(1), x);
        assert(cs.push(x)[0] == cs[0]);
        assert(cs.push(x).flatten() == cs[0] + cs.skip(1).push(x).flatten());
        assert(cs[0] + (cs.skip(1).flatten() + x) =~= (cs[0] + cs.skip(1).flatten()) + x);
    }
}

/// Unfold one step of `flatten`.
proof fn lemma_flatten_head(cs: Seq<Seq<char>>)
    requires
        cs.len() > 0,
    ensures
        cs.flatten() == cs[0] + cs.skip(1).flatten(),
{
    assert(cs.drop_first() =~= cs.skip(1));
}

/// The sum of the lengths of the first `k` chunks.
pub open spec fn chunks_prefix_len(cs: Seq<Seq<char>>, k: int) -> int
    decreases k,
{
    if k <= 0 {
        0
    } else {
        cs[0].len() + chunks_prefix_len(cs.skip(1), k - 1)
    }
}

proof fn lemma_prefix_len_step(cs: Seq<Seq<char>>, k: int)
    requires
        0 <= k < cs.len(),
    ensures
        chunks_prefix_len(cs, k + 1) == chunks_prefix_len(cs, k) + cs[k].len(),
    decreases k,
{
    assert(chunks_prefix_len(cs, k + 1) == cs[0].len() + chunks_prefix_len(cs.skip(1), k));
    if k > 0 {
        lemma_prefix_len_step(cs.skip(1), k - 1);
        assert(cs.skip(1)[k - 1] == cs[k]);
        assert(chunks_prefix_len(cs, k) == cs[0].len() + chunks_prefix_len(cs.skip(1), k - 1));
    }
}

proof fn lemma_prefix_len_total(cs: Seq<Seq<char>>)
    ensures
        chunks_prefix_len(cs, cs.len() as int) == cs.flatten().len(),
    decreases cs.len(),
{
    if cs.len() == 0 {
    } else {
        lemma_flatten_head(cs);
        lemma_prefix_len_total(cs.skip(1));
    }
}

/// Position `chunks_prefix_len(cs, bi) + off` of the flattened stream is
/// character `off` of chunk `bi`.
proof fn lemma_flatten_index(cs: Seq<Seq<char>>, bi: int, off: int)
    requires
        0 <= bi < cs.len(),
        0 <= off < cs[bi].len(),
    ensures
        0 <= chunks_prefix_len(cs, bi) + off < cs.flatten().len(),
        cs.flatten()[chunks_prefix_len(cs, bi) + off] == cs[bi][off],
    decreases bi,
{
    lemma_flatten_head(cs);
    lemma_prefix_len_nonneg(cs, bi);
    if bi == 0 {
        lemma_prefix_len_total(cs);
        lemma_prefix_len_mono(cs, 1, cs.len() as int);
        lemma_prefix_len_step(cs, 0);
    } else {
        lemma_flatten_index(cs.skip(1), bi - 1, off);
    }
}

proof fn lemma_prefix_len_nonneg(cs: Seq<Seq<char>>, k: int)
    ensures
        chunks_prefix_len(cs, k) >= 0,
    decreases k,
{
    if k > 0 {
        lemma_prefix_len_nonneg(cs.skip(1), k - 1);
    }
}

/// With every chunk in range non-empty, the prefix sums grow strictly;
/// here only monotonicity is needed.
proof fn lemma_prefix_len_mono(cs: Seq<Seq<char>>, a: int, b: int)
    requires
        0 <= a <= b <= cs.len(),
    ensures
        chunks_prefix_len(cs, a) <= chunks_prefix_len(cs, b),
    decreases b - a,
{
    if a < b {
        lemma_prefix_len_step(cs, a);
        lemma_prefix_len_mono(cs, a + 1, b);
    }
}

impl BufferQueue {
    /// The unread remainder of each chunk, front chunk first.
    pub closed spec fn chunks(&self) -> Seq<Seq<char>> {
        self.buffers@.map_values(|b: Buffer| b.contents())
    }

    /// The single logical character stream the queue presents.
    pub open spec fn stream(&self) -> Seq<char> {
        self.chunks().flatten()
    }

    /// Every queued chunk is non-empty.
    pub closed spec fn wf(&self) -> bool {
        forall|i: int| 0 <= i < self.buffers@.len() ==> (#[trigger] self.buffers@[i]).wf()
    }

    /// How the stream and the chunks relate in a well-formed queue:
    /// the stream is empty exactly when no chunk is queued, it is the
    /// front chunk followed by the rest, and the front chunk is
    /// non-empty, so the stream's head is the front chunk's head.
    pub proof fn lemma_stream_front(&self)
        requires
            self.wf(),
        ensures
            (self.stream().len() == 0) == (self.chunks().len() == 0),
            self.chunks().len() > 0 ==> self.stream() == self.chunks()[0]
                + self.chunks().skip(1).flatten(),
            self.chunks().len() > 0 ==> self.chunks()[0].len() > 0,
            self.chunks().len() > 0 ==> self.chunks()[0] == self.stream().take(
                self.chunks()[0].len() as int,
            ) && self.stream()[0] == self.chunks()[0][0],
    {
        if self.chunks().len() > 0 {
            lemma_flatten_head(self.chunks());
            assert(self.buffers@[0].wf());
            assert(self.chunks()[0] == self.buffers@[0].contents());
            assert(self.chunks()[0] =~= self.stream().take(self.chunks()[0].len() as int));
        }
    }

    /// Create an empty queue.
    pub fn new() -> (r: BufferQueue)
        ensures
            r.wf(),
            r.chunks() == Seq::<Seq<char>>::empty(),
            r.stream() == Seq::<char>::empty(),
    {
        let r = BufferQueue { buffers: Vec::new() };
        proof {
            assert(r.chunks() =~= Seq::<Seq<char>>::empty());
        }
        r
    }

    /// Whether the queue holds any unread characters.
    pub fn is_empty(&self) -> (r: bool)
        requires
            self.wf(),
        ensures
            r == (self.stream().len() == 0),
    {
        proof {
            self.lemma_stream_front();
        }
        self.buffers.len() == 0
    }

    /// Add a chunk to the beginning of the queue; an empty chunk is
    /// silently dropped.
    pub fn push_front(&mut self, buf: String)
        requires
            old(self).wf(),
        ensures
            final(self).wf(),
            final(self).chunks() == if buf@.len() == 0 {
                old(self).chunks()
            } else {
                old(self).chunks().insert(0, buf@)
            },
            final(self).stream() == buf@ + old(self).stream(),
    {
        let chars = chars_of(buf.as_str());
        if chars.len() == 0 {
            proof {
                assert(buf@ + self.stream() =~= self.stream());
            }
            return;
        }
        let b = Buffer { chars, pos: 0 };
        proof {
            assert(b.contents() =~= buf@);
        }
        self.buffers.insert(0, b);
        proof {
            assert(self.chunks() =~= old(self).chunks().insert(0, buf@));
            assert(self.chunks()[0] == buf@);
            assert(self.chunks().skip(1) =~= old(self).chunks());
            lemma_flatten_head(self.chunks());
        }
    }

    /// Add a chunk to the end of the queue; an empty chunk is silently
    /// dropped.
    pub fn push_back(&mut self, buf: String)
        requires
            old(self).wf(),
        ensures
            final(self).wf(),
            final(self).chunks() == if buf@.len() == 0 {
                old(self).chunks()
            } else {
                old(self).chunks().push(buf@)
            },
            final(self).stream() == feed_all(old(self).stream(), seq![buf@]),
            final(self).stream() == old(self).stream() + buf@,
            buf@.len() == 0 ==> *final(self) == *old(self),
    {
        let chars = chars_of(buf.as_str());
        if chars.len() == 0 {
            proof {
                assert(self.stream() + buf@ =~= self.stream());
                assert(feed_all(self.stream(), seq![buf@]) == feed_all(self.stream() + buf@,
                    seq![buf@].skip(1)));
                assert(seq![buf@].skip(1) =~= Seq::<Seq<char>>::empty());
            }
            return;
        }
        let b = Buffer { chars, pos: 0 };
        proof {
            assert(b.contents() =~= buf@);
        }
        self.buffers.push(b);
        proof {
            assert(self.chunks() =~= old(self).chunks().push(buf@));
            lemma_flatten_push(old(self).chunks(), buf@);
            assert(feed_all(old(self).stream(), seq![buf@]) == feed_all(old(self).stream()
                + buf@, seq![buf@].skip(1)));
            assert(seq![buf@].skip(1) =~= Seq::<Seq<char>>::empty());
        }
    }

    /// Look at the next character, if any, without consuming it.
    pub fn peek(&self) -> (r: Option<char>)
        requires
            self.wf(),
        ensures
            self.stream().len() == 0 ==> r is None,
            self.stream().len() > 0 ==> r == Some(self.stream()[0]),
    {
        proof {
            self.lemma_stream_front();
        }
        if self.buffers.len() == 0 {
            None
        } else {
            let b = &self.buffers[0];
            Some(b.chars[b.pos])
        }
    }

    /// Consume and return the next character, if one is available.
    pub fn next(&mut self) -> (r: Option<char>)
        requires
            old(self).wf(),
        ensures
            final(self).wf(),
            old(self).stream().len() == 0 ==> r is None && *final(self) == *old(self),
            old(self).stream().len() > 0 ==> r == Some(old(self).stream()[0])
                && final(self).stream() == old(self).stream().skip(1),
            old(self).stream().len() > 0 ==> final(self).chunks() == (
            if old(self).chunks()[0].len() == 1 {
                old(self).chunks().skip(1)
            } else {
                old(self).chunks().update(0, old(self).chunks()[0].skip(1))
            }),
    {
        proof {
            self.lemma_stream_front();
        }
        if self.buffers.len() == 0 {
            return None;
        }
        let mut b = self.buffers.remove(0);
        proof {
            assert(old(self).buffers@[0].wf());
            assert(b.contents() == old(self).chunks()[0]);
        }
        let blen = b.chars.len();
        let c = b.chars[b.pos];
        proof {
            assert(c == old(self).chunks()[0][0]);
        }
        b.pos = b.pos + 1;
        if b.pos < blen {
            self.buffers.insert(0, b);
            proof {
                assert(b.contents() =~= old(self).chunks()[0].skip(1));
                assert(self.chunks()[0] == b.contents());
                assert(self.chunks().skip(1) =~= old(self).chunks().skip(1));
                lemma_flatten_head(self.chunks());
                assert(self.stream() =~= old(self).stream().skip(1));
                assert(self.chunks() =~= old(self).chunks().update(
                    0,
                    old(self).chunks()[0].skip(1),
                ));
            }
        } else {
            proof {
                assert(old(self).chunks()[0].len() == 1);
                assert(self.chunks() =~= old(self).chunks().skip(1));
                assert(self.stream() =~= old(self).stream().skip(1));
            }
        }
        Some(c)
    }

    /// Pop and return either a single character from the given set, or
    /// the longest run at the front of the current chunk holding no
    /// character of the set.  `None` exactly when the queue is empty.
    pub fn pop_except_from(&mut self, set: SmallCharSet) -> (r: Option<SetResult>)
        requires
            old(self).wf(),
        ensures
            final(self).wf(),
            old(self).stream().len() == 0 ==> r is None && *final(self) == *old(self),
            old(self).stream().len() > 0 ==> ({
                let front = old(self).chunks()[0];
                if set.spec_contains(old(self).stream()[0]) {
                    &&& r matches Some(SetResult::FromSet(c)) && c == old(self).stream()[0]
                    &&& final(self).stream() == old(self).stream().skip(1)
                    &&& final(self).chunks() == (if front.len() == 1 {
                        old(self).chunks().skip(1)
                    } else {
                        old(self).chunks().update(0, front.skip(1))
                    })
                } else {
                    let n = nonmember_prefix_len(set, front);
                    &&& r matches Some(SetResult::NotFromSet(s)) && s@ == old(
                        self,
                    ).stream().take(n)
                    &&& 1 <= n <= front.len()
                    &&& (forall|i: int| 0 <= i < n ==> !set.spec_contains(
                        #[trigger] old(self).stream()[i],
                    ))
                    &&& (n == front.len() || set.spec_contains(front[n]))
                    &&& final(self).stream() == old(self).stream().skip(n)
                    &&& final(self).chunks() == (if n == front.len() {
                        old(self).chunks().skip(1)
                    } else {
                        old(self).chunks().update(0, front.skip(n))
                    })
                }
            }),
    {
        proof {
            self.lemma_stream_front();
        }
        if self.buffers.len() == 0 {
            return None;
        }
        let mut b = self.buffers.remove(0);
        proof {
            assert(old(self).buffers@[0].wf());
            assert(b.contents() == old(self).chunks()[0]);
        }
        let ghost front = b.contents();
        let len = b.chars.len();
        let mut n: usize = 0;
        while b.pos + n < len && !set.contains(b.chars[b.pos + n])
            invariant
                b.pos < len,
                len == b.chars@.len(),
                n <= len - b.pos,
                front == b.contents(),
                forall|i: int| 0 <= i < n ==> !set.spec_contains(#[trigger] front[i]),
            decreases len - b.pos - n,
        {
            n = n + 1;
        }
        proof {
            assert(n == front.len() || set.spec_contains(front[n as int]));
            lemma_nonmember_prefix_len(set, front, n as int);
            lemma_flatten_head(old(self).chunks());
            assert(forall|i: int|
                0 <= i < front.len() ==> old(self).stream()[i] == front[i]);
        }
        if n > 0 {
            let s = string_from_range(&b.chars, b.pos, b.pos + n);
            proof {
                assert(s@ =~= front.take(n as int));
                assert(front.take(n as int) =~= old(self).stream().take(n as int));
            }
            b.pos = b.pos + n;
            if b.pos < b.chars.len() {
                self.buffers.insert(0, b);
                proof {
                    assert(b.contents() =~= front.skip(n as int));
                    assert(self.chunks()[0] == b.contents());
                    assert(self.chunks().skip(1) =~= old(self).chunks().skip(1));
                    lemma_flatten_head(self.chunks());
                    assert(self.stream() =~= old(self).stream().skip(n as int));
                    assert(self.chunks() =~= old(self).chunks().update(0, front.skip(n as int)));
                }
            } else {
                proof {
                    assert(n == front.len());
                    assert(self.chunks() =~= old(self).chunks().skip(1));
                    assert(self.stream() =~= old(self).stream().skip(n as int));
                }
            }
            Some(SetResult::NotFromSet(s))
        } else {
            let c = b.chars[b.pos];
            proof {
                assert(c == front[0]);
                assert(set.spec_contains(front[0]));
            }
            b.pos = b.pos + 1;
            if b.pos < b.chars.len() {
                self.buffers.insert(0, b);
                proof {
                    assert(b.contents() =~= front.skip(1));
                    assert(self.chunks()[0] == b.contents());
                    assert(self.chunks().skip(1) =~= old(self).chunks().skip(1));
                    lemma_flatten_head(self.chunks());
                    assert(self.stream() =~= old(self).stream().skip(1));
                    assert(self.chunks() =~= old(self).chunks().update(0, front.skip(1)));
                }
            } else {
                proof {
                    assert(front.len() == 1);
                    assert(self.chunks() =~= old(self).chunks().skip(1));
                    assert(self.stream() =~= old(self).stream().skip(1));
                }
            }
            Some(SetResult::FromSet(c))
        }
    }

    /// Attempt an ASCII case-insensitive (or exact, with `ignore_ascii_case`
    /// false) match of the non-empty pattern `pat` against the upcoming
    /// characters.  `Ok(true)`: the whole pattern matched and exactly its
    /// length was consumed.  `Ok(false)`: a buffered character disagrees;
    /// nothing was consumed.  `Err(k)`: the `k` buffered characters all
    /// agree but the pattern is longer; nothing was consumed, the caller
    /// should retry once more input has arrived.
    pub fn eat(&mut self, pat: &str, ignore_ascii_case: bool) -> (r: Result<bool, usize>)
        requires
            old(self).wf(),
            pat@.len() >= 1,
        ensures
            final(self).wf(),
            ({
                let q = old(self).stream();
                let p = pat@;
                let ci = ignore_ascii_case;
                if q.len() == 0 {
                    r == Err::<bool, usize>(0usize) && *final(self) == *old(self)
                } else if p.len() <= q.len() && (forall|i: int|
                    0 <= i < p.len() ==> char_matches(#[trigger] q[i], p[i], ci)) {
                    r == Ok::<bool, usize>(true) && final(self).stream() == q.skip(p.len() as int)
                } else if exists|i: int|
                    0 <= i < p.len() && i < q.len() && !char_matches(#[trigger] q[i], p[i], ci) {
                    r == Ok::<bool, usize>(false) && *final(self) == *old(self)
                } else {
                    r == Err::<bool, usize>(q.len() as usize) && *final(self) == *old(self)
                }
            }),
    {
        proof {
            self.lemma_stream_front();
        }
        if self.buffers.len() == 0 {
            return Err(0);
        }
        let ghost q = self.stream();
        let ghost cs = self.chunks();
        let plen = pat.unicode_len();
        let mut bi: usize = 0;
        let mut off: usize = 0;
        let mut j: usize = 0;
        while j < plen
            invariant
                self == old(self),
                self.wf(),
                q == self.stream(),
                cs == self.chunks(),
                plen == pat@.len(),
                j <= plen,
                bi <= cs.len(),
                j == chunks_prefix_len(cs, bi as int) + off,
                bi < cs.len() ==> off < cs[bi as int].len(),
                bi == cs.len() ==> off == 0,
                forall|i: int| 0 <= i < j ==> char_matches(#[trigger] q[i], pat@[i],
                    ignore_ascii_case),
            decreases plen - j,
        {
            if bi >= self.buffers.len() {
                proof {
                    lemma_prefix_len_total(cs);
                    assert(j == q.len());
                    assert(q.len() < pat@.len());
                }
                return Err(j);
            }
            let b = &self.buffers[bi];
            let blen = b.chars.len();
            proof {
                assert(self.buffers@[bi as int].wf());
                assert(cs[bi as int] == b.contents());
                assert(b.contents().len() == blen - b.pos);
                lemma_flatten_index(cs, bi as int, off as int);
                assert(q[j as int] == cs[bi as int][off as int]);
            }
            let qc = b.chars[b.pos + off];
            let pc = pat.get_char(j);
            let m = chars_match(qc, pc, ignore_ascii_case);
            if !m {
                proof {
                    assert(!char_matches(q[j as int], pat@[j as int], ignore_ascii_case));
                    assert(exists|i: int|
                        0 <= i < pat@.len() && i < q.len() && !char_matches(
                            #[trigger] q[i], pat@[i], ignore_ascii_case));
                }
                return Ok(false);
            }
            j = j + 1;
            off = off + 1;
            if off >= blen - b.pos {
                proof {
                    lemma_prefix_len_step(cs, bi as int);
                    if bi + 1 < cs.len() {
                        assert(self.buffers@[bi + 1].wf());
                        assert(cs[bi + 1] == self.buffers@[bi + 1].contents());
                    }
                }
                bi = bi + 1;
                off = 0;
            }
        }
        proof {
            if bi < cs.len() {
                lemma_flatten_index(cs, bi as int, off as int);
            } else {
                lemma_prefix_len_total(cs);
            }
            assert(plen <= q.len());
        }
        // The whole pattern matched: commit, consuming exactly its length.
        let mut k: usize = 0;
        while k < plen
            invariant
                self.wf(),
                k <= plen,
                plen <= q.len(),
                self.stream() == q.skip(k as int),
            decreases plen - k,
        {
            let ghost before = self.stream();
            let c = self.next();
            proof {
                assert(before.len() > 0);
                assert(self.stream() =~= q.skip(k + 1 as int));
            }
            k = k + 1;
        }
        Ok(true)
    }
}

/// `nonmember_prefix_len` is exactly what its definition scans: `n`
/// non-members followed by the end of the text or a member.
pub proof fn lemma_nonmember_prefix_len(set: SmallCharSet, s: Seq<char>, n: int)
    requires
        0 <= n <= s.len(),
        forall|i: int| 0 <= i < n ==> !set.spec_contains(#[trigger] s[i]),
        n == s.len() || set.spec_contains(s[n]),
    ensures
        nonmember_prefix_len(set, s) == n,
    decreases n,
{
    if n == 0 {
    } else {
        assert(!set.spec_contains(s[0]));
        assert(forall|i: int| 0 <= i < n - 1 ==> s.skip(1)[i] == s[i + 1]);
        lemma_nonmember_prefix_len(set, s.skip(1), n - 1);
    }
}

/// Whether two characters match, exactly or up to ASCII case.
pub fn chars_match(a: char, b: char, ci: bool) -> (r: bool)
    ensures
        r == char_matches(a, b, ci),
{
    if a == b {
        true
    } else if ci {
        fold_char(a) == fold_char(b)
    } else {
        false
    }
}

/// ASCII case folding of one character's code point.
fn fold_char(c: char) -> (x: u32)
    ensures
        x as int == fold_code(c as int),
{
    let u = c as u32;
    if 65 <= u && u <= 90 {
        u + 32
    } else {
        u
    }
}

} // verus!
