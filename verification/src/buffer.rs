//! Byte buffers that the bus moves in words.

use vstd::prelude::*;

verus! {

/// Byte `k` of a word, the lowest first.
pub open spec fn byte_of(word: u32, k: int) -> u8 {
    ((word >> ((8 * k) as u32)) & 0xFF) as u8
}

/// The bytes of a sequence of words, each word lowest byte first.
pub open spec fn bytes_of(words: Seq<u32>) -> Seq<u8> {
    Seq::new(4 * words.len(), |i: int| byte_of(words[i / 4], i % 4))
}

/// The word with the given bytes, the lowest first.
pub open spec fn word_from(b0: u8, b1: u8, b2: u8, b3: u8) -> u32 {
    b0 as u32 | (b1 as u32) << 8 | (b2 as u32) << 16 | (b3 as u32) << 24
}

/// The words that a sequence of bytes makes up, four bytes each.
pub open spec fn words_of(bytes: Seq<u8>) -> Seq<u32> {
    Seq::new(
        bytes.len() / 4,
        |k: int| word_from(bytes[4 * k], bytes[4 * k + 1], bytes[4 * k + 2], bytes[4 * k + 3]),
    )
}

/// Taking words apart and putting them together again changes nothing.
pub proof fn law_words_of_bytes(words: Seq<u32>)
    ensures
        words_of(bytes_of(words)) == words,
{
    assert forall|k: int| 0 <= k < words.len() implies words_of(bytes_of(words))[k] == words[k] by {
        let w: u32 = words[k];
        let bytes = bytes_of(words);
        assert(bytes[4 * k] == byte_of(w, 0));
        assert(bytes[4 * k + 1] == byte_of(w, 1));
        assert(bytes[4 * k + 2] == byte_of(w, 2));
        assert(bytes[4 * k + 3] == byte_of(w, 3));
        assert((((w >> 0u32) & 0xFF) as u8) as u32 | ((((w >> 8u32) & 0xFF) as u8) as u32) << 8 | (((
        (w >> 16u32) & 0xFF) as u8) as u32) << 16 | ((((w >> 24u32) & 0xFF) as u8) as u32) << 24
            == w) by (bit_vector);
    }
    assert(words_of(bytes_of(words)) =~= words);
}

/// Putting whole words together and taking them apart again changes nothing.
pub proof fn law_bytes_of_words(bytes: Seq<u8>)
    requires
        bytes.len() % 4 == 0,
    ensures
        bytes_of(words_of(bytes)) == bytes,
{
    assert forall|i: int| 0 <= i < bytes.len() implies bytes_of(words_of(bytes))[i] == bytes[i] by {
        let k = i / 4;
        let (b0, b1, b2, b3): (u8, u8, u8, u8) = (
            bytes[4 * k],
            bytes[4 * k + 1],
            bytes[4 * k + 2],
            bytes[4 * k + 3],
        );
        let w: u32 = word_from(b0, b1, b2, b3);
        assert(words_of(bytes)[k] == w);
        assert((w >> 0u32) & 0xFF == b0 && (w >> 8u32) & 0xFF == b1 && (w >> 16u32) & 0xFF == b2
            && (w >> 24u32) & 0xFF == b3) by (bit_vector)
            requires
                w == b0 as u32 | (b1 as u32) << 8 | (b2 as u32) << 16 | (b3 as u32) << 24,
        ;
        assert(i % 4 == 0 || i % 4 == 1 || i % 4 == 2 || i % 4 == 3);
    }
    assert(bytes_of(words_of(bytes)) =~= bytes);
}

/// `s` with `d` written over it from position `at` on.
pub open spec fn overwritten(s: Seq<u8>, at: int, d: Seq<u8>) -> Seq<u8> {
    Seq::new(
        s.len(),
        |i: int|
            if at <= i < at + d.len() {
                d[i - at]
            } else {
                s[i]
            },
    )
}

/// Writing over the bytes of words gives as many words, with those bytes.
pub proof fn lemma_overwritten_words(words: Seq<u32>, at: int, d: Seq<u8>)
    ensures
        words_of(overwritten(bytes_of(words), at, d)).len() == words.len(),
        bytes_of(words_of(overwritten(bytes_of(words), at, d))) == overwritten(
            bytes_of(words),
            at,
            d,
        ),
{
    law_bytes_of_words(overwritten(bytes_of(words), at, d));
}

/// How many words it takes to hold `n` bytes.
pub open spec fn words_for(n: int) -> int {
    (n + 3) / 4
}

/// How many words it takes to hold `n` bytes.
pub fn word_count(n: usize) -> (r: usize)
    ensures
        r == words_for(n as int),
{
    if n % 4 == 0 {
        n / 4
    } else {
        n / 4 + 1
    }
}

/// Writing one byte of a word changes that byte alone.
proof fn lemma_byte_written(w: u32, b: u8, k: int, v: u32)
    requires
        0 <= k < 4,
        v == (w & !(0xFFu32 << ((8 * k) as u32))) | ((b as u32) << ((8 * k) as u32)),
    ensures
        forall|j: int|
            0 <= j < 4 ==> #[trigger] byte_of(v, j) == if j == k {
                b
            } else {
                byte_of(w, j)
            },
{
    let s: u32 = (8 * k) as u32;
    assert forall|j: int| 0 <= j < 4 implies #[trigger] byte_of(v, j) == if j == k {
        b
    } else {
        byte_of(w, j)
    } by {
        let t: u32 = (8 * j) as u32;
        assert((v >> t) & 0xFF == if t == s {
            b as u32
        } else {
            (w >> t) & 0xFF
        }) by (bit_vector)
            requires
                s == 0 || s == 8 || s == 16 || s == 24,
                t == 0 || t == 8 || t == 16 || t == 24,
                v == (w & !(0xFFu32 << s)) | ((b as u32) << s),
        ;
    }
}

/// A buffer of bytes that is aligned and padded to whole words.
pub struct WordBuf {
    words: Vec<u32>,
    len: usize,
}

impl View for WordBuf {
    type V = Seq<u8>;

    /// The bytes, without the padding.
    open spec fn view(&self) -> Seq<u8> {
        bytes_of(self.words()).take(self.size())
    }
}

impl WordBuf {
    /// The words, padding included.
    pub closed spec fn words(&self) -> Seq<u32> {
        self.words@
    }

    /// The number of bytes, padding not included.
    pub closed spec fn size(&self) -> int {
        self.len as int
    }

    /// The words are exactly as many as the bytes need.
    pub open spec fn wf(&self) -> bool {
        &&& 0 <= self.size() <= usize::MAX
        &&& self.words().len() == words_for(self.size())
    }

    /// A buffer with the given bytes, padded with zeros.
    pub fn from_bytes(bytes: &[u8]) -> (r: WordBuf)
        ensures
            r.wf(),
            r@ == bytes@,
            forall|i: int|
                bytes@.len() <= i < 4 * r.words().len() ==> bytes_of(r.words())[i] == 0,
    {
        let len: usize = bytes.len();
        let mut words: Vec<u32> = Vec::new();
        let n: usize = word_count(len);
        let mut k: usize = 0;
        while k < n
            invariant
                k <= n,
                words@ == Seq::new(k as nat, |i: int| 0u32),
            decreases n - k,
        {
            words.push(0);
            k = k + 1;
        }
        let mut r = WordBuf { words, len };
        proof {
            assert(0u32 >> 0u32 & 0xFF == 0 && 0u32 >> 8u32 & 0xFF == 0 && 0u32 >> 16u32 & 0xFF == 0
                && 0u32 >> 24u32 & 0xFF == 0) by (bit_vector);
            assert forall|i: int| 0 <= i < 4 * r.words().len() implies bytes_of(r.words())[i]
                == 0 by {
                assert(r.words()[i / 4] == 0);
                assert(i % 4 == 0 || i % 4 == 1 || i % 4 == 2 || i % 4 == 3);
            }
        }
        r.copy_in(0, bytes, 0, len);
        proof {
            assert(r@ =~= bytes@);
        }
        r
    }

    /// The number of bytes.
    pub fn len(&self) -> (r: usize)
        ensures
            r == self.size(),
    {
        self.len
    }

    /// Byte `i`.
    pub fn get(&self, i: usize) -> (r: u8)
        requires
            self.wf(),
            i < self.size(),
        ensures
            r == self@[i as int],
    {
        let k: u32 = (i % 4) as u32;
        let word: u32 = self.words[i / 4];
        proof {
            let s: u32 = (8 * k) as u32;
            assert(word >> s & 0xFF <= 0xFF) by (bit_vector);
        }
        ((word >> (8 * k)) & 0xFF) as u8
    }

    /// Writes `src[from..from + n]` over the bytes from `at` on.
    pub fn copy_in(&mut self, at: usize, src: &[u8], from: usize, n: usize)
        requires
            old(self).wf(),
            at + n <= old(self).size(),
            from + n <= src@.len(),
        ensures
            final(self).wf(),
            final(self).size() == old(self).size(),
            bytes_of(final(self).words()) == overwritten(
                bytes_of(old(self).words()),
                at as int,
                src@.subrange(from as int, from + n),
            ),
            final(self).words() == words_of(
                overwritten(
                    bytes_of(old(self).words()),
                    at as int,
                    src@.subrange(from as int, from + n),
                ),
            ),
    {
        let src_len: usize = src.len();
        let mut j: usize = 0;
        assert(bytes_of(self.words()) =~= overwritten(
            bytes_of(old(self).words()),
            at as int,
            src@.subrange(from as int, from as int),
        ));
        while j < n
            invariant
                j <= n,
                self.wf(),
                self.size() == old(self).size(),
                self.words().len() == old(self).words().len(),
                at + n <= self.size(),
                src_len == src@.len(),
                from + n <= src_len,
                bytes_of(self.words()) == overwritten(
                    bytes_of(old(self).words()),
                    at as int,
                    src@.subrange(from as int, from + j),
                ),
            decreases n - j,
        {
            let ghost before = self.words();
            let i: usize = at + j;
            let b: u8 = src[from + j];
            let k: u32 = (i % 4) as u32;
            let word: u32 = self.words[i / 4];
            self.words[i / 4] = (word & !(0xFFu32 << (8 * k))) | ((b as u32) << (8 * k));
            proof {
                let after = self.words();
                lemma_byte_written(word, b, k as int, after[i as int / 4]);
                assert forall|p: int| 0 <= p < 4 * after.len() implies bytes_of(after)[p] == if p
                    == i {
                    b
                } else {
                    bytes_of(before)[p]
                } by {
                    if p / 4 == i as int / 4 {
                        assert(byte_of(after[p / 4], p % 4) == if p % 4 == k {
                            b
                        } else {
                            byte_of(word, p % 4)
                        });
                    } else {
                        assert(after[p / 4] == before[p / 4]);
                    }
                }
                assert(bytes_of(after) =~= overwritten(
                    bytes_of(old(self).words()),
                    at as int,
                    src@.subrange(from as int, from + j + 1),
                ));
            }
            j = j + 1;
        }
        proof {
            law_words_of_bytes(self.words());
        }
    }

    /// Writes the bytes `from..from + n` over those of `dst` from `at` on.
    pub fn copy_out(&self, from: usize, dst: &mut [u8], at: usize, n: usize)
        requires
            self.wf(),
            from + n <= self.size(),
            at + n <= old(dst)@.len(),
        ensures
            final(dst)@ == overwritten(
                old(dst)@,
                at as int,
                self@.subrange(from as int, from + n),
            ),
    {
        let dst_len: usize = dst.len();
        let mut j: usize = 0;
        assert(dst@ =~= overwritten(
            old(dst)@,
            at as int,
            self@.subrange(from as int, from as int),
        ));
        while j < n
            invariant
                j <= n,
                self.wf(),
                from + n <= self.size(),
                dst_len == dst@.len() == old(dst)@.len(),
                at + n <= dst_len,
                dst@ == overwritten(old(dst)@, at as int, self@.subrange(from as int, from + j)),
            decreases n - j,
        {
            let b: u8 = self.get(from + j);
            dst[at + j] = b;
            assert(dst@ =~= overwritten(
                old(dst)@,
                at as int,
                self@.subrange(from as int, from + j + 1),
            ));
            j = j + 1;
        }
    }

    /// Replaces the first word.
    pub fn set_head(&mut self, word: u32)
        requires
            old(self).wf(),
            old(self).size() >= 1,
        ensures
            final(self).wf(),
            final(self).size() == old(self).size(),
            final(self).words() == old(self).words().update(0, word),
    {
        self.words[0] = word;
    }

    /// The first word.
    pub fn head(&self) -> (r: u32)
        requires
            self.wf(),
            self.size() >= 1,
        ensures
            r == self.words()[0],
    {
        self.words[0]
    }
}

/// The words of a buffer, padding included.
pub fn slice32_ref(x: &WordBuf) -> (r: &[u32])
    ensures
        r@ == x.words(),
{
    x.words.as_slice()
}

/// The words of a buffer, padding included, for the bus to fill.
pub fn slice32_mut(x: &mut WordBuf) -> (r: &mut [u32])
    ensures
        r@ == old(x).words(),
        final(x).words() == final(r)@,
        final(x).size() == old(x).size(),
        old(x).wf() && final(r)@.len() == r@.len() ==> final(x).wf(),
{
    x.words.as_mut_slice()
}

/// The bytes of a word are its digits to the base of 256, the lowest first.
pub proof fn law_byte_digits(word: u32)
    ensures
        byte_of(word, 0) == word % 0x100,
        byte_of(word, 1) == word / 0x100 % 0x100,
        byte_of(word, 2) == word / 0x10000 % 0x100,
        byte_of(word, 3) == word / 0x1000000,
        word == byte_of(word, 0) + 0x100 * byte_of(word, 1) + 0x10000 * byte_of(word, 2) + 0x1000000
            * byte_of(word, 3),
{
    assert(((word >> 0u32) & 0xFF) as u8 == word % 0x100 && ((word >> 8u32) & 0xFF) as u8 == word
        / 0x100 % 0x100 && ((word >> 16u32) & 0xFF) as u8 == word / 0x10000 % 0x100 && ((word
        >> 24u32) & 0xFF) as u8 == word / 0x1000000) by (bit_vector);
}

/// Four bytes to a word, in the order of the words.
pub proof fn law_bytes_in_order(words: Seq<u32>, k: int)
    requires
        0 <= k < words.len(),
    ensures
        bytes_of(words).len() == 4 * words.len(),
        words[k] == bytes_of(words)[4 * k] + 0x100 * bytes_of(words)[4 * k + 1] + 0x10000
            * bytes_of(words)[4 * k + 2] + 0x1000000 * bytes_of(words)[4 * k + 3],
{
    law_byte_digits(words[k]);
    let bytes = bytes_of(words);
    assert(bytes[4 * k] == byte_of(words[k], 0));
    assert(bytes[4 * k + 1] == byte_of(words[k], 1));
    assert(bytes[4 * k + 2] == byte_of(words[k], 2));
    assert(bytes[4 * k + 3] == byte_of(words[k], 3));
}

/// The words for a number of bytes hold them, and one word less would not.
pub proof fn law_words_hold_bytes(n: int)
    requires
        n >= 0,
    ensures
        n <= 4 * words_for(n) < n + 4,
{
}

/// Writing over a sequence replaces that stretch and keeps what is before and behind it.
pub proof fn law_overwritten_stretch(s: Seq<u8>, at: int, d: Seq<u8>)
    requires
        0 <= at,
        at + d.len() <= s.len(),
    ensures
        overwritten(s, at, d) == s.take(at) + d + s.skip(at + d.len()),
{
}

/// A buffer shows as many bytes as it has, in the order of its words.
pub proof fn law_buffer_bytes(buf: &WordBuf, i: int)
    requires
        buf.wf(),
        0 <= i < buf.size(),
    ensures
        buf@.len() == buf.size(),
        buf@[i] == bytes_of(buf.words())[i],
        buf.size() <= 4 * buf.words().len() < buf.size() + 4,
{
}

} // verus!
