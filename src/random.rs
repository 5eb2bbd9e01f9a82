//! A deterministic source of pseudo-random bytes.
//!
//! The bytes come from a fixed buffer compiled into the library and are read
//! through a cursor that wraps around the buffer forever, so every fresh
//! source yields the same stream in every process.
use vstd::arithmetic::div_mod::{
    lemma_add_mod_noop, lemma_add_mod_noop_right, lemma_mod_bound, lemma_mod_self_0, lemma_mod_twice, lemma_small_mod,
};
use vstd::prelude::*;

verus! {

/// The fixed buffer the stream cycles through.
pub open spec fn seed_bytes() -> Seq<u8> {
    seq![
        25u8, 79, 234, 174, 1, 174, 213, 124, 175, 86, 97, 229, 217, 101, 183, 205,
        232, 170, 84, 20, 204, 134, 219, 217, 0, 76, 72, 248, 191, 205, 151, 22,
        130, 76, 152, 48, 69, 2, 67, 216, 109, 237, 87, 94, 105, 58, 0, 140,
        240, 122, 77, 144, 112, 101, 232, 190, 214, 110, 82, 146, 177, 62, 49, 187,
    ]
}

/// The length of the buffer.
pub open spec fn seed_len() -> nat {
    seed_bytes().len()
}

/// The `n` bytes read from the cycling buffer starting at position `start`.
pub open spec fn stream(start: int, n: nat) -> Seq<u8> {
    Seq::new(n, |j: int| seed_bytes()[(start + j) % (seed_len() as int)])
}

/// The integer whose little-endian encoding is `b`.
pub open spec fn le_value(b: Seq<u8>) -> nat
    decreases b.len(),
{
    if b.len() == 0 {
        0
    } else {
        b[0] as nat + 256 * le_value(b.drop_first())
    }
}

fn seed_vec() -> (r: Vec<u8>)
    ensures
        r@ == seed_bytes(),
{
    let r: Vec<u8> = vec![
        25u8, 79, 234, 174, 1, 174, 213, 124, 175, 86, 97, 229, 217, 101, 183, 205,
        232, 170, 84, 20, 204, 134, 219, 217, 0, 76, 72, 248, 191, 205, 151, 22,
        130, 76, 152, 48, 69, 2, 67, 216, 109, 237, 87, 94, 105, 58, 0, 140,
        240, 122, 77, 144, 112, 101, 232, 190, 214, 110, 82, 146, 177, 62, 49, 187,
    ];
    assert(r@ =~= seed_bytes());
    r
}

/// The `u32` whose little-endian encoding is the four bytes of `b`.
fn le_u32(b: &Vec<u8>) -> (r: u32)
    requires
        b@.len() == 4,
    ensures
        r as nat == le_value(b@),
{
    proof {
        reveal_with_fuel(le_value, 5);
        assert(b@.drop_first().drop_first().drop_first().drop_first().len() == 0);
    }
    b[0] as u32 + 256 * (b[1] as u32 + 256 * (b[2] as u32 + 256 * b[3] as u32))
}

/// The `u64` whose little-endian encoding is the eight bytes of `b`.
fn le_u64(b: &Vec<u8>) -> (r: u64)
    requires
        b@.len() == 8,
    ensures
        r as nat == le_value(b@),
{
    proof {
        reveal_with_fuel(le_value, 9);
        let s = b@.drop_first().drop_first().drop_first().drop_first();
        assert(s.drop_first().drop_first().drop_first().drop_first().len() == 0);
    }
    let high: u64 = b[4] as u64 + 256 * (b[5] as u64 + 256 * (b[6] as u64 + 256 * b[7] as u64));
    b[0] as u64 + 256 * (b[1] as u64 + 256 * (b[2] as u64 + 256 * (b[3] as u64 + 256 * high)))
}

/// A replayable random source: the fixed buffer and a cursor into it.
#[derive(Clone)]
pub struct FakeRand {
    bytes: Vec<u8>,
    cursor: usize,
}

impl View for FakeRand {
    /// The position of the cursor in the buffer.
    type V = nat;

    closed spec fn view(&self) -> nat {
        self.cursor as nat
    }
}

impl FakeRand {
    /// The source reads from the fixed buffer.
    pub closed spec fn holds_seed(&self) -> bool {
        self.bytes@ == seed_bytes()
    }

    /// The source reads from the fixed buffer and its cursor lies inside it.
    pub open spec fn wf(&self) -> bool {
        &&& self.holds_seed()
        &&& self@ < seed_len()
    }

    /// A source whose cursor stands at the start of the buffer.
    pub fn new() -> (r: Self)
        ensures
            r.wf(),
            r@ == 0,
    {
        FakeRand { bytes: seed_vec(), cursor: 0 }
    }

    /// The next byte of the stream; the cursor moves on by one.
    fn next_byte(&mut self) -> (b: u8)
        requires
            old(self).wf(),
        ensures
            final(self).wf(),
            final(self)@ as int == (old(self)@ as int + 1) % (seed_len() as int),
            b == seed_bytes()[old(self)@ as int],
    {
        let b = self.bytes[self.cursor];
        if self.cursor + 1 == self.bytes.len() {
            self.cursor = 0;
            proof {
                lemma_mod_self_0(seed_len() as int);
            }
        } else {
            self.cursor = self.cursor + 1;
            proof {
                lemma_small_mod(self.cursor as nat, seed_len());
            }
        }
        b
    }

    /// Advances the cursor by `bytes` positions without producing output.
    pub fn skip(&mut self, bytes: usize)
        requires
            old(self).wf(),
        ensures
            final(self).wf(),
            final(self)@ as int == (old(self)@ as int + bytes) % (seed_len() as int),
            (bytes as nat) % seed_len() == 0 ==> final(self)@ == old(self)@,
    {
        let len = self.bytes.len();
        let step = bytes % len;
        let next = self.cursor + step;
        if next >= len {
            self.cursor = next - len;
        } else {
            self.cursor = next;
        }
        proof {
            lemma_add_mod_noop(old(self)@ as int, bytes as int, len as int);
            lemma_mod_twice(old(self)@ as int, len as int);
        }
        assert(self.cursor as int == (old(self)@ as int + bytes) % (len as int)) by {
            lemma_mod_bound(bytes as int, len as int);
            lemma_add_mod_noop(old(self)@ as int, step as int, len as int);
            lemma_mod_twice(step as int, len as int);
        }
        proof {
            if (bytes as nat) % seed_len() == 0 {
                lemma_small_mod(old(self)@, seed_len());
            }
        }
    }

    /// Reads `n` bytes of the stream; the cursor moves on by `n`.
    pub fn next_bytes(&mut self, n: usize) -> (r: Vec<u8>)
        requires
            old(self).wf(),
        ensures
            final(self).wf(),
            final(self)@ as int == (old(self)@ as int + n) % (seed_len() as int),
            r@ == stream(old(self)@ as int, n as nat),
    {
        let mut r: Vec<u8> = Vec::with_capacity(n);
        let mut i: usize = 0;
        let ghost start = self@ as int;
        proof {
            lemma_small_mod(old(self)@, seed_len());
            assert(r@ =~= stream(old(self)@ as int, 0));
        }
        while i < n
            invariant
                self.wf(),
                i <= n,
                start == old(self)@,
                self@ as int == (start + i) % (seed_len() as int),
                r@ == stream(start, i as nat),
            decreases n - i,
        {
            let b = self.next_byte();
            r.push(b);
            proof {
                lemma_add_mod_noop(start + i, 1, seed_len() as int);
                lemma_small_mod(1, seed_len());
                lemma_mod_twice(start + i, seed_len() as int);
                assert(r@ =~= stream(start, (i + 1) as nat));
            }
            i = i + 1;
        }
        r
    }

    /// Fills `dest` with the next `dest.len()` bytes of the stream.
    pub fn fill_bytes(&mut self, dest: &mut [u8])
        requires
            old(self).wf(),
        ensures
            final(self).wf(),
            final(self)@ as int == (old(self)@ as int + old(dest)@.len()) % (seed_len() as int),
            final(dest)@ == stream(old(self)@ as int, old(dest)@.len()),
    {
        let n = dest.len();
        let mut i: usize = 0;
        let ghost start = self@ as int;
        proof {
            lemma_small_mod(old(self)@, seed_len());
        }
        while i < n
            invariant
                self.wf(),
                i <= n,
                n == dest@.len(),
                n == old(dest)@.len(),
                start == old(self)@,
                self@ as int == (start + i) % (seed_len() as int),
                dest@.subrange(0, i as int) == stream(start, i as nat),
            decreases n - i,
        {
            let b = self.next_byte();
            let ghost prev = dest@;
            dest[i] = b;
            proof {
                assert(dest@ == prev.update(i as int, b));
                assert forall|j: int| 0 <= j < i implies dest@[j] == prev.subrange(0, i as int)[j] by {}
                lemma_add_mod_noop(start + i, 1, seed_len() as int);
                lemma_small_mod(1, seed_len());
                lemma_mod_twice(start + i, seed_len() as int);
                assert(dest@.subrange(0, i + 1) =~= stream(start, (i + 1) as nat));
            }
            i = i + 1;
        }
        assert(dest@ =~= dest@.subrange(0, n as int));
    }

    /// The next four bytes of the stream read as a little-endian `u32`.
    pub fn next_u32(&mut self) -> (r: u32)
        requires
            old(self).wf(),
        ensures
            final(self).wf(),
            final(self)@ as int == (old(self)@ as int + 4) % (seed_len() as int),
            r as nat == le_value(stream(old(self)@ as int, 4)),
    {
        let b = self.next_bytes(4);
        le_u32(&b)
    }

    /// The next eight bytes of the stream read as a little-endian `u64`.
    pub fn next_u64(&mut self) -> (r: u64)
        requires
            old(self).wf(),
        ensures
            final(self).wf(),
            final(self)@ as int == (old(self)@ as int + 8) % (seed_len() as int),
            r as nat == le_value(stream(old(self)@ as int, 8)),
    {
        let b = self.next_bytes(8);
        le_u64(&b)
    }
}

impl Default for FakeRand {
    fn default() -> (r: Self)
        ensures
            r.wf(),
            r@ == 0,
    {
        FakeRand::new()
    }
}

/// Two fresh sources produce the same bytes, for any number of bytes read,
/// including reads that wrap around the buffer many times.
pub proof fn lemma_fresh_sources_agree(a: FakeRand, b: FakeRand, n: nat)
    requires
        a.wf(),
        b.wf(),
        a@ == 0,
        b@ == 0,
    ensures
        stream(a@ as int, n) == stream(b@ as int, n),
        forall|j: int| 0 <= j < n ==> #[trigger] stream(a@ as int, n)[j] == seed_bytes()[j % (seed_len() as int)],
{
}

/// Skipping `k` bytes and then reading `n` gives the last `n` of `k + n`
/// bytes read from the same position.
pub proof fn lemma_skip_then_read(start: int, k: nat, n: nat)
    requires
        0 <= start < seed_len(),
    ensures
        stream((start + k) % (seed_len() as int), n) == stream(start, k + n).subrange(k as int, (k + n) as int),
{
    let len = seed_len() as int;
    assert forall|j: int| 0 <= j < n implies #[trigger] stream((start + k) % len, n)[j] == stream(start, k + n)[k + j] by {
        lemma_add_mod_noop_right(j, start + k, len);
    }
    assert(stream((start + k) % len, n) =~= stream(start, k + n).subrange(k as int, (k + n) as int));
}

} // verus!
