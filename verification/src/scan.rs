//! Locating the embedded metadata descriptor inside an opened module file:
//! the file is streamed in chunks, runs anchored at the magic's first byte
//! are accumulated up to a NUL terminator, candidates not carrying the
//! whole magic prefix are discarded, and a partial run is carried over a
//! chunk boundary. Reading the file stays outside this crate.

use vstd::prelude::*;

verus! {

/// The first position of `b` in `s`, if any.
pub open spec fn spec_find_byte(s: Seq<u8>, b: u8) -> Option<int>
    decreases s.len(),
{
    if s.len() == 0 {
        None
    } else if s[0] == b {
        Some(0int)
    } else {
        match spec_find_byte(s.skip(1), b) {
            Some(i) => Some(i + 1),
            None => None,
        }
    }
}

/// What `spec_find_byte` returns, said without recursion.
pub proof fn lemma_spec_find_byte(s: Seq<u8>, b: u8)
    ensures
        match spec_find_byte(s, b) {
            Some(i) => 0 <= i < s.len() && s[i] == b && forall|j: int| 0 <= j < i ==> s[j] != b,
            None => forall|j: int| 0 <= j < s.len() ==> s[j] != b,
        },
    decreases s.len(),
{
    if s.len() != 0 && s[0] != b {
        lemma_spec_find_byte(s.skip(1), b);
        let rest = s.skip(1);
        match spec_find_byte(rest, b) {
            Some(i) => {
                assert(s[i + 1] == rest[i]);
                assert forall|j: int| 0 <= j < i + 1 implies s[j] != b by {
                    if j > 0 {
                        assert(s[j] == rest[j - 1]);
                    }
                }
            },
            None => {
                assert forall|j: int| 0 <= j < s.len() implies s[j] != b by {
                    if j > 0 {
                        assert(s[j] == rest[j - 1]);
                    }
                }
            },
        }
    }
}

/// The first position of `b` in `s` at or after `from`.
fn find_byte_from(s: &[u8], from: usize, b: u8) -> (r: Option<usize>)
    requires
        from <= s@.len(),
    ensures
        match r {
            Some(i) => from <= i < s@.len() && spec_find_byte(s@.skip(from as int), b) == Some(
                i - from,
            ),
            None => spec_find_byte(s@.skip(from as int), b) is None,
        },
{
    proof {
        lemma_spec_find_byte(s@.skip(from as int), b);
    }
    let n: usize = s.len();
    let mut i: usize = from;
    while i < n
        invariant
            from <= i <= n,
            n == s@.len(),
            forall|j: int| from <= j < i ==> s@[j] != b,
        decreases n - i,
    {
        if *vstd::slice::slice_index_get(s, i) == b {
            proof {
                lemma_spec_find_byte(s@.skip(from as int), b);
                if spec_find_byte(s@.skip(from as int), b) is None {
                    assert(s@.skip(from as int)[i - from] == b);
                    assert(false);
                }
                let k = spec_find_byte(s@.skip(from as int), b)->Some_0;
                assert(s@.skip(from as int)[k] == s@[k + from]);
                assert forall|d: int| 0 <= d < i - from implies s@.skip(from as int)[d] != b by {
                    assert(s@.skip(from as int)[d] == s@[d + from]);
                }
                assert(s@.skip(from as int)[i - from] == b);
                assert(k == i - from);
            }
            return Some(i);
        }
        i = i + 1;
    }
    proof {
        lemma_spec_find_byte(s@.skip(from as int), b);
        if spec_find_byte(s@.skip(from as int), b) is Some {
            let k = spec_find_byte(s@.skip(from as int), b)->Some_0;
            assert(s@.skip(from as int)[k] == s@[k + from]);
            assert(false);
        }
    }
    None
}

/// The magic prefix a genuine descriptor run begins with.
pub open spec fn spec_magic() -> Seq<u8> {
    seq![
        0x42u8, 0x50u8, 0x33u8, 0x44u8, 0x5fu8, 0x4fu8, 0x53u8, 0x5fu8, 0x4du8, 0x4fu8, 0x44u8,
        0x55u8, 0x4cu8, 0x45u8, 0x7cu8,
    ]
}

/// Whether a run begins with the magic prefix.
pub open spec fn spec_has_magic(run: Seq<u8>) -> bool {
    spec_magic().len() <= run.len() && run.take(spec_magic().len() as int) == spec_magic()
}

/// What one chunk does to the scan: either the descriptor is complete, or
/// the carried-over run after the chunk. A fresh run starts only at a
/// position holding the magic's first byte; a run carried over a chunk
/// boundary continues at the chunk's very start. A run completed by a NUL
/// either carries the magic and is the result, or is discarded and the
/// scan resumes after its terminator.
pub open spec fn spec_scan(acc: Seq<u8>, slice: Seq<u8>) -> Result<Seq<u8>, Seq<u8>>
    decreases slice.len(),
    via spec_scan_decreases
{
    let anchor = if acc.len() > 0 {
        Some(0int)
    } else {
        spec_find_byte(slice, 0x42u8)
    };
    if slice.len() == 0 {
        Err(acc)
    } else {
    match anchor {
        None => Err(acc),
        Some(pos) => {
            let inner = slice.skip(pos);
            let end = match spec_find_byte(inner, 0u8) {
                Some(e) => e,
                None => inner.len() - 1,
            };
            let acc2 = acc + inner.take(end + 1);
            if acc2[acc2.len() - 1] == 0u8 {
                if spec_has_magic(acc2) {
                    Ok(acc2)
                } else {
                    spec_scan(Seq::empty(), inner.skip(end + 1))
                }
            } else {
                Err(acc2)
            }
        },
    }
    }
}

#[via_fn]
proof fn spec_scan_decreases(acc: Seq<u8>, slice: Seq<u8>) {
    lemma_spec_find_byte(slice, 0x42u8);
    let anchor = if acc.len() > 0 {
        Some(0int)
    } else {
        spec_find_byte(slice, 0x42u8)
    };
    match anchor {
        None => {},
        Some(pos) => {
            if 0 <= pos <= slice.len() {
                lemma_spec_find_byte(slice.skip(pos), 0u8);
            }
        },
    }
}

/// Whether `v` begins with exactly the bytes of `pat`.
fn vec_starts_with(v: &Vec<u8>, pat: &[u8]) -> (r: bool)
    ensures
        r == (pat@.len() <= v@.len() && v@.take(pat@.len() as int) == pat@),
{
    let m: usize = pat.len();
    if v.len() < m {
        return false;
    }
    let mut j: usize = 0;
    while j < m
        invariant
            0 <= j <= m,
            m == pat@.len() <= v@.len(),
            forall|i: int| 0 <= i < j ==> v@[i] == pat@[i],
        decreases m - j,
    {
        if v[j] != *vstd::slice::slice_index_get(pat, j) {
            proof {
                assert(v@.take(m as int)[j as int] != pat@[j as int]);
            }
            return false;
        }
        j = j + 1;
    }
    proof {
        assert(v@.take(m as int) =~= pat@);
    }
    true
}

/// The streaming scanner: feeds on chunks of the opened file and carries a
/// partial run across chunk boundaries.
pub struct MetadataScanner {
    acc: Vec<u8>,
}

impl MetadataScanner {
    /// The run carried so far.
    pub closed spec fn acc_view(&self) -> Seq<u8> {
        self.acc@
    }

    /// A scanner with nothing carried yet.
    pub fn new() -> (r: MetadataScanner)
        ensures
            r.acc_view() == Seq::<u8>::empty(),
    {
        let r = MetadataScanner { acc: Vec::new() };
        proof {
            assert(r.acc_view() =~= Seq::<u8>::empty());
        }
        r
    }

    /// Feeds one chunk: returns the complete descriptor bytes when its NUL
    /// terminator arrived and the run carries the magic, exactly as
    /// `spec_scan` says; otherwise the scanner keeps the carried run.
    #[verifier::loop_isolation(false)]
    #[verifier::rlimit(60)]
    pub fn push_chunk(&mut self, chunk: &[u8]) -> (r: Option<Vec<u8>>)
        ensures
            match r {
                Some(found) => spec_scan(old(self).acc_view(), chunk@) == Ok::<Seq<u8>, Seq<u8>>(
                    found@,
                ),
                None => spec_scan(old(self).acc_view(), chunk@) == Err::<Seq<u8>, Seq<u8>>(
                    final (self).acc_view(),
                ),
            },
{
        let n: usize = chunk.len();
        let mut cursor: usize = 0;
        proof {
            assert(chunk@.skip(0int) =~= chunk@);
        }
        loop
            invariant
                0 <= cursor <= n,
                n == chunk@.len(),
                spec_scan(old(self).acc_view(), chunk@) == spec_scan(
                    self.acc_view(),
                    chunk@.skip(cursor as int),
                ),
            decreases n - cursor,
        {
            let ghost pre = chunk@.skip(cursor as int);
            let pos = if !self.acc.is_empty() {
                // A run carried over the boundary continues right here.
                cursor
            } else {
                match find_byte_from(chunk, cursor, 0x42u8) {
                    None => {
                        return None;
                    },
                    Some(p) => p,
                }
            };
            if pos >= n {
                // An empty chunk tail: nothing of the carried run can grow.
                proof {
                    assert(pre =~= Seq::<u8>::empty());
                }
                return None;
            }
            proof {
                assert(pre.skip(pos - cursor) =~= chunk@.skip(pos as int));
            }
            let ghost inner = chunk@.skip(pos as int);
            let end = match find_byte_from(chunk, pos, 0u8) {
                Some(e) => {
                    proof {
                        assert(chunk@.skip(pos as int).skip(e - pos) =~= chunk@.skip(e as int));
                    }
                    e
                },
                None => n - 1,
            };
            let ghost spec_end = match spec_find_byte(inner, 0u8) {
                Some(e) => e,
                None => inner.len() - 1,
            };
            proof {
                assert(end - pos == spec_end);
            }
            // Accumulate the candidate run up to and including the
            // terminator position.
            let ghost old_acc = self.acc@;
            let mut k: usize = pos;
            while k < end + 1
                invariant
                    pos <= k <= end + 1,
                    end < n,
                    self.acc@ == old_acc + chunk@.subrange(pos as int, k as int),
                decreases end + 1 - k,
            {
                self.acc.push(*vstd::slice::slice_index_get(chunk, k));
                proof {
                    assert(old_acc + chunk@.subrange(pos as int, k + 1 as int) =~= (old_acc
                        + chunk@.subrange(pos as int, k as int)).push(chunk@[k as int]));
                }
                k = k + 1;
            }
            proof {
                assert(chunk@.subrange(pos as int, end + 1 as int) =~= inner.take(spec_end + 1));
            }
            let ghost acc2 = old_acc + inner.take(spec_end + 1);
            let last = self.acc[self.acc.len() - 1];
            if last == 0u8 {
                let magic: [u8; 15] = [
                    0x42u8, 0x50u8, 0x33u8, 0x44u8, 0x5fu8, 0x4fu8, 0x53u8, 0x5fu8, 0x4du8, 0x4fu8,
                    0x44u8, 0x55u8, 0x4cu8, 0x45u8, 0x7cu8,
                ];
                proof {
                    assert(magic@ =~= spec_magic());
                }
                let has_magic = vec_starts_with(&self.acc, magic.as_slice());
                proof {
                    assert(has_magic == spec_has_magic(acc2));
                }
                if has_magic {
                    let mut found: Vec<u8> = Vec::new();
                    core::mem::swap(&mut found, &mut self.acc);
                    proof {
                        assert(spec_scan(old_acc, pre) == Ok::<Seq<u8>, Seq<u8>>(acc2));
                    }
                    return Some(found);
                }
                self.acc.clear();
                proof {
                    assert(self.acc@ =~= Seq::<u8>::empty());
                    assert(inner.skip(spec_end + 1) =~= chunk@.skip(end + 1 as int));
                }
                cursor = end + 1;
            } else {
                proof {
                    assert(spec_scan(old_acc, pre) == Err::<Seq<u8>, Seq<u8>>(acc2));
                }
                return None;
            }
        }
    }
}

} // verus!
