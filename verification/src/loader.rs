//! Class `j` — the resource loader: the game's own walk of a `.pak` container.
//!
//! The layout the loader reads: a big-endian `i32` entry count, that many
//! big-endian `i32` entry lengths, then the entry payloads back to back, every
//! payload byte XOR the key the caller passes. Unlike the strict reader in
//! [`crate::pak`], this walk is the game's: a failed open leaves the
//! directory unset, a short entry reads as zero bytes, and a failed skip
//! stops early.
use crate::jio::{payload, DataInput};
use crate::pak::{body_entry, lemma_body_entries, lemma_total_len_nonneg, lemma_dir_words, pak_bodies, pak_spec, total_len, dir_step, xor_key, XOR_KEY};
use crate::reader::{be_u32, i32_at, read_seq, signed32, signed8, FormatError};
use crate::resource::Resources;
use vstd::prelude::*;

verus! {

/// The loader's fields.
#[derive(Debug)]
pub struct ResourceLoader {
    /// The open pak stream (`None` before the first open and after
    /// [`close_pak`]).
    pub a: Option<DataInput>,
    /// The entry-length directory (`None` before a successful open and after
    /// [`close_pak`]).
    pub f119a: Option<Vec<i32>>,
    /// The XOR key.
    pub f120a: i8,
    /// The index of the current entry in the directory.
    pub f121a: i32,
}

impl Default for ResourceLoader {
    fn default() -> (r: Self)
        ensures
            r.a is None,
            r.f119a is None,
            r.f120a == 0,
            r.f121a == 0,
    {
        ResourceLoader { a: None, f119a: None, f120a: 0, f121a: 0 }
    }
}

/// The big-endian `i32` at `pos` of `d`.
pub open spec fn int_at(d: Seq<u8>, pos: int) -> i32 {
    signed32(be_u32(d, pos)) as i32
}

/// The directory an open reads from a payload: the entry count, then that
/// many lengths; `None` where a read fails or the count is negative.
pub open spec fn pak_directory(s: Option<Seq<u8>>) -> Option<Seq<i32>> {
    match s {
        None => None,
        Some(d) => if d.len() < 4 {
            None
        } else {
            let n = int_at(d, 0) as int;
            if n < 0 || 4 + 4 * n > d.len() {
                None
            } else {
                Some(Seq::new(n as nat, |i: int| int_at(d, 4 + 4 * i)))
            }
        },
    }
}

/// Where the stream's cursor stands after an open: past the directory, or
/// at the read that failed.
pub open spec fn pak_directory_end(s: Option<Seq<u8>>) -> int {
    match s {
        None => 0,
        Some(d) => if d.len() < 4 {
            0
        } else {
            let n = int_at(d, 0) as int;
            if n < 0 {
                4
            } else if 4 + 4 * n > d.len() {
                4 + 4 * ((d.len() - 4) / 4)
            } else {
                4 + 4 * n
            }
        },
    }
}

/// The index after `i`, as the JVM's `int` increment wraps it.
pub open spec fn next_index(i: i32) -> i32 {
    if i == i32::MAX {
        i32::MIN
    } else {
        (i + 1) as i32
    }
}

/// Byte `i` of an entry read at `pos`: the payload byte XOR the key, or 0
/// where the payload has ended.
pub open spec fn entry_byte(d: Seq<u8>, pos: int, i: int, key: i8) -> i8 {
    if pos + i < d.len() {
        (signed8(d[pos + i] as int) as i8) ^ key
    } else {
        0
    }
}

/// An entry of `len` bytes read at `pos`, each XOR the key.
pub open spec fn entry_bytes(d: Seq<u8>, pos: int, len: int, key: i8) -> Seq<i8> {
    Seq::new(len as nat, |i: int| entry_byte(d, pos, i, key))
}

/// Where the cursor stands after reading an entry of `len` bytes at `pos`:
/// past it, or at the end of a payload that ran out.
pub open spec fn entry_end(d: Seq<u8>, pos: int, len: int) -> int {
    if pos + len <= d.len() {
        pos + len
    } else {
        d.len() as int
    }
}

/// The cursor after skipping `len` bytes at `pos` of a payload of `n` bytes.
pub open spec fn skip_to(pos: int, len: i32, n: int) -> int {
    let want = if len < 0 {
        0
    } else {
        len as int
    };
    if pos + want <= n {
        pos + want
    } else {
        n
    }
}

/// The index and cursor after skipping up to `k` entries from index `idx`
/// and cursor `pos`: each step skips one entry's length, and the walk stops
/// at the first index outside the directory.
pub open spec fn skip_walk(dir: Seq<i32>, n: int, idx: i32, pos: int, k: int) -> (i32, int)
    decreases k,
{
    if k <= 0 || idx < 0 || idx >= dir.len() {
        (idx, pos)
    } else {
        skip_walk(dir, n, next_index(idx), skip_to(pos, dir[idx as int], n), k - 1)
    }
}

/// Where entry `k` of a pack's entries `es` starts: after the count, the
/// directory and the entries before it.
pub open spec fn entry_start(es: Seq<Seq<u8>>, k: int) -> int {
    4 + 4 * es.len() + total_len(es.take(k))
}

/// A payload byte XOR the key, read as a signed byte, is the key applied to
/// the signed byte.
proof fn lemma_xor_signed(b: u8)
    ensures
        (signed8(b as int) as i8) ^ (XOR_KEY as i8) == ((b ^ XOR_KEY) as i8),
{
    assert(((b as i8) ^ 0x53i8) == ((b ^ 0x53u8) as i8)) by (bit_vector);
    if b >= 128 {
        assert(((b as int - 256) as i8) == (b as i8)) by (bit_vector)
            requires
                b >= 128,
        ;
    }
}

/// Reading an encrypted entry that lies inside the payload gives back its
/// decryption, and ends right after it.
proof fn lemma_entry_read(data: Seq<u8>, start: int, e: Seq<u8>)
    requires
        0 <= start,
        start + e.len() <= data.len(),
        e == xor_key(data.subrange(start, start + e.len())),
    ensures
        entry_bytes(data, start, e.len() as int, XOR_KEY as i8) == e.map_values(|b: u8| b as i8),
        entry_end(data, start, e.len() as int) == start + e.len(),
{
    assert forall|i: int| 0 <= i < e.len() implies #[trigger] entry_byte(
        data,
        start,
        i,
        XOR_KEY as i8,
    ) == (e[i] as i8) by {
        lemma_xor_signed(data[start + i]);
    }
    assert(entry_bytes(data, start, e.len() as int, XOR_KEY as i8) =~= e.map_values(
        |b: u8| b as i8,
    ));
}

/// On a pack the strict reader accepts, the loader's directory holds the
/// entries' lengths and ends where the first entry starts.
proof fn lemma_directory_agrees(data: Seq<u8>)
    requires
        pak_spec(data) is Ok,
    ensures
        ({
            let es = pak_spec(data)->Ok_0;
            &&& pak_directory(Some(data)) matches Some(dir) && dir.len() == es.len() && forall|
                k: int,
            |
                0 <= k < es.len() ==> dir[k] == es[k].len()
            &&& pak_directory_end(Some(data)) == entry_start(es, 0)
        }),
{
    let (count, p) = i32_at(data, 0)->Ok_0;
    lemma_dir_words(data, 4, count as nat);
    let (lens, q) = read_seq(dir_step(data), 4, count as nat)->Ok_0;
    lemma_body_entries(data, lens, q);
    let (es, end) = pak_bodies(data, lens, q)->Ok_0;
    assert(es == pak_spec(data)->Ok_0);
    assert(int_at(data, 0) == count);
    let dir = Seq::new(count as nat, |i: int| int_at(data, 4 + 4 * i));
    assert(pak_directory(Some(data)) == Some(dir));
    assert forall|k: int| 0 <= k < es.len() implies dir[k] == es[k].len() by {
        assert(body_entry(data, lens, q, es, k));
    }
    assert(es.take(0) =~= Seq::<Seq<u8>>::empty());
}

/// Law: on a pack the strict reader in [`crate::pak`] accepts, the game's
/// loader agrees with it. The loader's directory holds the entries'
/// lengths, the open leaves its cursor where the first entry starts, and
/// reading entry `k` from where it starts, with the pack key, gives back the
/// reader's entry `k` (as signed bytes) and ends where entry `k + 1` starts.
pub proof fn law_loader_reads_the_pak(data: Seq<u8>)
    requires
        pak_spec(data) is Ok,
    ensures
        ({
            let es = pak_spec(data)->Ok_0;
            &&& pak_directory(Some(data)) matches Some(dir) && dir.len() == es.len() && forall|
                k: int,
            |
                0 <= k < es.len() ==> dir[k] == es[k].len()
            &&& pak_directory_end(Some(data)) == entry_start(es, 0)
            &&& forall|k: int|
                #![trigger es[k]]
                0 <= k < es.len() ==> {
                    &&& entry_bytes(data, entry_start(es, k), es[k].len() as int, XOR_KEY as i8)
                        == es[k].map_values(|b: u8| b as i8)
                    &&& entry_end(data, entry_start(es, k), es[k].len() as int) == entry_start(
                        es,
                        k + 1,
                    )
                }
        }),
{
    lemma_directory_agrees(data);
    let (count, p) = i32_at(data, 0)->Ok_0;
    lemma_dir_words(data, 4, count as nat);
    let (lens, q) = read_seq(dir_step(data), 4, count as nat)->Ok_0;
    lemma_body_entries(data, lens, q);
    let (es, end) = pak_bodies(data, lens, q)->Ok_0;
    assert(es == pak_spec(data)->Ok_0);
    assert forall|k: int| #![trigger es[k]] 0 <= k < es.len() implies {
        &&& entry_bytes(data, entry_start(es, k), es[k].len() as int, XOR_KEY as i8)
            == es[k].map_values(|b: u8| b as i8)
        &&& entry_end(data, entry_start(es, k), es[k].len() as int) == entry_start(es, k + 1)
    } by {
        let start = entry_start(es, k);
        assert(start == q + total_len(es.take(k)));
        assert(body_entry(data, lens, q, es, k));
        lemma_total_len_nonneg(es.take(k));
        lemma_entry_read(data, start, es[k]);
        assert(es.take(k + 1).drop_last() =~= es.take(k));
    }
}

/// Law: on a pack the strict reader accepts, skipping `k` entries from the
/// start of entry `j` — the walk the game makes to reach an entry — lands on
/// the start of entry `j + k` with the index advanced to match, or on the end
/// of the pack when fewer entries remain.
pub proof fn law_skip_reaches_entry(data: Seq<u8>, j: int, k: int)
    requires
        pak_spec(data) is Ok,
        0 <= j <= pak_spec(data)->Ok_0.len(),
    ensures
        ({
            let es = pak_spec(data)->Ok_0;
            let dir = pak_directory(Some(data))->Some_0;
            let t = if k <= 0 {
                j
            } else if j + k < es.len() {
                j + k
            } else {
                es.len() as int
            };
            skip_walk(dir, data.len() as int, j as i32, entry_start(es, j), k) == (
                t as i32,
                entry_start(es, t),
            )
        }),
    decreases k,
{
    law_loader_reads_the_pak(data);
    let es = pak_spec(data)->Ok_0;
    let dir = pak_directory(Some(data))->Some_0;
    assert(es.len() <= i32::MAX) by {
        assert(dir.len() == int_at(data, 0) as int);
    }
    if k > 0 && j < es.len() {
        assert(es[j].len() == dir[j]);
        assert(skip_to(entry_start(es, j), dir[j], data.len() as int) == entry_start(es, j + 1));
        assert(next_index(j as i32) == (j + 1) as i32);
        law_skip_reaches_entry(data, j + 1, k - 1);
    }
}

/// `j.a(String, byte, Class)` — open the named pak: store the key, reset
/// the index, open the stream and read the directory. Every failure is
/// swallowed and leaves the directory as it was.
pub fn open_pak(l: &mut ResourceLoader, resources: &dyn Resources, name: &str, key: i8)
    ensures
        final(l).f120a == key,
        final(l).f121a == 0,
        final(l).a matches Some(s) && ({
            let st = s.stream();
            &&& st == resources.entry(name@)
            &&& s.pos_spec() == pak_directory_end(st)
            &&& match pak_directory(st) {
                Some(dir) => final(l).f119a matches Some(v) && v@ == dir,
                None => final(l).f119a == old(l).f119a,
            }
        }),
{
    let bytes = resources.resource_as_stream(name);
    open_pak_stream(l, bytes, key);
}

/// The open on a given payload (`None` for a missing resource): the key and
/// index are set, the stream is stored, and the directory is read; a failed
/// read or a negative count leaves the directory as it was.
pub fn open_pak_stream(l: &mut ResourceLoader, bytes: Option<Vec<u8>>, key: i8)
    ensures
        final(l).f120a == key,
        final(l).f121a == 0,
        final(l).a matches Some(s) && ({
            let st = payload(bytes);
            &&& s.stream() == st
            &&& s.pos_spec() == pak_directory_end(st)
            &&& match pak_directory(st) {
                Some(dir) => final(l).f119a matches Some(v) && v@ == dir,
                None => final(l).f119a == old(l).f119a,
            }
        }),
{
    l.f120a = key;
    l.f121a = 0;
    let mut s = DataInput::new(bytes);
    let ghost st = s.stream();
    let count = match s.read_int() {
        Ok(c) => c,
        Err(_) => {
            l.a = Some(s);
            return;
        },
    };
    let ghost d = st->Some_0;
    assert(count == int_at(d, 0));
    if count < 0 {
        l.a = Some(s);
        return;
    }
    let mut dir: Vec<i32> = Vec::new();
    let mut i: i32 = 0;
    while i < count
        invariant
            l.f120a == key,
            l.f121a == 0,
            l.f119a == old(l).f119a,
            st == payload(bytes),
            st matches Some(dd) && dd == d,
            d.len() >= 4,
            count == int_at(d, 0),
            0 <= i <= count,
            s.stream() == st,
            s.pos_spec() == 4 + 4 * i,
            4 + 4 * i <= d.len(),
            dir@.len() == i,
            forall|k: int| 0 <= k < i ==> dir@[k] == int_at(d, 4 + 4 * k),
        decreases count - i,
    {
        match s.read_int() {
            Ok(v) => {
                dir.push(v);
            },
            Err(_) => {
                assert(4 + 4 * (i + 1) > d.len());
                assert(4 + 4 * count > d.len());
                assert((d.len() - 4) / 4 == i as int);
                l.a = Some(s);
                return;
            },
        }
        i = i + 1;
    }
    assert(dir@ =~= Seq::new(count as nat, |k: int| int_at(d, 4 + 4 * k)));
    l.a = Some(s);
    l.f119a = Some(dir);
}

/// `j.a()` — read the current entry: its length from the directory, then
/// that many stream bytes, each XOR the key; a failed byte read leaves its
/// slot 0. The index moves to the next entry.
pub fn read_entry(l: &mut ResourceLoader) -> (r: Vec<i8>)
    requires
        old(l).f119a matches Some(dir) && 0 <= old(l).f121a < dir@.len() && dir@[old(
            l,
        ).f121a as int] >= 0,
        old(l).a is Some,
    ensures
        final(l).f119a == old(l).f119a,
        final(l).f120a == old(l).f120a,
        final(l).f121a == next_index(old(l).f121a),
        final(l).a matches Some(s) && ({
            let s0 = old(l).a->Some_0;
            let len = old(l).f119a->Some_0@[old(l).f121a as int] as int;
            &&& s.stream() == s0.stream()
            &&& r@.len() == len
            &&& match s0.stream() {
                None => s.pos_spec() == s0.pos_spec() && forall|i: int|
                    0 <= i < len ==> r@[i] == 0i8,
                Some(d) => s.pos_spec() == entry_end(d, s0.pos_spec(), len) && r@ == entry_bytes(
                    d,
                    s0.pos_spec(),
                    len,
                    old(l).f120a,
                ),
            }
        }),
{
    let len: i32 = match &l.f119a {
        Some(dir) => dir[l.f121a as usize],
        None => 0,
    };
    let key = l.f120a;
    let mut s = match l.a.take() {
        Some(s) => s,
        None => DataInput::new(None),
    };
    let ghost s0 = s;
    let _start = s.position();
    let mut out: Vec<i8> = Vec::new();
    let mut i: i32 = 0;
    while i < len
        invariant
            0 <= i <= len,
            out@.len() == i,
            s.stream() == s0.stream(),
            match s0.stream() {
                None => s.pos_spec() == s0.pos_spec() && forall|k: int|
                    0 <= k < i ==> out@[k] == 0i8,
                Some(d) => s.pos_spec() == (if s0.pos_spec() + i <= d.len() {
                    s0.pos_spec() + i
                } else {
                    d.len() as int
                }) && forall|k: int| 0 <= k < i ==> out@[k] == entry_byte(d, s0.pos_spec(), k, key),
            },
        decreases len - i,
    {
        let b: i8 = match s.read_byte() {
            Ok(v) => v ^ key,
            Err(_) => 0,
        };
        out.push(b);
        i = i + 1;
    }
    proof {
        if let Some(d) = s0.stream() {
            assert(out@ =~= entry_bytes(d, s0.pos_spec(), len as int, key));
        }
    }
    l.a = Some(s);
    l.f121a = if l.f121a == i32::MAX {
        i32::MIN
    } else {
        l.f121a + 1
    };
    out
}

/// `j.a(int)` — skip `i` entries, advancing the index; the first failure (no
/// directory, an index outside it, no stream or a stream wrapping null)
/// stops the walk where it stands.
pub fn skip_entries(l: &mut ResourceLoader, i: i32)
    ensures
        final(l).f119a == old(l).f119a,
        final(l).f120a == old(l).f120a,
        final(l).a is Some <==> old(l).a is Some,
        final(l).a is Some ==> final(l).a->Some_0.stream() == old(l).a->Some_0.stream(),
        match (old(l).f119a, old(l).a) {
            (Some(dir), Some(s0)) => match s0.stream() {
                Some(d) => {
                    let w = skip_walk(dir@, d.len() as int, old(l).f121a, s0.pos_spec(), i as int);
                    final(l).f121a == w.0 && final(l).a->Some_0.pos_spec() == w.1
                },
                None => final(l).f121a == old(l).f121a && final(l).a->Some_0.pos_spec()
                    == s0.pos_spec(),
            },
            (_, Some(s0)) => final(l).f121a == old(l).f121a && final(l).a->Some_0.pos_spec()
                == s0.pos_spec(),
            _ => final(l).f121a == old(l).f121a,
        },
{
    let mut s = match l.a.take() {
        Some(s) => s,
        None => return,
    };
    let ghost s0 = s;
    let ghost idx0 = l.f121a;
    let dir: &Vec<i32> = match &l.f119a {
        Some(d) => d,
        None => {
            l.a = Some(s);
            return;
        },
    };
    let ghost n = match s0.stream() {
        Some(d) => d.len() as int,
        None => 0,
    };
    let mut i2: i32 = 0;
    while i2 < i
        invariant
            l.f119a == old(l).f119a,
            old(l).f119a matches Some(v) && v == *dir,
            old(l).a == Some(s0),
            idx0 == old(l).f121a,
            l.f120a == old(l).f120a,
            l.a is None,
            0 <= i2 <= i || (i2 == 0 && i <= 0),
            s.stream() == s0.stream(),
            n == match s0.stream() {
                Some(d) => d.len() as int,
                None => 0,
            },
            match s0.stream() {
                Some(d) => skip_walk(dir@, n, idx0, s0.pos_spec(), i as int) == skip_walk(
                    dir@,
                    n,
                    l.f121a,
                    s.pos_spec(),
                    i - i2,
                ),
                None => l.f121a == idx0 && s.pos_spec() == s0.pos_spec(),
            },
        decreases i - i2,
    {
        let idx = l.f121a;
        if idx < 0 || idx as usize >= dir.len() {
            l.a = Some(s);
            return;
        }
        let len = dir[idx as usize];
        match s.skip_bytes(len) {
            Ok(_) => {},
            Err(_) => {
                l.a = Some(s);
                return;
            },
        }
        l.f121a = if idx == i32::MAX {
            i32::MIN
        } else {
            idx + 1
        };
        i2 = i2 + 1;
    }
    l.a = Some(s);
}

/// `j.a()` — close the pak: drop the directory and the stream.
pub fn close_pak(l: &mut ResourceLoader)
    ensures
        final(l).f119a is None,
        final(l).a is None,
        final(l).f120a == old(l).f120a,
        final(l).f121a == old(l).f121a,
{
    l.f119a = None;
    if let Some(mut s) = l.a.take() {
        let _ = s.close();
    }
}

} // verus!
