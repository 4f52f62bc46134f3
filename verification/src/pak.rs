//! `.pak` — XOR-packed resource packs (`res/res0.pak` … `res/res4.pak`).
//!
//! All integers are big-endian:
//!
//! ```text
//! i32 BE          count
//! count × i32 BE  length[i]     entry byte-lengths (sequential index; no names)
//! then, back to back:
//!   entry i : length[i] bytes, each byte XOR 0x53
//! ```
//!
//! A pack is exactly `4 + 4*count + Σ length[i]` bytes long; anything else is
//! rejected. `res/scenes.pak` is a different format (see [`crate::scenes`]).
use crate::reader::{be_u32, signed32, i32_at, lemma_read_seq_err, read_seq, take_spec, FormatError, Reader};
use vstd::prelude::*;

verus! {

/// The entry cipher key: `0x53` = ASCII `'S'`.
pub const XOR_KEY: u8 = 0x53;

/// The rejection reason for a negative entry count.
pub const NEG_COUNT: &'static str = "negative pak entry count";

/// The rejection reason for a negative entry length.
pub const NEG_LENGTH: &'static str = "negative pak entry length";

/// The rejection reason for bytes left over after the last entry.
pub const TRAILING: &'static str = "trailing bytes after the last pak entry";

/// A parsed pack: the decrypted entries, in directory order.
#[derive(Debug, Clone, PartialEq, Eq)]
pub struct Pak {
    entries: Vec<Vec<u8>>,
}

impl View for Pak {
    type V = Seq<Seq<u8>>;

    closed spec fn view(&self) -> Seq<Seq<u8>> {
        self.entries@.map_values(|e: Vec<u8>| e@)
    }
}

/// Each byte XOR the pack key.
pub open spec fn xor_key(raw: Seq<u8>) -> Seq<u8> {
    raw.map_values(|b: u8| b ^ XOR_KEY)
}

/// One directory word at `p`: a non-negative entry length.
pub open spec fn dir_entry_at(data: Seq<u8>, p: int) -> Result<(usize, int), FormatError> {
    match i32_at(data, p) {
        Err(e) => Err(e),
        Ok((v, q)) => if v < 0 {
            Err(FormatError::Invalid { at: p as usize, reason: NEG_LENGTH })
        } else {
            Ok((v as usize, q))
        },
    }
}

/// The directory reader as a step function.
pub open spec fn dir_step(data: Seq<u8>) -> spec_fn(int) -> Result<(usize, int), FormatError> {
    |p: int| dir_entry_at(data, p)
}

/// The entries of the given lengths, read back to back from `p` and
/// decrypted: the entries and the offset after the last one.
pub open spec fn pak_bodies(data: Seq<u8>, lens: Seq<usize>, p: int) -> Result<
    (Seq<Seq<u8>>, int),
    FormatError,
>
    decreases lens.len(),
{
    if lens.len() == 0 {
        Ok((Seq::empty(), p))
    } else {
        match pak_bodies(data, lens.drop_last(), p) {
            Err(e) => Err(e),
            Ok((es, q)) => match take_spec(data, q, lens.last() as int) {
                Err(e) => Err(e),
                Ok(end) => Ok((es.push(xor_key(data.subrange(q, end))), end)),
            },
        }
    }
}

/// The pack a blob denotes: the count, the directory, the decrypted
/// entries, with nothing left over.
pub open spec fn pak_spec(data: Seq<u8>) -> Result<Seq<Seq<u8>>, FormatError> {
    match i32_at(data, 0) {
        Err(e) => Err(e),
        Ok((count, p)) => if count < 0 {
            Err(FormatError::Invalid { at: 0, reason: NEG_COUNT })
        } else {
            match read_seq(dir_step(data), p, count as nat) {
                Err(e) => Err(e),
                Ok((lens, q)) => match pak_bodies(data, lens, q) {
                    Err(e) => Err(e),
                    Ok((entries, end)) => if end != data.len() {
                        Err(FormatError::Invalid { at: end as usize, reason: TRAILING })
                    } else {
                        Ok(entries)
                    },
                },
            }
        }
    }
}

/// Once the entries of a prefix of the directory fail, the whole walk fails
/// the same way.
proof fn lemma_bodies_err(data: Seq<u8>, lens: Seq<usize>, p: int, i: int)
    requires
        0 <= i <= lens.len(),
        pak_bodies(data, lens.take(i), p) is Err,
    ensures
        pak_bodies(data, lens, p) == pak_bodies(data, lens.take(i), p),
    decreases lens.len() - i,
{
    if i < lens.len() {
        assert(lens.take(i + 1).drop_last() =~= lens.take(i));
        lemma_bodies_err(data, lens, p, i + 1);
    } else {
        assert(lens.take(i) =~= lens);
    }
}


/// The summed byte length of a list of entries.
pub open spec fn total_len(es: Seq<Seq<u8>>) -> int
    decreases es.len(),
{
    if es.len() == 0 {
        0
    } else {
        total_len(es.drop_last()) + es.last().len()
    }
}

/// The directory walk reads `count` words of 4 bytes each.
proof fn lemma_dir_len(data: Seq<u8>, p: int, k: nat)
    ensures
        read_seq(dir_step(data), p, k) matches Ok((lens, q)) ==> lens.len() == k && q == p + 4
            * k,
    decreases k,
{
    if k > 0 {
        lemma_dir_len(data, p, (k - 1) as nat);
    }
}

/// The entries walk ends exactly the summed entry lengths after it starts.
proof fn lemma_bodies_len(data: Seq<u8>, lens: Seq<usize>, p: int)
    requires
        0 <= p,
    ensures
        pak_bodies(data, lens, p) matches Ok((es, end)) ==> es.len() == lens.len() && end == p
            + total_len(es) && end >= p,
    decreases lens.len(),
{
    if lens.len() > 0 {
        lemma_bodies_len(data, lens.drop_last(), p);
        if let Ok((es, end)) = pak_bodies(data, lens, p) {
            let (es0, q) = pak_bodies(data, lens.drop_last(), p)->Ok_0;
            assert(es.drop_last() =~= es0);
            assert(es.last().len() == end - q);
        }
    }
}

/// A summed length is never negative.
pub proof fn lemma_total_len_nonneg(es: Seq<Seq<u8>>)
    ensures
        total_len(es) >= 0,
    decreases es.len(),
{
    if es.len() > 0 {
        lemma_total_len_nonneg(es.drop_last());
    }
}

/// The words of a directory walk that succeeds: word `i` is the
/// non-negative big-endian `i32` at `p + 4i`.
pub proof fn lemma_dir_words(data: Seq<u8>, p: int, k: nat)
    requires
        0 <= p <= data.len(),
    ensures
        read_seq(dir_step(data), p, k) matches Ok((lens, q)) ==> {
            &&& lens.len() == k
            &&& q == p + 4 * k
            &&& q <= data.len()
            &&& forall|i: int|
                0 <= i < k ==> lens[i] as int == signed32(be_u32(data, p + 4 * i)) && signed32(
                    be_u32(data, p + 4 * i),
                ) >= 0
        },
    decreases k,
{
    if k > 0 {
        lemma_dir_words(data, p, (k - 1) as nat);
        if let Ok((items, p1)) = read_seq(dir_step(data), p, (k - 1) as nat) {
            assert(dir_step(data)(p1) == dir_entry_at(data, p1));
            if let Ok((x, q)) = dir_entry_at(data, p1) {
                let u = be_u32(data, p1);
                assert(0 <= u < 0x1_0000_0000);
                let v = signed32(u);
                assert(i32::MIN <= v <= i32::MAX);
                assert(x as int == v);
                let lens = items.push(x);
                assert(read_seq(dir_step(data), p, k) == Ok::<(Seq<usize>, int), FormatError>((lens, q)));
                assert forall|i: int| 0 <= i < k implies lens[i] as int == signed32(
                    be_u32(data, p + 4 * i),
                ) && signed32(be_u32(data, p + 4 * i)) >= 0 by {
                    if i < k - 1 {
                        assert(lens[i] == items[i]);
                    }
                }
            }
        }
    }
}

/// Entry `k` of `es` is the `lens[k]` bytes after the entries before it
/// (read from `p`), decrypted, and lies inside the blob.
pub open spec fn body_entry(data: Seq<u8>, lens: Seq<usize>, p: int, es: Seq<Seq<u8>>, k: int) -> bool {
    let start = p + total_len(es.take(k));
    &&& es[k].len() == lens[k]
    &&& start + lens[k] <= data.len()
    &&& es[k] == xor_key(data.subrange(start, start + lens[k]))
}

/// The entries of a body walk that succeeds: entry `k` is the `lens[k]`
/// bytes after the entries before it, decrypted, and the walk ends inside
/// the blob.
pub proof fn lemma_body_entries(data: Seq<u8>, lens: Seq<usize>, p: int)
    requires
        0 <= p <= data.len(),
    ensures
        pak_bodies(data, lens, p) matches Ok((es, end)) ==> {
            &&& es.len() == lens.len()
            &&& end == p + total_len(es)
            &&& p <= end <= data.len()
            &&& forall|k: int| 0 <= k < es.len() ==> #[trigger] body_entry(data, lens, p, es, k)
        },
    decreases lens.len(),
{
    if lens.len() > 0 {
        let lens0 = lens.drop_last();
        lemma_body_entries(data, lens0, p);
        match pak_bodies(data, lens0, p) {
            Err(_) => {},
            Ok((es0, q)) => {
                match take_spec(data, q, lens.last() as int) {
                    Err(_) => {},
                    Ok(end) => {
                        let x = xor_key(data.subrange(q, end));
                        let es = es0.push(x);
                        assert(pak_bodies(data, lens, p) == Ok::<(Seq<Seq<u8>>, int), FormatError>((es, end)));
                        assert(end == q + lens.last() && end <= data.len());
                        assert(es.drop_last() =~= es0);
                        assert(total_len(es) == total_len(es0) + x.len());
                        assert forall|k: int| 0 <= k < es.len() implies #[trigger] body_entry(data, lens, p, es, k) by {
                            if k < es0.len() {
                                assert(body_entry(data, lens0, p, es0, k));
                                assert(es.take(k) =~= es0.take(k));
                                assert(es[k] == es0[k]);
                                assert(lens[k] == lens0[k]);
                            } else {
                                assert(es.take(k) =~= es0);
                            }
                        }
                    },
                }
            },
        }
    }
}

/// Law: a pack that parses is exactly `4 + 4*count + Σ length[i]` bytes long,
/// and each decrypted entry XOR the key gives back the stored bytes.
pub proof fn law_pak_total_length(data: Seq<u8>)
    requires
        pak_spec(data) is Ok,
    ensures
        data.len() == 4 + 4 * pak_spec(data)->Ok_0.len() + total_len(pak_spec(data)->Ok_0),
{
    let (count, p) = i32_at(data, 0)->Ok_0;
    lemma_dir_len(data, p, count as nat);
    let (lens, q) = read_seq(dir_step(data), p, count as nat)->Ok_0;
    lemma_bodies_len(data, lens, q);
}

impl Pak {
    /// Parse a `.pak` blob and decrypt every entry (XOR `0x53`). Rejects a
    /// negative count or entry length, a directory/body that over-runs EOF, or
    /// trailing bytes after the last entry, with a typed error.
    pub fn parse(data: &[u8]) -> (r: Result<Pak, FormatError>)
        ensures
            match pak_spec(data@) {
                Ok(es) => r matches Ok(pak) && pak@ == es,
                Err(e) => r == Err::<Pak, FormatError>(e),
            },
    {
        let ghost d = data@;
        let mut r = Reader::new(data);
        let at = r.position();
        let count = match r.i32_be() {
            Ok(v) => v,
            Err(e) => return Err(e),
        };
        if count < 0 {
            return Err(FormatError::Invalid { at, reason: NEG_COUNT });
        }
        let count = count as usize;
        let ghost dir_start = r.pos_spec();

        let mut lengths: Vec<usize> = Vec::with_capacity(if count < 65536 { count } else { 65536 });
        let mut i: usize = 0;
        while i < count
            invariant
                d == data@,
                r.bytes_spec() == d,
                0 <= i <= count,
                i32_at(d, 0) matches Ok((c, p)) && c == count && p == dir_start,
                read_seq(dir_step(d), dir_start, i as nat) == Ok::<_, FormatError>(
                    (lengths@, r.pos_spec()),
                ),
            decreases count - i,
        {
            let at = r.position();
            let len = match r.i32_be() {
                Ok(v) => v,
                Err(e) => {
                    proof {
                        assert(dir_step(d)(r.pos_spec()) == Err::<(usize, int), FormatError>(e));
                        assert(read_seq(dir_step(d), dir_start, (i + 1) as nat) == Err::<
                            (Seq<usize>, int),
                            FormatError,
                        >(e));
                        lemma_read_seq_err(dir_step(d), dir_start, (i + 1) as nat, count as nat);
                    }
                    return Err(e);
                },
            };
            if len < 0 {
                proof {
                    lemma_read_seq_err(dir_step(d), dir_start, (i + 1) as nat, count as nat);
                }
                return Err(FormatError::Invalid { at, reason: NEG_LENGTH });
            }
            lengths.push(len as usize);
            i = i + 1;
        }
        let ghost lens = lengths@;
        let ghost body_start = r.pos_spec();
        proof {
            assert(lens.take(0) =~= Seq::<usize>::empty());
        }

        let mut entries: Vec<Vec<u8>> = Vec::with_capacity(
            if count < 65536 {
                count
            } else {
                65536
            },
        );
        proof {
            assert(entries@.map_values(|e: Vec<u8>| e@) =~= Seq::<Seq<u8>>::empty());
        }
        let mut k: usize = 0;
        while k < lengths.len()
            invariant
                d == data@,
                r.bytes_spec() == d,
                lengths@ == lens,
                i32_at(d, 0) matches Ok((c, p)) && 0 <= c && p == dir_start && read_seq(
                    dir_step(d),
                    dir_start,
                    c as nat,
                ) == Ok::<_, FormatError>((lens, body_start)),
                0 <= k <= lens.len(),
                pak_bodies(d, lens.take(k as int), body_start) == Ok::<_, FormatError>(
                    (entries@.map_values(|e: Vec<u8>| e@), r.pos_spec()),
                ),
            decreases lens.len() - k,
        {
            proof {
                assert(lens.take(k + 1).drop_last() =~= lens.take(k as int));
            }
            let len = lengths[k];
            let ghost q = r.pos_spec();
            let raw = match r.bytes(len) {
                Ok(b) => b,
                Err(e) => {
                    proof {
                        assert(lens.take(k + 1).last() == len);
                        lemma_bodies_err(d, lens, body_start, k + 1);
                    }
                    return Err(e);
                },
            };
            let mut entry: Vec<u8> = Vec::with_capacity(len);
            let mut j: usize = 0;
            while j < raw.len()
                invariant
                    0 <= j <= raw@.len(),
                    entry@ =~= xor_key(raw@.take(j as int)),
                decreases raw@.len() - j,
            {
                entry.push(raw[j] ^ XOR_KEY);
                j = j + 1;
            }
            proof {
                assert(raw@.take(j as int) =~= raw@);
            }
            let ghost old_entries = entries@;
            entries.push(entry);
            proof {
                assert(entries@.map_values(|e: Vec<u8>| e@) =~= old_entries.map_values(
                    |e: Vec<u8>| e@,
                ).push(xor_key(d.subrange(q, r.pos_spec()))));
            }
            k = k + 1;
        }
        proof {
            assert(lens.take(lens.len() as int) =~= lens);
        }
        if r.remaining() != 0 {
            return Err(FormatError::Invalid { at: r.position(), reason: TRAILING });
        }
        Ok(Pak { entries })
    }

    /// All decrypted entries, in directory order.
    pub fn entries(&self) -> (r: &[Vec<u8>])
        ensures
            r@.map_values(|e: Vec<u8>| e@) == self@,
    {
        self.entries.as_slice()
    }

    /// Number of entries.
    pub fn len(&self) -> (n: usize)
        ensures
            n == self@.len(),
    {
        self.entries.len()
    }

    /// Whether the pack holds no entries.
    pub fn is_empty(&self) -> (b: bool)
        ensures
            b == (self@.len() == 0),
    {
        self.entries.len() == 0
    }

    /// One decrypted entry by index, or `None` when out of range.
    pub fn entry(&self, index: usize) -> (r: Option<&[u8]>)
        ensures
            index < self@.len() ==> (r matches Some(e) && e@ == self@[index as int]),
            index >= self@.len() ==> r is None,
    {
        if index < self.entries.len() {
            Some(self.entries[index].as_slice())
        } else {
            None
        }
    }
}

} // verus!
