//! Class `aj` — the `common.utf` parser: 28 count-prefixed string groups,
//! skipping `//` comment records.
//!
//! Each group starts with one record holding a decimal count
//! (`Integer.parseInt(…, 10)`), followed by that many records; any record
//! beginning with `//` is a comment and is skipped wherever a record is read.
use crate::jio::{payload, parse_int_radix10, parse_int_spec, utf_record_at, DataInput};
use crate::resource::Resources;
use crate::strings::starts_with;
use crate::text::{ae_close_stream, ae_open_stream, ae_read_record};
use vstd::prelude::*;

verus! {

/// The common text table's resource.
pub const COMMON_TABLE: &'static str = "/res/common.utf";

/// The number of groups `common.utf` holds.
pub const GROUP_COUNT: usize = 28;

/// The `aj` singleton's fields: the 28 groups, named by their Java field
/// letters `a..z, A, B` in file order.
#[allow(non_snake_case)]
#[derive(Debug, Clone, Default)]
pub struct CommonTable {
    pub a: Vec<String>,
    pub b: Vec<String>,
    pub c: Vec<String>,
    pub d: Vec<String>,
    pub e: Vec<String>,
    pub f: Vec<String>,
    pub g: Vec<String>,
    pub h: Vec<String>,
    pub i: Vec<String>,
    pub j: Vec<String>,
    pub k: Vec<String>,
    pub l: Vec<String>,
    pub m: Vec<String>,
    pub n: Vec<String>,
    pub o: Vec<String>,
    pub p: Vec<String>,
    /// Carries the strings the load screens draw (`q[5]` = the press-a-key
    /// prompt, `q[6]` = the level label).
    pub q: Vec<String>,
    pub r: Vec<String>,
    pub s: Vec<String>,
    pub t: Vec<String>,
    pub u: Vec<String>,
    pub v: Vec<String>,
    pub w: Vec<String>,
    pub x: Vec<String>,
    pub y: Vec<String>,
    pub z: Vec<String>,
    pub A: Vec<String>,
    pub B: Vec<String>,
}

/// The records of a group as text.
pub open spec fn texts(v: Vec<String>) -> Seq<Seq<char>> {
    v@.map_values(|s: String| s@)
}

impl View for CommonTable {
    type V = Seq<Seq<Seq<char>>>;

    /// The 28 groups in file order.
    open spec fn view(&self) -> Seq<Seq<Seq<char>>> {
        seq![
            texts(self.a), texts(self.b), texts(self.c), texts(self.d), texts(self.e),
            texts(self.f), texts(self.g), texts(self.h), texts(self.i), texts(self.j),
            texts(self.k), texts(self.l), texts(self.m), texts(self.n), texts(self.o),
            texts(self.p), texts(self.q), texts(self.r), texts(self.s), texts(self.t),
            texts(self.u), texts(self.v), texts(self.w), texts(self.x), texts(self.y),
            texts(self.z), texts(self.A), texts(self.B),
        ]
    }
}

/// Whether a record is a `//` comment.
pub open spec fn is_comment(cs: Seq<char>) -> bool {
    cs.len() >= 2 && cs[0] == '/' && cs[1] == '/'
}

/// The next non-comment record at `pos` of `d`, and the offset after it, or
/// `None` when a read raises first.
pub open spec fn next_record_at(d: Seq<u8>, pos: int) -> Option<(Seq<char>, int)>
    decreases d.len() - pos,
{
    match utf_record_at(d, pos) {
        None => None,
        Some((cs, q)) => if !is_comment(cs) {
            Some((cs, q))
        } else if q <= pos || q > d.len() {
            None
        } else {
            next_record_at(d, q)
        },
    }
}

/// `k` non-comment records read back to back from `pos`.
pub open spec fn records_at(d: Seq<u8>, pos: int, k: nat) -> Option<(Seq<Seq<char>>, int)>
    decreases k,
{
    if k == 0 {
        Some((Seq::empty(), pos))
    } else {
        match records_at(d, pos, (k - 1) as nat) {
            None => None,
            Some((rs, p)) => match next_record_at(d, p) {
                None => None,
                Some((cs, q)) => Some((rs.push(cs), q)),
            },
        }
    }
}

/// One count-prefixed group at `pos`: a non-negative decimal count, then
/// that many records.
pub open spec fn group_at(d: Seq<u8>, pos: int) -> Option<(Seq<Seq<char>>, int)> {
    match next_record_at(d, pos) {
        None => None,
        Some((cs, q)) => match parse_int_spec(cs) {
            Ok(count) => if count < 0 {
                None
            } else {
                records_at(d, q, count as nat)
            },
            Err(_) => None,
        },
    }
}

/// `k` groups read back to back from `pos`.
pub open spec fn groups_at(d: Seq<u8>, pos: int, k: nat) -> Option<(Seq<Seq<Seq<char>>>, int)>
    decreases k,
{
    if k == 0 {
        Some((Seq::empty(), pos))
    } else {
        match groups_at(d, pos, (k - 1) as nat) {
            None => None,
            Some((gs, p)) => match group_at(d, p) {
                None => None,
                Some((g, q)) => Some((gs.push(g), q)),
            },
        }
    }
}

/// The 28 groups a `common.utf` payload denotes, or `None` where the game
/// dies (a missing file, a truncated or malformed record, a malformed or
/// negative count).
pub open spec fn common_spec(bytes: Option<Seq<u8>>) -> Option<Seq<Seq<Seq<char>>>> {
    match bytes {
        None => None,
        Some(d) => match groups_at(d, 0, GROUP_COUNT as nat) {
            None => None,
            Some((gs, _)) => Some(gs),
        },
    }
}

/// Once a prefix of the records fails, reading more fails too.
proof fn lemma_records_none(d: Seq<u8>, pos: int, i: nat, k: nat)
    requires
        i <= k,
        records_at(d, pos, i) is None,
    ensures
        records_at(d, pos, k) is None,
    decreases k,
{
    if k > i {
        lemma_records_none(d, pos, i, (k - 1) as nat);
    }
}

/// Once a prefix of the groups fails, reading more fails too.
proof fn lemma_groups_none(d: Seq<u8>, pos: int, i: nat, k: nat)
    requires
        i <= k,
        groups_at(d, pos, i) is None,
    ensures
        groups_at(d, pos, k) is None,
    decreases k,
{
    if k > i {
        lemma_groups_none(d, pos, i, (k - 1) as nat);
    }
}

/// The next record read is never a comment.
proof fn lemma_next_record_not_comment(d: Seq<u8>, pos: int)
    ensures
        next_record_at(d, pos) matches Some((cs, _)) ==> !is_comment(cs),
    decreases d.len() - pos,
{
    if let Some((cs, q)) = utf_record_at(d, pos) {
        if is_comment(cs) && q > pos && q <= d.len() {
            lemma_next_record_not_comment(d, q);
        }
    }
}

/// Law: the record reader skips a record exactly when it begins with the
/// two characters `//`, whatever follows them. Reading at `pos`, a record
/// that does not begin with `//` is the one read, ending where it ends; one
/// that does is passed over, and the reading goes on right after it.
pub proof fn law_double_slash_records_are_skipped(d: Seq<u8>, pos: int)
    ensures
        utf_record_at(d, pos) matches Some((cs, q)) ==> {
            &&& !(cs.len() >= 2 && cs[0] == '/' && cs[1] == '/') ==> next_record_at(d, pos) == Some(
                (cs, q),
            )
            &&& (cs.len() >= 2 && cs[0] == '/' && cs[1] == '/') ==> next_record_at(d, pos)
                == next_record_at(d, q)
        },
{
}

/// `k` records read in a row are `k` non-comment records.
proof fn lemma_records_not_comment(d: Seq<u8>, pos: int, k: nat)
    ensures
        records_at(d, pos, k) matches Some((rs, _)) ==> rs.len() == k && forall|i: int|
            0 <= i < rs.len() ==> !is_comment(#[trigger] rs[i]),
    decreases k,
{
    if k > 0 {
        lemma_records_not_comment(d, pos, (k - 1) as nat);
        if let Some((rs0, p)) = records_at(d, pos, (k - 1) as nat) {
            lemma_next_record_not_comment(d, p);
            if let Some((cs, q)) = next_record_at(d, p) {
                let rs = rs0.push(cs);
                assert forall|i: int| 0 <= i < rs.len() implies !is_comment(#[trigger] rs[i]) by {
                    if i < rs0.len() {
                        assert(rs[i] == rs0[i]);
                    }
                }
            }
        }
    }
}

/// `k` groups read in a row are `k` groups of non-comment records.
proof fn lemma_groups_not_comment(d: Seq<u8>, pos: int, k: nat)
    ensures
        groups_at(d, pos, k) matches Some((gs, _)) ==> gs.len() == k && forall|i: int, j: int|
            0 <= i < gs.len() && 0 <= j < gs[i].len() ==> !is_comment(#[trigger] gs[i][j]),
    decreases k,
{
    if k > 0 {
        lemma_groups_not_comment(d, pos, (k - 1) as nat);
        if let Some((gs0, p)) = groups_at(d, pos, (k - 1) as nat) {
            if let Some((cs, q)) = next_record_at(d, p) {
                if let Ok(count) = parse_int_spec(cs) {
                    if count >= 0 {
                        lemma_records_not_comment(d, q, count as nat);
                    }
                }
            }
            if let Some((g, q)) = group_at(d, p) {
                let gs = gs0.push(g);
                assert forall|i: int, j: int|
                    0 <= i < gs.len() && 0 <= j < gs[i].len() implies !is_comment(
                    #[trigger] gs[i][j],
                ) by {
                    if i < gs0.len() {
                        assert(gs[i] == gs0[i]);
                    }
                }
            }
        }
    }
}

/// Law: a `common.utf` table that parses holds its 28 groups, and no record
/// in any of them is a `//` comment — comments are skipped wherever a record
/// is read.
pub proof fn law_common_skips_comments(bytes: Option<Seq<u8>>)
    requires
        common_spec(bytes) is Some,
    ensures
        common_spec(bytes)->Some_0.len() == GROUP_COUNT,
        forall|i: int, j: int|
            0 <= i < common_spec(bytes)->Some_0.len() && 0 <= j < common_spec(bytes)->Some_0[i].len()
                ==> !is_comment(#[trigger] common_spec(bytes)->Some_0[i][j]),
{
    lemma_groups_not_comment(bytes->Some_0, 0, GROUP_COUNT as nat);
}

/// `aj.a()` — next_record: read records, skipping any that begin with `//`.
/// The game dies when a read fails first, so that stream is left out.
pub fn aj_next_record(stream: &mut DataInput) -> (r: String)
    requires
        old(stream).stream() matches Some(d) && next_record_at(d, old(stream).pos_spec()) is Some,
    ensures
        final(stream).stream() == old(stream).stream(),
        ({
            let (cs, q) = next_record_at(old(stream).stream()->Some_0, old(stream).pos_spec())->Some_0;
            r@ == cs && final(stream).pos_spec() == q
        }),
{
    let ghost d = stream.stream()->Some_0;
    let ghost target = next_record_at(d, stream.pos_spec());
    loop
        invariant
            stream.stream() == Some(d),
            old(stream).stream() == Some(d),
            target == next_record_at(d, old(stream).pos_spec()),
            next_record_at(d, stream.pos_spec()) == target,
            target is Some,
        decreases d.len() - stream.pos_spec(),
    {
        let ghost p = stream.pos_spec();
        proof {
            reveal_strlit("//");
        }
        match ae_read_record(stream) {
            Some(s) => {
                if !starts_with(s.as_str(), "//") {
                    proof {
                        if is_comment(s@) {
                            assert(s@.subrange(0, 2) =~= "//"@);
                        }
                    }
                    return s;
                }
                proof {
                    assert(s@[0] == s@.subrange(0, 2)[0]);
                    assert(s@[1] == s@.subrange(0, 2)[1]);
                }
            },
            None => {
                proof {
                    assert(false);
                }
                return String::new();
            },
        }
    }
}

/// `aj.a(String[])` — read_group: fill each slot with the next non-comment
/// record. The game dies when a read fails first, so that stream is left out.
pub fn aj_read_group(stream: &mut DataInput, arr: &mut [String])
    requires
        old(stream).stream() matches Some(d) && records_at(
            d,
            old(stream).pos_spec(),
            old(arr)@.len() as nat,
        ) is Some,
    ensures
        final(stream).stream() == old(stream).stream(),
        final(arr)@.len() == old(arr)@.len(),
        ({
            let (rs, q) = records_at(
                old(stream).stream()->Some_0,
                old(stream).pos_spec(),
                old(arr)@.len() as nat,
            )->Some_0;
            final(arr)@.map_values(|s: String| s@) == rs && final(stream).pos_spec() == q
        }),
{
    let ghost d = stream.stream()->Some_0;
    let ghost p0 = stream.pos_spec();
    let n = arr.len();
    let mut i: usize = 0;
    while i < n
        invariant
            stream.stream() == Some(d),
            n == arr@.len(),
            0 <= i <= n,
            records_at(d, p0, n as nat) is Some,
            records_at(d, p0, i as nat) matches Some((rs, p)) && p == stream.pos_spec() && rs
                == arr@.take(i as int).map_values(|s: String| s@),
        decreases n - i,
    {
        proof {
            if next_record_at(d, stream.pos_spec()) is None {
                lemma_records_none(d, p0, (i + 1) as nat, n as nat);
            }
        }
        let s = aj_next_record(stream);
        let ghost before = arr@;
        arr[i] = s;
        proof {
            assert(arr@.take(i + 1) =~= before.take(i as int).push(s));
            assert(arr@.take(i + 1).map_values(|s: String| s@) =~= before.take(i as int).map_values(
                |s: String| s@,
            ).push(s@));
        }
        i = i + 1;
    }
    proof {
        assert(arr@.take(n as int) =~= arr@);
    }
}

/// One count-prefixed group at the stream's cursor, or `None` where the game
/// dies.
fn read_common_group(stream: &mut DataInput) -> (r: Option<Vec<String>>)
    requires
        old(stream).stream() is Some,
    ensures
        final(stream).stream() == old(stream).stream(),
        match group_at(old(stream).stream()->Some_0, old(stream).pos_spec()) {
            None => r is None,
            Some((g, q)) => (r matches Some(v) && texts(v) == g) && final(stream).pos_spec() == q,
        },
{
    let ghost d = stream.stream()->Some_0;
    let ghost p = stream.pos_spec();
    if next_record_at_exec(stream).is_none() {
        return None;
    }
    let head = aj_next_record(stream);
    let count = match parse_int_radix10(head.as_str()) {
        Ok(c) => c,
        Err(_) => return None,
    };
    if count < 0 {
        return None;
    }
    let n = count as usize;
    if !records_available(stream, n) {
        return None;
    }
    let mut arr: Vec<String> = Vec::new();
    let mut k: usize = 0;
    while k < n
        invariant
            arr@.len() == k,
            k <= n,
        decreases n - k,
    {
        arr.push(String::new());
        k = k + 1;
    }
    aj_read_group(stream, arr.as_mut_slice());
    Some(arr)
}

/// Whether the next non-comment record can be read, leaving the stream as
/// it was.
fn next_record_at_exec(stream: &DataInput) -> (r: Option<()>)
    requires
        stream.stream() is Some,
    ensures
        r is Some <==> next_record_at(stream.stream()->Some_0, stream.pos_spec()) is Some,
{
    let ghost d = stream.stream()->Some_0;
    let mut probe = stream.clone();
    loop
        invariant
            probe.stream() == Some(d),
            stream.stream() == Some(d),
            next_record_at(d, probe.pos_spec()) == next_record_at(d, stream.pos_spec()),
        decreases d.len() - probe.pos_spec(),
    {
        proof {
            reveal_strlit("//");
        }
        match ae_read_record(&mut probe) {
            None => return None,
            Some(s) => {
                if !starts_with(s.as_str(), "//") {
                    proof {
                        if is_comment(s@) {
                            assert(s@.subrange(0, 2) =~= "//"@);
                        }
                    }
                    return Some(());
                }
                proof {
                    assert(s@[0] == s@.subrange(0, 2)[0]);
                    assert(s@[1] == s@.subrange(0, 2)[1]);
                }
            },
        }
    }
}

/// Whether `n` non-comment records can be read, leaving the stream as it
/// was.
fn records_available(stream: &DataInput, n: usize) -> (r: bool)
    requires
        stream.stream() is Some,
    ensures
        r == records_at(stream.stream()->Some_0, stream.pos_spec(), n as nat) is Some,
{
    let ghost d = stream.stream()->Some_0;
    let ghost p0 = stream.pos_spec();
    let mut probe = stream.clone();
    let mut k: usize = 0;
    while k < n
        invariant
            probe.stream() == Some(d),
            stream.stream() == Some(d),
            p0 == stream.pos_spec(),
            0 <= k <= n,
            records_at(d, p0, k as nat) matches Some((_, p)) && p == probe.pos_spec(),
        decreases n - k,
    {
        if next_record_at_exec(&probe).is_none() {
            proof {
                lemma_records_none(d, p0, (k + 1) as nat, n as nat);
            }
            return false;
        }
        let _ = aj_next_record(&mut probe);
        k = k + 1;
    }
    true
}

/// The 28 groups at the stream's cursor, or `None` where the game dies.
pub fn aj_parse_stream(stream: &mut DataInput) -> (r: Option<CommonTable>)
    ensures
        final(stream).stream() == old(stream).stream(),
        match common_spec_at(old(stream).stream(), old(stream).pos_spec()) {
            None => r is None,
            Some(gs) => r matches Some(t) && t@ == gs,
        },
{
    let ghost p0 = stream.pos_spec();
    if !stream_payload_present(stream) {
        return None;
    }
    let ghost d = stream.stream()->Some_0;
    let mut groups: Vec<Vec<String>> = Vec::new();
    let mut k: usize = 0;
    while k < GROUP_COUNT
        invariant
            stream.stream() == Some(d),
            old(stream).stream() == Some(d),
            p0 == old(stream).pos_spec(),
            0 <= k <= GROUP_COUNT,
            groups@.len() == k,
            groups_at(d, p0, k as nat) matches Some((gs, p)) && p == stream.pos_spec() && gs
                == groups@.map_values(|g: Vec<String>| texts(g)),
        decreases GROUP_COUNT - k,
    {
        let g = match read_common_group(stream) {
            Some(g) => g,
            None => {
                proof {
                    lemma_groups_none(d, p0, (k + 1) as nat, GROUP_COUNT as nat);
                }
                return None;
            },
        };
        let ghost before = groups@;
        groups.push(g);
        proof {
            assert(groups@.map_values(|g: Vec<String>| texts(g)) =~= before.map_values(
                |g: Vec<String>| texts(g),
            ).push(texts(g)));
        }
        k = k + 1;
    }
    Some(table_from_groups(groups))
}

/// Whether the stream wraps a payload.
fn stream_payload_present(stream: &DataInput) -> (r: bool)
    ensures
        r == stream.stream() is Some,
{
    let mut probe = stream.clone();
    probe.close().is_ok()
}

/// The groups a payload denotes from offset `pos`.
pub open spec fn common_spec_at(bytes: Option<Seq<u8>>, pos: int) -> Option<Seq<Seq<Seq<char>>>> {
    match bytes {
        None => None,
        Some(d) => match groups_at(d, pos, GROUP_COUNT as nat) {
            None => None,
            Some((gs, _)) => Some(gs),
        },
    }
}

/// Distribute 28 groups over the table's fields, in file order.
#[verifier::rlimit(50)]
fn table_from_groups(groups: Vec<Vec<String>>) -> (t: CommonTable)
    requires
        groups@.len() == GROUP_COUNT,
    ensures
        t@ == groups@.map_values(|g: Vec<String>| texts(g)),
{
    let ghost all = groups@;
    let mut groups = groups;
    let big_b = groups.pop().unwrap();
    let big_a = groups.pop().unwrap();
    let z = groups.pop().unwrap();
    let y = groups.pop().unwrap();
    let x = groups.pop().unwrap();
    let w = groups.pop().unwrap();
    let v = groups.pop().unwrap();
    let u = groups.pop().unwrap();
    let t = groups.pop().unwrap();
    let s = groups.pop().unwrap();
    let r = groups.pop().unwrap();
    let q = groups.pop().unwrap();
    let p = groups.pop().unwrap();
    let o = groups.pop().unwrap();
    let n = groups.pop().unwrap();
    let m = groups.pop().unwrap();
    let l = groups.pop().unwrap();
    let k = groups.pop().unwrap();
    let j = groups.pop().unwrap();
    let i = groups.pop().unwrap();
    let h = groups.pop().unwrap();
    let g = groups.pop().unwrap();
    let f = groups.pop().unwrap();
    let e = groups.pop().unwrap();
    let d = groups.pop().unwrap();
    let c = groups.pop().unwrap();
    let b = groups.pop().unwrap();
    let a = groups.pop().unwrap();
    let table = CommonTable {
        a, b, c, d, e, f, g, h, i, j, k, l, m, n, o, p, q, r, s, t, u, v, w, x, y, z,
        A: big_a, B: big_b,
    };
    proof {
        assert(table@ =~= all.map_values(|g: Vec<String>| texts(g)));
    }
    table
}

/// `aj.<init>` — parse `/res/common.utf`: open the stream, read the 28 groups
/// in file order, close. The file must be there and parse (the game dies
/// otherwise: a missing file, a truncated or malformed record, a malformed
/// or negative count); [`aj_parse`] tests a payload that may not.
pub fn aj_init(resources: &dyn Resources) -> (r: CommonTable)
    requires
        common_spec(resources.entry(COMMON_TABLE@)) is Some,
    ensures
        r@ == common_spec(resources.entry(COMMON_TABLE@))->Some_0,
{
    let bytes = resources.resource_as_stream(COMMON_TABLE);
    aj_parse(bytes).unwrap()
}

/// The `common.utf` parse on a given payload: the 28 groups, or `None` where
/// the game dies.
pub fn aj_parse(bytes: Option<Vec<u8>>) -> (r: Option<CommonTable>)
    ensures
        match common_spec(payload(bytes)) {
            None => r is None,
            Some(gs) => r matches Some(t) && t@ == gs,
        },
{
    let mut stream = ae_open_stream(bytes);
    let t = aj_parse_stream(&mut stream);
    ae_close_stream(&mut stream);
    t
}

} // verus!
