//! `res/scenes.pak` — per-level scripting data. **Not** an XOR pak: despite the
//! extension this is a big-endian nested-`i32` structure, distinct from
//! [`crate::pak`].
//!
//! The file is a flat sequence of per-level scenes with no top-level count
//! (scene index = level index). Each scene is exactly **three groups**, each
//! group a ragged int-array table:
//!
//! ```text
//! per scene, 3 groups; each group:
//!   i32 BE  rows
//!   rows × ( i32 BE len ; len × i32 BE )
//! ```
//!
//! The parser frames only: it exposes the raw ragged tables. A scene cut
//! mid-group, a negative count, or bytes that do not tile to exact EOF are
//! rejected.
use crate::reader::{
    i32_at, lemma_read_seq_advance, lemma_read_seq_err, prepend, read_seq, FormatError, Reader,
};
use vstd::prelude::*;

verus! {

/// One ragged int-array table: `rows × (len; len ints)`.
pub type Group = Vec<Vec<i32>>;

/// One per-level scene: exactly three groups, in file order.
pub type Scene = [Group; 3];

/// The rejection reason for a negative row count.
pub const NEG_ROWS: &'static str = "negative row count in scenes group";

/// The rejection reason for a negative row length.
pub const NEG_ROW_LEN: &'static str = "negative row length in scenes group";

/// The parsed `scenes.pak`: every scene, in file order (index = level index).
#[derive(Debug, Clone, PartialEq, Eq)]
pub struct Scenes {
    scenes: Vec<Scene>,
}

/// The rows of a group as sequences.
pub open spec fn group_view(g: Group) -> Seq<Seq<i32>> {
    g@.map_values(|row: Vec<i32>| row@)
}

/// The three groups of a scene as sequences.
pub open spec fn scene_view(s: Scene) -> Seq<Seq<Seq<i32>>> {
    s@.map_values(|g: Group| group_view(g))
}

impl View for Scenes {
    type V = Seq<Seq<Seq<Seq<i32>>>>;

    closed spec fn view(&self) -> Seq<Seq<Seq<Seq<i32>>>> {
        self.scenes@.map_values(|s: Scene| scene_view(s))
    }
}

/// Reading one big-endian `i32`, as a step function.
pub open spec fn int_step(data: Seq<u8>) -> spec_fn(int) -> Result<(i32, int), FormatError> {
    |p: int| i32_at(data, p)
}

/// One row at `p`: a non-negative length, then that many ints.
pub open spec fn row_at(data: Seq<u8>, p: int) -> Result<(Seq<i32>, int), FormatError> {
    match i32_at(data, p) {
        Err(e) => Err(e),
        Ok((len, q)) => if len < 0 {
            Err(FormatError::Invalid { at: p as usize, reason: NEG_ROW_LEN })
        } else {
            read_seq(int_step(data), q, len as nat)
        },
    }
}

/// Reading one row, as a step function.
pub open spec fn row_step(data: Seq<u8>) -> spec_fn(int) -> Result<(Seq<i32>, int), FormatError> {
    |p: int| row_at(data, p)
}

/// One group at `p`: a non-negative row count, then that many rows.
pub open spec fn group_at(data: Seq<u8>, p: int) -> Result<(Seq<Seq<i32>>, int), FormatError> {
    match i32_at(data, p) {
        Err(e) => Err(e),
        Ok((rows, q)) => if rows < 0 {
            Err(FormatError::Invalid { at: p as usize, reason: NEG_ROWS })
        } else {
            read_seq(row_step(data), q, rows as nat)
        },
    }
}

/// Reading one group, as a step function.
pub open spec fn group_step(data: Seq<u8>) -> spec_fn(int) -> Result<
    (Seq<Seq<i32>>, int),
    FormatError,
> {
    |p: int| group_at(data, p)
}

/// One scene at `p`: exactly three groups.
pub open spec fn scene_at(data: Seq<u8>, p: int) -> Result<(Seq<Seq<Seq<i32>>>, int), FormatError> {
    read_seq(group_step(data), p, 3)
}

/// The scenes from `p` to the end of the blob.
pub open spec fn scenes_from(data: Seq<u8>, p: int) -> Result<Seq<Seq<Seq<Seq<i32>>>>, FormatError>
    decreases data.len() - p,
{
    if p >= data.len() {
        Ok(Seq::empty())
    } else {
        match scene_at(data, p) {
            Err(e) => Err(e),
            Ok((s, q)) => if q <= p {
                Ok(Seq::empty())
            } else {
                match scenes_from(data, q) {
                    Err(e) => Err(e),
                    Ok(rest) => Ok(seq![s] + rest),
                }
            },
        }
    }
}

/// The scenes a blob denotes.
pub open spec fn scenes_spec(data: Seq<u8>) -> Result<Seq<Seq<Seq<Seq<i32>>>>, FormatError> {
    scenes_from(data, 0)
}

/// A row advances by at least its length word.
proof fn lemma_row_advances(data: Seq<u8>)
    ensures
        forall|p: int| #[trigger] row_step(data)(p) matches Ok((_, q)) ==> q >= p + 4,
{
    assert forall|p: int| (#[trigger] row_step(data)(p)) is Ok implies row_step(data)(p)->Ok_0.1 >= p + 4 by {
        if let Ok((len, q0)) = i32_at(data, p) {
            if len >= 0 {
                lemma_read_seq_advance(int_step(data), q0, len as nat, 4);
            }
        }
    }
}

/// A group advances by at least its row-count word.
proof fn lemma_group_advances(data: Seq<u8>)
    ensures
        forall|p: int| #[trigger] group_step(data)(p) matches Ok((_, q)) ==> q >= p + 4,
{
    lemma_row_advances(data);
    assert forall|p: int| (#[trigger] group_step(data)(p)) is Ok implies group_step(data)(p)->Ok_0.1 >= p + 4 by {
        if let Ok((rows, q0)) = i32_at(data, p) {
            if rows >= 0 {
                lemma_read_seq_advance(row_step(data), q0, rows as nat, 4);
            }
        }
    }
}

/// A scene holds exactly three groups and spans at least twelve bytes.
pub(crate) proof fn lemma_scene_advances(data: Seq<u8>, p: int)
    ensures
        scene_at(data, p) matches Ok((s, q)) ==> s.len() == 3 && q >= p + 12,
{
    lemma_group_advances(data);
    lemma_read_seq_advance(group_step(data), p, 3, 4);
}

/// Every scene read from `p` on holds exactly three groups.
proof fn lemma_scenes_from_shape(data: Seq<u8>, p: int)
    ensures
        scenes_from(data, p) matches Ok(ss) ==> forall|i: int| 0 <= i < ss.len() ==> #[trigger] ss[i].len() == 3,
    decreases data.len() - p,
{
    if p < data.len() {
        lemma_scene_advances(data, p);
        if let Ok((sc, q)) = scene_at(data, p) {
            if q > p {
                lemma_scenes_from_shape(data, q);
                if let Ok(rest) = scenes_from(data, q) {
                    let ss = seq![sc] + rest;
                    assert forall|i: int| 0 <= i < ss.len() implies #[trigger] ss[i].len() == 3 by {
                        if i > 0 {
                            assert(ss[i] == rest[i - 1]);
                        }
                    }
                }
            }
        }
    }
}

/// Law: every scene of a blob that parses holds exactly three groups.
pub proof fn law_scenes_have_three_groups(data: Seq<u8>)
    requires
        scenes_spec(data) is Ok,
    ensures
        forall|i: int|
            0 <= i < scenes_spec(data)->Ok_0.len() ==> #[trigger] scenes_spec(data)->Ok_0[i].len()
                == 3,
{
    lemma_scenes_from_shape(data, 0);
}

/// Read one group at the reader's cursor.
fn parse_group(r: &mut Reader<'_>) -> (res: Result<Group, FormatError>)
    ensures
        final(r).bytes_spec() == old(r).bytes_spec(),
        match group_at(old(r).bytes_spec(), old(r).pos_spec()) {
            Ok((g, q)) => res matches Ok(grp) && group_view(grp) == g && final(r).pos_spec() == q,
            Err(e) => res == Err::<Group, FormatError>(e),
        },
{
    let ghost d = r.bytes_spec();
    let at = r.position();
    let rows = match r.i32_be() {
        Ok(v) => v,
        Err(e) => return Err(e),
    };
    if rows < 0 {
        return Err(FormatError::Invalid { at, reason: NEG_ROWS });
    }
    let rows = rows as usize;
    let ghost rows_start = r.pos_spec();
    let mut group: Group = Vec::with_capacity(
        if rows < 65536 {
            rows
        } else {
            65536
        },
    );
    proof {
        assert(group_view(group) =~= Seq::<Seq<i32>>::empty());
    }
    let mut i: usize = 0;
    while i < rows
        invariant
            r.bytes_spec() == d,
            d == old(r).bytes_spec(),
            0 <= i <= rows,
            i32_at(d, old(r).pos_spec()) matches Ok((c, p)) && c == rows && p == rows_start,
            read_seq(row_step(d), rows_start, i as nat) == Ok::<_, FormatError>(
                (group_view(group), r.pos_spec()),
            ),
        decreases rows - i,
    {
        let ghost row_pos = r.pos_spec();
        let at = r.position();
        let len = match r.i32_be() {
            Ok(v) => v,
            Err(e) => {
                proof {
                    assert(row_step(d)(row_pos) == Err::<(Seq<i32>, int), FormatError>(e));
                    lemma_read_seq_err(row_step(d), rows_start, (i + 1) as nat, rows as nat);
                }
                return Err(e);
            },
        };
        if len < 0 {
            proof {
                assert(row_step(d)(row_pos) == Err::<(Seq<i32>, int), FormatError>(
                    FormatError::Invalid { at, reason: NEG_ROW_LEN },
                ));
                lemma_read_seq_err(row_step(d), rows_start, (i + 1) as nat, rows as nat);
            }
            return Err(FormatError::Invalid { at, reason: NEG_ROW_LEN });
        }
        let ghost len32 = len;
        let len = len as usize;
        let ghost ints_start = r.pos_spec();
        let mut row: Vec<i32> = Vec::with_capacity(
            if len < 65536 {
                len
            } else {
                65536
            },
        );
        let mut j: usize = 0;
        while j < len
            invariant
                r.bytes_spec() == d,
                d == old(r).bytes_spec(),
                0 <= i < rows,
                0 <= j <= len,
                i32_at(d, old(r).pos_spec()) matches Ok((c, p)) && c == rows && p == rows_start,
                read_seq(row_step(d), rows_start, i as nat) == Ok::<_, FormatError>(
                    (group_view(group), row_pos),
                ),
                i32_at(d, row_pos) == Ok::<_, FormatError>((len32, ints_start)),
                0 <= len32 && len32 == len,
                read_seq(int_step(d), ints_start, j as nat) == Ok::<_, FormatError>(
                    (row@, r.pos_spec()),
                ),
            decreases len - j,
        {
            let v = match r.i32_be() {
                Ok(v) => v,
                Err(e) => {
                    proof {
                        lemma_read_seq_err(int_step(d), ints_start, (j + 1) as nat, len as nat);
                        assert(row_step(d)(row_pos) == Err::<(Seq<i32>, int), FormatError>(e));
                        lemma_read_seq_err(row_step(d), rows_start, (i + 1) as nat, rows as nat);
                    }
                    return Err(e);
                },
            };
            row.push(v);
            j = j + 1;
        }
        let ghost old_group = group;
        group.push(row);
        proof {
            assert(group_view(group) =~= group_view(old_group).push(row@));
        }
        i = i + 1;
    }
    Ok(group)
}

/// Read one scene (three groups) at the reader's cursor.
fn parse_scene(r: &mut Reader<'_>) -> (res: Result<Scene, FormatError>)
    ensures
        final(r).bytes_spec() == old(r).bytes_spec(),
        match scene_at(old(r).bytes_spec(), old(r).pos_spec()) {
            Ok((sc, q)) => res matches Ok(scene) && scene_view(scene) == sc && final(r).pos_spec()
                == q,
            Err(e) => res == Err::<Scene, FormatError>(e),
        },
{
    let ghost d = r.bytes_spec();
    let ghost p = r.pos_spec();
    let g0 = match parse_group(r) {
        Ok(g) => g,
        Err(e) => {
            proof {
                assert(read_seq(group_step(d), p, 1) == Err::<(Seq<Seq<Seq<i32>>>, int), FormatError>(e));
                lemma_read_seq_err(group_step(d), p, 1, 3);
            }
            return Err(e);
        },
    };
    let ghost p1 = r.pos_spec();
    proof {
        assert(read_seq(group_step(d), p, 0) == Ok::<_, FormatError>((Seq::<Seq<Seq<i32>>>::empty(), p)));
        assert(seq![group_view(g0)] =~= Seq::<Seq<Seq<i32>>>::empty().push(group_view(g0)));
        assert(read_seq(group_step(d), p, 1) == Ok::<_, FormatError>((seq![group_view(g0)], p1)));
    }
    let g1 = match parse_group(r) {
        Ok(g) => g,
        Err(e) => {
            proof {
                assert(read_seq(group_step(d), p, 2) == Err::<(Seq<Seq<Seq<i32>>>, int), FormatError>(e));
                lemma_read_seq_err(group_step(d), p, 2, 3);
            }
            return Err(e);
        },
    };
    let ghost p2 = r.pos_spec();
    proof {
        assert(seq![group_view(g0), group_view(g1)] =~= seq![group_view(g0)].push(group_view(g1)));
        assert(read_seq(group_step(d), p, 2) == Ok::<_, FormatError>((seq![group_view(g0), group_view(g1)], p2)));
    }
    let g2 = match parse_group(r) {
        Ok(g) => g,
        Err(e) => return Err(e),
    };
    proof {
        assert(seq![group_view(g0), group_view(g1), group_view(g2)] =~= seq![group_view(g0), group_view(g1)].push(group_view(g2)));
    }
    let scene: Scene = [g0, g1, g2];
    proof {
        assert(scene_view(scene) =~= seq![group_view(g0), group_view(g1), group_view(g2)]);
    }
    Ok(scene)
}

impl Scenes {
    /// Parse a `scenes.pak` blob: scenes of three groups each, until the stream
    /// tiles to exact EOF. Rejects a negative row/length count, truncation
    /// mid-scene, or any non-exact tiling with a typed error.
    pub fn parse(data: &[u8]) -> (res: Result<Scenes, FormatError>)
        ensures
            match scenes_spec(data@) {
                Ok(ss) => res matches Ok(s) && s@ == ss,
                Err(e) => res == Err::<Scenes, FormatError>(e),
            },
    {
        let ghost d = data@;
        let mut r = Reader::new(data);
        let mut scenes: Vec<Scene> = Vec::new();
        proof {
            assert(scenes@.map_values(|s: Scene| scene_view(s)) =~= Seq::<
                Seq<Seq<Seq<i32>>>,
            >::empty());
            if let Ok(all) = scenes_from(d, 0) {
                assert(Seq::<Seq<Seq<Seq<i32>>>>::empty() + all =~= all);
            }
        }
        while r.remaining() > 0
            invariant
                d == data@,
                r.bytes_spec() == d,
                0 <= r.pos_spec() <= d.len(),
                scenes_from(d, 0) == prepend(
                    scenes@.map_values(|s: Scene| scene_view(s)),
                    scenes_from(d, r.pos_spec()),
                ),
            decreases d.len() - r.pos_spec(),
        {
            let ghost p = r.pos_spec();
            let ghost done = scenes@.map_values(|s: Scene| scene_view(s));
            proof {
                lemma_scene_advances(d, p);
            }
            let scene = match parse_scene(&mut r) {
                Ok(sc) => sc,
                Err(e) => return Err(e),
            };
            scenes.push(scene);
            proof {
                let q = r.pos_spec();
                assert(scenes@.map_values(|s: Scene| scene_view(s)) =~= done.push(
                    scene_view(scene),
                ));
                if let Ok(rest) = scenes_from(d, q) {
                    assert(done + (seq![scene_view(scene)] + rest) =~= done.push(
                        scene_view(scene),
                    ) + rest);
                }
            }
        }
        proof {
            let done = scenes@.map_values(|s: Scene| scene_view(s));
            assert(done + Seq::<Seq<Seq<Seq<i32>>>>::empty() =~= done);
        }
        Ok(Scenes { scenes })
    }

    /// All scenes, in file order.
    pub fn scenes(&self) -> (r: &[Scene])
        ensures
            r@.map_values(|s: Scene| scene_view(s)) == self@,
    {
        self.scenes.as_slice()
    }

    /// Number of scenes.
    pub fn len(&self) -> (n: usize)
        ensures
            n == self@.len(),
    {
        self.scenes.len()
    }

    /// Whether the file held no scenes.
    pub fn is_empty(&self) -> (b: bool)
        ensures
            b == (self@.len() == 0),
    {
        self.scenes.len() == 0
    }

    /// One scene by level index, or `None` when out of range.
    pub fn get(&self, index: usize) -> (r: Option<&Scene>)
        ensures
            index < self@.len() ==> (r matches Some(s) && scene_view(*s) == self@[index as int]),
            index >= self@.len() ==> r is None,
    {
        if index < self.scenes.len() {
            Some(&self.scenes[index])
        } else {
            None
        }
    }
}

} // verus!
