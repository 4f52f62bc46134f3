//! The writing side of `scenes.pak`, as specifications: every count and
//! value a big-endian `i32`, each group its row count then its rows, each
//! row its length then its values, three groups to a scene, scenes back to
//! back — with the law that [`crate::scenes::Scenes::parse`] inverts it.
use crate::reader::{be_u32, i32_at, read_seq, signed32, FormatError};
use crate::scenes::{
    group_step, int_step, lemma_scene_advances, row_step, scene_at, scenes_from, scenes_spec,
};
use vstd::prelude::*;

verus! {

/// The four big-endian bytes of an `i32`.
pub open spec fn be_i32_bytes(x: i32) -> Seq<u8> {
    let u = x as u32;
    seq![(u >> 24u32) as u8, ((u >> 16u32) & 0xFF) as u8, ((u >> 8u32) & 0xFF) as u8, (u & 0xFF) as u8]
}

/// Items written one after another, each by `enc`.
pub open spec fn concat_enc<T>(items: Seq<T>, enc: spec_fn(T) -> Seq<u8>) -> Seq<u8>
    decreases items.len(),
{
    if items.len() == 0 {
        Seq::empty()
    } else {
        concat_enc(items.drop_last(), enc) + enc(items.last())
    }
}

/// Whether `data` holds the bytes `bs` at `q`.
pub open spec fn holds_at(data: Seq<u8>, q: int, bs: Seq<u8>) -> bool {
    0 <= q && q + bs.len() <= data.len() && data.subrange(q, q + bs.len()) == bs
}

/// Reading `items.len()` items where their encodings lie back to back gives
/// the items, ending after the last — when the step reads back each
/// encoding of an item that `ok` admits.
proof fn lemma_read_encoded<T>(
    step: spec_fn(int) -> Result<(T, int), FormatError>,
    data: Seq<u8>,
    p: int,
    items: Seq<T>,
    enc: spec_fn(T) -> Seq<u8>,
    ok: spec_fn(T) -> bool,
)
    requires
        holds_at(data, p, concat_enc(items, enc)),
        forall|i: int| 0 <= i < items.len() ==> #[trigger] ok(items[i]),
        forall|q: int, x: T|
            #![trigger step(q), enc(x)]
            ok(x) && holds_at(data, q, enc(x)) ==> step(q) == Ok::<(T, int), FormatError>(
                (x, q + enc(x).len()),
            ),
    ensures
        read_seq(step, p, items.len()) == Ok::<(Seq<T>, int), FormatError>(
            (items, p + concat_enc(items, enc).len()),
        ),
    decreases items.len(),
{
    if items.len() == 0 {
        assert(items =~= Seq::<T>::empty());
    } else {
        let init = items.drop_last();
        let x = items.last();
        let pre = concat_enc(init, enc);
        let q = p + pre.len();
        assert(concat_enc(items, enc) == pre + enc(x));
        assert(data.subrange(p, q) =~= pre) by {
            assert(data.subrange(p, q) =~= data.subrange(p, p + concat_enc(items, enc).len()).subrange(
                0,
                pre.len() as int,
            ));
        }
        assert(data.subrange(q, q + enc(x).len()) =~= enc(x)) by {
            assert(data.subrange(q, q + enc(x).len()) =~= data.subrange(
                p,
                p + concat_enc(items, enc).len(),
            ).subrange(pre.len() as int, (pre.len() + enc(x).len()) as int));
        }
        assert forall|i: int| 0 <= i < init.len() implies #[trigger] ok(init[i]) by {
            assert(init[i] == items[i]);
        }
        lemma_read_encoded(step, data, p, init, enc, ok);
        assert(ok(items[items.len() - 1]));
        assert(step(q) == Ok::<(T, int), FormatError>((x, q + enc(x).len())));
        assert(init.push(x) =~= items);
    }
}

/// A big-endian `i32` reads back as itself.
proof fn lemma_be_i32(data: Seq<u8>, q: int, x: i32)
    requires
        holds_at(data, q, be_i32_bytes(x)),
        q + 4 <= usize::MAX,
    ensures
        i32_at(data, q) == Ok::<(i32, int), FormatError>((x, q + 4)),
{
    let u = x as u32;
    let bs = be_i32_bytes(x);
    assert(data[q] == bs[0] && data[q + 1] == bs[1] && data[q + 2] == bs[2] && data[q + 3] == bs[3]) by {
        assert(data.subrange(q, q + 4)[0] == data[q]);
        assert(data.subrange(q, q + 4)[1] == data[q + 1]);
        assert(data.subrange(q, q + 4)[2] == data[q + 2]);
        assert(data.subrange(q, q + 4)[3] == data[q + 3]);
    }
    let b0 = (u >> 24u32) as u8;
    let b1 = ((u >> 16u32) & 0xFF) as u8;
    let b2 = ((u >> 8u32) & 0xFF) as u8;
    let b3 = (u & 0xFF) as u8;
    assert((b0 as u32) * 16777216 + (b1 as u32) * 65536 + (b2 as u32) * 256 + (b3 as u32) == u)
        by (bit_vector)
        requires
            b0 == (u >> 24u32) as u8,
            b1 == ((u >> 16u32) & 0xFF) as u8,
            b2 == ((u >> 8u32) & 0xFF) as u8,
            b3 == (u & 0xFF) as u8,
    ;
    assert(be_u32(data, q) == u as int);
    assert((x as u32) as int == if x < 0 {
        x as int + 0x1_0000_0000
    } else {
        x as int
    }) by (bit_vector);
    assert(signed32(u as int) == x as int);
}

/// Writing one `i32`, as a function.
pub open spec fn int_enc() -> spec_fn(i32) -> Seq<u8> {
    |x: i32| be_i32_bytes(x)
}

/// One row as written: its length, then its values.
pub open spec fn row_bytes(row: Seq<i32>) -> Seq<u8> {
    be_i32_bytes(row.len() as i32) + concat_enc(row, int_enc())
}

/// Writing one row, as a function.
pub open spec fn row_enc() -> spec_fn(Seq<i32>) -> Seq<u8> {
    |row: Seq<i32>| row_bytes(row)
}

/// A row's length fits its `i32` count.
pub open spec fn row_fits(row: Seq<i32>) -> bool {
    row.len() <= i32::MAX
}

/// Every `i32` written in `data` reads back.
proof fn lemma_ints_decode(data: Seq<u8>)
    requires
        data.len() <= usize::MAX,
    ensures
        forall|q: int, x: i32|
            #![trigger int_step(data)(q), int_enc()(x)]
            holds_at(data, q, int_enc()(x)) ==> int_step(data)(q) == Ok::<
                (i32, int),
                FormatError,
            >((x, q + int_enc()(x).len())),
{
    assert forall|q: int, x: i32|
        #![trigger int_step(data)(q), int_enc()(x)]
        holds_at(data, q, int_enc()(x)) implies int_step(data)(q) == Ok::<
            (i32, int),
            FormatError,
        >((x, q + int_enc()(x).len())) by {
        lemma_be_i32(data, q, x);
    }
}

/// The count word at the front of a written item reads back.
proof fn lemma_count_word(data: Seq<u8>, q: int, n: int, rest: Seq<u8>)
    requires
        data.len() <= usize::MAX,
        0 <= n <= i32::MAX,
        holds_at(data, q, be_i32_bytes(n as i32) + rest),
    ensures
        i32_at(data, q) == Ok::<(i32, int), FormatError>((n as i32, q + 4)),
        holds_at(data, q + 4, rest),
{
    let all = be_i32_bytes(n as i32) + rest;
    assert(data.subrange(q, q + 4) =~= data.subrange(q, q + all.len()).subrange(0, 4));
    assert(all.subrange(0, 4) =~= be_i32_bytes(n as i32));
    lemma_be_i32(data, q, n as i32);
    assert(data.subrange(q + 4, q + 4 + rest.len()) =~= data.subrange(q, q + all.len()).subrange(
        4,
        all.len() as int,
    ));
    assert(all.subrange(4, all.len() as int) =~= rest);
}

/// Every row written in `data` reads back.
proof fn lemma_rows_decode(data: Seq<u8>)
    requires
        data.len() <= usize::MAX,
    ensures
        forall|q: int, row: Seq<i32>|
            #![trigger row_step(data)(q), row_enc()(row)]
            row_fits(row) && holds_at(data, q, row_enc()(row)) ==> row_step(data)(q) == Ok::<
                (Seq<i32>, int),
                FormatError,
            >((row, q + row_enc()(row).len())),
{
    assert forall|q: int, row: Seq<i32>|
        #![trigger row_step(data)(q), row_enc()(row)]
        row_fits(row) && holds_at(data, q, row_enc()(row)) implies row_step(data)(q) == Ok::<
            (Seq<i32>, int),
            FormatError,
        >((row, q + row_enc()(row).len())) by {
        lemma_count_word(data, q, row.len() as int, concat_enc(row, int_enc()));
        lemma_ints_decode(data);
        lemma_read_encoded(int_step(data), data, q + 4, row, int_enc(), |x: i32| true);
    }
}

/// One group as written: its row count, then its rows.
pub open spec fn group_bytes(g: Seq<Seq<i32>>) -> Seq<u8> {
    be_i32_bytes(g.len() as i32) + concat_enc(g, row_enc())
}

/// Writing one group, as a function.
pub open spec fn group_enc() -> spec_fn(Seq<Seq<i32>>) -> Seq<u8> {
    |g: Seq<Seq<i32>>| group_bytes(g)
}

/// A group's counts fit their `i32` words.
pub open spec fn group_fits(g: Seq<Seq<i32>>) -> bool {
    g.len() <= i32::MAX && forall|i: int| 0 <= i < g.len() ==> #[trigger] row_fits(g[i])
}

/// Writing one scene: its groups back to back.
pub open spec fn scene_bytes(sc: Seq<Seq<Seq<i32>>>) -> Seq<u8> {
    concat_enc(sc, group_enc())
}

/// A scene has its three groups, each fitting.
pub open spec fn scene_fits(sc: Seq<Seq<Seq<i32>>>) -> bool {
    sc.len() == 3 && forall|i: int| 0 <= i < 3 ==> #[trigger] group_fits(sc[i])
}

/// `scenes.pak` as written: its scenes back to back.
pub open spec fn scenes_bytes(ss: Seq<Seq<Seq<Seq<i32>>>>) -> Seq<u8>
    decreases ss.len(),
{
    if ss.len() == 0 {
        Seq::empty()
    } else {
        scene_bytes(ss[0]) + scenes_bytes(ss.drop_first())
    }
}

/// Every scene fits.
pub open spec fn scenes_fit(ss: Seq<Seq<Seq<Seq<i32>>>>) -> bool {
    forall|i: int| 0 <= i < ss.len() ==> #[trigger] scene_fits(ss[i])
}

/// Every group written in `data` reads back.
proof fn lemma_groups_decode(data: Seq<u8>)
    requires
        data.len() <= usize::MAX,
    ensures
        forall|q: int, g: Seq<Seq<i32>>|
            #![trigger group_step(data)(q), group_enc()(g)]
            group_fits(g) && holds_at(data, q, group_enc()(g)) ==> group_step(data)(q) == Ok::<
                (Seq<Seq<i32>>, int),
                FormatError,
            >((g, q + group_enc()(g).len())),
{
    assert forall|q: int, g: Seq<Seq<i32>>|
        #![trigger group_step(data)(q), group_enc()(g)]
        group_fits(g) && holds_at(data, q, group_enc()(g)) implies group_step(data)(q) == Ok::<
            (Seq<Seq<i32>>, int),
            FormatError,
        >((g, q + group_enc()(g).len())) by {
        lemma_count_word(data, q, g.len() as int, concat_enc(g, row_enc()));
        lemma_rows_decode(data);
        lemma_read_encoded(row_step(data), data, q + 4, g, row_enc(), |r: Seq<i32>| row_fits(r));
    }
}

/// A written scene reads back.
proof fn lemma_scene_decode(data: Seq<u8>, q: int, sc: Seq<Seq<Seq<i32>>>)
    requires
        data.len() <= usize::MAX,
        scene_fits(sc),
        holds_at(data, q, scene_bytes(sc)),
    ensures
        scene_at(data, q) == Ok::<(Seq<Seq<Seq<i32>>>, int), FormatError>(
            (sc, q + scene_bytes(sc).len()),
        ),
{
    lemma_groups_decode(data);
    lemma_read_encoded(group_step(data), data, q, sc, group_enc(), |g: Seq<Seq<i32>>| group_fits(g));
}

/// A written scene spans at least its three count words.
proof fn lemma_scene_len(sc: Seq<Seq<Seq<i32>>>)
    requires
        sc.len() == 3,
    ensures
        scene_bytes(sc).len() >= 12,
{
    assert(scene_bytes(sc) == concat_enc(sc.drop_last(), group_enc()) + group_bytes(sc[2]));
    assert(concat_enc(sc.drop_last(), group_enc()) == concat_enc(sc.drop_last().drop_last(), group_enc())
        + group_bytes(sc[1]));
    assert(concat_enc(sc.drop_last().drop_last(), group_enc()) == concat_enc(
        sc.drop_last().drop_last().drop_last(),
        group_enc(),
    ) + group_bytes(sc[0]));
}

/// The scenes written after `pre` read back from where `pre` ends.
proof fn lemma_scenes_decode(pre: Seq<u8>, ss: Seq<Seq<Seq<Seq<i32>>>>)
    requires
        scenes_fit(ss),
        pre.len() + scenes_bytes(ss).len() <= usize::MAX,
    ensures
        scenes_from(pre + scenes_bytes(ss), pre.len() as int) == Ok::<
            Seq<Seq<Seq<Seq<i32>>>>,
            FormatError,
        >(ss),
    decreases ss.len(),
{
    let data = pre + scenes_bytes(ss);
    if ss.len() == 0 {
        assert(data =~= pre);
        assert(ss =~= Seq::<Seq<Seq<Seq<i32>>>>::empty());
    } else {
        let sc = ss[0];
        let tail = ss.drop_first();
        let pre2 = pre + scene_bytes(sc);
        assert(data =~= pre2 + scenes_bytes(tail));
        assert(scene_fits(sc));
        assert(scenes_fit(tail)) by {
            assert forall|i: int| 0 <= i < tail.len() implies #[trigger] scene_fits(tail[i]) by {
                assert(tail[i] == ss[i + 1]);
            }
        }
        lemma_scenes_decode(pre2, tail);
        let p = pre.len() as int;
        assert(data.subrange(p, p + scene_bytes(sc).len()) =~= scene_bytes(sc));
        lemma_scene_decode(data, p, sc);
        lemma_scene_len(sc);
        assert(seq![sc] + tail =~= ss);
    }
}

/// Law: `Scenes::parse` inverts the `scenes.pak` writer. Scenes of three
/// groups, written as big-endian `i32` counts and values — each group its
/// row count then its rows, each row its length then its values — parse
/// back to the same scenes, provided every count fits an `i32` and the file
/// fits in memory.
pub proof fn law_scenes_round_trip(ss: Seq<Seq<Seq<Seq<i32>>>>)
    requires
        scenes_fit(ss),
        scenes_bytes(ss).len() <= usize::MAX,
    ensures
        scenes_spec(scenes_bytes(ss)) == Ok::<Seq<Seq<Seq<Seq<i32>>>>, FormatError>(ss),
{
    lemma_scenes_decode(Seq::empty(), ss);
    assert(Seq::<u8>::empty() + scenes_bytes(ss) =~= scenes_bytes(ss));
}

/// Bytes held back to back are held as one run.
proof fn lemma_holds_concat(data: Seq<u8>, q: int, a: Seq<u8>, b: Seq<u8>)
    requires
        holds_at(data, q, a),
        holds_at(data, q + a.len(), b),
    ensures
        holds_at(data, q, a + b),
{
    assert forall|i: int| 0 <= i < a.len() + b.len() implies data.subrange(q, q + a.len() + b.len())[i]
        == (a + b)[i] by {
        if i < a.len() {
            assert(data.subrange(q, q + a.len())[i] == a[i]);
        } else {
            assert(data.subrange(q + a.len(), q + a.len() + b.len())[i - a.len()] == b[i - a.len()]);
        }
    }
    assert(data.subrange(q, q + a.len() + b.len()) =~= a + b);
}

/// An `i32` read from `data` lies there as its four big-endian bytes.
proof fn lemma_be_i32_read(data: Seq<u8>, q: int)
    requires
        0 <= q,
        i32_at(data, q) is Ok,
    ensures
        i32_at(data, q) matches Ok((x, r)) && r == q + 4 && holds_at(data, q, be_i32_bytes(x)),
{
    let x = i32_at(data, q)->Ok_0.0;
    let b0 = data[q];
    let b1 = data[q + 1];
    let b2 = data[q + 2];
    let b3 = data[q + 3];
    let v = be_u32(data, q);
    assert(0 <= v < 0x1_0000_0000);
    let u = v as u32;
    assert(x as int == signed32(v));
    assert((x as u32) as int == if x < 0 {
        x as int + 0x1_0000_0000
    } else {
        x as int
    }) by (bit_vector);
    assert(x as u32 == u);
    assert((u >> 24u32) as u8 == b0 && ((u >> 16u32) & 0xFF) as u8 == b1 && ((u >> 8u32) & 0xFF) as u8
        == b2 && (u & 0xFF) as u8 == b3) by (bit_vector)
        requires
            u == (b0 as u32) * 16777216 + (b1 as u32) * 65536 + (b2 as u32) * 256 + (b3 as u32),
    ;
    assert(data.subrange(q, q + 4) =~= be_i32_bytes(x));
}

/// Items read back to back lie in `data` as their encodings back to back
/// — when each step's read lies there as its item's encoding.
proof fn lemma_read_lies<T>(
    step: spec_fn(int) -> Result<(T, int), FormatError>,
    data: Seq<u8>,
    p: int,
    k: nat,
    enc: spec_fn(T) -> Seq<u8>,
)
    requires
        0 <= p <= data.len(),
        read_seq(step, p, k) is Ok,
        forall|q: int|
            0 <= q && #[trigger] step(q) is Ok ==> holds_at(data, q, enc(step(q)->Ok_0.0))
                && step(q)->Ok_0.1 == q + enc(step(q)->Ok_0.0).len(),
    ensures
        read_seq(step, p, k) matches Ok((items, r)) && items.len() == k && r == p + concat_enc(
            items,
            enc,
        ).len() && holds_at(data, p, concat_enc(items, enc)),
    decreases k,
{
    if k == 0 {
        assert(data.subrange(p, p) =~= Seq::<u8>::empty());
    } else {
        lemma_read_lies(step, data, p, (k - 1) as nat, enc);
        let (init, q) = read_seq(step, p, (k - 1) as nat)->Ok_0;
        let (x, r) = step(q)->Ok_0;
        let items = init.push(x);
        assert(items.drop_last() =~= init);
        assert(concat_enc(items, enc) == concat_enc(init, enc) + enc(x));
        lemma_holds_concat(data, p, concat_enc(init, enc), enc(x));
    }
}

/// A row read from `data` lies there as written.
proof fn lemma_rows_lie(data: Seq<u8>)
    ensures
        forall|q: int|
            0 <= q && #[trigger] row_step(data)(q) is Ok ==> holds_at(
                data,
                q,
                row_enc()(row_step(data)(q)->Ok_0.0),
            ) && row_step(data)(q)->Ok_0.1 == q + row_enc()(row_step(data)(q)->Ok_0.0).len(),
{
    assert forall|q: int| 0 <= q && #[trigger] row_step(data)(q) is Ok implies holds_at(
        data,
        q,
        row_enc()(row_step(data)(q)->Ok_0.0),
    ) && row_step(data)(q)->Ok_0.1 == q + row_enc()(row_step(data)(q)->Ok_0.0).len() by {
        lemma_be_i32_read(data, q);
        assert forall|q2: int| 0 <= q2 && #[trigger] int_step(data)(q2) is Ok implies holds_at(
            data,
            q2,
            int_enc()(int_step(data)(q2)->Ok_0.0),
        ) && int_step(data)(q2)->Ok_0.1 == q2 + int_enc()(int_step(data)(q2)->Ok_0.0).len() by {
            lemma_be_i32_read(data, q2);
        }
        let (len, q1) = i32_at(data, q)->Ok_0;
        lemma_read_lies(int_step(data), data, q1, len as nat, int_enc());
        let row = row_step(data)(q)->Ok_0.0;
        assert(row.len() as i32 == len);
        lemma_holds_concat(data, q, be_i32_bytes(len), concat_enc(row, int_enc()));
    }
}

/// A group read from `data` lies there as written.
proof fn lemma_groups_lie(data: Seq<u8>)
    ensures
        forall|q: int|
            0 <= q && #[trigger] group_step(data)(q) is Ok ==> holds_at(
                data,
                q,
                group_enc()(group_step(data)(q)->Ok_0.0),
            ) && group_step(data)(q)->Ok_0.1 == q + group_enc()(group_step(data)(q)->Ok_0.0).len(),
{
    assert forall|q: int| 0 <= q && #[trigger] group_step(data)(q) is Ok implies holds_at(
        data,
        q,
        group_enc()(group_step(data)(q)->Ok_0.0),
    ) && group_step(data)(q)->Ok_0.1 == q + group_enc()(group_step(data)(q)->Ok_0.0).len() by {
        lemma_be_i32_read(data, q);
        lemma_rows_lie(data);
        let (rows, q1) = i32_at(data, q)->Ok_0;
        lemma_read_lies(row_step(data), data, q1, rows as nat, row_enc());
        let g = group_step(data)(q)->Ok_0.0;
        assert(g.len() as i32 == rows);
        lemma_holds_concat(data, q, be_i32_bytes(rows), concat_enc(g, row_enc()));
    }
}

/// The scenes read from `p` on are the bytes from `p` to the end, as
/// written.
proof fn lemma_scenes_lie(data: Seq<u8>, p: int)
    requires
        0 <= p <= data.len(),
        scenes_from(data, p) is Ok,
    ensures
        scenes_bytes(scenes_from(data, p)->Ok_0) == data.subrange(p, data.len() as int),
    decreases data.len() - p,
{
    if p >= data.len() {
        assert(data.subrange(p, data.len() as int) =~= Seq::<u8>::empty());
    } else {
        lemma_scene_advances(data, p);
        lemma_groups_lie(data);
        lemma_read_lies(group_step(data), data, p, 3, group_enc());
        let (sc, q) = scene_at(data, p)->Ok_0;
        lemma_scenes_lie(data, q);
        let rest = scenes_from(data, q)->Ok_0;
        let ss = seq![sc] + rest;
        assert(ss[0] == sc);
        assert(ss.drop_first() =~= rest);
        assert(data.subrange(p, data.len() as int) =~= data.subrange(p, q) + data.subrange(
            q,
            data.len() as int,
        ));
    }
}

/// Law: a `scenes.pak` that parses is exactly its scenes as written — the
/// scenes tile the file to its end, nothing skipped or left over.
pub proof fn law_scenes_are_their_bytes(data: Seq<u8>)
    requires
        scenes_spec(data) is Ok,
    ensures
        scenes_bytes(scenes_spec(data)->Ok_0) == data,
{
    lemma_scenes_lie(data, 0);
    assert(data.subrange(0, data.len() as int) =~= data);
}

} // verus!
