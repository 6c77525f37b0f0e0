use vstd::prelude::*;
use crate::board::{abs, Pos};

verus! {

/// Why a set of cells is not one polyomino.
#[derive(Debug, Clone, Copy, PartialEq, Eq, Structural, Hash)]
pub enum NonPolyomino {
    Disconnected,
    Duplicated,
}

/// Two cells share a side.
pub open spec fn adjacent(a: Pos, b: Pos) -> bool {
    (a.row() == b.row() && abs(a.col() - b.col()) == 1) || (a.col() == b.col() && abs(
        a.row() - b.row(),
    ) == 1)
}

/// No cell occurs twice in `s`.
pub open spec fn distinct(s: Seq<Pos>) -> bool {
    forall|i: int, j: int| 0 <= i < j < s.len() ==> s[i] != s[j]
}

/// `part` cuts the cells of `s` into two non-empty groups, no cell of one
/// sharing a side with a cell of the other.
pub open spec fn separates(s: Seq<Pos>, part: Set<Pos>) -> bool {
    &&& exists|a: Pos| s.contains(a) && part.contains(a)
    &&& exists|b: Pos| s.contains(b) && !part.contains(b)
    &&& forall|a: Pos, b: Pos|
        s.contains(a) && part.contains(a) && s.contains(b) && !part.contains(b) ==> !adjacent(
            a,
            b,
        )
}

/// The cells of `s` form one orthogonally connected group: no way of cutting them in
/// two leaves the groups without a shared side.
pub open spec fn connected(s: Seq<Pos>) -> bool {
    forall|part: Set<Pos>| !#[trigger] separates(s, part)
}

/// The cells of `s` form one polyomino: connected, and none of them repeated.
pub open spec fn is_polyomino(s: Seq<Pos>) -> bool {
    distinct(s) && connected(s)
}

proof fn lemma_neighbours(p: Pos, q: Pos)
    requires
        p.valid(),
        q.valid(),
    ensures
        adjacent(p, q) <==> (p.shifted(-1, 0) == Some(q) || p.shifted(1, 0) == Some(q)
            || p.shifted(0, -1) == Some(q) || p.shifted(0, 1) == Some(q)),
{
    assert(q.0 == q.row() * 10 + q.col());
    assert(p.0 == p.row() * 10 + p.col());
}

proof fn lemma_swap_keeps(s: Seq<Pos>, r: int, i: int)
    requires
        0 <= r <= i < s.len(),
    ensures
        forall|x: Pos|
            s.update(r, s[i]).update(i, s[r]).contains(x) <==> s.contains(x),
        distinct(s) ==> distinct(s.update(r, s[i]).update(i, s[r])),
        s.update(r, s[i]).update(i, s[r]).len() == s.len(),
{
    let t = s.update(r, s[i]).update(i, s[r]);
    assert forall|x: Pos| t.contains(x) <==> s.contains(x) by {
        if s.contains(x) {
            let k = choose|k: int| 0 <= k < s.len() && s[k] == x;
            if k == r {
                assert(t[i] == x);
            } else if k == i {
                assert(t[r] == x);
            } else {
                assert(t[k] == x);
            }
        }
        if t.contains(x) {
            let k = choose|k: int| 0 <= k < t.len() && t[k] == x;
            if k == r {
                assert(s[i] == x);
            } else if k == i {
                assert(s[r] == x);
            } else {
                assert(s[k] == x);
            }
        }
    }
    if distinct(s) {
        assert forall|a: int, b: int| 0 <= a < b < t.len() implies t[a] != t[b] by {
            let pa = if a == r {
                i
            } else if a == i {
                r
            } else {
                a
            };
            let pb = if b == r {
                i
            } else if b == i {
                r
            } else {
                b
            };
            assert(t[a] == s[pa]);
            assert(t[b] == s[pb]);
            if pa < pb {
                assert(s[pa] != s[pb]);
            } else {
                assert(s[pb] != s[pa]);
            }
        }
    }
}

proof fn lemma_same_cells_separate(s: Seq<Pos>, t: Seq<Pos>, part: Set<Pos>)
    requires
        forall|x: Pos| s.contains(x) <==> t.contains(x),
    ensures
        separates(s, part) == separates(t, part),
{
}

proof fn lemma_same_side(s: Seq<Pos>, parent: Seq<int>, part: Set<Pos>, k: int)
    requires
        0 <= k < s.len(),
        parent.len() == s.len(),
        forall|j: int|
            0 < j < s.len() ==> 0 <= #[trigger] parent[j] < j && adjacent(s[j], s[parent[j]]),
        forall|a: Pos, b: Pos|
            s.contains(a) && part.contains(a) && s.contains(b) && !part.contains(b) ==> !adjacent(
                a,
                b,
            ),
    ensures
        part.contains(s[k]) == part.contains(s[0]),
    decreases k,
{
    if k > 0 {
        let p = parent[k];
        lemma_same_side(s, parent, part, p);
        assert(s.contains(s[k]));
        assert(s.contains(s[p]));
        assert(adjacent(s[k], s[p]));
        assert(adjacent(s[p], s[k]));
    }
}

/// Cells that each touch an earlier one, down to the first, form one connected group.
proof fn lemma_chain_connected(s: Seq<Pos>, parent: Seq<int>)
    requires
        s.len() >= 1,
        parent.len() == s.len(),
        forall|j: int|
            0 < j < s.len() ==> 0 <= #[trigger] parent[j] < j && adjacent(s[j], s[parent[j]]),
    ensures
        connected(s),
{
    assert forall|part: Set<Pos>| !#[trigger] separates(s, part) by {
        if separates(s, part) {
            let a = choose|a: Pos| s.contains(a) && part.contains(a);
            let b = choose|b: Pos| s.contains(b) && !part.contains(b);
            let ia = choose|i: int| 0 <= i < s.len() && s[i] == a;
            let ib = choose|i: int| 0 <= i < s.len() && s[i] == b;
            lemma_same_side(s, parent, part, ia);
            lemma_same_side(s, parent, part, ib);
        }
    }
}

/// Checks that `pieces` form one polyomino: no cell twice, and all of them joined
/// side to side. The cells may be reordered on the way; the same cells remain.
pub fn verify_polyomino(pieces: &mut [Pos]) -> (r: Result<(), NonPolyomino>)
    requires
        forall|i: int| 0 <= i < old(pieces)@.len() ==> (#[trigger] old(pieces)@[i]).valid(),
    ensures
        final(pieces)@.len() == old(pieces)@.len(),
        forall|x: Pos| final(pieces)@.contains(x) <==> old(pieces)@.contains(x),
        r == Ok::<(), NonPolyomino>(()) <==> is_polyomino(old(pieces)@),
        r == Err::<(), NonPolyomino>(NonPolyomino::Duplicated) <==> !distinct(old(pieces)@),
        r == Err::<(), NonPolyomino>(NonPolyomino::Disconnected) <==> distinct(old(pieces)@)
            && !connected(old(pieces)@),
{
    let ghost orig = pieces@;
    let n = pieces.len();
    let mut i: usize = 0;
    while i < n
        invariant
            n == pieces@.len(),
            pieces@ == orig,
            i <= n,
            forall|a: int, b: int| 0 <= a < i && a < b < n ==> pieces@[a] != pieces@[b],
        decreases n - i,
    {
        let mut j: usize = i + 1;
        while j < n
            invariant
                n == pieces@.len(),
                pieces@ == orig,
                i < n,
                i + 1 <= j <= n,
                forall|a: int, b: int| 0 <= a < i && a < b < n ==> pieces@[a] != pieces@[b],
                forall|b: int| i < b < j ==> pieces@[i as int] != pieces@[b],
            decreases n - j,
        {
            if pieces[i] == pieces[j] {
                return Err(NonPolyomino::Duplicated);
            }
            j += 1;
        }
        i += 1;
    }
    assert(distinct(orig));
    if n <= 1 {
        assert forall|part: Set<Pos>| !#[trigger] separates(orig, part) by {
            if separates(orig, part) {
                let a = choose|a: Pos| orig.contains(a) && part.contains(a);
                let b = choose|b: Pos| orig.contains(b) && !part.contains(b);
                assert(a == orig[0]);
                assert(b == orig[0]);
            }
        }
        return Ok(());
    }
    let ghost mut parent: Seq<int> = Seq::new(n as nat, |k: int| 0);
    let mut l: usize = 0;
    let mut r: usize = 1;
    while l < r
        invariant
            n == pieces@.len(),
            n == orig.len(),
            orig == old(pieces)@,
            n >= 2,
            1 <= r < n,
            l <= r,
            parent.len() == n,
            forall|x: Pos| pieces@.contains(x) <==> orig.contains(x),
            forall|k: int| 0 <= k < n ==> (#[trigger] pieces@[k]).valid(),
            distinct(pieces@),
            distinct(orig),
            forall|k: int|
                0 < k < r ==> 0 <= #[trigger] parent[k] < k && adjacent(
                    pieces@[k],
                    pieces@[parent[k]],
                ),
            forall|a: int, b: int|
                0 <= a < l && r <= b < n ==> !adjacent(#[trigger] pieces@[a], #[trigger] pieces@[b]),
        decreases n - l,
    {
        let p = pieces[l];
        let nbs = [p.shift(-1, 0), p.shift(1, 0), p.shift(0, -1), p.shift(0, 1)];
        let mut i: usize = r;
        while i < n
            invariant
                n == pieces@.len(),
                n == orig.len(),
                orig == old(pieces)@,
                n >= 2,
                l < r,
                1 <= r < n,
                r <= i <= n,
                p == pieces@[l as int],
                p.valid(),
                nbs@ == seq![
                    p.shifted(-1, 0),
                    p.shifted(1, 0),
                    p.shifted(0, -1),
                    p.shifted(0, 1),
                ],
                parent.len() == n,
                forall|x: Pos| pieces@.contains(x) <==> orig.contains(x),
                forall|k: int| 0 <= k < n ==> (#[trigger] pieces@[k]).valid(),
                distinct(pieces@),
                distinct(orig),
                forall|k: int|
                    0 < k < r ==> 0 <= #[trigger] parent[k] < k && adjacent(
                        pieces@[k],
                        pieces@[parent[k]],
                    ),
                forall|a: int, b: int|
                    0 <= a < l && r <= b < n ==> !adjacent(#[trigger] pieces@[a], #[trigger] pieces@[b]),
                forall|b: int| r <= b < i ==> !adjacent(p, #[trigger] pieces@[b]),
            decreases n - i,
        {
            let np = pieces[i];
            proof {
                lemma_neighbours(p, np);
            }
            let touches = nbs[0] == Some(np) || nbs[1] == Some(np) || nbs[2] == Some(np) || nbs[3]
                == Some(np);
            if touches {
                let ghost before = pieces@;
                proof {
                    lemma_swap_keeps(before, r as int, i as int);
                }
                let moved = pieces[r];
                pieces[r] = np;
                pieces[i] = moved;
                assert(pieces@ =~= before.update(r as int, before[i as int]).update(
                    i as int,
                    before[r as int],
                ));
                assert(forall|x: Pos| pieces@.contains(x) <==> orig.contains(x));
                proof {
                    parent = parent.update(r as int, l as int);
                }
                r += 1;
                if r == n {
                    proof {
                        lemma_chain_connected(pieces@, parent);
                        assert forall|part: Set<Pos>| !#[trigger] separates(orig, part) by {
                            lemma_same_cells_separate(pieces@, orig, part);
                        }
                    }
                    return Ok(());
                }
            }
            i += 1;
        }
        l += 1;
    }
    proof {
        let s = pieces@;
        let part = Set::new(|x: Pos| exists|k: int| 0 <= k < r && s[k] == x);
        assert(s.contains(s[0]) && part.contains(s[0]));
        assert(s.contains(s[r as int]));
        assert(!part.contains(s[r as int]));
        assert forall|a: Pos, b: Pos|
            s.contains(a) && part.contains(a) && s.contains(b) && !part.contains(b) implies !adjacent(
            a,
            b,
        ) by {
            let ka = choose|k: int| 0 <= k < r && s[k] == a;
            let kb = choose|k: int| 0 <= k < s.len() && s[k] == b;
            assert(kb >= r);
            assert(!adjacent(s[ka], s[kb]));
        }
        assert(separates(s, part));
        lemma_same_cells_separate(s, orig, part);
    }
    Err(NonPolyomino::Disconnected)
}

} // verus!
