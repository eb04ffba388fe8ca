//! The store of placed blocks.
//!
//! A [`PlacedStore`] records which cells of the canvas have been painted and
//! with what color: a mapping from grid coordinate to [`Color`], at most one
//! color per coordinate, last write wins. Entries are kept sorted by
//! coordinate — ascending by x, then by y — so walking them yields the
//! deterministic order the text export needs. The store only grows: erasing
//! a cell stores the background color rather than removing the entry.

use vstd::prelude::*;
use crate::palette::Color;

verus! {

/// One placed block: a grid coordinate and the color painted there.
#[derive(Clone, Copy, PartialEq, Eq, Structural, Debug)]
pub struct Entry {
    pub x: u32,
    pub y: u32,
    pub color: Color,
}

/// Strict coordinate order: ascending by x, then by y.
pub open spec fn key_lt(a: (u32, u32), b: (u32, u32)) -> bool {
    a.0 < b.0 || (a.0 == b.0 && a.1 < b.1)
}

/// The entries are strictly sorted by coordinate, so every coordinate occurs
/// at most once.
pub open spec fn entries_sorted(es: Seq<Entry>) -> bool {
    forall|i: int, j: int|
        0 <= i < j < es.len() ==> key_lt(
            ((#[trigger] es[i]).x, es[i].y),
            ((#[trigger] es[j]).x, es[j].y),
        )
}

/// The mapping a sequence of entries stands for; later entries win.
pub open spec fn seq_to_map(es: Seq<Entry>) -> Map<(u32, u32), Color>
    decreases es.len(),
{
    if es.len() == 0 {
        Map::empty()
    } else {
        seq_to_map(es.drop_last()).insert((es.last().x, es.last().y), es.last().color)
    }
}

/// A coordinate is in the mapping exactly when some entry carries it.
pub proof fn lemma_seq_to_map_contains(es: Seq<Entry>, k: (u32, u32))
    ensures
        seq_to_map(es).contains_key(k) <==> exists|i: int|
            0 <= i < es.len() && ((#[trigger] es[i]).x, es[i].y) == k,
    decreases es.len(),
{
    if es.len() > 0 {
        lemma_seq_to_map_contains(es.drop_last(), k);
        if (es.last().x, es.last().y) == k {
            assert(((es[es.len() - 1]).x, es[es.len() - 1].y) == k);
        } else {
            if seq_to_map(es).contains_key(k) {
                let i = choose|i: int|
                    0 <= i < es.drop_last().len() && ((#[trigger] es.drop_last()[i]).x,
                    es.drop_last()[i].y) == k;
                assert(((es[i]).x, es[i].y) == k);
            }
            if exists|i: int| 0 <= i < es.len() && ((#[trigger] es[i]).x, es[i].y) == k {
                let i = choose|i: int| 0 <= i < es.len() && ((#[trigger] es[i]).x, es[i].y) == k;
                assert(i < es.len() - 1);
                assert(((es.drop_last()[i]).x, es.drop_last()[i].y) == k);
            }
        }
    }
}

/// If an entry's coordinate occurs nowhere else, the mapping sends that
/// coordinate to the entry's color.
pub proof fn lemma_seq_to_map_value(es: Seq<Entry>, i: int)
    requires
        0 <= i < es.len(),
        forall|j: int|
            0 <= j < es.len() && j != i ==> (((#[trigger] es[j]).x, es[j].y) != (es[i].x, es[i].y)),
    ensures
        seq_to_map(es).contains_key((es[i].x, es[i].y)),
        seq_to_map(es)[(es[i].x, es[i].y)] == es[i].color,
    decreases es.len(),
{
    if i == es.len() - 1 {
    } else {
        assert(es.drop_last()[i] == es[i]);
        lemma_seq_to_map_value(es.drop_last(), i);
        assert((es.last().x, es.last().y) != (es[i].x, es[i].y));
    }
}

/// Replacing the entry at `i` by one with the same coordinate updates the
/// mapping at that coordinate alone.
pub proof fn lemma_seq_to_map_update(es: Seq<Entry>, i: int, e: Entry)
    requires
        0 <= i < es.len(),
        (e.x, e.y) == (es[i].x, es[i].y),
        forall|j: int|
            0 <= j < es.len() && j != i ==> (((#[trigger] es[j]).x, es[j].y) != (es[i].x, es[i].y)),
    ensures
        seq_to_map(es.update(i, e)) == seq_to_map(es).insert((e.x, e.y), e.color),
    decreases es.len(),
{
    let k = (e.x, e.y);
    let es2 = es.update(i, e);
    if i == es.len() - 1 {
        assert(es2.drop_last() =~= es.drop_last());
        assert(es2.last() == e);
        assert(seq_to_map(es2) == seq_to_map(es.drop_last()).insert(k, e.color));
        assert(seq_to_map(es.drop_last()).insert(k, es[i].color).insert(k, e.color) =~= seq_to_map(
            es.drop_last(),
        ).insert(k, e.color));
    } else {
        assert(es2.drop_last() =~= es.drop_last().update(i, e));
        assert(es2.last() == es.last());
        assert(forall|j: int|
            0 <= j < es.drop_last().len() && j != i ==> (((#[trigger] es.drop_last()[j]).x,
            es.drop_last()[j].y) != (es.drop_last()[i].x, es.drop_last()[i].y)));
        lemma_seq_to_map_update(es.drop_last(), i, e);
        let lastk = (es.last().x, es.last().y);
        assert(lastk != k);
        assert(seq_to_map(es.drop_last()).insert(k, e.color).insert(
            lastk,
            es.last().color,
        ) =~= seq_to_map(es.drop_last()).insert(lastk, es.last().color).insert(k, e.color));
    }
}

/// Inserting an entry whose coordinate is absent adds exactly that
/// coordinate to the mapping.
pub proof fn lemma_seq_to_map_insert(es: Seq<Entry>, i: int, e: Entry)
    requires
        0 <= i <= es.len(),
        forall|j: int| 0 <= j < es.len() ==> (((#[trigger] es[j]).x, es[j].y) != (e.x, e.y)),
    ensures
        seq_to_map(es.insert(i, e)) == seq_to_map(es).insert((e.x, e.y), e.color),
    decreases es.len(),
{
    let k = (e.x, e.y);
    let es2 = es.insert(i, e);
    if i == es.len() {
        assert(es2.drop_last() =~= es);
        assert(es2.last() == e);
    } else {
        assert(es2.last() == es.last());
        assert(es2.drop_last() =~= es.drop_last().insert(i, e));
        assert(forall|j: int|
            0 <= j < es.drop_last().len() ==> (((#[trigger] es.drop_last()[j]).x,
            es.drop_last()[j].y) != (e.x, e.y)));
        lemma_seq_to_map_insert(es.drop_last(), i, e);
        let lastk = (es.last().x, es.last().y);
        assert(lastk != k);
        assert(seq_to_map(es.drop_last()).insert(k, e.color).insert(
            lastk,
            es.last().color,
        ) =~= seq_to_map(es.drop_last()).insert(lastk, es.last().color).insert(k, e.color));
    }
}

/// In a sorted entry sequence no coordinate repeats.
pub proof fn lemma_sorted_unique(es: Seq<Entry>, i: int, j: int)
    requires
        entries_sorted(es),
        0 <= i < es.len(),
        0 <= j < es.len(),
        i != j,
    ensures
        (es[i].x, es[i].y) != (es[j].x, es[j].y),
{
    if i < j {
        assert(key_lt((es[i].x, es[i].y), (es[j].x, es[j].y)));
    } else {
        assert(key_lt((es[j].x, es[j].y), (es[i].x, es[i].y)));
    }
}

/// Everything painted so far: a coordinate-sorted record of placed blocks,
/// viewed abstractly as a map from coordinate to color.
pub struct PlacedStore {
    /// The placed blocks, strictly sorted by [`key_lt`]. Read freely; mutate
    /// only through the store's methods, which keep the order.
    pub entries: Vec<Entry>,
}

impl View for PlacedStore {
    type V = Map<(u32, u32), Color>;

    open spec fn view(&self) -> Map<(u32, u32), Color> {
        seq_to_map(self.entries@)
    }
}

impl PlacedStore {
    /// The store's invariant: entries strictly sorted by coordinate.
    pub open spec fn wf(self) -> bool {
        entries_sorted(self.entries@)
    }

    /// An empty store: nothing painted.
    pub fn new() -> (s: Self)
        ensures
            s.wf(),
            s@ == Map::<(u32, u32), Color>::empty(),
            s.entries@.len() == 0,
    {
        PlacedStore { entries: Vec::new() }
    }

    /// How many cells have been painted.
    pub fn len(&self) -> (n: usize)
        ensures
            n == self.entries@.len(),
    {
        self.entries.len()
    }

    /// The `i`-th placed block in coordinate order.
    pub fn entry_at(&self, i: usize) -> (e: Entry)
        requires
            i < self.entries@.len(),
        ensures
            e == self.entries@[i as int],
    {
        self.entries[i]
    }

    /// All placed blocks, in coordinate order.
    pub fn all(&self) -> (r: Vec<Entry>)
        ensures
            r@ == self.entries@,
    {
        let mut r: Vec<Entry> = Vec::new();
        let mut i: usize = 0;
        while i < self.entries.len()
            invariant
                i <= self.entries@.len(),
                r@ == self.entries@.take(i as int),
            decreases self.entries@.len() - i,
        {
            r.push(self.entries[i]);
            i += 1;
            proof {
                assert(r@ =~= self.entries@.take(i as int));
            }
        }
        proof {
            assert(r@ =~= self.entries@);
        }
        r
    }

    /// The color painted at a coordinate, if any.
    pub fn get(&self, x: u32, y: u32) -> (r: Option<Color>)
        requires
            self.wf(),
        ensures
            r == if self@.contains_key((x, y)) {
                Some(self@[(x, y)])
            } else {
                None::<Color>
            },
    {
        let ghost es = self.entries@;
        let mut i: usize = 0;
        while i < self.entries.len()
            invariant
                self.wf(),
                i <= es.len(),
                es == self.entries@,
                forall|j: int| 0 <= j < i ==> (((#[trigger] es[j]).x, es[j].y) != (x, y)),
            decreases es.len() - i,
        {
            let e = self.entries[i];
            if e.x == x && e.y == y {
                proof {
                    assert forall|j: int| 0 <= j < es.len() && j != i implies (((#[trigger] es[j]).x,
                    es[j].y) != (es[i as int].x, es[i as int].y)) by {
                        lemma_sorted_unique(es, i as int, j);
                    }
                    lemma_seq_to_map_value(es, i as int);
                }
                return Some(e.color);
            }
            i += 1;
        }
        proof {
            lemma_seq_to_map_contains(es, (x, y));
        }
        None
    }

    /// The color a cell shows on the canvas: its placed color, or the
    /// background when nothing was placed there — what the display repaints
    /// on the cell the cursor vacates.
    pub fn shown_color(&self, x: u32, y: u32) -> (c: Color)
        requires
            self.wf(),
        ensures
            c == if self@.contains_key((x, y)) {
                self@[(x, y)]
            } else {
                crate::palette::BACKGROUND
            },
    {
        match self.get(x, y) {
            Some(c) => c,
            None => crate::palette::BACKGROUND,
        }
    }

    /// Paint a cell: record `color` at `(x, y)`, replacing whatever was
    /// there. Last write wins; the sorted order is kept.
    pub fn insert(&mut self, x: u32, y: u32, color: Color)
        requires
            old(self).wf(),
        ensures
            final(self).wf(),
            final(self)@ == old(self)@.insert((x, y), color),
    {
        let ghost es = self.entries@;
        let mut i: usize = 0;
        while i < self.entries.len() && (self.entries[i].x < x || (self.entries[i].x == x
            && self.entries[i].y < y))
            invariant
                entries_sorted(es),
                i <= es.len(),
                es == self.entries@,
                forall|j: int| 0 <= j < i ==> key_lt(((#[trigger] es[j]).x, es[j].y), (x, y)),
            decreases es.len() - i,
        {
            i += 1;
        }
        let e = Entry { x, y, color };
        if i < self.entries.len() && self.entries[i].x == x && self.entries[i].y == y {
            // Same coordinate painted before: replace its color in place.
            self.entries.remove(i);
            self.entries.insert(i, e);
            proof {
                assert(self.entries@ =~= es.update(i as int, e));
                assert forall|j: int| 0 <= j < es.len() && j != i implies (((#[trigger] es[j]).x,
                es[j].y) != (es[i as int].x, es[i as int].y)) by {
                    lemma_sorted_unique(es, i as int, j);
                }
                lemma_seq_to_map_update(es, i as int, e);
                assert forall|p: int, q: int| 0 <= p < q < self.entries@.len() implies key_lt(
                    ((#[trigger] self.entries@[p]).x, self.entries@[p].y),
                    ((#[trigger] self.entries@[q]).x, self.entries@[q].y),
                ) by {
                    assert((self.entries@[p].x, self.entries@[p].y) == (es[p].x, es[p].y));
                    assert((self.entries@[q].x, self.entries@[q].y) == (es[q].x, es[q].y));
                }
            }
        } else {
            // Fresh coordinate: the scan stopped at its sorted position.
            proof {
                assert(i < es.len() ==> !key_lt(((es[i as int]).x, es[i as int].y), (x, y)));
                assert forall|j: int| 0 <= j < es.len() implies (((#[trigger] es[j]).x, es[j].y)
                    != (x, y)) by {
                    if j >= i {
                        if j > i {
                            assert(key_lt(
                                ((es[i as int]).x, es[i as int].y),
                                ((es[j]).x, es[j].y),
                            ));
                        }
                    }
                }
            }
            self.entries.insert(i, e);
            proof {
                lemma_seq_to_map_insert(es, i as int, e);
                assert forall|p: int, q: int| 0 <= p < q < self.entries@.len() implies key_lt(
                    ((#[trigger] self.entries@[p]).x, self.entries@[p].y),
                    ((#[trigger] self.entries@[q]).x, self.entries@[q].y),
                ) by {
                    let n = i as int;
                    if p < n && q == n {
                    } else if p == n && q > n {
                        assert(self.entries@[q] == es[q - 1]);
                        if q - 1 > n {
                            assert(key_lt(((es[n]).x, es[n].y), ((es[q - 1]).x, es[q - 1].y)));
                        }
                    } else if p < n && q > n {
                        assert(self.entries@[p] == es[p]);
                        assert(self.entries@[q] == es[q - 1]);
                    } else if p > n && q > n {
                        assert(self.entries@[p] == es[p - 1]);
                        assert(self.entries@[q] == es[q - 1]);
                    }
                }
            }
        }
    }
}

} // verus!
