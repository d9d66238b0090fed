//! The index lists of the meshes that the game draws: which corners make
//! up each triangle. The corners themselves are the caller's.

use vstd::prelude::*;

verus! {

/// Index `j` of a triangle fan: triangle `t` joins corner 0 with the corners
/// `t + 1` and `t + 2`.
pub open spec fn fan_index(j: int) -> int {
    if j % 3 == 0 {
        0
    } else {
        j / 3 + j % 3
    }
}

/// Index `j` of the mesh of a wheel's rim. Each step around the rim has three
/// corners, and each stretch between two steps has three triangles, whose
/// corners are counted from the first corner of the step it starts at.
pub open spec fn wheel_index(j: int) -> int {
    3 * (j / 9) + seq![0int, 1, 2, 1, 2, 3, 1, 3, 4][j % 9]
}

/// Index `j` of the mesh of a limb with `n` steps around each of its two round
/// ends. Corners 0 and 1 are the centres of the ends; the rim of the first end
/// follows from corner 2, that of the second from corner `n + 3`. The mesh is a
/// fan around each centre and four triangles between the ends.
pub open spec fn limb_index(n: int, j: int) -> int {
    if j < 3 * n {
        if j % 3 == 0 {
            0
        } else {
            j / 3 + j % 3 + 1
        }
    } else if j < 6 * n {
        if j % 3 == 0 {
            1
        } else {
            n + (j - 3 * n) / 3 + j % 3 + 2
        }
    } else {
        seq![0int, 1, 2, 1, 2, 2 * n + 3, 1, 0, n + 3, 0, n + 3, n + 2][j - 6 * n]
    }
}

/// The triangles of a fan over `points` corners.
pub fn fan_indices(points: usize) -> (indices: Vec<u16>)
    requires
        2 <= points <= 0x1_0000,
    ensures
        indices@ == Seq::new((3 * (points - 2)) as nat, |j: int| fan_index(j) as u16),
{
    let mut indices: Vec<u16> = Vec::new();
    let mut i: usize = 0;
    while i + 2 < points
        invariant
            i + 2 <= points <= 0x1_0000,
            indices@ == Seq::new((3 * i) as nat, |j: int| fan_index(j) as u16),
        decreases points - i,
    {
        let t = i as u16;
        indices.push(0);
        indices.push(t + 1);
        indices.push(t + 2);
        i += 1;
        assert(indices@ =~= Seq::new((3 * i) as nat, |j: int| fan_index(j) as u16));
    }
    indices
}

/// The triangles of a wheel's rim with `segments` stretches.
pub fn wheel_indices(segments: u16) -> (indices: Vec<u16>)
    requires
        3 * segments + 1 <= u16::MAX,
    ensures
        indices@ == Seq::new((9 * segments) as nat, |j: int| wheel_index(j) as u16),
{
    let mut indices: Vec<u16> = Vec::new();
    let mut i: u16 = 0;
    while i < segments
        invariant
            i <= segments,
            3 * segments + 1 <= u16::MAX,
            indices@ == Seq::new((9 * i) as nat, |j: int| wheel_index(j) as u16),
        decreases segments - i,
    {
        let b = 3 * i;
        indices.push(b);
        indices.push(b + 1);
        indices.push(b + 2);
        indices.push(b + 1);
        indices.push(b + 2);
        indices.push(b + 3);
        indices.push(b + 1);
        indices.push(b + 3);
        indices.push(b + 4);
        i += 1;
        assert(indices@ =~= Seq::new((9 * i) as nat, |j: int| wheel_index(j) as u16));
    }
    indices
}

/// The triangles of a limb with `segments` steps around each end.
pub fn limb_indices(segments: u16) -> (indices: Vec<u16>)
    requires
        2 * segments + 3 <= u16::MAX,
    ensures
        indices@ == Seq::new(
            (6 * segments + 12) as nat,
            |j: int| limb_index(segments as int, j) as u16,
        ),
{
    let n = segments;
    let mut indices: Vec<u16> = Vec::new();
    let mut i: u16 = 0;
    while i < n
        invariant
            i <= n,
            2 * n + 3 <= u16::MAX,
            indices@ == Seq::new((3 * i) as nat, |j: int| limb_index(n as int, j) as u16),
        decreases n - i,
    {
        indices.push(0);
        indices.push(i + 2);
        indices.push(i + 3);
        i += 1;
        assert(indices@ =~= Seq::new((3 * i) as nat, |j: int| limb_index(n as int, j) as u16));
    }
    let mut i: u16 = 0;
    while i < n
        invariant
            i <= n,
            2 * n + 3 <= u16::MAX,
            indices@ == Seq::new((3 * n + 3 * i) as nat, |j: int| limb_index(n as int, j) as u16),
        decreases n - i,
    {
        indices.push(1);
        indices.push(n + i + 3);
        indices.push(n + i + 4);
        i += 1;
        assert(indices@ =~= Seq::new(
            (3 * n + 3 * i) as nat,
            |j: int| limb_index(n as int, j) as u16,
        ));
    }
    indices.push(0);
    indices.push(1);
    indices.push(2);
    indices.push(1);
    indices.push(2);
    indices.push(n + n + 3);
    indices.push(1);
    indices.push(0);
    indices.push(n + 3);
    indices.push(0);
    indices.push(n + 3);
    indices.push(n + 2);
    assert(indices@ =~= Seq::new(
        (6 * n + 12) as nat,
        |j: int| limb_index(n as int, j) as u16,
    ));
    indices
}

/// Adds the triangles of one shape to a mesh that holds several.
///
/// `indices` count the corners of the shape from 0; in the mesh its corners
/// follow the `base` corners that are already there.
pub fn append_indices(mesh: &mut Vec<u16>, indices: &Vec<u16>, base: usize)
    requires
        forall|j: int| 0 <= j < indices.len() ==> indices[j] + base <= u16::MAX,
    ensures
        final(mesh)@ == old(mesh)@ + Seq::new(indices@.len(), |j: int| (indices[j] + base) as u16),
{
    let mut j: usize = 0;
    while j < indices.len()
        invariant
            j <= indices.len(),
            forall|k: int| 0 <= k < indices.len() ==> indices[k] + base <= u16::MAX,
            mesh@ == old(mesh)@ + Seq::new(j as nat, |k: int| (indices[k] + base) as u16),
        decreases indices.len() - j,
    {
        let shifted = indices[j] as usize + base;
        mesh.push(shifted as u16);
        j += 1;
        assert(mesh@ =~= old(mesh)@ + Seq::new(j as nat, |k: int| (indices[k] + base) as u16));
    }
}

/// The corners of a polygon with `points` corners, in their order.
pub open spec fn corners(points: nat) -> Seq<usize> {
    Seq::new(points, |k: int| k as usize)
}

/// The orientation test may be asked about any three of the corners.
pub open spec fn accepts<F: Fn(usize, usize, usize) -> bool>(orientation: &F, points: nat) -> bool {
    forall|a: usize, b: usize, c: usize|
        a < points && b < points && c < points ==> call_requires(*orientation, (a, b, c))
}

/// The orientation test may give this answer for the turn from the corner `a`
/// over `b` to `c`.
pub open spec fn turns<F: Fn(usize, usize, usize) -> bool>(
    orientation: &F,
    a: usize,
    b: usize,
    c: usize,
    answer: bool,
) -> bool {
    call_ensures(*orientation, (a, b, c), answer)
}

/// What the test of the corner `p` against the triangle `a`, `b`, `c` may
/// answer: the corner lies inside if the test turns the right way along all
/// three sides, and outside if it does not along one of them.
pub open spec fn inside_answer<F: Fn(usize, usize, usize) -> bool>(
    orientation: &F,
    p: usize,
    a: usize,
    b: usize,
    c: usize,
    answer: bool,
) -> bool {
    if answer {
        turns(orientation, p, a, b, true) && turns(orientation, p, b, c, true) && turns(
            orientation,
            p,
            c,
            a,
            true,
        )
    } else {
        turns(orientation, p, a, b, false) || turns(orientation, p, b, c, false) || turns(
            orientation,
            p,
            c,
            a,
            false,
        )
    }
}

/// The corner before position `i` of the polygon that is left, going around.
pub open spec fn prev_of(ring: Seq<usize>, i: int) -> usize {
    ring[if i == 0 {
        ring.len() - 1
    } else {
        i - 1
    }]
}

/// The corner after position `i` of the polygon that is left, going around.
pub open spec fn next_of(ring: Seq<usize>, i: int) -> usize {
    ring[if i == ring.len() - 1 {
        0
    } else {
        i + 1
    }]
}

/// The corner at position `k` is one of the three corners of the triangle at
/// position `i`.
pub open spec fn on_triangle(ring: Seq<usize>, i: int, k: int) -> bool {
    ring[k] == prev_of(ring, i) || ring[k] == ring[i] || ring[k] == next_of(ring, i)
}

/// What the ear test may answer at position `i` of the polygon that is left.
/// The corner is an ear if the polygon turns the right way there and no other
/// corner lies inside the triangle that the corner makes with its neighbours.
pub open spec fn ear_answer<F: Fn(usize, usize, usize) -> bool>(
    orientation: &F,
    ring: Seq<usize>,
    i: int,
    answer: bool,
) -> bool {
    if answer {
        &&& turns(orientation, prev_of(ring, i), ring[i], next_of(ring, i), true)
        &&& forall|k: int|
            0 <= k < ring.len() && !on_triangle(ring, i, k) ==> inside_answer(
                orientation,
                #[trigger] ring[k],
                prev_of(ring, i),
                ring[i],
                next_of(ring, i),
                false,
            )
    } else {
        ||| turns(orientation, prev_of(ring, i), ring[i], next_of(ring, i), false)
        ||| exists|k: int|
            0 <= k < ring.len() && !on_triangle(ring, i, k) && inside_answer(
                orientation,
                #[trigger] ring[k],
                prev_of(ring, i),
                ring[i],
                next_of(ring, i),
                true,
            )
    }
}

/// One cut: position `i` is the first ear of the polygon `before`, the
/// triangle is that corner between its neighbours, and `after` is the polygon
/// without that corner.
pub open spec fn clip_step<F: Fn(usize, usize, usize) -> bool>(
    orientation: &F,
    before: Seq<usize>,
    i: int,
    triangle: Seq<u16>,
    after: Seq<usize>,
) -> bool {
    &&& before.len() > 2
    &&& 0 <= i < before.len()
    &&& ear_answer(orientation, before, i, true)
    &&& forall|k: int| 0 <= k < i ==> #[trigger] ear_answer(orientation, before, k, false)
    &&& triangle == seq![prev_of(before, i) as u16, before[i] as u16, next_of(before, i) as u16]
    &&& after == before.remove(i)
}

/// The triangles `triangles` are what cutting the first ear off, time and
/// again, makes of the polygon `start`, and `rest` is what is then left of it.
pub open spec fn clips<F: Fn(usize, usize, usize) -> bool>(
    orientation: &F,
    start: Seq<usize>,
    triangles: Seq<u16>,
    rest: Seq<usize>,
) -> bool
    decreases triangles.len(),
{
    if triangles.len() < 3 {
        triangles.len() == 0 && rest == start
    } else {
        exists|before: Seq<usize>, i: int|
            #![trigger clip_step(orientation, before, i, triangles.skip(triangles.len() - 3), rest)]
            clips(orientation, start, triangles.take(triangles.len() - 3), before) && clip_step(
                orientation,
                before,
                i,
                triangles.skip(triangles.len() - 3),
                rest,
            )
    }
}

/// No corner of the polygon is an ear.
pub open spec fn no_ear<F: Fn(usize, usize, usize) -> bool>(orientation: &F, ring: Seq<usize>) -> bool {
    forall|i: int| 0 <= i < ring.len() ==> #[trigger] ear_answer(orientation, ring, i, false)
}

/// Every corner in the list is a corner of the polygon.
pub open spec fn corners_fit(ring: Seq<usize>, points: nat) -> bool {
    forall|k: int| 0 <= k < ring.len() ==> #[trigger] ring[k] < points
}

/// Whether the corner `p` lies inside the triangle `a`, `b`, `c`.
fn is_inside_triangle<F: Fn(usize, usize, usize) -> bool>(
    orientation: &F,
    p: usize,
    a: usize,
    b: usize,
    c: usize,
) -> (inside: bool)
    requires
        call_requires(*orientation, (p, a, b)),
        call_requires(*orientation, (p, b, c)),
        call_requires(*orientation, (p, c, a)),
    ensures
        inside_answer(orientation, p, a, b, c, inside),
{
    orientation(p, a, b) && orientation(p, b, c) && orientation(p, c, a)
}

/// Whether the corner at position `i` of the polygon that is left is an ear.
fn is_ear<F: Fn(usize, usize, usize) -> bool>(orientation: &F, ring: &Vec<usize>, i: usize) -> (ear:
    bool)
    requires
        i < ring.len(),
        exists|points: nat| accepts(orientation, points) && corners_fit(ring@, points),
    ensures
        ear_answer(orientation, ring@, i as int, ear),
{
    let n = ring.len();
    let ear_i = ring[i];
    let prev_i = ring[if i == 0 {
        n - 1
    } else {
        i - 1
    }];
    let next_i = ring[if i == n - 1 {
        0
    } else {
        i + 1
    }];
    let ghost points = choose|points: nat|
        accepts(orientation, points) && corners_fit(ring@, points);

    if !orientation(prev_i, ear_i, next_i) {
        return false;
    }
    let mut k: usize = 0;
    while k < n
        invariant
            k <= n,
            n == ring.len(),
            i < n,
            ear_i == ring[i as int],
            prev_i == prev_of(ring@, i as int),
            next_i == next_of(ring@, i as int),
            accepts(orientation, points),
            corners_fit(ring@, points),
            forall|m: int|
                0 <= m < k && !on_triangle(ring@, i as int, m) ==> inside_answer(
                    orientation,
                    #[trigger] ring[m],
                    prev_i,
                    ear_i,
                    next_i,
                    false,
                ),
        decreases n - k,
    {
        let j = ring[k];
        if !(j == prev_i || j == ear_i || j == next_i) {
            if is_inside_triangle(orientation, j, prev_i, ear_i, next_i) {
                assert(!on_triangle(ring@, i as int, k as int));
                return false;
            }
        }
        k += 1;
    }
    true
}

/// Cuts a polygon into triangles by cutting ears off.
///
/// The polygon has the corners `0` to `points - 1`, in their order around it.
/// `orientation(a, b, c)` tells whether the way from corner `a` over `b` to
/// `c` turns the way the polygon is wound, or goes straight. The first corner
/// that is an ear is cut off, and its triangle is written as three indices,
/// the corner between its two neighbours; this goes on until two corners are
/// left, or until no corner that is left is an ear.
pub fn triangulate_polygon<F: Fn(usize, usize, usize) -> bool>(points: usize, orientation: F) -> (indices:
    Vec<u16>)
    requires
        points <= 0x1_0000,
        accepts(&orientation, points as nat),
    ensures
        indices.len() % 3 == 0,
        indices.len() <= 3 * points,
        points >= 3 ==> indices.len() <= 3 * (points - 2),
        forall|j: int| 0 <= j < indices.len() ==> indices[j] < points,
        exists|rest: Seq<usize>|
            #![trigger clips(&orientation, corners(points as nat), indices@, rest)]
            {
                &&& clips(&orientation, corners(points as nat), indices@, rest)
                &&& clipped_out(&orientation, rest)
                &&& 3 * rest.len() + indices.len() == 3 * points
            },
{
    let mut indices: Vec<u16> = Vec::new();
    let mut ring: Vec<usize> = Vec::new();
    let mut k: usize = 0;
    while k < points
        invariant
            k <= points,
            ring@ == corners(k as nat),
        decreases points - k,
    {
        ring.push(k);
        k += 1;
        assert(ring@ =~= corners(k as nat));
    }
    if points < 3 {
        assert(clips(&orientation, corners(points as nat), indices@, ring@));
        return indices;
    }
    let mut stuck = false;
    while ring.len() > 2 && !stuck
        invariant
            points <= 0x1_0000,
            accepts(&orientation, points as nat),
            corners_fit(ring@, points as nat),
            clips(&orientation, corners(points as nat), indices@, ring@),
            3 * ring.len() + indices.len() == 3 * points,
            ring.len() >= 2,
            forall|j: int| 0 <= j < indices.len() ==> indices[j] < points,
            stuck ==> no_ear(&orientation, ring@),
        decreases
            2 * ring.len() + if stuck {
                0int
            } else {
                1int
            },
    {
        let n = ring.len();
        let mut i: usize = 0;
        let mut found = false;
        while i < n && !found
            invariant
                i <= n,
                n == ring.len(),
                accepts(&orientation, points as nat),
            corners_fit(ring@, points as nat),
                found ==> i < n && ear_answer(&orientation, ring@, i as int, true),
                forall|m: int| 0 <= m < i ==> #[trigger] ear_answer(&orientation, ring@, m, false),
            decreases
                n - i + if found {
                    0int
                } else {
                    1int
                },
        {
            if is_ear(&orientation, &ring, i) {
                found = true;
            } else {
                i += 1;
            }
        }
        if found {
            let ear_i = ring[i];
            let prev_i = ring[if i == 0 {
                n - 1
            } else {
                i - 1
            }];
            let next_i = ring[if i == n - 1 {
                0
            } else {
                i + 1
            }];
            let ghost before = ring@;
            let ghost triangles = indices@;
            ring.remove(i);
            indices.push(prev_i as u16);
            indices.push(ear_i as u16);
            indices.push(next_i as u16);
            proof {
                let tri = seq![prev_i as u16, ear_i as u16, next_i as u16];
                assert(indices@.take(indices@.len() - 3) =~= triangles);
                assert(indices@.skip(indices@.len() - 3) =~= tri);
                assert(clip_step(&orientation, before, i as int, tri, ring@));
            }
        } else {
            stuck = true;
        }
    }
    indices
}

/// The orientation test has one answer for any three corners.
pub open spec fn single_valued<F: Fn(usize, usize, usize) -> bool>(orientation: &F, points: nat) -> bool {
    forall|a: usize, b: usize, c: usize|
        a < points && b < points && c < points ==> !(#[trigger] turns(orientation, a, b, c, true)
            && turns(orientation, a, b, c, false))
}

/// Where the orientation test has one answer, so has the ear test.
pub proof fn lemma_ear_answer_single<F: Fn(usize, usize, usize) -> bool>(
    orientation: &F,
    points: nat,
    ring: Seq<usize>,
    i: int,
)
    requires
        single_valued(orientation, points),
        corners_fit(ring, points),
        0 <= i < ring.len(),
    ensures
        !(ear_answer(orientation, ring, i, true) && ear_answer(orientation, ring, i, false)),
{
    let prev = prev_of(ring, i);
    let cur = ring[i];
    let next = next_of(ring, i);
    assert(prev < points && cur < points && next < points);
    if ear_answer(orientation, ring, i, true) && ear_answer(orientation, ring, i, false) {
        assert(turns(orientation, prev, cur, next, true));
        assert(!turns(orientation, prev, cur, next, false));
        let k = choose|k: int|
            0 <= k < ring.len() && !on_triangle(ring, i, k) && inside_answer(
                orientation,
                #[trigger] ring[k],
                prev,
                cur,
                next,
                true,
            );
        let p = ring[k];
        assert(inside_answer(orientation, p, prev, cur, next, false));
        assert(turns(orientation, p, prev, cur, true));
        assert(turns(orientation, p, cur, next, true));
        assert(turns(orientation, p, next, prev, true));
        assert(false);
    }
}

/// Cutting ears writes three indices for each corner it takes, and leaves
/// corners of the polygon only.
pub proof fn lemma_clips_counts<F: Fn(usize, usize, usize) -> bool>(
    orientation: &F,
    points: nat,
    start: Seq<usize>,
    triangles: Seq<u16>,
    rest: Seq<usize>,
)
    requires
        corners_fit(start, points),
        clips(orientation, start, triangles, rest),
    ensures
        corners_fit(rest, points),
        triangles.len() + 3 * rest.len() == 3 * start.len(),
    decreases triangles.len(),
{
    if triangles.len() >= 3 {
        let (before, i) = choose|before: Seq<usize>, i: int|
            #![trigger clip_step(orientation, before, i, triangles.skip(triangles.len() - 3), rest)]
            clips(orientation, start, triangles.take(triangles.len() - 3), before) && clip_step(
                orientation,
                before,
                i,
                triangles.skip(triangles.len() - 3),
                rest,
            );
        lemma_clips_counts(orientation, points, start, triangles.take(triangles.len() - 3), before);
        assert forall|k: int| 0 <= k < rest.len() implies #[trigger] rest[k] < points by {
            if k < i {
                assert(rest[k] == before[k]);
            } else {
                assert(rest[k] == before[k + 1]);
            }
        }
    }
}

/// Where the orientation test has one answer, cutting a given number of ears
/// off a polygon has one outcome.
pub proof fn lemma_clips_determined<F: Fn(usize, usize, usize) -> bool>(
    orientation: &F,
    points: nat,
    start: Seq<usize>,
    triangles1: Seq<u16>,
    rest1: Seq<usize>,
    triangles2: Seq<u16>,
    rest2: Seq<usize>,
)
    requires
        single_valued(orientation, points),
        corners_fit(start, points),
        clips(orientation, start, triangles1, rest1),
        clips(orientation, start, triangles2, rest2),
        triangles1.len() == triangles2.len(),
    ensures
        triangles1 == triangles2,
        rest1 == rest2,
    decreases triangles1.len(),
{
    if triangles1.len() < 3 {
        assert(triangles1 =~= triangles2);
    } else {
        let n = triangles1.len() as int;
        let (before1, i1) = choose|before: Seq<usize>, i: int|
            #![trigger clip_step(orientation, before, i, triangles1.skip(n - 3), rest1)]
            clips(orientation, start, triangles1.take(n - 3), before) && clip_step(
                orientation,
                before,
                i,
                triangles1.skip(n - 3),
                rest1,
            );
        let (before2, i2) = choose|before: Seq<usize>, i: int|
            #![trigger clip_step(orientation, before, i, triangles2.skip(n - 3), rest2)]
            clips(orientation, start, triangles2.take(n - 3), before) && clip_step(
                orientation,
                before,
                i,
                triangles2.skip(n - 3),
                rest2,
            );
        lemma_clips_determined(
            orientation,
            points,
            start,
            triangles1.take(n - 3),
            before1,
            triangles2.take(n - 3),
            before2,
        );
        lemma_clips_counts(orientation, points, start, triangles1.take(n - 3), before1);
        lemma_ear_answer_single(orientation, points, before1, i1);
        lemma_ear_answer_single(orientation, points, before1, i2);
        assert(i1 == i2);
        assert(triangles1.skip(n - 3) == triangles2.skip(n - 3));
        assert(triangles1 =~= triangles1.take(n - 3) + triangles1.skip(n - 3));
        assert(triangles2 =~= triangles2.take(n - 3) + triangles2.skip(n - 3));
    }
}

/// What was cut first is itself an outcome of cutting ears: the first
/// `3 * cuts` indices are the triangles of the first `cuts` cuts.
pub proof fn lemma_clips_prefix<F: Fn(usize, usize, usize) -> bool>(
    orientation: &F,
    start: Seq<usize>,
    triangles: Seq<u16>,
    rest: Seq<usize>,
    cuts: int,
) -> (left: Seq<usize>)
    requires
        clips(orientation, start, triangles, rest),
        0 <= 3 * cuts <= triangles.len(),
    ensures
        clips(orientation, start, triangles.take(3 * cuts), left),
        3 * cuts == triangles.len() ==> left == rest,
    decreases triangles.len(),
{
    if 3 * cuts == triangles.len() {
        assert(triangles.take(3 * cuts) =~= triangles);
        rest
    } else if triangles.len() < 3 {
        assert(triangles.len() == 0);
        rest
    } else {
        let n = triangles.len() as int;
        let (before, i) = choose|before: Seq<usize>, i: int|
            #![trigger clip_step(orientation, before, i, triangles.skip(n - 3), rest)]
            clips(orientation, start, triangles.take(n - 3), before) && clip_step(
                orientation,
                before,
                i,
                triangles.skip(n - 3),
                rest,
            );
        lemma_clips_multiple_of_three(orientation, start, triangles, rest);
        let left = lemma_clips_prefix(orientation, start, triangles.take(n - 3), before, cuts);
        assert(triangles.take(n - 3).take(3 * cuts) =~= triangles.take(3 * cuts));
        left
    }
}

/// Cutting ears writes its indices three at a time.
pub proof fn lemma_clips_multiple_of_three<F: Fn(usize, usize, usize) -> bool>(
    orientation: &F,
    start: Seq<usize>,
    triangles: Seq<u16>,
    rest: Seq<usize>,
)
    requires
        clips(orientation, start, triangles, rest),
    ensures
        triangles.len() % 3 == 0,
    decreases triangles.len(),
{
    if triangles.len() >= 3 {
        let n = triangles.len() as int;
        let (before, i) = choose|before: Seq<usize>, i: int|
            #![trigger clip_step(orientation, before, i, triangles.skip(n - 3), rest)]
            clips(orientation, start, triangles.take(n - 3), before) && clip_step(
                orientation,
                before,
                i,
                triangles.skip(n - 3),
                rest,
            );
        lemma_clips_multiple_of_three(orientation, start, triangles.take(n - 3), before);
    }
}

/// Cutting has come to its end: two corners are left, or no corner that is
/// left is an ear.
pub open spec fn clipped_out<F: Fn(usize, usize, usize) -> bool>(orientation: &F, rest: Seq<usize>) -> bool {
    rest.len() <= 2 || no_ear(orientation, rest)
}

/// Where the orientation test has one answer, a polygon has one
/// triangulation: any two lists of triangles that `triangulate_polygon` may
/// return for it are the same.
pub proof fn lemma_triangulation_determined<F: Fn(usize, usize, usize) -> bool>(
    orientation: &F,
    points: nat,
    triangles1: Seq<u16>,
    rest1: Seq<usize>,
    triangles2: Seq<u16>,
    rest2: Seq<usize>,
)
    requires
        single_valued(orientation, points),
        clips(orientation, corners(points), triangles1, rest1),
        clipped_out(orientation, rest1),
        clips(orientation, corners(points), triangles2, rest2),
        clipped_out(orientation, rest2),
    ensures
        triangles1 == triangles2,
        rest1 == rest2,
{
    let start = corners(points);
    assert(corners_fit(start, points));
    lemma_one_more_cut(orientation, points, start, triangles1, rest1, triangles2, rest2);
    lemma_one_more_cut(orientation, points, start, triangles2, rest2, triangles1, rest1);
    lemma_clips_determined(orientation, points, start, triangles1, rest1, triangles2, rest2);
}

/// Cutting cannot go on past its end: no outcome has more triangles than one
/// that has come to its end.
proof fn lemma_one_more_cut<F: Fn(usize, usize, usize) -> bool>(
    orientation: &F,
    points: nat,
    start: Seq<usize>,
    short: Seq<u16>,
    short_rest: Seq<usize>,
    long: Seq<u16>,
    long_rest: Seq<usize>,
)
    requires
        single_valued(orientation, points),
        corners_fit(start, points),
        clips(orientation, start, short, short_rest),
        clipped_out(orientation, short_rest),
        clips(orientation, start, long, long_rest),
    ensures
        long.len() <= short.len(),
{
    lemma_clips_multiple_of_three(orientation, start, short, short_rest);
    lemma_clips_multiple_of_three(orientation, start, long, long_rest);
    if short.len() < long.len() {
        lemma_cut_past_the_end(orientation, points, start, short, short_rest, long, long_rest);
    }
}

/// One cut past the end of the cutting would be a cut where there is no ear.
proof fn lemma_cut_past_the_end<F: Fn(usize, usize, usize) -> bool>(
    orientation: &F,
    points: nat,
    start: Seq<usize>,
    short: Seq<u16>,
    short_rest: Seq<usize>,
    long: Seq<u16>,
    long_rest: Seq<usize>,
)
    requires
        single_valued(orientation, points),
        corners_fit(start, points),
        clips(orientation, start, short, short_rest),
        clips(orientation, start, long, long_rest),
        short.len() % 3 == 0,
        long.len() % 3 == 0,
        short.len() < long.len(),
    ensures
        !clipped_out(orientation, short_rest),
{
    let cuts = short.len() as int / 3 + 1;
    let left = lemma_clips_prefix(orientation, start, long, long_rest, cuts);
    let more = long.take(3 * cuts);
    let n = more.len() as int;
    assert(n == short.len() + 3);
    let (before, i) = choose|before: Seq<usize>, i: int|
        #![trigger clip_step(orientation, before, i, more.skip(n - 3), left)]
        clips(orientation, start, more.take(n - 3), before) && clip_step(
            orientation,
            before,
            i,
            more.skip(n - 3),
            left,
        );
    lemma_clips_determined(orientation, points, start, short, short_rest, more.take(n - 3), before);
    lemma_clips_counts(orientation, points, start, short, short_rest);
    lemma_ear_answer_single(orientation, points, short_rest, i);
    assert(ear_answer(orientation, short_rest, i, true));
    assert(short_rest.len() > 2);
    assert(!ear_answer(orientation, short_rest, i, false));
}

} // verus!
