//! The terrain and the stars of one level, as far as the rules need them:
//! which polygon is solid and which is deadly, and which stars are still
//! there to collect.

use vstd::prelude::*;

verus! {

/// What a terrain polygon does to the bike.
#[derive(Clone, Copy, PartialEq, Eq, Structural, Debug)]
pub enum PolygonType {
    /// Solid ground: a wheel rolls on it.
    Wall,
    /// Deadly on any touch.
    Lava,
}

/// What a layer of a level file holds.
#[derive(Clone, Copy, PartialEq, Eq, Structural, Debug)]
pub enum LayerKind {
    /// Polygons of one kind.
    Polygons(PolygonType),
    /// The start and the stars.
    Objects,
    /// Nothing that the game reads.
    Other,
}

/// What an object of a level file is.
#[derive(Clone, Copy, PartialEq, Eq, Structural, Debug)]
pub enum ObjectKind {
    /// The place where the bike starts.
    Start,
    /// A star to collect.
    Star,
    /// Nothing that the game reads.
    Other,
}

/// One overlap between a probe circle and an edge of a polygon, as the
/// caller measured it.
#[derive(Clone, Copy, Debug)]
pub struct Overlap {
    /// The polygon the edge belongs to, by its position in the level.
    pub polygon: usize,
    /// How far the circle reaches past the edge. Only the order counts:
    /// a deeper overlap has the larger number.
    pub depth: u32,
}

/// The contact that a collision query settles on.
#[derive(Clone, Copy, PartialEq, Eq, Structural, Debug)]
pub struct CollisionInfo {
    /// The kind of the polygon that was hit.
    pub tpe: PolygonType,
    /// The position of the deciding overlap in the list that was queried.
    pub index: usize,
    /// The depth of the deciding overlap.
    pub dist: u32,
}

/// A star to collect.
#[derive(Clone, Copy, Debug)]
pub struct Star {
    pub alive: bool,
}

/// The polygons and stars of a level.
pub struct Level {
    stars: Vec<Star>,
    stars_left: usize,
    polygons: Vec<PolygonType>,
}

/// A level as the contracts see it.
pub struct LevelView {
    /// The kind of each polygon, in the order in which they were added.
    pub polygons: Seq<PolygonType>,
    /// For each star, whether it is still there.
    pub stars: Seq<bool>,
}

/// The number of stars that are still there.
pub open spec fn alive_count(stars: Seq<bool>) -> nat
    decreases stars.len(),
{
    if stars.len() == 0 {
        0
    } else {
        alive_count(stars.drop_last()) + if stars.last() {
            1nat
        } else {
            0nat
        }
    }
}

/// The kind of the polygon that overlap `i` lies on.
pub open spec fn kind_at(polygons: Seq<PolygonType>, overlaps: Seq<Overlap>, i: int) -> PolygonType {
    polygons[overlaps[i].polygon as int]
}

/// Every overlap names a polygon of the level.
pub open spec fn overlaps_fit(polygons: Seq<PolygonType>, overlaps: Seq<Overlap>) -> bool {
    forall|i: int| 0 <= i < overlaps.len() ==> (#[trigger] overlaps[i]).polygon < polygons.len()
}

/// Whether overlap `i` is the one a collision query settles on: the first
/// overlap with lava if there is any, else the deepest overlap, and among
/// equally deep ones the last.
pub open spec fn decides(polygons: Seq<PolygonType>, overlaps: Seq<Overlap>, i: int) -> bool {
    &&& 0 <= i < overlaps.len()
    &&& if kind_at(polygons, overlaps, i) is Lava {
        forall|k: int| 0 <= k < i ==> #[trigger] kind_at(polygons, overlaps, k) is Wall
    } else {
        &&& forall|k: int|
            0 <= k < overlaps.len() ==> #[trigger] kind_at(polygons, overlaps, k) is Wall
        &&& forall|k: int|
            0 <= k < overlaps.len() ==> (#[trigger] overlaps[k]).depth <= overlaps[i].depth
        &&& forall|k: int|
            i < k < overlaps.len() ==> (#[trigger] overlaps[k]).depth < overlaps[i].depth
    }
}

/// The stars after a pickup: a star is gone if it was gone before or if the
/// probe reached it. A star without a flag counts as not reached.
pub open spec fn after_pickup(stars: Seq<bool>, reached: Seq<bool>) -> Seq<bool> {
    Seq::new(stars.len(), |i: int| stars[i] && !(i < reached.len() && reached[i]))
}

/// What a layer with this name holds: the layer `walls` holds walls, `lava`
/// holds lava, `objects` the start and the stars.
pub open spec fn spec_layer_kind(name: Seq<char>) -> LayerKind {
    if name == seq!['w', 'a', 'l', 'l', 's'] {
        LayerKind::Polygons(PolygonType::Wall)
    } else if name == seq!['l', 'a', 'v', 'a'] {
        LayerKind::Polygons(PolygonType::Lava)
    } else if name == seq!['o', 'b', 'j', 'e', 'c', 't', 's'] {
        LayerKind::Objects
    } else {
        LayerKind::Other
    }
}

/// What an object with this name is: `start` is the start, `star` a star.
pub open spec fn spec_object_kind(name: Seq<char>) -> ObjectKind {
    if name == seq!['s', 't', 'a', 'r', 't'] {
        ObjectKind::Start
    } else if name == seq!['s', 't', 'a', 'r'] {
        ObjectKind::Star
    } else {
        ObjectKind::Other
    }
}

/// What a layer of a level file holds, by its name.
pub fn layer_kind(name: &str) -> (kind: LayerKind)
    ensures
        kind == spec_layer_kind(name@),
{
    proof {
        reveal_strlit("walls");
        reveal_strlit("lava");
        reveal_strlit("objects");
        assert("walls"@ =~= seq!['w', 'a', 'l', 'l', 's']);
        assert("lava"@ =~= seq!['l', 'a', 'v', 'a']);
        assert("objects"@ =~= seq!['o', 'b', 'j', 'e', 'c', 't', 's']);
    }
    let name = name.to_owned();
    if name == "walls".to_owned() {
        LayerKind::Polygons(PolygonType::Wall)
    } else if name == "lava".to_owned() {
        LayerKind::Polygons(PolygonType::Lava)
    } else if name == "objects".to_owned() {
        LayerKind::Objects
    } else {
        LayerKind::Other
    }
}

/// What an object of a level file is, by its name.
pub fn object_kind(name: &str) -> (kind: ObjectKind)
    ensures
        kind == spec_object_kind(name@),
{
    proof {
        reveal_strlit("start");
        reveal_strlit("star");
        assert("start"@ =~= seq!['s', 't', 'a', 'r', 't']);
        assert("star"@ =~= seq!['s', 't', 'a', 'r']);
    }
    let name = name.to_owned();
    if name == "start".to_owned() {
        ObjectKind::Start
    } else if name == "star".to_owned() {
        ObjectKind::Star
    } else {
        ObjectKind::Other
    }
}

impl View for Level {
    type V = LevelView;

    closed spec fn view(&self) -> LevelView {
        LevelView {
            polygons: self.polygons@,
            stars: Seq::new(self.stars@.len(), |i: int| self.stars@[i].alive),
        }
    }
}

impl Default for Level {
    /// A level without polygons and stars.
    fn default() -> (level: Level)
        ensures
            level.wf(),
            level@.polygons.len() == 0,
            level@.stars.len() == 0,
    {
        Level::new()
    }
}

impl Level {
    /// The counter of remaining stars agrees with the stars themselves.
    pub closed spec fn wf(&self) -> bool {
        self.stars_left == alive_count(self@.stars)
    }

    /// A level without polygons and stars.
    pub fn new() -> (level: Level)
        ensures
            level.wf(),
            level@.polygons.len() == 0,
            level@.stars.len() == 0,
    {
        Level { stars: Vec::new(), stars_left: 0, polygons: Vec::new() }
    }

    /// Picks the contact that decides a collision query.
    ///
    /// `overlaps` lists every edge that the probe circle overlaps, in the
    /// order in which the level's edges are scanned. Any overlap with lava
    /// decides at once, however shallow, and the first of them is reported.
    /// Without lava the deepest overlap decides, and of several equally deep
    /// ones the last.
    pub fn circle_collision(&self, overlaps: &Vec<Overlap>) -> (hit: Option<CollisionInfo>)
        requires
            overlaps_fit(self@.polygons, overlaps@),
        ensures
            overlaps.len() == 0 ==> hit is None,
            overlaps.len() > 0 ==> hit is Some,
            hit matches Some(c) ==> {
                &&& decides(self@.polygons, overlaps@, c.index as int)
                &&& c.tpe == kind_at(self@.polygons, overlaps@, c.index as int)
                &&& c.dist == overlaps[c.index as int].depth
            },
            (exists|k: int|
                0 <= k < overlaps.len() && #[trigger] kind_at(self@.polygons, overlaps@, k) is Lava)
                ==> (hit matches Some(c) && c.tpe is Lava),
    {
        let mut best: Option<CollisionInfo> = None;
        let mut i: usize = 0;
        while i < overlaps.len()
            invariant
                i <= overlaps.len(),
                overlaps_fit(self@.polygons, overlaps@),
                forall|k: int| 0 <= k < i ==> #[trigger] kind_at(self@.polygons, overlaps@, k) is Wall,
                i == 0 ==> best is None,
                i > 0 ==> best is Some,
                best matches Some(c) ==> {
                    &&& c.index < i
                    &&& c.tpe is Wall
                    &&& c.dist == overlaps[c.index as int].depth
                    &&& forall|k: int| 0 <= k < i ==> (#[trigger] overlaps[k]).depth <= c.dist
                    &&& forall|k: int| c.index < k < i ==> (#[trigger] overlaps[k]).depth < c.dist
                },
            decreases overlaps.len() - i,
        {
            let o = overlaps[i];
            match self.polygons[o.polygon] {
                PolygonType::Lava => {
                    assert(kind_at(self@.polygons, overlaps@, i as int) is Lava);
                    return Some(CollisionInfo { tpe: PolygonType::Lava, index: i, dist: o.depth });
                },
                PolygonType::Wall => {
                    assert(kind_at(self@.polygons, overlaps@, i as int) is Wall);
                    best = match best {
                        Some(c) if c.dist > o.depth => Some(c),
                        _ => Some(CollisionInfo { tpe: PolygonType::Wall, index: i, dist: o.depth }),
                    };
                },
            }
            i += 1;
        }
        best
    }

    /// Adds a polygon and returns its position in the level.
    pub fn add_polygon(&mut self, tpe: PolygonType) -> (index: usize)
        requires
            old(self).wf(),
        ensures
            final(self).wf(),
            index == old(self)@.polygons.len(),
            final(self)@.polygons == old(self)@.polygons.push(tpe),
            final(self)@.stars == old(self)@.stars,
    {
        let index = self.polygons.len();
        self.polygons.push(tpe);
        assert(self@.stars =~= old(self)@.stars);
        index
    }

    /// Adds a star, still to be collected, and returns its position.
    pub fn add_star(&mut self) -> (index: usize)
        requires
            old(self).wf(),
        ensures
            final(self).wf(),
            index == old(self)@.stars.len(),
            final(self)@.stars == old(self)@.stars.push(true),
            final(self)@.polygons == old(self)@.polygons,
    {
        let index = self.stars.len();
        self.stars.push(Star { alive: true });
        let count = self.stars.len();
        proof {
            lemma_alive_count_bound(old(self)@.stars);
            assert(self@.stars =~= old(self)@.stars.push(true));
            assert(self@.stars.drop_last() =~= old(self)@.stars);
            assert(self.stars_left < count);
        }
        self.stars_left = self.stars_left + 1;
        index
    }

    /// The number of polygons.
    pub fn polygon_count(&self) -> (n: usize)
        ensures
            n == self@.polygons.len(),
    {
        self.polygons.len()
    }

    /// The kind of polygon `i`.
    pub fn polygon_type(&self, i: usize) -> (tpe: PolygonType)
        requires
            i < self@.polygons.len(),
        ensures
            tpe == self@.polygons[i as int],
    {
        self.polygons[i]
    }

    /// The stars, collected or not.
    pub fn stars(&self) -> (stars: &Vec<Star>)
        ensures
            stars@.len() == self@.stars.len(),
            forall|i: int| 0 <= i < stars@.len() ==> (#[trigger] stars@[i]).alive == self@.stars[i],
    {
        &self.stars
    }

    /// The number of stars, collected or not.
    pub fn star_count(&self) -> (n: usize)
        ensures
            n == self@.stars.len(),
    {
        self.stars.len()
    }

    /// Whether star `i` is still there.
    pub fn star_alive(&self, i: usize) -> (alive: bool)
        requires
            i < self@.stars.len(),
        ensures
            alive == self@.stars[i as int],
    {
        self.stars[i].alive
    }

    /// The number of stars that are still there.
    pub fn stars_left(&self) -> (n: usize)
        requires
            self.wf(),
        ensures
            n == alive_count(self@.stars),
    {
        self.stars_left
    }

    /// The number of stars that are collected.
    pub fn stars_collected(&self) -> (n: usize)
        requires
            self.wf(),
        ensures
            n == self@.stars.len() - alive_count(self@.stars),
    {
        proof {
            lemma_alive_count_bound(self@.stars);
        }
        self.stars.len() - self.stars_left
    }

    /// Collects the stars that a probe reached.
    ///
    /// `reached[i]` tells whether the probe reaches star `i`. A star that is
    /// gone stays gone and is not counted again.
    pub fn pickup_stars(&mut self, reached: &Vec<bool>)
        requires
            old(self).wf(),
        ensures
            final(self).wf(),
            final(self)@.stars == after_pickup(old(self)@.stars, reached@),
            final(self)@.polygons == old(self)@.polygons,
    {
        let n = self.stars.len();
        let mut i: usize = 0;
        while i < n
            invariant
                i <= n,
                n == self.stars.len(),
                n == old(self).stars.len(),
                self.polygons == old(self).polygons,
                self.stars_left == alive_count(self@.stars),
                forall|k: int|
                    0 <= k < i ==> #[trigger] self@.stars[k] == after_pickup(
                        old(self)@.stars,
                        reached@,
                    )[k],
                forall|k: int| i <= k < n ==> #[trigger] self@.stars[k] == old(self)@.stars[k],
            decreases n - i,
        {
            if self.stars[i].alive && i < reached.len() && reached[i] {
                let ghost before = self@.stars;
                self.stars.set(i, Star { alive: false });
                proof {
                    assert(self@.stars =~= before.update(i as int, false));
                    lemma_alive_count_update(before, i as int);
                }
                self.stars_left = self.stars_left - 1;
            }
            i += 1;
        }
        assert(self@.stars =~= after_pickup(old(self)@.stars, reached@));
    }

    /// Puts every star back, for a new attempt at the level.
    pub fn reset(&mut self)
        ensures
            final(self).wf(),
            final(self)@.stars == Seq::new(old(self)@.stars.len(), |i: int| true),
            final(self)@.polygons == old(self)@.polygons,
    {
        let n = self.stars.len();
        let mut i: usize = 0;
        while i < n
            invariant
                i <= n,
                n == self.stars.len(),
                n == old(self).stars.len(),
                self.polygons == old(self).polygons,
                forall|k: int| 0 <= k < i ==> (#[trigger] self.stars@[k]).alive,
            decreases n - i,
        {
            self.stars.set(i, Star { alive: true });
            i += 1;
        }
        proof {
            lemma_alive_count_full(self@.stars);
            assert(self@.stars =~= Seq::new(old(self)@.stars.len(), |i: int| true));
        }
        self.stars_left = n;
    }
}

/// No more stars are alive than there are stars.
pub proof fn lemma_alive_count_bound(stars: Seq<bool>)
    ensures
        alive_count(stars) <= stars.len(),
    decreases stars.len(),
{
    if stars.len() > 0 {
        lemma_alive_count_bound(stars.drop_last());
    }
}

/// Where every star is alive, the count is the number of stars.
pub proof fn lemma_alive_count_full(stars: Seq<bool>)
    requires
        forall|i: int| 0 <= i < stars.len() ==> stars[i],
    ensures
        alive_count(stars) == stars.len(),
    decreases stars.len(),
{
    if stars.len() > 0 {
        lemma_alive_count_full(stars.drop_last());
    }
}

/// Taking one living star away lowers the count by exactly one.
pub proof fn lemma_alive_count_update(stars: Seq<bool>, i: int)
    requires
        0 <= i < stars.len(),
        stars[i],
    ensures
        alive_count(stars.update(i, false)) + 1 == alive_count(stars),
    decreases stars.len(),
{
    let last = stars.len() - 1;
    if i == last {
        assert(stars.update(i, false).drop_last() =~= stars.drop_last());
    } else {
        lemma_alive_count_update(stars.drop_last(), i);
        assert(stars.update(i, false).drop_last() =~= stars.drop_last().update(i, false));
    }
}

/// The stars that a pickup takes: those that were there and were reached.
pub open spec fn picked(stars: Seq<bool>, reached: Seq<bool>) -> Seq<bool> {
    Seq::new(stars.len(), |i: int| stars[i] && i < reached.len() && reached[i])
}

/// At most one overlap decides a collision query, so the contact that
/// `Level::circle_collision` reports is the only one it could report.
pub proof fn lemma_decides_unique(
    polygons: Seq<PolygonType>,
    overlaps: Seq<Overlap>,
    i: int,
    j: int,
)
    requires
        decides(polygons, overlaps, i),
        decides(polygons, overlaps, j),
    ensures
        i == j,
{
    assert(kind_at(polygons, overlaps, i) is Wall || kind_at(polygons, overlaps, i) is Lava);
    assert(kind_at(polygons, overlaps, j) is Wall || kind_at(polygons, overlaps, j) is Lava);
    if i < j {
        assert(overlaps[j].depth <= overlaps[i].depth || kind_at(polygons, overlaps, i) is Lava);
    } else if j < i {
        assert(overlaps[i].depth <= overlaps[j].depth || kind_at(polygons, overlaps, j) is Lava);
    }
}

/// Lava outranks walls: where the probe overlaps lava anywhere, the deciding
/// overlap lies on lava, however deep the overlaps with walls are, and no
/// overlap with lava comes before it.
pub proof fn lemma_lava_outranks_walls(
    polygons: Seq<PolygonType>,
    overlaps: Seq<Overlap>,
    i: int,
    k: int,
)
    requires
        decides(polygons, overlaps, i),
        0 <= k < overlaps.len(),
        kind_at(polygons, overlaps, k) is Lava,
    ensures
        kind_at(polygons, overlaps, i) is Lava,
        i <= k,
{
}

/// A pickup with the same flags a second time changes nothing: no star is
/// taken twice.
pub proof fn lemma_pickup_idempotent(stars: Seq<bool>, reached: Seq<bool>)
    ensures
        after_pickup(after_pickup(stars, reached), reached) == after_pickup(stars, reached),
{
    assert(after_pickup(after_pickup(stars, reached), reached) =~= after_pickup(stars, reached));
}

/// A probe that reaches only stars that are gone leaves the level as it is.
pub proof fn lemma_pickup_of_gone_stars(stars: Seq<bool>, reached: Seq<bool>)
    requires
        forall|i: int| 0 <= i < stars.len() && i < reached.len() && reached[i] ==> !stars[i],
    ensures
        after_pickup(stars, reached) == stars,
{
    assert(after_pickup(stars, reached) =~= stars);
}

/// A pickup lowers the number of remaining stars by the number of stars that
/// were there and were reached, and by no more.
pub proof fn lemma_pickup_count(stars: Seq<bool>, reached: Seq<bool>)
    ensures
        alive_count(after_pickup(stars, reached)) + alive_count(picked(stars, reached))
            == alive_count(stars),
    decreases stars.len(),
{
    if stars.len() > 0 {
        lemma_pickup_count(stars.drop_last(), reached);
        assert(after_pickup(stars, reached).drop_last() =~= after_pickup(
            stars.drop_last(),
            reached,
        ));
        assert(picked(stars, reached).drop_last() =~= picked(stars.drop_last(), reached));
    }
}

/// The stars after one pickup after another.
pub open spec fn after_pickups(stars: Seq<bool>, probes: Seq<Seq<bool>>) -> Seq<bool>
    decreases probes.len(),
{
    if probes.len() == 0 {
        stars
    } else {
        after_pickup(after_pickups(stars, probes.drop_last()), probes.last())
    }
}

/// Whether one of the probes reaches star `i`.
pub open spec fn reached_by_any(probes: Seq<Seq<bool>>, i: int) -> bool {
    exists|p: int| 0 <= p < probes.len() && i < probes[p].len() && #[trigger] probes[p][i]
}

/// After any sequence of pickups a star is there exactly if it was there
/// before and no probe has reached it. However often a star is reached, it
/// is taken once: the number of stars that are left never grows, and it is
/// the number of stars that are there.
pub proof fn lemma_pickups(stars: Seq<bool>, probes: Seq<Seq<bool>>)
    ensures
        after_pickups(stars, probes).len() == stars.len(),
        forall|i: int|
            0 <= i < stars.len() ==> (#[trigger] after_pickups(stars, probes)[i] <==> stars[i]
                && !reached_by_any(probes, i)),
        alive_count(after_pickups(stars, probes)) <= alive_count(stars),
    decreases probes.len(),
{
    if probes.len() > 0 {
        let earlier = probes.drop_last();
        let before = after_pickups(stars, earlier);
        lemma_pickups(stars, earlier);
        lemma_pickup_count(before, probes.last());
        assert forall|i: int| 0 <= i < stars.len() implies (#[trigger] after_pickups(
            stars,
            probes,
        )[i] <==> stars[i] && !reached_by_any(probes, i)) by {
            if reached_by_any(earlier, i) {
                let p = choose|p: int|
                    0 <= p < earlier.len() && i < earlier[p].len() && #[trigger] earlier[p][i];
                assert(probes[p][i]);
            }
            if i < probes.last().len() && probes.last()[i] {
                assert(probes[probes.len() - 1][i]);
            }
            if reached_by_any(probes, i) {
                let p = choose|p: int|
                    0 <= p < probes.len() && i < probes[p].len() && #[trigger] probes[p][i];
                if p < earlier.len() {
                    assert(earlier[p][i]);
                }
            }
        }
    }
}

} // verus!
