//! Sprite-atlas coordinates and the builder that expands weighted tile lists
//! into flat lists of atlas indices.

use vstd::prelude::*;

verus! {

/// Number of columns in the sprite atlas.
pub const ATLAS_COLUMNS: u32 = 49;

/// A sprite given by its (row, column) cell in the atlas.
#[derive(Clone, Copy, PartialEq, Eq, Structural, Debug)]
pub struct Tile(pub u32, pub u32);

/// The linear atlas index of a tile: `row * 49 + column`.
pub open spec fn tile_index(t: Tile) -> nat {
    (t.0 as nat) * (ATLAS_COLUMNS as nat) + (t.1 as nat)
}

impl Tile {
    /// The linear atlas index of this tile.
    pub fn index(self) -> (r: usize)
        ensures
            r == tile_index(self) as usize,
    {
        assert((self.0 as nat) * 49 <= 0xffff_ffffnat * 49) by (nonlinear_arith)
            requires
                self.0 <= 0xffff_ffffu32,
        ;
        ((self.0 as u64) * (ATLAS_COLUMNS as u64) + (self.1 as u64)) as usize
    }
}

impl From<Tile> for usize {
    fn from(val: Tile) -> (r: usize) {
        val.index()
    }
}

impl vstd::std_specs::convert::FromSpecImpl<Tile> for usize {
    open spec fn obeys_from_spec() -> bool {
        true
    }

    open spec fn from_spec(v: Tile) -> usize {
        tile_index(v) as usize
    }
}

pub fn void() -> (r: Tile)
    ensures
        r == Tile(4, 0),
{
    Tile(4, 0)
}

pub fn empty_floor() -> (r: Tile)
    ensures
        r == Tile(0, 0),
{
    Tile(0, 0)
}

pub fn exterior_floor1() -> (r: Tile)
    ensures
        r == Tile(0, 1),
{
    Tile(0, 1)
}

pub fn exterior_floor2() -> (r: Tile)
    ensures
        r == Tile(0, 2),
{
    Tile(0, 2)
}

pub fn exterior_floor3() -> (r: Tile)
    ensures
        r == Tile(0, 3),
{
    Tile(0, 3)
}

pub fn exterior_floor4() -> (r: Tile)
    ensures
        r == Tile(0, 4),
{
    Tile(0, 4)
}

pub fn forest1() -> (r: Tile)
    ensures
        r == Tile(1, 0),
{
    Tile(1, 0)
}

pub fn forest2() -> (r: Tile)
    ensures
        r == Tile(1, 1),
{
    Tile(1, 1)
}

pub fn forest3() -> (r: Tile)
    ensures
        r == Tile(1, 2),
{
    Tile(1, 2)
}

pub fn forest4() -> (r: Tile)
    ensures
        r == Tile(1, 3),
{
    Tile(1, 3)
}

pub fn forest5() -> (r: Tile)
    ensures
        r == Tile(2, 0),
{
    Tile(2, 0)
}

pub fn forest6() -> (r: Tile)
    ensures
        r == Tile(2, 1),
{
    Tile(2, 1)
}

pub fn forest7() -> (r: Tile)
    ensures
        r == Tile(2, 6),
{
    Tile(2, 6)
}

pub fn forest8() -> (r: Tile)
    ensures
        r == Tile(6, 20),
{
    Tile(6, 20)
}

pub fn wall1() -> (r: Tile)
    ensures
        r == Tile(13, 0),
{
    Tile(13, 0)
}

pub fn wall2() -> (r: Tile)
    ensures
        r == Tile(11, 1),
{
    Tile(11, 1)
}

pub fn wall3() -> (r: Tile)
    ensures
        r == Tile(11, 2),
{
    Tile(11, 2)
}

pub fn wall4() -> (r: Tile)
    ensures
        r == Tile(17, 10),
{
    Tile(17, 10)
}

pub fn wall5() -> (r: Tile)
    ensures
        r == Tile(18, 10),
{
    Tile(18, 10)
}

pub fn wall6() -> (r: Tile)
    ensures
        r == Tile(18, 11),
{
    Tile(18, 11)
}

pub fn interior_floor1() -> (r: Tile)
    ensures
        r == Tile(0, 16),
{
    Tile(0, 16)
}

pub fn interior_floor2() -> (r: Tile)
    ensures
        r == Tile(0, 17),
{
    Tile(0, 17)
}

pub fn goblin() -> (r: Tile)
    ensures
        r == Tile(2, 25),
{
    Tile(2, 25)
}

pub fn orc() -> (r: Tile)
    ensures
        r == Tile(2, 26),
{
    Tile(2, 26)
}

pub fn evoker() -> (r: Tile)
    ensures
        r == Tile(0, 24),
{
    Tile(0, 24)
}

pub fn bat() -> (r: Tile)
    ensures
        r == Tile(8, 26),
{
    Tile(8, 26)
}

pub fn thaumaturge() -> (r: Tile)
    ensures
        r == Tile(2, 24),
{
    Tile(2, 24)
}

pub fn emo_mage() -> (r: Tile)
    ensures
        r == Tile(1, 30),
{
    Tile(1, 30)
}

pub fn healer() -> (r: Tile)
    ensures
        r == Tile(1, 26),
{
    Tile(1, 26)
}

pub fn scroll1() -> (r: Tile)
    ensures
        r == Tile(15, 34),
{
    Tile(15, 34)
}

pub fn scroll2() -> (r: Tile)
    ensures
        r == Tile(15, 33),
{
    Tile(15, 33)
}

pub fn staff1() -> (r: Tile)
    ensures
        r == Tile(4, 32),
{
    Tile(4, 32)
}

pub fn staff2() -> (r: Tile)
    ensures
        r == Tile(4, 33),
{
    Tile(4, 33)
}

pub fn staff3() -> (r: Tile)
    ensures
        r == Tile(4, 34),
{
    Tile(4, 34)
}

pub fn staff4() -> (r: Tile)
    ensures
        r == Tile(5, 32),
{
    Tile(5, 32)
}

pub fn staff5() -> (r: Tile)
    ensures
        r == Tile(5, 33),
{
    Tile(5, 33)
}

pub fn dagger1() -> (r: Tile)
    ensures
        r == Tile(6, 32),
{
    Tile(6, 32)
}

pub fn dagger2() -> (r: Tile)
    ensures
        r == Tile(6, 33),
{
    Tile(6, 33)
}

pub fn dagger3() -> (r: Tile)
    ensures
        r == Tile(6, 34),
{
    Tile(6, 34)
}

pub fn dagger4() -> (r: Tile)
    ensures
        r == Tile(6, 35),
{
    Tile(6, 35)
}

pub fn dagger5() -> (r: Tile)
    ensures
        r == Tile(6, 36),
{
    Tile(6, 36)
}

pub fn sword1() -> (r: Tile)
    ensures
        r == Tile(7, 32),
{
    Tile(7, 32)
}

pub fn sword2() -> (r: Tile)
    ensures
        r == Tile(7, 33),
{
    Tile(7, 33)
}

pub fn sword3() -> (r: Tile)
    ensures
        r == Tile(7, 34),
{
    Tile(7, 34)
}

pub fn sword4() -> (r: Tile)
    ensures
        r == Tile(7, 35),
{
    Tile(7, 35)
}

pub fn sword5() -> (r: Tile)
    ensures
        r == Tile(7, 36),
{
    Tile(7, 36)
}

/// A weighted list of tiles under construction; a tile that appears several
/// times is picked proportionally more often by a uniform draw.
pub struct Tiles(Vec<Tile>);

impl View for Tiles {
    type V = Seq<Tile>;

    closed spec fn view(&self) -> Seq<Tile> {
        self.0@
    }
}

impl Default for Tiles {
    /// An empty list.
    fn default() -> (r: Tiles)
        ensures
            r@ == Seq::<Tile>::empty(),
    {
        Tiles(Vec::new())
    }
}

impl Tiles {
    /// An empty list.
    pub fn new() -> (r: Tiles)
        ensures
            r@ == Seq::<Tile>::empty(),
    {
        Tiles(Vec::new())
    }

    /// Appends one tile.
    pub fn add_one(self, tile: Tile) -> (r: Tiles)
        ensures
            r@ == self@.push(tile),
    {
        let mut v = self.0;
        v.push(tile);
        Tiles(v)
    }

    /// Appends every tile of `tiles`, in order.
    pub fn add_bunch(self, tiles: &[Tile]) -> (r: Tiles)
        ensures
            r@ == self@ + tiles@,
    {
        let mut v = self.0;
        let ghost start = v@;
        let mut i: usize = 0;
        while i < tiles.len()
            invariant
                i <= tiles@.len(),
                v@ == start + tiles@.subrange(0, i as int),
            decreases tiles@.len() - i,
        {
            v.push(tiles[i]);
            i = i + 1;
            assert(v@ =~= start + tiles@.subrange(0, i as int));
        }
        assert(tiles@.subrange(0, i as int) =~= tiles@);
        Tiles(v)
    }

    /// Appends `n` copies of `tile`.
    pub fn add_more(self, tile: Tile, n: usize) -> (r: Tiles)
        ensures
            r@ == self@ + Seq::new(n as nat, |_i: int| tile),
    {
        let mut v = self.0;
        let ghost start = v@;
        let mut i: usize = 0;
        while i < n
            invariant
                i <= n,
                v@ == start + Seq::new(i as nat, |_i: int| tile),
            decreases n - i,
        {
            v.push(tile);
            i = i + 1;
            assert(v@ =~= start + Seq::new(i as nat, |_i: int| tile));
        }
        Tiles(v)
    }

    /// The atlas index of every tile, in order.
    pub fn done(self) -> (r: Vec<usize>)
        ensures
            r@.len() == self@.len(),
            forall|i: int| 0 <= i < r@.len() ==> #[trigger] r@[i] == tile_index(self@[i]) as usize,
    {
        let v = self.0;
        let mut out: Vec<usize> = Vec::new();
        let mut i: usize = 0;
        while i < v.len()
            invariant
                i <= v@.len(),
                out@.len() == i,
                forall|k: int| 0 <= k < i ==> out@[k] == tile_index(#[trigger] v@[k]) as usize,
            decreases v@.len() - i,
        {
            out.push(v[i].index());
            i = i + 1;
        }
        out
    }
}

} // verus!
