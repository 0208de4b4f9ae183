//! Compact symbol codes for dungeon tiles, as a neural-network-friendly
//! numbering of the drawable tile bytes.

use vstd::prelude::*;

verus! {

/// A dungeon tile, carried as its drawing byte.
#[derive(Clone, Copy, Debug, PartialEq, Eq, Structural)]
pub struct Tile(pub u8);

impl Tile {
    /// The tile drawing this byte.
    pub fn from_byte(b: u8) -> (t: Tile)
        ensures
            t.0 == b,
    {
        Tile(b)
    }

    /// The byte this tile draws as.
    pub fn to_byte(self) -> (b: u8)
        ensures
            b == self.0,
    {
        self.0
    }
}

/// The table from tile bytes to symbol codes; bytes outside it have no symbol.
pub open spec fn spec_tile_to_sym(b: u8) -> Option<u8> {
    if b == 32 {
        Some(0u8)
    } else if b == 64 {
        Some(1u8)
    } else if b == 35 {
        Some(2u8)
    } else if b == 46 {
        Some(3u8)
    } else if b == 45 || b == 124 {
        Some(4u8)
    } else if b == 37 {
        Some(5u8)
    } else if b == 43 {
        Some(6u8)
    } else if b == 94 {
        Some(7u8)
    } else if b == 33 {
        Some(8u8)
    } else if b == 63 {
        Some(9u8)
    } else if b == 93 {
        Some(10u8)
    } else if b == 41 {
        Some(11u8)
    } else if b == 47 {
        Some(12u8)
    } else if b == 42 {
        Some(13u8)
    } else if b == 58 {
        Some(14u8)
    } else if b == 61 {
        Some(15u8)
    } else if b == 44 {
        Some(16u8)
    } else if 65 <= b && b <= 90 {
        Some((b - 65 + 17) as u8)
    } else {
        None
    }
}

/// A symbol code for one kind of tile.
#[derive(Clone, Copy, Debug, Eq, PartialEq, Ord, PartialOrd, Hash, Structural)]
pub struct Symbol(u8);

impl Symbol {
    /// The code this symbol stands at.
    pub closed spec fn code(self) -> u8 {
        self.0
    }

    /// The symbol's code as a byte.
    pub fn to_byte(self) -> (b: u8)
        ensures
            b == self.code(),
    {
        self.0
    }

    /// The symbol one code earlier.
    pub fn decrement(self) -> (r: Self)
        requires
            self.code() >= 1,
        ensures
            r.code() == self.code() - 1,
    {
        Symbol(self.0 - 1)
    }

    /// Translates a tile into its symbol; `None` for tiles outside the table.
    pub fn from_tile(t: Tile) -> (r: Option<Symbol>)
        ensures
            r is Some <==> spec_tile_to_sym(t.0) is Some,
            r matches Some(s) ==> spec_tile_to_sym(t.0) == Some(s.code()),
    {
        let b = t.to_byte();
        if b == 32u8 {
            Some(Symbol(0))
        } else if b == 64u8 {
            Some(Symbol(1))
        } else if b == 35u8 {
            Some(Symbol(2))
        } else if b == 46u8 {
            Some(Symbol(3))
        } else if b == 45u8 || b == 124u8 {
            Some(Symbol(4))
        } else if b == 37u8 {
            Some(Symbol(5))
        } else if b == 43u8 {
            Some(Symbol(6))
        } else if b == 94u8 {
            Some(Symbol(7))
        } else if b == 33u8 {
            Some(Symbol(8))
        } else if b == 63u8 {
            Some(Symbol(9))
        } else if b == 93u8 {
            Some(Symbol(10))
        } else if b == 41u8 {
            Some(Symbol(11))
        } else if b == 47u8 {
            Some(Symbol(12))
        } else if b == 42u8 {
            Some(Symbol(13))
        } else if b == 58u8 {
            Some(Symbol(14))
        } else if b == 61u8 {
            Some(Symbol(15))
        } else if b == 44u8 {
            Some(Symbol(16))
        } else if 65u8 <= b && b <= 90u8 {
            Some(Symbol(b - 65u8 + 17))
        } else {
            None
        }
    }
}

/// Translates a raw tile byte into its symbol code.
pub fn tile_to_sym(t: u8) -> (r: Option<u8>)
    ensures
        r == spec_tile_to_sym(t),
{
    match Symbol::from_tile(Tile::from_byte(t)) {
        Some(s) => Some(s.to_byte()),
        None => None,
    }
}

/// A tile with no symbol code below the allowed maximum.
#[derive(Clone, Copy, Debug)]
pub struct InvalidTileError(Tile, u8);

impl InvalidTileError {
    /// Records the offending tile and the symbol ceiling in force.
    pub fn new(tile: Tile, max: u8) -> (e: Self)
        ensures
            e.parts() == (tile, max),
    {
        InvalidTileError(tile, max)
    }

    /// The offending tile and the ceiling it failed against.
    pub closed spec fn parts(self) -> (Tile, u8) {
        (self.0, self.1)
    }

    /// The offending tile.
    pub fn tile(&self) -> (t: Tile)
        ensures
            t == self.parts().0,
    {
        self.0
    }

    /// The symbol ceiling in force when the tile was refused.
    pub fn max_symbol(&self) -> (m: u8)
        ensures
            m == self.parts().1,
    {
        self.1
    }
}

} // verus!
