//! The kinds of blocks that memory can hold one of, numbered from zero.
use vstd::prelude::*;
use vstd::std_specs::convert::TryFromSpecImpl;

verus! {

/// A kind of block of the game world.
#[derive(Debug, PartialEq, Eq, Clone, Copy)]
pub enum McBlock {
    Air,
    Cobblestone,
    Granite,
    Andesite,
    Diorite,
    LapisBlock,
    IronBlock,
    GoldBlock,
    DiamondBlock,
    RedstoneBlock,
}

/// The block kind numbered `val`, if there is one.
pub open spec fn block_of(val: i32) -> Option<McBlock> {
    if val == 0 {
        Some(McBlock::Air)
    } else if val == 1 {
        Some(McBlock::Cobblestone)
    } else if val == 2 {
        Some(McBlock::Granite)
    } else if val == 3 {
        Some(McBlock::Andesite)
    } else if val == 4 {
        Some(McBlock::Diorite)
    } else if val == 5 {
        Some(McBlock::LapisBlock)
    } else if val == 6 {
        Some(McBlock::IronBlock)
    } else if val == 7 {
        Some(McBlock::GoldBlock)
    } else if val == 8 {
        Some(McBlock::DiamondBlock)
    } else if val == 9 {
        Some(McBlock::RedstoneBlock)
    } else {
        None
    }
}

/// The identifier of a block kind in the game.
pub open spec fn block_text(b: McBlock) -> Seq<char> {
    "minecraft:"@ + match b {
        McBlock::Air => "air"@,
        McBlock::Cobblestone => "cobblestone"@,
        McBlock::Granite => "granite"@,
        McBlock::Andesite => "andesite"@,
        McBlock::Diorite => "diorite"@,
        McBlock::LapisBlock => "lapis_block"@,
        McBlock::IronBlock => "iron_block"@,
        McBlock::GoldBlock => "gold_block"@,
        McBlock::DiamondBlock => "diamond_block"@,
        McBlock::RedstoneBlock => "redstone_block"@,
    }
}

impl McBlock {
    /// The identifier of the block kind in the game.
    pub fn text(&self) -> (r: String)
        ensures
            r@ == block_text(*self),
    {
        let mut s = String::from_str("minecraft:");
        let name = match self {
            McBlock::Air => "air",
            McBlock::Cobblestone => "cobblestone",
            McBlock::Granite => "granite",
            McBlock::Andesite => "andesite",
            McBlock::Diorite => "diorite",
            McBlock::LapisBlock => "lapis_block",
            McBlock::IronBlock => "iron_block",
            McBlock::GoldBlock => "gold_block",
            McBlock::DiamondBlock => "diamond_block",
            McBlock::RedstoneBlock => "redstone_block",
        };
        s.append(name);
        s
    }
}

impl TryFrom<i32> for McBlock {
    type Error = ();

    fn try_from(val: i32) -> (r: Result<McBlock, ()>) {
        if val == 0 {
            Ok(McBlock::Air)
        } else if val == 1 {
            Ok(McBlock::Cobblestone)
        } else if val == 2 {
            Ok(McBlock::Granite)
        } else if val == 3 {
            Ok(McBlock::Andesite)
        } else if val == 4 {
            Ok(McBlock::Diorite)
        } else if val == 5 {
            Ok(McBlock::LapisBlock)
        } else if val == 6 {
            Ok(McBlock::IronBlock)
        } else if val == 7 {
            Ok(McBlock::GoldBlock)
        } else if val == 8 {
            Ok(McBlock::DiamondBlock)
        } else if val == 9 {
            Ok(McBlock::RedstoneBlock)
        } else {
            Err(())
        }
    }
}

impl TryFromSpecImpl<i32> for McBlock {
    open spec fn obeys_try_from_spec() -> bool {
        true
    }

    open spec fn try_from_spec(v: i32) -> Result<McBlock, ()> {
        match block_of(v) {
            Some(b) => Ok(b),
            None => Err(()),
        }
    }
}

/// The block kinds in the order of their numbers.
pub fn mc_blocks() -> (r: Vec<McBlock>)
    ensures
        r@.len() == 10,
        forall|i: int| 0 <= i < 10 ==> block_of(i as i32) == Some(#[trigger] r@[i]),
{
    let r = vec![
        McBlock::Air,
        McBlock::Cobblestone,
        McBlock::Granite,
        McBlock::Andesite,
        McBlock::Diorite,
        McBlock::LapisBlock,
        McBlock::IronBlock,
        McBlock::GoldBlock,
        McBlock::DiamondBlock,
        McBlock::RedstoneBlock,
    ];
    r
}

/// Exactly the numbers zero to nine name a block kind.
pub proof fn lemma_block_numbers(val: i32)
    ensures
        block_of(val) is Some <==> 0 <= val < 10,
{
}

} // verus!
