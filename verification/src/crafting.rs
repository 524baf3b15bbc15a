use vstd::prelude::*;

use crate::item::{ItemStack, ItemType, MAX_STACK};
use crate::voxel::BlockType;

verus! {


/// A shaped recipe: the exact 2x2 pattern and what it makes.
#[derive(Clone, Copy)]
pub struct Recipe {
    pub grid: [[Option<ItemType>; 2]; 2],
    pub result: ItemStack,
}

/// All known recipes, tried in order.
pub struct RecipeRegistry {
    pub recipes: Vec<Recipe>,
}

/// Whether two patterns agree cell by cell.
pub open spec fn grids_equal(a: [[Option<ItemType>; 2]; 2], b: [[Option<ItemType>; 2]; 2]) -> bool {
    &&& a[0][0] == b[0][0]
    &&& a[0][1] == b[0][1]
    &&& a[1][0] == b[1][0]
    &&& a[1][1] == b[1][1]
}

/// Build a pattern from its four cells, row by row.
pub open spec fn spec_grid(
    a: Option<ItemType>,
    b: Option<ItemType>,
    c: Option<ItemType>,
    d: Option<ItemType>,
) -> [[Option<ItemType>; 2]; 2] {
    [[a, b], [c, d]]
}

/// The built-in recipes: one wood in any cell makes four planks, four
/// cobblestone make one stone, four sand make four cobblestone.
pub open spec fn default_recipes() -> Seq<Recipe> {
    let wood = Some(ItemType::Block(BlockType::Wood));
    let cobble = Some(ItemType::Block(BlockType::Cobblestone));
    let sand = Some(ItemType::Block(BlockType::Sand));
    let planks = ItemStack { item: ItemType::Block(BlockType::Planks), count: 4 };
    seq![
        Recipe { grid: spec_grid(wood, None, None, None), result: planks },
        Recipe { grid: spec_grid(None, wood, None, None), result: planks },
        Recipe { grid: spec_grid(None, None, wood, None), result: planks },
        Recipe { grid: spec_grid(None, None, None, wood), result: planks },
        Recipe {
            grid: spec_grid(cobble, cobble, cobble, cobble),
            result: ItemStack { item: ItemType::Block(BlockType::Stone), count: 1 },
        },
        Recipe {
            grid: spec_grid(sand, sand, sand, sand),
            result: ItemStack { item: ItemType::Block(BlockType::Cobblestone), count: 4 },
        },
    ]
}

fn opt_item_eq(a: Option<ItemType>, b: Option<ItemType>) -> (r: bool)
    ensures
        r == (a == b),
{
    match (a, b) {
        (None, None) => true,
        (Some(x), Some(y)) => x == y,
        _ => false,
    }
}

fn make_grid(
    a: Option<ItemType>,
    b: Option<ItemType>,
    c: Option<ItemType>,
    d: Option<ItemType>,
) -> (g: [[Option<ItemType>; 2]; 2])
    ensures
        grids_equal(g, spec_grid(a, b, c, d)),
{
    [[a, b], [c, d]]
}

fn grid_eq(a: &[[Option<ItemType>; 2]; 2], b: &[[Option<ItemType>; 2]; 2]) -> (r: bool)
    ensures
        r == grids_equal(*a, *b),
{
    opt_item_eq(a[0][0], b[0][0]) && opt_item_eq(a[0][1], b[0][1]) && opt_item_eq(a[1][0], b[1][0])
        && opt_item_eq(a[1][1], b[1][1])
}

impl Default for RecipeRegistry {
    /// A registry with no recipes.
    fn default() -> (r: RecipeRegistry)
        ensures
            r.recipes@.len() == 0,
    {
        RecipeRegistry { recipes: Vec::new() }
    }
}

impl RecipeRegistry {
    /// Append the built-in recipes.
    pub fn register_defaults(&mut self)
        ensures
            final(self).recipes@.len() == old(self).recipes@.len() + 6,
            final(self).recipes@.take(old(self).recipes@.len() as int) == old(self).recipes@,
            forall|i: int| 0 <= i < 6 ==> {
                let r = #[trigger] final(self).recipes@[old(self).recipes@.len() + i];
                &&& grids_equal(r.grid, default_recipes()[i].grid)
                &&& r.result == default_recipes()[i].result
            },
    {
        let wood = Some(ItemType::Block(BlockType::Wood));
        let planks = ItemStack::block(BlockType::Planks, 4);
        self.recipes.push(Recipe { grid: make_grid(wood, None, None, None), result: planks });
        self.recipes.push(Recipe { grid: make_grid(None, wood, None, None), result: planks });
        self.recipes.push(Recipe { grid: make_grid(None, None, wood, None), result: planks });
        self.recipes.push(Recipe { grid: make_grid(None, None, None, wood), result: planks });
        let cobble = Some(ItemType::Block(BlockType::Cobblestone));
        self.recipes.push(Recipe {
            grid: make_grid(cobble, cobble, cobble, cobble),
            result: ItemStack::block(BlockType::Stone, 1),
        });
        let sand = Some(ItemType::Block(BlockType::Sand));
        self.recipes.push(Recipe {
            grid: make_grid(sand, sand, sand, sand),
            result: ItemStack::block(BlockType::Cobblestone, 4),
        });
        let ghost n = old(self).recipes@.len();
        assert(self.recipes@.take(n as int) =~= old(self).recipes@);
    }

    /// The first recipe whose pattern equals `grid`, if any.
    pub fn find_match(&self, grid: &[[Option<ItemType>; 2]; 2]) -> (r: Option<&Recipe>)
        ensures
            r is None <==> forall|i: int| 0 <= i < self.recipes@.len() ==> !grids_equal(#[trigger] self.recipes@[i].grid, *grid),
            r matches Some(rec) ==> exists|i: int| {
                &&& 0 <= i < self.recipes@.len()
                &&& #[trigger] self.recipes@[i] == *rec
                &&& grids_equal(rec.grid, *grid)
                &&& forall|j: int| 0 <= j < i ==> !grids_equal(#[trigger] self.recipes@[j].grid, *grid)
            },
    {
        let mut i: usize = 0;
        while i < self.recipes.len()
            invariant
                i <= self.recipes@.len(),
                forall|j: int| 0 <= j < i ==> !grids_equal(#[trigger] self.recipes@[j].grid, *grid),
            decreases self.recipes@.len() - i,
        {
            if grid_eq(&self.recipes[i].grid, grid) {
                return Some(&self.recipes[i]);
            }
            i += 1;
        }
        None
    }
}

/// The 2x2 crafting area of the inventory screen.
pub struct CraftingGrid {
    pub slots: [Option<ItemStack>; 4],
}

/// The item kind in one crafting cell.
pub open spec fn cell_item(s: Option<ItemStack>) -> Option<ItemType> {
    match s {
        Some(st) => Some(st.item),
        None => None,
    }
}

/// A crafting cell after one item is used up from it.
pub open spec fn consume_one(s: Option<ItemStack>) -> Option<ItemStack> {
    match s {
        Some(st) => if st.count <= 1 { None } else { Some(ItemStack { item: st.item, count: (st.count - 1) as u32 }) },
        None => None,
    }
}

/// Whether the result can join what the cursor holds: the cursor is empty, or
/// holds the same item with room for the whole result.
pub open spec fn cursor_accepts(cursor: Option<ItemStack>, result: ItemStack) -> bool {
    match cursor {
        None => true,
        Some(c) => c.item == result.item && c.count + result.count <= MAX_STACK,
    }
}

/// What the cursor holds after taking a crafted result.
pub open spec fn cursor_after(cursor: Option<ItemStack>, result: ItemStack) -> Option<ItemStack> {
    match cursor {
        None => Some(result),
        Some(c) => Some(ItemStack { item: c.item, count: (c.count + result.count) as u32 }),
    }
}

fn take_one(s: Option<ItemStack>) -> (r: Option<ItemStack>)
    requires
        s matches Some(st) ==> st.count >= 1,
    ensures
        r == consume_one(s),
{
    match s {
        Some(st) => if st.count == 1 { None } else { Some(ItemStack { item: st.item, count: st.count - 1 }) },
        None => None,
    }
}

impl Default for CraftingGrid {
    /// An empty crafting area.
    fn default() -> (g: CraftingGrid)
        ensures
            forall|i: int| 0 <= i < 4 ==> (#[trigger] g.slots@[i]) is None,
    {
        CraftingGrid { slots: [None; 4] }
    }
}

impl CraftingGrid {
    /// The pattern laid out in the crafting area (cells 0, 1 on top, 2, 3 below).
    pub open spec fn spec_pattern(&self) -> [[Option<ItemType>; 2]; 2] {
        spec_grid(
            cell_item(self.slots@[0]),
            cell_item(self.slots@[1]),
            cell_item(self.slots@[2]),
            cell_item(self.slots@[3]),
        )
    }

    /// The pattern laid out in the crafting area.
    pub fn pattern(&self) -> (g: [[Option<ItemType>; 2]; 2])
        ensures
            grids_equal(g, self.spec_pattern()),
    {
        let c0 = match self.slots[0] { Some(s) => Some(s.item), None => None };
        let c1 = match self.slots[1] { Some(s) => Some(s.item), None => None };
        let c2 = match self.slots[2] { Some(s) => Some(s.item), None => None };
        let c3 = match self.slots[3] { Some(s) => Some(s.item), None => None };
        make_grid(c0, c1, c2, c3)
    }

    /// Clicking a crafting cell swaps its contents with the cursor.
    pub fn click_slot(&mut self, slot: usize, cursor: &mut Option<ItemStack>)
        requires
            slot < 4,
        ensures
            final(self).slots@ == old(self).slots@.update(slot as int, *old(cursor)),
            *final(cursor) == old(self).slots@[slot as int],
    {
        let temp = self.slots[slot];
        self.slots[slot] = *cursor;
        *cursor = temp;
    }

    /// Clicking the output cell: when the pattern matches a recipe and the
    /// cursor can take the result, use one item from every filled cell and
    /// add the result to the cursor. Returns whether something was crafted.
    pub fn craft(&mut self, registry: &RecipeRegistry, cursor: &mut Option<ItemStack>) -> (crafted: bool)
        requires
            forall|i: int| 0 <= i < 4 ==> ((#[trigger] old(self).slots@[i]) matches Some(st) ==> st.count >= 1),
        ensures
            ({
                let pat = old(self).spec_pattern();
                let found = exists|i: int| 0 <= i < registry.recipes@.len()
                    && grids_equal(#[trigger] registry.recipes@[i].grid, pat);
                &&& !found ==> !crafted
                &&& found ==> exists|i: int| {
                    &&& 0 <= i < registry.recipes@.len()
                    &&& grids_equal(#[trigger] registry.recipes@[i].grid, pat)
                    &&& forall|j: int| 0 <= j < i ==> !grids_equal(#[trigger] registry.recipes@[j].grid, pat)
                    &&& crafted == cursor_accepts(*old(cursor), registry.recipes@[i].result)
                    &&& crafted ==> *final(cursor) == cursor_after(*old(cursor), registry.recipes@[i].result)
                }
            }),
            crafted ==> forall|i: int| 0 <= i < 4 ==> #[trigger] final(self).slots@[i] == consume_one(old(self).slots@[i]),
            !crafted ==> final(self).slots@ == old(self).slots@ && *final(cursor) == *old(cursor),
    {
        let grid = self.pattern();
        let recipe = match registry.find_match(&grid) {
            Some(r) => r,
            None => return false,
        };
        let result = recipe.result;
        let can_craft = match *cursor {
            None => true,
            Some(existing) => existing.item == result.item && existing.count <= MAX_STACK
                && result.count <= MAX_STACK - existing.count,
        };
        if !can_craft {
            return false;
        }
        let mut i: usize = 0;
        while i < 4
            invariant
                i <= 4,
                forall|j: int| 0 <= j < i ==> #[trigger] self.slots@[j] == consume_one(old(self).slots@[j]),
                forall|j: int| i <= j < 4 ==> #[trigger] self.slots@[j] == old(self).slots@[j],
                forall|j: int| 0 <= j < 4 ==> ((#[trigger] old(self).slots@[j]) matches Some(st) ==> st.count >= 1),
            decreases 4 - i,
        {
            let s = self.slots[i];
            self.slots[i] = take_one(s);
            i += 1;
        }
        *cursor = match *cursor {
            Some(existing) => Some(ItemStack { item: existing.item, count: existing.count + result.count }),
            None => Some(result),
        };
        true
    }
}

} // verus!
