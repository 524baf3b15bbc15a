use vstd::prelude::*;

verus! {

/// The shapes the player's handheld gadget can take.
#[derive(Clone, Copy, PartialEq, Eq, Structural, Debug)]
pub enum GadgetForm {
    Pickaxe,
    Sword,
    Axe,
    Shovel,
}

/// Forms in cycling order: pickaxe, sword, axe, shovel, then back to pickaxe.
pub open spec fn spec_next(f: GadgetForm) -> GadgetForm {
    match f {
        GadgetForm::Pickaxe => GadgetForm::Sword,
        GadgetForm::Sword => GadgetForm::Axe,
        GadgetForm::Axe => GadgetForm::Shovel,
        GadgetForm::Shovel => GadgetForm::Pickaxe,
    }
}

/// The form before `f` in cycling order.
pub open spec fn spec_prev(f: GadgetForm) -> GadgetForm {
    match f {
        GadgetForm::Pickaxe => GadgetForm::Shovel,
        GadgetForm::Sword => GadgetForm::Pickaxe,
        GadgetForm::Axe => GadgetForm::Sword,
        GadgetForm::Shovel => GadgetForm::Axe,
    }
}

/// The byte a form is saved as (its position in declaration order).
pub open spec fn spec_save_id(f: GadgetForm) -> u8 {
    match f {
        GadgetForm::Pickaxe => 0,
        GadgetForm::Sword => 1,
        GadgetForm::Axe => 2,
        GadgetForm::Shovel => 3,
    }
}

/// The form read back from a saved byte; unknown bytes give the pickaxe.
pub open spec fn spec_from_save_id(id: u8) -> GadgetForm {
    if id == 1 {
        GadgetForm::Sword
    } else if id == 2 {
        GadgetForm::Axe
    } else if id == 3 {
        GadgetForm::Shovel
    } else {
        GadgetForm::Pickaxe
    }
}

impl Default for GadgetForm {
    /// The gadget starts as a pickaxe.
    fn default() -> (f: GadgetForm)
        ensures
            f == GadgetForm::Pickaxe,
    {
        GadgetForm::Pickaxe
    }
}

impl GadgetForm {
    /// The next form in the cycle.
    pub fn next(self) -> (f: GadgetForm)
        ensures
            f == spec_next(self),
    {
        match self {
            GadgetForm::Pickaxe => GadgetForm::Sword,
            GadgetForm::Sword => GadgetForm::Axe,
            GadgetForm::Axe => GadgetForm::Shovel,
            GadgetForm::Shovel => GadgetForm::Pickaxe,
        }
    }

    /// The previous form in the cycle.
    pub fn prev(self) -> (f: GadgetForm)
        ensures
            f == spec_prev(self),
    {
        match self {
            GadgetForm::Pickaxe => GadgetForm::Shovel,
            GadgetForm::Sword => GadgetForm::Pickaxe,
            GadgetForm::Axe => GadgetForm::Sword,
            GadgetForm::Shovel => GadgetForm::Axe,
        }
    }

    /// Melee damage in health points: sword 7, axe 5, pickaxe 3, shovel 2.
    pub fn attack_damage(self) -> (d: u32)
        ensures
            d == (match self {
                GadgetForm::Sword => 7u32,
                GadgetForm::Axe => 5u32,
                GadgetForm::Pickaxe => 3u32,
                GadgetForm::Shovel => 2u32,
            }),
    {
        match self {
            GadgetForm::Sword => 7,
            GadgetForm::Axe => 5,
            GadgetForm::Pickaxe => 3,
            GadgetForm::Shovel => 2,
        }
    }

    /// Melee reach in blocks: 4 for the sword, 3 otherwise.
    pub fn attack_reach(self) -> (r: u32)
        ensures
            r == (if self == GadgetForm::Sword { 4u32 } else { 3u32 }),
    {
        match self {
            GadgetForm::Sword => 4,
            _ => 3,
        }
    }

    /// Time between attacks in milliseconds: 500 for the sword, 1000 otherwise.
    pub fn attack_cooldown(self) -> (ms: u32)
        ensures
            ms == (if self == GadgetForm::Sword { 500u32 } else { 1000u32 }),
    {
        match self {
            GadgetForm::Sword => 500,
            _ => 1000,
        }
    }

    /// Mining speed factor in tenths: pickaxe 20, axe and shovel 15, sword 5.
    pub fn mining_speed_multiplier(self) -> (m: u32)
        ensures
            m == (match self {
                GadgetForm::Pickaxe => 20u32,
                GadgetForm::Axe => 15u32,
                GadgetForm::Shovel => 15u32,
                GadgetForm::Sword => 5u32,
            }),
    {
        match self {
            GadgetForm::Pickaxe => 20,
            GadgetForm::Axe => 15,
            GadgetForm::Shovel => 15,
            GadgetForm::Sword => 5,
        }
    }

    /// Name shown on the heads-up display.
    pub fn display_name(self) -> (s: &'static str)
        ensures
            s@ == (match self {
                GadgetForm::Pickaxe => "Pickaxe"@,
                GadgetForm::Sword => "Sword"@,
                GadgetForm::Axe => "Axe"@,
                GadgetForm::Shovel => "Shovel"@,
            }),
    {
        match self {
            GadgetForm::Pickaxe => "Pickaxe",
            GadgetForm::Sword => "Sword",
            GadgetForm::Axe => "Axe",
            GadgetForm::Shovel => "Shovel",
        }
    }

    /// Every form but the sword can break blocks.
    pub fn can_mine(self) -> (r: bool)
        ensures
            r == (self != GadgetForm::Sword),
    {
        !matches!(self, GadgetForm::Sword)
    }

    /// The byte this form is saved as.
    pub fn save_id(self) -> (id: u8)
        ensures
            id == spec_save_id(self),
    {
        match self {
            GadgetForm::Pickaxe => 0,
            GadgetForm::Sword => 1,
            GadgetForm::Axe => 2,
            GadgetForm::Shovel => 3,
        }
    }

    /// The form a saved byte stands for; unknown bytes give the pickaxe.
    pub fn from_save_id(id: u8) -> (f: GadgetForm)
        ensures
            f == spec_from_save_id(id),
    {
        match id {
            1 => GadgetForm::Sword,
            2 => GadgetForm::Axe,
            3 => GadgetForm::Shovel,
            _ => GadgetForm::Pickaxe,
        }
    }

    /// One frame of the switch keys: the forward key moves to the next form,
    /// then the backward key to the previous one. Returns the new form and
    /// whether any switch key was pressed.
    pub fn apply_switch_keys(self, forward: bool, backward: bool) -> (r: (GadgetForm, bool))
        ensures
            r.1 == (forward || backward),
            r.0 == (if backward {
                spec_prev(if forward { spec_next(self) } else { self })
            } else if forward {
                spec_next(self)
            } else {
                self
            }),
    {
        let mut form = self;
        let mut switched = false;
        if forward {
            form = form.next();
            switched = true;
        }
        if backward {
            form = form.prev();
            switched = true;
        }
        (form, switched)
    }
}

/// Stepping forward then back, or back then forward, returns to the same form.
pub proof fn lemma_next_prev_inverse(f: GadgetForm)
    ensures
        spec_prev(spec_next(f)) == f,
        spec_next(spec_prev(f)) == f,
{
}

/// Four steps forward go all the way round the cycle.
pub proof fn lemma_next_cycle(f: GadgetForm)
    ensures
        spec_next(spec_next(spec_next(spec_next(f)))) == f,
        spec_next(f) != f,
{
}

/// A saved form reads back as the same form.
pub proof fn lemma_save_id_roundtrip(f: GadgetForm)
    ensures
        spec_from_save_id(spec_save_id(f)) == f,
{
}

} // verus!
