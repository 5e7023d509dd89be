//! State of the choice dialog and of the item window's modes.
use vstd::prelude::*;
use crate::chara::CharaId;
use crate::item::ItemListLocation;

verus! {

/// Horizontal placement of a window.
#[derive(Clone, Copy, Debug, PartialEq, Eq, Structural)]
pub enum WindowHPos {
    Center,
    LeftX(i32),
    RightX(i32),
}

/// Vertical placement of a window.
#[derive(Clone, Copy, Debug, PartialEq, Eq, Structural)]
pub enum WindowVPos {
    Center,
    TopMargin(i32),
    BottomMargin(i32),
}

/// Where a window is placed on the screen.
#[derive(Clone, Copy, Debug, PartialEq, Eq, Structural)]
pub struct WindowPos {
    pub h: WindowHPos,
    pub v: WindowVPos,
}

/// A dialog that offers a list of choices.
#[derive(Debug)]
pub struct ChooseWindow {
    winpos: WindowPos,
    choices: Vec<String>,
    default_choose: Option<u32>,
}

impl ChooseWindow {
    pub closed spec fn winpos_spec(&self) -> WindowPos {
        self.winpos
    }

    /// The texts of the choices, in order.
    pub closed spec fn choices_spec(&self) -> Seq<Seq<char>> {
        self.choices@.map_values(|s: String| s@)
    }

    /// The choice returned when the dialog is cancelled.
    pub closed spec fn default_choose_spec(&self) -> Option<u32> {
        self.default_choose
    }

    pub fn new(winpos: WindowPos, choices: Vec<String>, default_choose: Option<u32>) -> (r: ChooseWindow)
        ensures
            r.winpos_spec() == winpos,
            r.choices_spec() == choices@.map_values(|s: String| s@),
            r.default_choose_spec() == default_choose,
    {
        ChooseWindow { winpos, choices, default_choose }
    }

    /// A dialog with the two choices "Yes" and "No". On cancel it returns
    /// the index of `default_choose`: zero for yes, one for no.
    pub fn with_yesno(winpos: WindowPos, default_choose: Option<bool>) -> (r: ChooseWindow)
        ensures
            r.winpos_spec() == winpos,
            r.choices_spec() == seq!["Yes"@, "No"@],
            r.default_choose_spec() == match default_choose {
                Some(a) => Some(if a { 0u32 } else { 1u32 }),
                None => None::<u32>,
            },
    {
        let mut choices: Vec<String> = Vec::new();
        choices.push("Yes".to_owned());
        choices.push("No".to_owned());
        let default_choose = match default_choose {
            Some(a) => Some(if a { 0u32 } else { 1u32 }),
            None => None,
        };
        let r = ChooseWindow::new(winpos, choices, default_choose);
        proof {
            assert(r.choices_spec() =~= seq!["Yes"@, "No"@]);
        }
        r
    }

    pub fn set_winpos(&mut self, winpos: WindowPos)
        ensures
            final(self).winpos_spec() == winpos,
            final(self).choices_spec() == old(self).choices_spec(),
            final(self).default_choose_spec() == old(self).default_choose_spec(),
    {
        self.winpos = winpos;
    }

    pub fn winpos(&self) -> (r: WindowPos)
        ensures
            r == self.winpos_spec(),
    {
        self.winpos
    }

    pub fn default_choose(&self) -> (r: Option<u32>)
        ensures
            r == self.default_choose_spec(),
    {
        self.default_choose
    }

    pub fn choices(&self) -> (r: &Vec<String>)
        ensures
            r@.map_values(|s: String| s@) == self.choices_spec(),
    {
        &self.choices
    }
}

/// What the item window lists, and what choosing an item does.
#[derive(Clone, Copy, Debug, PartialEq, Eq, Structural)]
pub enum ItemWindowMode {
    List,
    PickUp,
    Drop,
    Throw,
    Drink,
    Eat,
    Use,
    Release,
    Read,
    ShopSell,
    ShopBuy { cid: CharaId },
    Select { ill: ItemListLocation },
}

impl ItemWindowMode {
    /// The modes that are tabs of the main item window.
    pub open spec fn is_main_mode_spec(self) -> bool {
        match self {
            ItemWindowMode::List | ItemWindowMode::Drop | ItemWindowMode::Throw | ItemWindowMode::Drink
            | ItemWindowMode::Eat | ItemWindowMode::Use | ItemWindowMode::Release | ItemWindowMode::Read => true,
            _ => false,
        }
    }

    pub fn is_main_mode(&self) -> (r: bool)
        ensures
            r == self.is_main_mode_spec(),
    {
        match self {
            ItemWindowMode::List | ItemWindowMode::Drop | ItemWindowMode::Throw | ItemWindowMode::Drink
            | ItemWindowMode::Eat | ItemWindowMode::Use | ItemWindowMode::Release | ItemWindowMode::Read => true,
            _ => false,
        }
    }
}

} // verus!
