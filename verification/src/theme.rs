use vstd::prelude::*;

verus! {

/// The color themes the interface can cycle through.
#[derive(Clone, Copy, Debug, PartialEq, Eq, Structural)]
pub enum ThemeName {
    Default,
    Dracula,
    Catppuccin,
    Nord,
    Gruvbox,
}

impl ThemeName {
    pub open spec fn next_spec(self) -> ThemeName {
        match self {
            ThemeName::Default => ThemeName::Dracula,
            ThemeName::Dracula => ThemeName::Catppuccin,
            ThemeName::Catppuccin => ThemeName::Nord,
            ThemeName::Nord => ThemeName::Gruvbox,
            ThemeName::Gruvbox => ThemeName::Default,
        }
    }

    /// The theme after this one, cycling around.
    pub fn next(self) -> (r: Self)
        ensures
            r == self.next_spec(),
    {
        match self {
            ThemeName::Default => ThemeName::Dracula,
            ThemeName::Dracula => ThemeName::Catppuccin,
            ThemeName::Catppuccin => ThemeName::Nord,
            ThemeName::Nord => ThemeName::Gruvbox,
            ThemeName::Gruvbox => ThemeName::Default,
        }
    }

    pub open spec fn label_spec(self) -> Seq<char> {
        match self {
            ThemeName::Default => ("Default")@,
            ThemeName::Dracula => ("Dracula")@,
            ThemeName::Catppuccin => ("Catppuccin")@,
            ThemeName::Nord => ("Nord")@,
            ThemeName::Gruvbox => ("Gruvbox")@,
        }
    }

    pub fn label(self) -> (r: &'static str)
        ensures
            r@ == self.label_spec(),
    {
        match self {
            ThemeName::Default => "Default",
            ThemeName::Dracula => "Dracula",
            ThemeName::Catppuccin => "Catppuccin",
            ThemeName::Nord => "Nord",
            ThemeName::Gruvbox => "Gruvbox",
        }
    }
}

} // verus!
