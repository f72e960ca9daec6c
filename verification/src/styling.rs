//! Themes and the styles of the widgets, as plain values for a renderer.

use vstd::prelude::*;

verus! {

/// A colour by its red, green and blue parts.
#[derive(Clone, Copy, Debug, PartialEq, Eq, Structural)]
pub struct Rgb {
    /// The red part.
    pub red: u8,
    /// The green part.
    pub green: u8,
    /// The blue part.
    pub blue: u8,
}

/// The two themes of the application.
#[derive(Clone, Copy, Debug, PartialEq, Eq, Structural)]
pub enum CustomTheme {
    /// Light text on a dark ground.
    Dark,
    /// Dark text on a light ground.
    Light,
}

impl Default for CustomTheme {
    fn default() -> (theme: Self)
        ensures
            theme == CustomTheme::Dark,
    {
        CustomTheme::Dark
    }
}

impl CustomTheme {
    /// The other theme.
    pub open spec fn toggled(self) -> CustomTheme {
        match self {
            CustomTheme::Light => CustomTheme::Dark,
            CustomTheme::Dark => CustomTheme::Light,
        }
    }

    /// The dark theme, with which the application starts.
    pub fn new() -> (theme: Self)
        ensures
            theme == CustomTheme::Dark,
    {
        CustomTheme::Dark
    }

    /// The colour behind everything.
    pub fn background_color(&self) -> (color: Rgb)
        ensures
            color == match *self {
                CustomTheme::Dark => (Rgb { red: 30, green: 30, blue: 30 }),
                CustomTheme::Light => (Rgb { red: 255, green: 255, blue: 255 }),
            },
    {
        match self {
            CustomTheme::Dark => Rgb { red: 30, green: 30, blue: 30 },
            CustomTheme::Light => Rgb { red: 255, green: 255, blue: 255 },
        }
    }

    /// The colour of text.
    pub fn text_color(&self) -> (color: Rgb)
        ensures
            color == match *self {
                CustomTheme::Dark => (Rgb { red: 221, green: 221, blue: 221 }),
                CustomTheme::Light => (Rgb { red: 0, green: 0, blue: 0 }),
            },
    {
        match self {
            CustomTheme::Dark => Rgb { red: 221, green: 221, blue: 221 },
            CustomTheme::Light => Rgb { red: 0, green: 0, blue: 0 },
        }
    }

    /// The colour of what is selected or can be pressed.
    pub fn primary_color(&self) -> (color: Rgb)
        ensures
            color == match *self {
                CustomTheme::Dark => (Rgb { red: 10, green: 132, blue: 255 }),
                CustomTheme::Light => (Rgb { red: 0, green: 122, blue: 255 }),
            },
    {
        match self {
            CustomTheme::Dark => Rgb { red: 10, green: 132, blue: 255 },
            CustomTheme::Light => Rgb { red: 0, green: 122, blue: 255 },
        }
    }

    /// The colour of what went well.
    pub fn success_color(&self) -> (color: Rgb)
        ensures
            color == match *self {
                CustomTheme::Dark => (Rgb { red: 48, green: 209, blue: 81 }),
                CustomTheme::Light => (Rgb { red: 52, green: 199, blue: 89 }),
            },
    {
        match self {
            CustomTheme::Dark => Rgb { red: 48, green: 209, blue: 81 },
            CustomTheme::Light => Rgb { red: 52, green: 199, blue: 89 },
        }
    }

    /// The colour of what destroys or went wrong.
    pub fn danger_color(&self) -> (color: Rgb)
        ensures
            color == match *self {
                CustomTheme::Dark => (Rgb { red: 255, green: 69, blue: 58 }),
                CustomTheme::Light => (Rgb { red: 255, green: 59, blue: 48 }),
            },
    {
        match self {
            CustomTheme::Dark => Rgb { red: 255, green: 69, blue: 58 },
            CustomTheme::Light => Rgb { red: 255, green: 59, blue: 48 },
        }
    }

    /// The other theme.
    pub fn toggle(self) -> (theme: Self)
        ensures
            theme == self.toggled(),
    {
        match self {
            CustomTheme::Light => CustomTheme::Dark,
            CustomTheme::Dark => CustomTheme::Light,
        }
    }
}

/// Toggling changes the theme, and toggling twice gives the first theme back.
pub proof fn lemma_toggle_twice(theme: CustomTheme)
    ensures
        theme.toggled() != theme,
        theme.toggled().toggled() == theme,
{
}

/// The kinds of toolbar button.
#[derive(Clone, Copy, Debug, PartialEq, Eq, Structural)]
pub enum ToolbarButtonStyle {
    /// In the primary colour.
    Default,
    /// In the colour of danger.
    Destructive,
    /// In the colour of text.
    Text,
}

impl Default for ToolbarButtonStyle {
    fn default() -> (style: Self)
        ensures
            style == ToolbarButtonStyle::Default,
    {
        ToolbarButtonStyle::Default
    }
}

/// The style of a toolbar button.
#[derive(Clone, Copy, Debug, PartialEq, Eq, Structural)]
pub struct ToolbarButton(ToolbarButtonStyle);

impl View for ToolbarButton {
    type V = ToolbarButtonStyle;

    closed spec fn view(&self) -> ToolbarButtonStyle {
        self.0
    }
}

impl Default for ToolbarButton {
    fn default() -> (button: Self)
        ensures
            button@ == ToolbarButtonStyle::Default,
    {
        ToolbarButton(ToolbarButtonStyle::Default)
    }
}

impl ToolbarButton {
    /// The style of a button that destroys something.
    pub fn destructive() -> (button: Self)
        ensures
            button@ == ToolbarButtonStyle::Destructive,
    {
        ToolbarButton(ToolbarButtonStyle::Destructive)
    }

    /// The style of a button that looks like text.
    pub fn text() -> (button: Self)
        ensures
            button@ == ToolbarButtonStyle::Text,
    {
        ToolbarButton(ToolbarButtonStyle::Text)
    }

    /// The kind of the button.
    pub fn style(&self) -> (style: ToolbarButtonStyle)
        ensures
            style == self@,
    {
        self.0
    }
}

/// The kinds of container.
#[derive(Clone, Copy, Debug, PartialEq, Eq, Structural)]
pub enum CustomContainerStyle {
    /// On the background of the theme.
    Default,
    /// A little lighter than the background.
    Toolbar,
    /// Lighter than the toolbar.
    Sidebar,
}

impl Default for CustomContainerStyle {
    fn default() -> (style: Self)
        ensures
            style == CustomContainerStyle::Default,
    {
        CustomContainerStyle::Default
    }
}

/// The style of a container.
#[derive(Clone, Copy, Debug, PartialEq, Eq, Structural)]
pub struct CustomContainer(CustomContainerStyle);

impl View for CustomContainer {
    type V = CustomContainerStyle;

    closed spec fn view(&self) -> CustomContainerStyle {
        self.0
    }
}

impl Default for CustomContainer {
    fn default() -> (container: Self)
        ensures
            container@ == CustomContainerStyle::Default,
    {
        CustomContainer(CustomContainerStyle::Default)
    }
}

impl CustomContainer {
    /// The style of the toolbar.
    pub fn toolbar() -> (container: Self)
        ensures
            container@ == CustomContainerStyle::Toolbar,
    {
        CustomContainer(CustomContainerStyle::Toolbar)
    }

    /// The style of the sidebar.
    pub fn sidebar() -> (container: Self)
        ensures
            container@ == CustomContainerStyle::Sidebar,
    {
        CustomContainer(CustomContainerStyle::Sidebar)
    }

    /// The kind of the container.
    pub fn style(&self) -> (style: CustomContainerStyle)
        ensures
            style == self@,
    {
        self.0
    }
}

/// The kinds of button that stand for one icon or one category.
#[derive(Clone, Copy, Debug, PartialEq, Eq, Structural)]
pub enum RowButtonStyle {
    /// Without ground or border.
    Default,
    /// Without ground, with a faint border.
    LightlyBordered,
    /// On the primary colour, with a border.
    Selected,
}

impl Default for RowButtonStyle {
    fn default() -> (style: Self)
        ensures
            style == RowButtonStyle::Default,
    {
        RowButtonStyle::Default
    }
}

/// The style of a button that stands for one icon or one category.
#[derive(Clone, Copy, Debug, PartialEq, Eq, Structural)]
pub struct RowButton(RowButtonStyle);

impl View for RowButton {
    type V = RowButtonStyle;

    closed spec fn view(&self) -> RowButtonStyle {
        self.0
    }
}

impl Default for RowButton {
    fn default() -> (button: Self)
        ensures
            button@ == RowButtonStyle::Default,
    {
        RowButton(RowButtonStyle::Default)
    }
}

impl RowButton {
    /// The style of a button in a list: marked where it is selected, plain
    /// where it is not.
    pub fn new(selected: bool) -> (button: Self)
        ensures
            button@ == if selected {
                RowButtonStyle::Selected
            } else {
                RowButtonStyle::Default
            },
    {
        if selected {
            Self::selected()
        } else {
            RowButton(RowButtonStyle::Default)
        }
    }

    /// The style of a button in a grid: marked where it is selected, with a
    /// light border where it is not.
    pub fn new_bordered(selected: bool) -> (button: Self)
        ensures
            button@ == if selected {
                RowButtonStyle::Selected
            } else {
                RowButtonStyle::LightlyBordered
            },
    {
        if selected {
            Self::selected()
        } else {
            Self::lightly_bordered()
        }
    }

    /// The style of the selected button.
    pub fn selected() -> (button: Self)
        ensures
            button@ == RowButtonStyle::Selected,
    {
        RowButton(RowButtonStyle::Selected)
    }

    /// The style of a button with a light border.
    pub fn lightly_bordered() -> (button: Self)
        ensures
            button@ == RowButtonStyle::LightlyBordered,
    {
        RowButton(RowButtonStyle::LightlyBordered)
    }

    /// The kind of the button.
    pub fn style(&self) -> (style: RowButtonStyle)
        ensures
            style == self@,
    {
        self.0
    }
}

/// The kinds of dividing rule.
#[derive(Clone, Copy, Debug, PartialEq, Eq, Structural)]
pub enum CustomRuleStyle {
    /// A faint line in the colour of text.
    Default,
    /// A black line.
    Dark,
}

impl Default for CustomRuleStyle {
    fn default() -> (style: Self)
        ensures
            style == CustomRuleStyle::Default,
    {
        CustomRuleStyle::Default
    }
}

/// The style of a dividing rule.
#[derive(Clone, Copy, Debug, PartialEq, Eq, Structural)]
pub struct CustomRule(CustomRuleStyle);

impl View for CustomRule {
    type V = CustomRuleStyle;

    closed spec fn view(&self) -> CustomRuleStyle {
        self.0
    }
}

impl Default for CustomRule {
    fn default() -> (rule: Self)
        ensures
            rule@ == CustomRuleStyle::Default,
    {
        CustomRule(CustomRuleStyle::Default)
    }
}

impl CustomRule {
    /// The style of a dark rule.
    pub fn dark() -> (rule: Self)
        ensures
            rule@ == CustomRuleStyle::Dark,
    {
        CustomRule(CustomRuleStyle::Dark)
    }

    /// The kind of the rule.
    pub fn style(&self) -> (style: CustomRuleStyle)
        ensures
            style == self@,
    {
        self.0
    }
}

} // verus!
