use material_icon_browser::styling::{
    CustomContainer, CustomContainerStyle, CustomRule, CustomRuleStyle, CustomTheme, Rgb,
    RowButton, RowButtonStyle, ToolbarButton, ToolbarButtonStyle,
};

#[test]
fn toggle_switches_between_the_themes() {
    assert_eq!(CustomTheme::Dark.toggle(), CustomTheme::Light);
    assert_eq!(CustomTheme::Light.toggle(), CustomTheme::Dark);
    assert_eq!(CustomTheme::Dark.toggle().toggle(), CustomTheme::Dark);
    assert_eq!(CustomTheme::default(), CustomTheme::Dark);
    assert_eq!(CustomTheme::new(), CustomTheme::Dark);
}

#[test]
fn the_palettes_of_the_themes() {
    let dark = CustomTheme::Dark;
    assert_eq!(dark.background_color(), Rgb { red: 30, green: 30, blue: 30 });
    assert_eq!(dark.text_color(), Rgb { red: 221, green: 221, blue: 221 });
    assert_eq!(dark.primary_color(), Rgb { red: 10, green: 132, blue: 255 });
    assert_eq!(dark.success_color(), Rgb { red: 48, green: 209, blue: 81 });
    assert_eq!(dark.danger_color(), Rgb { red: 255, green: 69, blue: 58 });
    let light = CustomTheme::Light;
    assert_eq!(light.background_color(), Rgb { red: 255, green: 255, blue: 255 });
    assert_eq!(light.text_color(), Rgb { red: 0, green: 0, blue: 0 });
    assert_eq!(light.primary_color(), Rgb { red: 0, green: 122, blue: 255 });
    assert_eq!(light.success_color(), Rgb { red: 52, green: 199, blue: 89 });
    assert_eq!(light.danger_color(), Rgb { red: 255, green: 59, blue: 48 });
}

#[test]
fn toolbar_button_styles() {
    assert_eq!(ToolbarButton::default().style(), ToolbarButtonStyle::Default);
    assert_eq!(ToolbarButton::destructive().style(), ToolbarButtonStyle::Destructive);
    assert_eq!(ToolbarButton::text().style(), ToolbarButtonStyle::Text);
    assert_eq!(ToolbarButtonStyle::default(), ToolbarButtonStyle::Default);
}

#[test]
fn container_styles() {
    assert_eq!(CustomContainer::default().style(), CustomContainerStyle::Default);
    assert_eq!(CustomContainer::toolbar().style(), CustomContainerStyle::Toolbar);
    assert_eq!(CustomContainer::sidebar().style(), CustomContainerStyle::Sidebar);
    assert_eq!(CustomContainerStyle::default(), CustomContainerStyle::Default);
}

#[test]
fn row_button_styles() {
    assert_eq!(RowButton::default().style(), RowButtonStyle::Default);
    assert_eq!(RowButton::new(true).style(), RowButtonStyle::Selected);
    assert_eq!(RowButton::new(false).style(), RowButtonStyle::Default);
    assert_eq!(RowButton::new_bordered(true).style(), RowButtonStyle::Selected);
    assert_eq!(RowButton::new_bordered(false).style(), RowButtonStyle::LightlyBordered);
    assert_eq!(RowButton::selected().style(), RowButtonStyle::Selected);
    assert_eq!(RowButton::lightly_bordered().style(), RowButtonStyle::LightlyBordered);
    assert_eq!(RowButtonStyle::default(), RowButtonStyle::Default);
}

#[test]
fn rule_styles() {
    assert_eq!(CustomRule::default().style(), CustomRuleStyle::Default);
    assert_eq!(CustomRule::dark().style(), CustomRuleStyle::Dark);
    assert_eq!(CustomRuleStyle::default(), CustomRuleStyle::Default);
}
