//! Per-type style overrides and the merge that layers them over the [`Theme`].
//!
//! Every field of [`StyleOverrides`] is optional: `None` means "inherit from the theme".

use vstd::prelude::*;

use crate::names::NameMap;
use crate::number::F32;
use crate::theme;
use crate::theme::{AnimProfileRef, Color, SpringPreset, SurfaceFinish, Theme};

verus! {

/// A type's optional overrides. Anything set here wins over the theme.
#[derive(Debug)]
pub struct StyleOverrides {
    pub min_width: Option<u32>,
    pub max_width: Option<u32>,
    pub height: Option<u32>,
    pub corner_radius: Option<F32>,
    pub background: Option<Color>,
    pub blur: Option<bool>,
    pub shadow: Option<Color>,
    pub shadow_radius: Option<F32>,
    pub shadow_offset_y: Option<F32>,
    pub shadow_spread: Option<F32>,
    pub finish: Option<SurfaceFinish>,
    pub finish_intensity: Option<u8>,
    pub finish_color: Option<Color>,
    pub margin_top: Option<u32>,
    pub title_color: Option<Color>,
    pub subtitle_color: Option<Color>,
    pub accent: Option<Color>,
    pub icon_color: Option<Color>,
    pub font_ui: Option<String>,
    pub title_px: Option<F32>,
    pub subtitle_px: Option<F32>,
    pub timeout_ms: Option<u32>,
    pub priority: Option<i32>,
    /// Replaces the type's animation profile.
    pub anim_profile: Option<String>,
    /// Inline spring tuning, consulted before the theme's presets.
    pub springs: Option<NameMap<SpringPreset>>,
}

impl StyleOverrides {
    /// Whether nothing that shapes the look is set.
    pub open spec fn inherits_style(self) -> bool {
        &&& self.min_width is None
        &&& self.max_width is None
        &&& self.height is None
        &&& self.corner_radius is None
        &&& self.background is None
        &&& self.blur is None
        &&& self.shadow is None
        &&& self.shadow_radius is None
        &&& self.shadow_offset_y is None
        &&& self.shadow_spread is None
        &&& self.finish is None
        &&& self.finish_intensity is None
        &&& self.finish_color is None
        &&& self.margin_top is None
        &&& self.title_color is None
        &&& self.subtitle_color is None
        &&& self.accent is None
        &&& self.icon_color is None
        &&& self.font_ui is None
        &&& self.title_px is None
        &&& self.subtitle_px is None
    }

    /// Whether nothing that shapes the animation is set.
    pub open spec fn inherits_anim(self) -> bool {
        self.anim_profile is None && self.springs is None
    }

    /// Whether nothing is set.
    pub open spec fn is_empty(self) -> bool {
        &&& self.inherits_style()
        &&& self.inherits_anim()
        &&& self.timeout_ms is None
        &&& self.priority is None
    }
}

impl Default for StyleOverrides {
    fn default() -> (r: Self)
        ensures
            r.is_empty(),
    {
        StyleOverrides {
            min_width: None,
            max_width: None,
            height: None,
            corner_radius: None,
            background: None,
            blur: None,
            shadow: None,
            shadow_radius: None,
            shadow_offset_y: None,
            shadow_spread: None,
            finish: None,
            finish_intensity: None,
            finish_color: None,
            margin_top: None,
            title_color: None,
            subtitle_color: None,
            accent: None,
            icon_color: None,
            font_ui: None,
            title_px: None,
            subtitle_px: None,
            timeout_ms: None,
            priority: None,
            anim_profile: None,
            springs: None,
        }
    }
}

/// Concrete visual style of one notification.
#[derive(Debug, PartialEq, Eq)]
pub struct ResolvedStyle {
    pub min_width: u32,
    pub max_width: u32,
    pub height: u32,
    pub corner_radius: F32,
    pub background: Color,
    pub blur: bool,
    pub shadow: Option<Color>,
    pub shadow_radius: F32,
    pub shadow_offset_y: F32,
    pub shadow_spread: F32,
    pub finish: SurfaceFinish,
    pub finish_intensity: u8,
    pub finish_color: Color,
    pub margin_top: u32,
    pub title_color: Color,
    pub subtitle_color: Color,
    pub accent: Color,
    pub icon_color: Color,
    pub font_ui: String,
    pub title_px: F32,
    pub subtitle_px: F32,
}

impl Clone for ResolvedStyle {
    fn clone(&self) -> (r: Self)
        ensures
            r == *self,
    {
        ResolvedStyle {
            min_width: self.min_width,
            max_width: self.max_width,
            height: self.height,
            corner_radius: self.corner_radius,
            background: self.background,
            blur: self.blur,
            shadow: self.shadow,
            shadow_radius: self.shadow_radius,
            shadow_offset_y: self.shadow_offset_y,
            shadow_spread: self.shadow_spread,
            finish: self.finish,
            finish_intensity: self.finish_intensity,
            finish_color: self.finish_color,
            margin_top: self.margin_top,
            title_color: self.title_color,
            subtitle_color: self.subtitle_color,
            accent: self.accent,
            icon_color: self.icon_color,
            font_ui: self.font_ui.clone(),
            title_px: self.title_px,
            subtitle_px: self.subtitle_px,
        }
    }
}

/// Concrete spring parameters of each animated property.
#[derive(Clone, Copy, Debug, PartialEq, Eq, Structural)]
pub struct ResolvedAnimProfile {
    pub geometry: SpringPreset,
    pub opacity: SpringPreset,
    pub scale: SpringPreset,
    pub crossfade: SpringPreset,
    pub translate_y: SpringPreset,
}

/// The override when it is set, else the theme's value.
pub open spec fn pick<T>(set: Option<T>, inherited: T) -> T {
    match set {
        Some(v) => v,
        None => inherited,
    }
}

/// The theme with the overrides layered over it, field by field.
pub open spec fn layered(theme: Theme, o: StyleOverrides) -> ResolvedStyle {
    ResolvedStyle {
        min_width: pick(o.min_width, theme.island.min_width),
        max_width: pick(o.max_width, theme.island.max_width),
        height: pick(o.height, theme.island.height),
        corner_radius: pick(o.corner_radius, theme.island.corner_radius),
        background: pick(o.background, theme.island.background),
        blur: pick(o.blur, theme.island.blur),
        shadow: if o.shadow is Some {
            o.shadow
        } else {
            theme.island.shadow
        },
        shadow_radius: pick(o.shadow_radius, theme.island.shadow_radius),
        shadow_offset_y: pick(o.shadow_offset_y, theme.island.shadow_offset_y),
        shadow_spread: pick(o.shadow_spread, theme.island.shadow_spread),
        finish: pick(o.finish, theme.island.finish),
        finish_intensity: pick(o.finish_intensity, theme.island.finish_intensity),
        finish_color: pick(o.finish_color, theme.island.finish_color),
        margin_top: pick(o.margin_top, theme.island.margin_top),
        title_color: pick(o.title_color, theme.colors.title),
        subtitle_color: pick(o.subtitle_color, theme.colors.subtitle),
        accent: pick(o.accent, theme.colors.accent),
        icon_color: pick(o.icon_color, theme.colors.icon),
        font_ui: pick(o.font_ui, theme.fonts.ui),
        title_px: pick(o.title_px, theme.fonts.title_px),
        subtitle_px: pick(o.subtitle_px, theme.fonts.subtitle_px),
    }
}

/// The theme's own look.
pub open spec fn inherited(theme: Theme) -> ResolvedStyle {
    ResolvedStyle {
        min_width: theme.island.min_width,
        max_width: theme.island.max_width,
        height: theme.island.height,
        corner_radius: theme.island.corner_radius,
        background: theme.island.background,
        blur: theme.island.blur,
        shadow: theme.island.shadow,
        shadow_radius: theme.island.shadow_radius,
        shadow_offset_y: theme.island.shadow_offset_y,
        shadow_spread: theme.island.shadow_spread,
        finish: theme.island.finish,
        finish_intensity: theme.island.finish_intensity,
        finish_color: theme.island.finish_color,
        margin_top: theme.island.margin_top,
        title_color: theme.colors.title,
        subtitle_color: theme.colors.subtitle,
        accent: theme.colors.accent,
        icon_color: theme.colors.icon,
        font_ui: theme.fonts.ui,
        title_px: theme.fonts.title_px,
        subtitle_px: theme.fonts.subtitle_px,
    }
}

/// The style of a type with these overrides.
pub open spec fn style_spec(theme: Theme, ov: Option<StyleOverrides>) -> ResolvedStyle {
    match ov {
        Some(o) => layered(theme, o),
        None => inherited(theme),
    }
}

/// The parameters of the preset `name`: the type's inline tuning first, then the theme.
pub open spec fn preset_spec(theme: Theme, ov: Option<StyleOverrides>, name: Seq<char>) -> SpringPreset {
    match ov {
        Some(o) => match o.springs {
            Some(inline) => if inline@.contains_key(name) {
                inline@[name]
            } else {
                theme::spring_spec(theme.springs@, name)
            },
            None => theme::spring_spec(theme.springs@, name),
        },
        None => theme::spring_spec(theme.springs@, name),
    }
}

/// The name of the profile to use: the override's when set, else the type's.
pub open spec fn profile_name_spec(name: Seq<char>, ov: Option<StyleOverrides>) -> Seq<char> {
    match ov {
        Some(o) => match o.anim_profile {
            Some(n) => n@,
            None => name,
        },
        None => name,
    }
}

/// The springs of a type with this profile name and these overrides. A profile that the theme
/// does not know gets the fallback preset of each role.
pub open spec fn anim_spec(
    theme: Theme,
    name: Seq<char>,
    ov: Option<StyleOverrides>,
) -> ResolvedAnimProfile {
    let profile = profile_name_spec(name, ov);
    if theme.anim_profiles@.contains_key(profile) {
        let p = theme.anim_profiles@[profile];
        ResolvedAnimProfile {
            geometry: preset_spec(theme, ov, p.geometry@),
            opacity: preset_spec(theme, ov, p.opacity@),
            scale: preset_spec(theme, ov, p.scale@),
            crossfade: preset_spec(theme, ov, p.crossfade@),
            translate_y: preset_spec(theme, ov, p.translate_y@),
        }
    } else {
        ResolvedAnimProfile {
            geometry: preset_spec(theme, ov, "island_soft"@),
            opacity: preset_spec(theme, ov, "gentle"@),
            scale: preset_spec(theme, ov, "island_soft"@),
            crossfade: preset_spec(theme, ov, "snappy"@),
            translate_y: preset_spec(theme, ov, "island_slide"@),
        }
    }
}

/// An optional reference, as the value it refers to.
pub open spec fn referred<T>(o: Option<&T>) -> Option<T> {
    match o {
        Some(v) => Some(*v),
        None => None,
    }
}

impl Theme {
    /// Layers a type's overrides over the theme.
    pub fn resolve_style(&self, ov: Option<&StyleOverrides>) -> (r: ResolvedStyle)
        ensures
            r == style_spec(*self, referred(ov)),
    {
        match ov {
            None => ResolvedStyle {
                min_width: self.island.min_width,
                max_width: self.island.max_width,
                height: self.island.height,
                corner_radius: self.island.corner_radius,
                background: self.island.background,
                blur: self.island.blur,
                shadow: self.island.shadow,
                shadow_radius: self.island.shadow_radius,
                shadow_offset_y: self.island.shadow_offset_y,
                shadow_spread: self.island.shadow_spread,
                finish: self.island.finish,
                finish_intensity: self.island.finish_intensity,
                finish_color: self.island.finish_color,
                margin_top: self.island.margin_top,
                title_color: self.colors.title,
                subtitle_color: self.colors.subtitle,
                accent: self.colors.accent,
                icon_color: self.colors.icon,
                font_ui: self.fonts.ui.clone(),
                title_px: self.fonts.title_px,
                subtitle_px: self.fonts.subtitle_px,
            },
            Some(o) => ResolvedStyle {
                min_width: o.min_width.unwrap_or(self.island.min_width),
                max_width: o.max_width.unwrap_or(self.island.max_width),
                height: o.height.unwrap_or(self.island.height),
                corner_radius: o.corner_radius.unwrap_or(self.island.corner_radius),
                background: o.background.unwrap_or(self.island.background),
                blur: o.blur.unwrap_or(self.island.blur),
                shadow: if o.shadow.is_some() {
                    o.shadow
                } else {
                    self.island.shadow
                },
                shadow_radius: o.shadow_radius.unwrap_or(self.island.shadow_radius),
                shadow_offset_y: o.shadow_offset_y.unwrap_or(self.island.shadow_offset_y),
                shadow_spread: o.shadow_spread.unwrap_or(self.island.shadow_spread),
                finish: o.finish.unwrap_or(self.island.finish),
                finish_intensity: o.finish_intensity.unwrap_or(self.island.finish_intensity),
                finish_color: o.finish_color.unwrap_or(self.island.finish_color),
                margin_top: o.margin_top.unwrap_or(self.island.margin_top),
                title_color: o.title_color.unwrap_or(self.colors.title),
                subtitle_color: o.subtitle_color.unwrap_or(self.colors.subtitle),
                accent: o.accent.unwrap_or(self.colors.accent),
                icon_color: o.icon_color.unwrap_or(self.colors.icon),
                font_ui: match &o.font_ui {
                    Some(f) => f.clone(),
                    None => self.fonts.ui.clone(),
                },
                title_px: o.title_px.unwrap_or(self.fonts.title_px),
                subtitle_px: o.subtitle_px.unwrap_or(self.fonts.subtitle_px),
            },
        }
    }

    fn preset(&self, ov: Option<&StyleOverrides>, name: &str) -> (r: SpringPreset)
        ensures
            r == preset_spec(*self, referred(ov), name@),
    {
        if let Some(o) = ov {
            if let Some(inline) = &o.springs {
                if let Some(p) = inline.get(name) {
                    return *p;
                }
            }
        }
        self.spring(name)
    }

    /// Resolves the named animation profile to concrete springs. An `anim_profile` override
    /// replaces `profile_name`; a type's inline `springs` win over the theme's presets.
    pub fn resolve_anim(&self, profile_name: &str, ov: Option<&StyleOverrides>) -> (r:
        ResolvedAnimProfile)
        ensures
            r == anim_spec(*self, profile_name@, referred(ov)),
    {
        let name: &str = match ov {
            Some(o) => match &o.anim_profile {
                Some(n) => n.as_str(),
                None => profile_name,
            },
            None => profile_name,
        };
        match self.anim_profiles.get(name) {
            Some(p) => ResolvedAnimProfile {
                geometry: self.preset(ov, p.geometry.as_str()),
                opacity: self.preset(ov, p.opacity.as_str()),
                scale: self.preset(ov, p.scale.as_str()),
                crossfade: self.preset(ov, p.crossfade.as_str()),
                translate_y: self.preset(ov, p.translate_y.as_str()),
            },
            None => ResolvedAnimProfile {
                geometry: self.preset(ov, "island_soft"),
                opacity: self.preset(ov, "gentle"),
                scale: self.preset(ov, "island_soft"),
                crossfade: self.preset(ov, "snappy"),
                translate_y: self.preset(ov, "island_slide"),
            },
        }
    }
}

/// Overrides that set nothing give the theme's own look and springs.
pub proof fn unset_overrides_inherit(theme: Theme, o: StyleOverrides, name: Seq<char>)
    ensures
        o.inherits_style() ==> style_spec(theme, Some(o)) == style_spec(theme, None),
        o.inherits_anim() ==> anim_spec(theme, name, Some(o)) == anim_spec(theme, name, None),
{
}

/// A type's inline tuning of a preset is what every role that uses the preset gets.
pub proof fn inline_springs_win(
    theme: Theme,
    o: StyleOverrides,
    name: Seq<char>,
    preset: Seq<char>,
)
    requires
        o.springs is Some,
        o.springs->0@.contains_key(preset),
        theme.anim_profiles@.contains_key(profile_name_spec(name, Some(o))),
    ensures
        ({
            let p: AnimProfileRef = theme.anim_profiles@[profile_name_spec(name, Some(o))];
            let r = anim_spec(theme, name, Some(o));
            let tuned = o.springs->0@[preset];
            &&& p.geometry@ == preset ==> r.geometry == tuned
            &&& p.opacity@ == preset ==> r.opacity == tuned
            &&& p.scale@ == preset ==> r.scale == tuned
            &&& p.crossfade@ == preset ==> r.crossfade == tuned
            &&& p.translate_y@ == preset ==> r.translate_y == tuned
        }),
{
}

/// Every override that is set wins: the style's field of the same name holds it, whatever the theme
/// says.
pub proof fn set_overrides_win(theme: Theme, o: StyleOverrides)
    ensures
        ({
            let r = style_spec(theme, Some(o));
            &&& o.min_width is Some ==> r.min_width == o.min_width->0
            &&& o.max_width is Some ==> r.max_width == o.max_width->0
            &&& o.height is Some ==> r.height == o.height->0
            &&& o.corner_radius is Some ==> r.corner_radius == o.corner_radius->0
            &&& o.background is Some ==> r.background == o.background->0
            &&& o.blur is Some ==> r.blur == o.blur->0
            &&& o.shadow_radius is Some ==> r.shadow_radius == o.shadow_radius->0
            &&& o.shadow_offset_y is Some ==> r.shadow_offset_y == o.shadow_offset_y->0
            &&& o.shadow_spread is Some ==> r.shadow_spread == o.shadow_spread->0
            &&& o.finish is Some ==> r.finish == o.finish->0
            &&& o.finish_intensity is Some ==> r.finish_intensity == o.finish_intensity->0
            &&& o.finish_color is Some ==> r.finish_color == o.finish_color->0
            &&& o.margin_top is Some ==> r.margin_top == o.margin_top->0
            &&& o.title_color is Some ==> r.title_color == o.title_color->0
            &&& o.subtitle_color is Some ==> r.subtitle_color == o.subtitle_color->0
            &&& o.accent is Some ==> r.accent == o.accent->0
            &&& o.icon_color is Some ==> r.icon_color == o.icon_color->0
            &&& o.font_ui is Some ==> r.font_ui == o.font_ui->0
            &&& o.title_px is Some ==> r.title_px == o.title_px->0
            &&& o.subtitle_px is Some ==> r.subtitle_px == o.subtitle_px->0
            &&& o.shadow is Some ==> r.shadow == o.shadow
        }),
{
}

/// Every override that is not set leaves the theme's value in place.
pub proof fn other_fields_are_the_themes(theme: Theme, o: StyleOverrides)
    ensures
        ({
            let r = style_spec(theme, Some(o));
            &&& o.min_width is None ==> r.min_width == theme.island.min_width
            &&& o.max_width is None ==> r.max_width == theme.island.max_width
            &&& o.height is None ==> r.height == theme.island.height
            &&& o.corner_radius is None ==> r.corner_radius == theme.island.corner_radius
            &&& o.background is None ==> r.background == theme.island.background
            &&& o.blur is None ==> r.blur == theme.island.blur
            &&& o.shadow_radius is None ==> r.shadow_radius == theme.island.shadow_radius
            &&& o.shadow_offset_y is None ==> r.shadow_offset_y == theme.island.shadow_offset_y
            &&& o.shadow_spread is None ==> r.shadow_spread == theme.island.shadow_spread
            &&& o.finish is None ==> r.finish == theme.island.finish
            &&& o.finish_intensity is None ==> r.finish_intensity == theme.island.finish_intensity
            &&& o.finish_color is None ==> r.finish_color == theme.island.finish_color
            &&& o.margin_top is None ==> r.margin_top == theme.island.margin_top
            &&& o.title_color is None ==> r.title_color == theme.colors.title
            &&& o.subtitle_color is None ==> r.subtitle_color == theme.colors.subtitle
            &&& o.accent is None ==> r.accent == theme.colors.accent
            &&& o.icon_color is None ==> r.icon_color == theme.colors.icon
            &&& o.font_ui is None ==> r.font_ui == theme.fonts.ui
            &&& o.title_px is None ==> r.title_px == theme.fonts.title_px
            &&& o.subtitle_px is None ==> r.subtitle_px == theme.fonts.subtitle_px
            &&& o.shadow is None ==> r.shadow == theme.island.shadow
        }),
{
}

/// A type without overrides looks as the theme says.
pub proof fn no_overrides_is_the_theme(theme: Theme)
    ensures
        ({
            let r = style_spec(theme, None);
            &&& r.min_width == theme.island.min_width
            &&& r.max_width == theme.island.max_width
            &&& r.height == theme.island.height
            &&& r.corner_radius == theme.island.corner_radius
            &&& r.background == theme.island.background
            &&& r.blur == theme.island.blur
            &&& r.shadow_radius == theme.island.shadow_radius
            &&& r.shadow_offset_y == theme.island.shadow_offset_y
            &&& r.shadow_spread == theme.island.shadow_spread
            &&& r.finish == theme.island.finish
            &&& r.finish_intensity == theme.island.finish_intensity
            &&& r.finish_color == theme.island.finish_color
            &&& r.margin_top == theme.island.margin_top
            &&& r.title_color == theme.colors.title
            &&& r.subtitle_color == theme.colors.subtitle
            &&& r.accent == theme.colors.accent
            &&& r.icon_color == theme.colors.icon
            &&& r.font_ui == theme.fonts.ui
            &&& r.title_px == theme.fonts.title_px
            &&& r.subtitle_px == theme.fonts.subtitle_px
            &&& r.shadow == theme.island.shadow
        }),
{
}

/// Whether `p` is what the preset `name` stands for: the type's inline tuning of it when there is
/// one, else the theme's preset, and `island_soft`'s values (stiffness 170, damping 26, mass 1,
/// rest threshold 0.01) when nobody knows the name.
pub open spec fn tuned_as(
    theme: Theme,
    inline: Option<Map<Seq<char>, SpringPreset>>,
    name: Seq<char>,
    p: SpringPreset,
) -> bool {
    if inline is Some && inline->0.contains_key(name) {
        p == inline->0[name]
    } else if theme.springs@.contains_key(name) {
        p == theme.springs@[name]
    } else {
        &&& p.stiffness == F32(0x432A_0000)
        &&& p.damping == F32(0x41D0_0000)
        &&& p.mass == F32(0x3F80_0000)
        &&& p.rest_eps == F32(0x3C23_D70A)
    }
}

/// The inline tuning of a type.
pub open spec fn inline_of(ov: Option<StyleOverrides>) -> Option<Map<Seq<char>, SpringPreset>> {
    if ov is Some && ov->0.springs is Some {
        Some(ov->0.springs->0@)
    } else {
        None
    }
}

/// Each animated property is driven by the preset that its role names in the profile. The profile
/// is the overrides' own when they name one, else the type's.
pub proof fn roles_get_their_presets(
    theme: Theme,
    name: Seq<char>,
    ov: Option<StyleOverrides>,
    profile: Seq<char>,
)
    requires
        ov is Some && ov->0.anim_profile is Some ==> profile == ov->0.anim_profile->0@,
        !(ov is Some && ov->0.anim_profile is Some) ==> profile == name,
        theme.anim_profiles@.contains_key(profile),
    ensures
        ({
            let p = theme.anim_profiles@[profile];
            let r = anim_spec(theme, name, ov);
            let inline = inline_of(ov);
            &&& tuned_as(theme, inline, p.geometry@, r.geometry)
            &&& tuned_as(theme, inline, p.opacity@, r.opacity)
            &&& tuned_as(theme, inline, p.scale@, r.scale)
            &&& tuned_as(theme, inline, p.crossfade@, r.crossfade)
            &&& tuned_as(theme, inline, p.translate_y@, r.translate_y)
        }),
{
}

/// A profile that the theme does not know gets a preset of its own for each role.
pub proof fn unknown_profiles_fall_back(
    theme: Theme,
    name: Seq<char>,
    ov: Option<StyleOverrides>,
    profile: Seq<char>,
)
    requires
        ov is Some && ov->0.anim_profile is Some ==> profile == ov->0.anim_profile->0@,
        !(ov is Some && ov->0.anim_profile is Some) ==> profile == name,
        !theme.anim_profiles@.contains_key(profile),
    ensures
        ({
            let r = anim_spec(theme, name, ov);
            let inline = inline_of(ov);
            &&& tuned_as(theme, inline, "island_soft"@, r.geometry)
            &&& tuned_as(theme, inline, "gentle"@, r.opacity)
            &&& tuned_as(theme, inline, "island_soft"@, r.scale)
            &&& tuned_as(theme, inline, "snappy"@, r.crossfade)
            &&& tuned_as(theme, inline, "island_slide"@, r.translate_y)
        }),
{
}

} // verus!
