//! What a configuration asks for in vain, and what is said of it.

use vstd::prelude::*;
use vstd::string::*;

use crate::config::{
    collapsed, complete, configs, entries, expand_all, extra_layers, has_plan, is_complete,
    is_planned, is_pullout, is_standard, layer_lists, named, panels, plan_layers, planned, pullouts,
    standard_layers, start_layer, ButtonConfig, ButtonConfigView, ConfigProxy, LayerEntry, Pullout, PulloutView,
};
use crate::construct::{built, button_kind, kind_of, or_else, ButtonKind, Hardware};
use crate::image::Images;
use crate::layer::HALF;
use crate::slider::{slider_kind_named, SliderKind};
use crate::text::{occurs_in, same};

verus! {

/// Something that a configuration asks for in vain.
pub enum Warning {
    /// The layer of this name has several pullout markers.
    SeveralPullouts(String),
    /// A button is narrower than it may be.
    SmallStretch,
    /// A slider is for nothing that there is.
    UnknownSlider(String),
    /// A weather button shows nothing that there is.
    UnknownWeather(String),
    /// A further layer has this name of one of the three that are always there.
    LayerIgnored(String),
    /// There is no layer of this name to start with.
    UnknownDefaultLayer(String),
}

/// The mathematical counterpart of [`Warning`].
#[verifier::ext_equal]
pub enum WarningView {
    SeveralPullouts(Seq<char>),
    SmallStretch,
    UnknownSlider(Seq<char>),
    UnknownWeather(Seq<char>),
    LayerIgnored(Seq<char>),
    UnknownDefaultLayer(Seq<char>),
}

impl View for Warning {
    type V = WarningView;

    open spec fn view(&self) -> WarningView {
        match self {
            Warning::SeveralPullouts(n) => WarningView::SeveralPullouts(n@),
            Warning::SmallStretch => WarningView::SmallStretch,
            Warning::UnknownSlider(o) => WarningView::UnknownSlider(o@),
            Warning::UnknownWeather(o) => WarningView::UnknownWeather(o@),
            Warning::LayerIgnored(n) => WarningView::LayerIgnored(n@),
            Warning::UnknownDefaultLayer(n) => WarningView::UnknownDefaultLayer(n@),
        }
    }
}

/// The values of a list of warnings.
pub open spec fn warning_views(v: Seq<Warning>) -> Seq<WarningView> {
    Seq::new(v.len(), |i: int| v[i]@)
}

/// The setting that takes the place of a further layer of one of the three names.
pub open spec fn setting_for(name: Seq<char>) -> Seq<char> {
    if name == "SystemInfo"@ {
        "SystemInfoLayerKeys"@
    } else if name == "FKeys"@ {
        "PrimaryLayerKeys"@
    } else {
        "MediaLayerKeys"@
    }
}

impl WarningView {
    /// What is said.
    pub open spec fn said(self) -> Seq<char> {
        match self {
            WarningView::SeveralPullouts(n) => "Layer '"@ + n
                + "' has multiple pullout markers; only the first is used"@,
            WarningView::SmallStretch => "Stretch value must be at least 0.5, setting to 0.5."@,
            WarningView::UnknownSlider(o) => "Unknown Slider option '"@ + o
                + "'; expected display_brightness, keyboard_backlight, or volume"@,
            WarningView::UnknownWeather(o) => "Unknown Weather option '"@ + o
                + "'; expected current or forecast"@,
            WarningView::LayerIgnored(n) => "Warning: Layers."@ + n + " ignored; use "@
                + setting_for(n) + " for built-in layers"@,
            WarningView::UnknownDefaultLayer(n) => "Warning: Invalid DefaultLayer '"@ + n
                + "', using SystemInfo"@,
        }
    }

    /// Whether it is said only while diagnostics are on.
    pub open spec fn is_diagnostic(self) -> bool {
        self is SmallStretch || self is UnknownSlider || self is UnknownWeather
    }
}

impl Warning {
    /// What is said.
    pub fn text(&self) -> (r: String)
        ensures
            r@ == self@.said(),
    {
        match self {
            Warning::SeveralPullouts(n) => {
                let mut s = "Layer '".to_owned();
                s.append(n.as_str());
                s.append("' has multiple pullout markers; only the first is used");
                s
            },
            Warning::SmallStretch => "Stretch value must be at least 0.5, setting to 0.5.".to_owned(),
            Warning::UnknownSlider(o) => {
                let mut s = "Unknown Slider option '".to_owned();
                s.append(o.as_str());
                s.append("'; expected display_brightness, keyboard_backlight, or volume");
                s
            },
            Warning::UnknownWeather(o) => {
                let mut s = "Unknown Weather option '".to_owned();
                s.append(o.as_str());
                s.append("'; expected current or forecast");
                s
            },
            Warning::LayerIgnored(n) => {
                let mut s = "Warning: Layers.".to_owned();
                s.append(n.as_str());
                s.append(" ignored; use ");
                if same(n.as_str(), "SystemInfo") {
                    s.append("SystemInfoLayerKeys");
                } else if same(n.as_str(), "FKeys") {
                    s.append("PrimaryLayerKeys");
                } else {
                    s.append("MediaLayerKeys");
                }
                s.append(" for built-in layers");
                s
            },
            Warning::UnknownDefaultLayer(n) => {
                let mut s = "Warning: Invalid DefaultLayer '".to_owned();
                s.append(n.as_str());
                s.append("', using SystemInfo");
                s
            },
        }
    }

    /// Whether it is said only while diagnostics are on.
    pub fn is_diagnostic(&self) -> (r: bool)
        ensures
            r == self@.is_diagnostic(),
    {
        match self {
            Warning::SmallStretch => true,
            Warning::UnknownSlider(_) => true,
            Warning::UnknownWeather(_) => true,
            _ => false,
        }
    }
}

/// Whether a layer has several pullout markers.
pub open spec fn several_pullouts(keys: Seq<ButtonConfigView>) -> bool {
    exists|i: int, j: int|
        0 <= i < j < keys.len() && is_pullout(#[trigger] keys[i]) && is_pullout(#[trigger] keys[j])
}

/// The warnings of layers with several pullout markers, in the order of the layers.
pub open spec fn marker_warnings(m: Seq<LayerEntry>) -> Seq<WarningView>
    decreases m.len(),
{
    if m.len() == 0 {
        Seq::empty()
    } else if several_pullouts(m.last().1) {
        marker_warnings(m.drop_last()).push(WarningView::SeveralPullouts(m.last().0))
    } else {
        marker_warnings(m.drop_last())
    }
}

/// The warning of an option that a button does not know.
pub open spec fn option_warning(c: ButtonConfigView) -> Option<WarningView> {
    match kind_of(c) {
        ButtonKind::Slider => match c.option {
            Some(o) => if slider_kind_named(o) is None {
                Some(WarningView::UnknownSlider(o))
            } else {
                None
            },
            None => Some(WarningView::UnknownSlider(Seq::empty())),
        },
        ButtonKind::Weather => {
            let o = or_else(c.option, "current"@);
            if o == "current"@ || o == "forecast"@ {
                None
            } else {
                Some(WarningView::UnknownWeather(o))
            }
        },
        _ => None,
    }
}

/// The warnings of a button.
pub open spec fn button_warnings(c: ButtonConfigView) -> Seq<WarningView> {
    let narrow = if c.stretch matches Some(s) && s < HALF {
        seq![WarningView::SmallStretch]
    } else {
        Seq::empty()
    };
    match option_warning(c) {
        Some(w) => narrow.push(w),
        None => narrow,
    }
}

/// The warnings of the buttons of a layer.
pub open spec fn key_warnings(keys: Seq<ButtonConfigView>) -> Seq<WarningView>
    decreases keys.len(),
{
    if keys.len() == 0 {
        Seq::empty()
    } else {
        key_warnings(keys.drop_last()) + button_warnings(keys.last())
    }
}

/// The warnings of the layers that are built from these, where a name of the three
/// may be `reserved`: a layer of such a name is not built.
pub open spec fn layer_warnings(m: Seq<LayerEntry>, reserved: bool) -> Seq<WarningView>
    decreases m.len(),
{
    if m.len() == 0 {
        Seq::empty()
    } else if reserved && is_standard(m.last().0) {
        layer_warnings(m.drop_last(), reserved).push(WarningView::LayerIgnored(m.last().0))
    } else {
        layer_warnings(m.drop_last(), reserved) + key_warnings(collapsed(m.last().0, m.last().1))
    }
}

/// The warnings of panels.
pub open spec fn panel_warnings(v: Seq<PulloutView>) -> Seq<WarningView>
    decreases v.len(),
{
    if v.len() == 0 {
        Seq::empty()
    } else {
        panel_warnings(v.drop_last()) + key_warnings(v.last().keys)
    }
}

/// The warning of a layer to start with that there is not.
pub open spec fn default_warning(base: ConfigProxy) -> Seq<WarningView> {
    match base.default_layer {
        Some(d) => if is_planned(planned(base), d@) {
            Seq::empty()
        } else {
            seq![WarningView::UnknownDefaultLayer(d@)]
        },
        None => Seq::empty(),
    }
}

/// The warnings of a configuration, in the order in which its layers are made. One
/// that is not complete is not looked at.
pub open spec fn warnings_of(base: ConfigProxy) -> Seq<WarningView> {
    if complete(base) {
        marker_warnings(standard_layers(base)) + marker_warnings(extra_layers(base))
            + layer_warnings(standard_layers(base), false) + panel_warnings(
            panels(standard_layers(base)) + panels(extra_layers(base)),
        ) + layer_warnings(extra_layers(base), true) + default_warning(base)
    } else {
        Seq::empty()
    }
}

/// Adds a warning.
fn warn(to: &mut Vec<Warning>, w: Warning)
    ensures
        warning_views(final(to)@) == warning_views(old(to)@).push(w@),
{
    to.push(w);
    assert(warning_views(to@) =~= warning_views(old(to)@).push(w@));
}

/// Whether a layer has several pullout markers.
fn has_several(keys: &Vec<ButtonConfig>) -> (r: bool)
    ensures
        r == several_pullouts(configs(keys@)),
{
    let ghost all = configs(keys@);
    let n = keys.len();
    let mut first: Option<usize> = None;
    let mut i: usize = 0;
    while i < n
        invariant
            i <= n,
            n == keys@.len(),
            all == configs(keys@),
            match first {
                Some(f) => f < i && is_pullout(all[f as int]) && forall|k: int|
                    0 <= k < i && k != f ==> !is_pullout(#[trigger] all[k]),
                None => forall|k: int| 0 <= k < i ==> !is_pullout(#[trigger] all[k]),
            },
        decreases n - i,
    {
        assert(all[i as int] == keys@[i as int]@);
        if named(&keys[i].button, "pullout", "Pullout") {
            match first {
                Some(f) => {
                    assert(is_pullout(all[f as int]) && is_pullout(all[i as int]));
                    return true;
                },
                None => {
                    first = Some(i);
                },
            }
        }
        i += 1;
    }
    false
}

/// Adds the warnings of layers with several pullout markers.
fn warn_of_markers(to: &mut Vec<Warning>, m: &Vec<(String, Vec<ButtonConfig>)>)
    ensures
        warning_views(final(to)@) == warning_views(old(to)@) + marker_warnings(entries(m@)),
{
    let ghost all = entries(m@);
    let ghost start = warning_views(to@);
    let n = m.len();
    let mut i: usize = 0;
    assert(all.subrange(0, 0) =~= Seq::empty());
    assert(start + Seq::empty() =~= start);
    while i < n
        invariant
            i <= n,
            n == m@.len(),
            all == entries(m@),
            warning_views(to@) == start + marker_warnings(all.subrange(0, i as int)),
        decreases n - i,
    {
        let ghost seen = all.subrange(0, i + 1);
        assert(seen.drop_last() =~= all.subrange(0, i as int));
        assert(seen.last() == all[i as int]);
        if has_several(&m[i].1) {
            warn(to, Warning::SeveralPullouts(m[i].0.clone()));
            assert(warning_views(to@) =~= start + marker_warnings(seen));
        }
        i += 1;
    }
    assert(all.subrange(0, n as int) =~= all);
}

/// Adds the warnings of a button.
fn warn_of_button(to: &mut Vec<Warning>, c: &ButtonConfig)
    ensures
        warning_views(final(to)@) == warning_views(old(to)@) + button_warnings(c@),
{
    let ghost start = warning_views(to@);
    let narrow = match c.stretch {
        Some(s) => s < HALF,
        None => false,
    };
    if narrow {
        warn(to, Warning::SmallStretch);
    }
    match button_kind(c) {
        ButtonKind::Slider => match &c.option {
            Some(o) => {
                if SliderKind::parse(o.as_str()).is_none() {
                    warn(to, Warning::UnknownSlider(o.clone()));
                }
            },
            None => {
                let none = String::new();
                assert(none@ =~= Seq::empty());
                warn(to, Warning::UnknownSlider(none));
            },
        },
        ButtonKind::Weather => match &c.option {
            Some(o) => {
                if !same(o.as_str(), "current") && !same(o.as_str(), "forecast") {
                    warn(to, Warning::UnknownWeather(o.clone()));
                }
            },
            None => {},
        },
        _ => {},
    }
    assert(warning_views(to@) =~= start + button_warnings(c@));
}

/// Adds the warnings of the buttons of a layer.
fn warn_of_keys(to: &mut Vec<Warning>, keys: &Vec<ButtonConfig>)
    ensures
        warning_views(final(to)@) == warning_views(old(to)@) + key_warnings(configs(keys@)),
{
    let ghost all = configs(keys@);
    let ghost start = warning_views(to@);
    let n = keys.len();
    let mut i: usize = 0;
    assert(all.subrange(0, 0) =~= Seq::empty());
    assert(start + Seq::empty() =~= start);
    while i < n
        invariant
            i <= n,
            n == keys@.len(),
            all == configs(keys@),
            warning_views(to@) == start + key_warnings(all.subrange(0, i as int)),
        decreases n - i,
    {
        let ghost seen = all.subrange(0, i + 1);
        assert(seen.drop_last() =~= all.subrange(0, i as int));
        assert(seen.last() == keys@[i as int]@);
        warn_of_button(to, &keys[i]);
        assert(warning_views(to@) =~= start + key_warnings(seen));
        i += 1;
    }
    assert(all.subrange(0, n as int) =~= all);
}

/// Adds the warnings of layers whose markers are replaced.
fn warn_of_layers(
    to: &mut Vec<Warning>,
    m: &Vec<(String, Vec<ButtonConfig>)>,
    Ghost(given): Ghost<Seq<LayerEntry>>,
    reserved: bool,
)
    requires
        m@.len() == given.len(),
        forall|k: int|
            0 <= k < m@.len() ==> (#[trigger] m@[k]).0@ == given[k].0 && configs(m@[k].1@)
                == collapsed(given[k].0, given[k].1),
    ensures
        warning_views(final(to)@) == warning_views(old(to)@) + layer_warnings(given, reserved),
{
    let ghost start = warning_views(to@);
    let n = m.len();
    let mut i: usize = 0;
    assert(given.subrange(0, 0) =~= Seq::empty());
    assert(start + Seq::empty() =~= start);
    while i < n
        invariant
            i <= n,
            n == m@.len(),
            n == given.len(),
            forall|k: int|
                0 <= k < m@.len() ==> (#[trigger] m@[k]).0@ == given[k].0 && configs(m@[k].1@)
                    == collapsed(given[k].0, given[k].1),
            warning_views(to@) == start + layer_warnings(given.subrange(0, i as int), reserved),
        decreases n - i,
    {
        let ghost seen = given.subrange(0, i + 1);
        assert(seen.drop_last() =~= given.subrange(0, i as int));
        assert(seen.last() == given[i as int]);
        assert(m@[i as int].0@ == given[i as int].0);
        let name = m[i].0.as_str();
        if reserved && (same(name, "SystemInfo") || same(name, "FKeys") || same(name, "Media")) {
            warn(to, Warning::LayerIgnored(m[i].0.clone()));
        } else {
            warn_of_keys(to, &m[i].1);
        }
        assert(warning_views(to@) =~= start + layer_warnings(seen, reserved));
        i += 1;
    }
    assert(given.subrange(0, n as int) =~= given);
}

/// Adds the warnings of panels.
fn warn_of_panels(to: &mut Vec<Warning>, v: &Vec<Pullout>)
    ensures
        warning_views(final(to)@) == warning_views(old(to)@) + panel_warnings(pullouts(v@)),
{
    let ghost all = pullouts(v@);
    let ghost start = warning_views(to@);
    let n = v.len();
    let mut i: usize = 0;
    assert(all.subrange(0, 0) =~= Seq::empty());
    assert(start + Seq::empty() =~= start);
    while i < n
        invariant
            i <= n,
            n == v@.len(),
            all == pullouts(v@),
            warning_views(to@) == start + panel_warnings(all.subrange(0, i as int)),
        decreases n - i,
    {
        let ghost seen = all.subrange(0, i + 1);
        assert(seen.drop_last() =~= all.subrange(0, i as int));
        assert(seen.last() == v@[i as int]@);
        warn_of_keys(to, &v[i].keys);
        assert(warning_views(to@) =~= start + panel_warnings(seen));
        i += 1;
    }
    assert(all.subrange(0, n as int) =~= all);
}

/// Tells what a configuration asks for in vain.
pub fn config_warnings(base: &ConfigProxy) -> (r: Vec<Warning>)
    ensures
        warning_views(r@) == warnings_of(*base),
{
    let mut r: Vec<Warning> = Vec::new();
    assert(warning_views(r@) =~= Seq::empty());
    if !is_complete(base) {
        return r;
    }
    let ghost three = standard_layers(*base);
    let ghost extra = extra_layers(*base);
    let (standard, others) = layer_lists(base);
    warn_of_markers(&mut r, &standard);
    warn_of_markers(&mut r, &others);
    let mut lying: Vec<Pullout> = Vec::new();
    assert(pullouts(lying@) =~= Seq::empty());
    let ghost (marked, also) = (standard@, others@);
    let standard = expand_all(standard, &mut lying);
    let others = expand_all(others, &mut lying);
    assert forall|k: int| 0 <= k < standard@.len() implies (#[trigger] standard@[k]).0@
        == three[k].0 && configs(standard@[k].1@) == collapsed(three[k].0, three[k].1) by {
        assert(entries(marked)[k] == three[k]);
    }
    assert forall|k: int| 0 <= k < others@.len() implies (#[trigger] others@[k]).0@ == extra[k].0
        && configs(others@[k].1@) == collapsed(extra[k].0, extra[k].1) by {
        assert(entries(also)[k] == extra[k]);
    }
    assert(pullouts(lying@) =~= panels(three) + panels(extra));
    warn_of_layers(&mut r, &standard, Ghost(three), false);
    warn_of_panels(&mut r, &lying);
    warn_of_layers(&mut r, &others, Ghost(extra), true);
    match &base.default_layer {
        Some(d) => {
            let plan = plan_layers(base);
            if !has_plan(&plan, d.as_str()) {
                warn(&mut r, Warning::UnknownDefaultLayer(d.clone()));
            }
        },
        None => {},
    }
    assert(warning_views(r@) =~= warnings_of(*base));
    r
}

/// A slider or a weather button is warned of exactly if it comes to nothing: if its
/// option names no kind of slider, or neither the weather of now nor a forecast. No
/// other button is warned of for its option.
pub proof fn options_are_warned_of_in_vain(c: ButtonConfigView, images: Images, hw: Hardware)
    ensures
        ({
            let image = built(c, images, hw).image;
            match kind_of(c) {
                ButtonKind::Slider | ButtonKind::Weather => option_warning(c) is Some <==> image
                    is Spacer,
                _ => option_warning(c) is None,
            }
        }),
        option_warning(c) matches Some(w) ==> match c.option {
            Some(o) => w == WarningView::UnknownSlider(o) || w == WarningView::UnknownWeather(o),
            None => w == WarningView::UnknownSlider(Seq::empty()),
        },
{
    reveal_strlit("current");
    reveal_strlit("forecast");
    assert("current"@.len() == 7 && "forecast"@.len() == 8);
}

/// A button that is too narrow is warned of, and is made half a button wide.
pub proof fn narrow_buttons_are_warned_of(c: ButtonConfigView)
    ensures
        button_warnings(c).contains(WarningView::SmallStretch) <==> (c.stretch matches Some(s) && s
            < 500_000_000),
        button_warnings(c).contains(WarningView::SmallStretch) ==> crate::load::stretch_of(c)
            == 500_000_000,
        option_warning(c) matches Some(w) ==> button_warnings(c).contains(w),
{
    let all = button_warnings(c);
    if c.stretch matches Some(s) && s < HALF {
        assert(all[0] == WarningView::SmallStretch);
    }
    if option_warning(c) is Some {
        assert(all[all.len() - 1] == option_warning(c)->0);
    }
    if all.contains(WarningView::SmallStretch) {
        let i = choose|i: int| 0 <= i < all.len() && all[i] == WarningView::SmallStretch;
        assert(all[i] == WarningView::SmallStretch);
    }
}

/// The warnings of each button of a layer are among those of the layer.
pub proof fn every_button_is_looked_at(keys: Seq<ButtonConfigView>, i: int, w: WarningView)
    requires
        0 <= i < keys.len(),
        button_warnings(keys[i]).contains(w),
    ensures
        key_warnings(keys).contains(w),
    decreases keys.len(),
{
    let front = keys.drop_last();
    let before = key_warnings(front);
    let last = button_warnings(keys.last());
    let all = before + last;
    if i < keys.len() - 1 {
        assert(front[i] == keys[i]);
        every_button_is_looked_at(front, i, w);
        let k = choose|k: int| 0 <= k < before.len() && before[k] == w;
        assert(all[k] == w);
    } else {
        let k = choose|k: int| 0 <= k < last.len() && last[k] == w;
        assert(all[before.len() + k] == w);
    }
}

/// A layer with two pullout markers is warned of by its name, and a further layer
/// that takes a name of the three is too.
pub proof fn layers_are_warned_of(m: Seq<LayerEntry>, i: int)
    requires
        0 <= i < m.len(),
    ensures
        (exists|a: int, b: int|
            0 <= a < b < m[i].1.len() && is_pullout(#[trigger] m[i].1[a]) && is_pullout(
                #[trigger] m[i].1[b],
            )) ==> marker_warnings(m).contains(WarningView::SeveralPullouts(m[i].0)),
        m[i].0 == "SystemInfo"@ || m[i].0 == "FKeys"@ || m[i].0 == "Media"@ ==> layer_warnings(
            m,
            true,
        ).contains(WarningView::LayerIgnored(m[i].0)),
    decreases m.len(),
{
    let front = m.drop_last();
    let marked = marker_warnings(m);
    let ignored = layer_warnings(m, true);
    if i < m.len() - 1 {
        assert(front[i] == m[i]);
        layers_are_warned_of(front, i);
        let w = WarningView::SeveralPullouts(m[i].0);
        let before = marker_warnings(front);
        if before.contains(w) {
            let k = choose|k: int| 0 <= k < before.len() && before[k] == w;
            assert(marked[k] == w);
        }
        let w = WarningView::LayerIgnored(m[i].0);
        let before = layer_warnings(front, true);
        if before.contains(w) {
            let k = choose|k: int| 0 <= k < before.len() && before[k] == w;
            assert(ignored[k] == w);
        }
    } else {
        if several_pullouts(m[i].1) {
            assert(marked[marked.len() - 1] == WarningView::SeveralPullouts(m[i].0));
        }
        if is_standard(m[i].0) {
            assert(ignored[ignored.len() - 1] == WarningView::LayerIgnored(m[i].0));
        }
    }
}

/// A layer to start with is warned of exactly if it is set and another one is
/// started with.
pub proof fn unknown_start_layer_is_warned_of(base: ConfigProxy)
    requires
        complete(base),
    ensures
        base.default_layer matches Some(d) ==> {
            &&& start_layer(base) != d@ ==> warnings_of(base).contains(
                WarningView::UnknownDefaultLayer(d@),
            )
            &&& start_layer(base) != d@ ==> default_warning(base).len() == 1
            &&& d@ != "SystemInfo"@ && start_layer(base) == d@ ==> default_warning(base).len() == 0
        },
        base.default_layer is None ==> default_warning(base).len() == 0,
{
    let all = warnings_of(base);
    if base.default_layer is Some && default_warning(base).len() > 0 {
        assert(all[all.len() - 1] == WarningView::UnknownDefaultLayer((base.default_layer->0)@));
    }
}

/// What is said of a layer or an option names it, and what is said of a layer that
/// is not built names the setting to use in its place.
pub proof fn warnings_name_what_they_are_about(n: Seq<char>)
    ensures
        occurs_in(n, WarningView::SeveralPullouts(n).said()),
        occurs_in(n, WarningView::UnknownSlider(n).said()),
        occurs_in(n, WarningView::UnknownWeather(n).said()),
        occurs_in(n, WarningView::LayerIgnored(n).said()),
        occurs_in(n, WarningView::UnknownDefaultLayer(n).said()),
        n == "SystemInfo"@ ==> occurs_in("SystemInfoLayerKeys"@, WarningView::LayerIgnored(n).said()),
        n == "FKeys"@ ==> occurs_in("PrimaryLayerKeys"@, WarningView::LayerIgnored(n).said()),
        n == "Media"@ ==> occurs_in("MediaLayerKeys"@, WarningView::LayerIgnored(n).said()),
{
    reveal_strlit("SystemInfo");
    reveal_strlit("FKeys");
    reveal_strlit("Media");
    assert("SystemInfo"@.len() == 10);
    assert("FKeys"@[0] == 'F' && "Media"@[0] == 'M' && "FKeys"@.len() == 5 && "Media"@.len() == 5);
    lemma_named_between("Layer '"@, n, "' has multiple pullout markers; only the first is used"@);
    lemma_named_between(
        "Unknown Slider option '"@,
        n,
        "'; expected display_brightness, keyboard_backlight, or volume"@,
    );
    lemma_named_between("Unknown Weather option '"@, n, "'; expected current or forecast"@);
    lemma_named_between("Warning: Invalid DefaultLayer '"@, n, "', using SystemInfo"@);
    let head = "Warning: Layers."@;
    let mid = " ignored; use "@;
    let tail = " for built-in layers"@;
    let said = WarningView::LayerIgnored(n).said();
    lemma_named_between(head, n, mid + setting_for(n) + tail);
    assert(said =~= head + n + (mid + setting_for(n) + tail));
    lemma_named_between(head + n + mid, setting_for(n), tail);
    assert(said =~= head + n + mid + setting_for(n) + tail);
}

proof fn lemma_named_between(head: Seq<char>, n: Seq<char>, tail: Seq<char>)
    ensures
        occurs_in(n, head + n + tail),
{
    let s = head + n + tail;
    let i = head.len() as int;
    assert(s.subrange(i, i + n.len()) =~= n);
}

proof fn lemma_layer_looked_at(m: Seq<LayerEntry>, reserved: bool, j: int, w: WarningView)
    requires
        0 <= j < m.len(),
        !(reserved && is_standard(m[j].0)),
        key_warnings(collapsed(m[j].0, m[j].1)).contains(w),
    ensures
        layer_warnings(m, reserved).contains(w),
    decreases m.len(),
{
    let front = m.drop_last();
    let before = layer_warnings(front, reserved);
    let all = layer_warnings(m, reserved);
    if j < m.len() - 1 {
        assert(front[j] == m[j]);
        lemma_layer_looked_at(front, reserved, j, w);
        let k = choose|k: int| 0 <= k < before.len() && before[k] == w;
        assert(all[k] == w);
    } else {
        let last = key_warnings(collapsed(m[j].0, m[j].1));
        let k = choose|k: int| 0 <= k < last.len() && last[k] == w;
        assert(all[before.len() + k] == w);
    }
}

proof fn lemma_panel_looked_at(v: Seq<PulloutView>, j: int, w: WarningView)
    requires
        0 <= j < v.len(),
        key_warnings(v[j].keys).contains(w),
    ensures
        panel_warnings(v).contains(w),
    decreases v.len(),
{
    let front = v.drop_last();
    let before = panel_warnings(front);
    let all = panel_warnings(v);
    if j < v.len() - 1 {
        assert(front[j] == v[j]);
        lemma_panel_looked_at(front, j, w);
        let k = choose|k: int| 0 <= k < before.len() && before[k] == w;
        assert(all[k] == w);
    } else {
        let last = key_warnings(v[j].keys);
        let k = choose|k: int| 0 <= k < last.len() && last[k] == w;
        assert(all[before.len() + k] == w);
    }
}

proof fn lemma_among(parts: Seq<WarningView>, head: Seq<WarningView>, tail: Seq<WarningView>, w: WarningView)
    requires
        parts.contains(w),
    ensures
        (head + parts + tail).contains(w),
{
    let k = choose|k: int| 0 <= k < parts.len() && parts[k] == w;
    assert((head + parts + tail)[head.len() + k] == w);
}

/// Every layer of a configuration that is built is looked at, with every panel: what
/// is warned of one of its buttons is among the warnings, and so is a layer with
/// several markers.
pub proof fn every_layer_is_looked_at(base: ConfigProxy, w: WarningView, j: int)
    requires
        complete(base),
    ensures
        ({
            let three = standard_layers(base);
            let others = extra_layers(base);
            let pulled = panels(three) + panels(others);
            let all = warnings_of(base);
            &&& 0 <= j < three.len() && key_warnings(collapsed(three[j].0, three[j].1)).contains(w)
                ==> all.contains(w)
            &&& 0 <= j < others.len() && !is_standard(others[j].0) && key_warnings(
                collapsed(others[j].0, others[j].1),
            ).contains(w) ==> all.contains(w)
            &&& 0 <= j < pulled.len() && key_warnings(pulled[j].keys).contains(w) ==> all.contains(w)
            &&& marker_warnings(three).contains(w) || marker_warnings(others).contains(w)
                ==> all.contains(w)
        }),
{
    let three = standard_layers(base);
    let others = extra_layers(base);
    let pulled = panels(three) + panels(others);
    let a = marker_warnings(three);
    let b = marker_warnings(others);
    let c = layer_warnings(three, false);
    let d = panel_warnings(pulled);
    let e = layer_warnings(others, true);
    let f = default_warning(base);
    let none = Seq::<WarningView>::empty();
    let all = warnings_of(base);
    assert(all =~= none + a + (b + c + d + e + f));
    assert(all =~= a + b + (c + d + e + f));
    assert(all =~= a + b + c + (d + e + f));
    assert(all =~= a + b + c + d + (e + f));
    assert(all =~= a + b + c + d + e + f);
    if a.contains(w) {
        lemma_among(a, none, b + c + d + e + f, w);
    }
    if b.contains(w) {
        lemma_among(b, a, c + d + e + f, w);
    }
    if 0 <= j < three.len() && key_warnings(collapsed(three[j].0, three[j].1)).contains(w) {
        lemma_layer_looked_at(three, false, j, w);
        lemma_among(c, a + b, d + e + f, w);
    }
    if 0 <= j < pulled.len() && key_warnings(pulled[j].keys).contains(w) {
        lemma_panel_looked_at(pulled, j, w);
        lemma_among(d, a + b + c, e + f, w);
    }
    if 0 <= j < others.len() && !is_standard(others[j].0) && key_warnings(
        collapsed(others[j].0, others[j].1),
    ).contains(w) {
        lemma_layer_looked_at(others, true, j, w);
        lemma_among(e, a + b + c + d, f, w);
    }
}

/// What is said of a single button is said only while diagnostics are on, and what
/// is said of a layer always is.
pub proof fn only_buttons_are_diagnosed(w: WarningView)
    ensures
        w is SmallStretch || w is UnknownSlider || w is UnknownWeather ==> w.is_diagnostic(),
        w is SeveralPullouts || w is LayerIgnored || w is UnknownDefaultLayer ==> !w.is_diagnostic(),
{
}

} // verus!
