//! How layers are built, and how a whole configuration is loaded.

use vstd::prelude::*;
use vstd::string::*;

use crate::button::{notification_button_alias, notification_named, Button, ButtonView};
use crate::config::{
    assemble, complete, configs, is_complete, plans, planned, start_layer, ButtonConfig,
    ButtonConfigView, Config, ConfigProxy, LayerPlan, LayerPlanView,
};
use crate::construct::{
    build_problem, built, kind_of, problem_of, BuildProblem, ButtonKind, Hardware,
};
use crate::image::Images;
use crate::layer::{layers_of, FunctionLayer, LayerView, HALF};
use crate::logging::{set_logging_enabled, Logging};
use crate::number::ONE;
use crate::text::{same, texts};

verus! {

/// How wide a button is, in button widths: one where nothing is set, and never
/// less than a half.
pub open spec fn stretch_of(c: ButtonConfigView) -> int {
    match c.stretch {
        Some(s) => if s < HALF {
            HALF as int
        } else {
            s as int
        },
        None => ONE as int,
    }
}

/// Where the button behind the first `n` begins, in button widths.
pub open spec fn stretched(cfg: Seq<ButtonConfigView>, n: nat) -> int
    decreases n,
{
    if n == 0 {
        0
    } else {
        stretched(cfg, (n - 1) as nat) + stretch_of(cfg[n - 1])
    }
}

/// Whether one of the buttons has one of these names.
pub open spec fn any_named(cfg: Seq<ButtonConfigView>, names: Seq<Seq<char>>) -> bool {
    exists|i: int|
        0 <= i < cfg.len() && (#[trigger] cfg[i]).button is Some && names.contains(
            cfg[i].button->0,
        )
}

/// Whether one of the buttons is a notification button.
pub open spec fn any_notification(cfg: Seq<ButtonConfigView>) -> bool {
    exists|i: int|
        0 <= i < cfg.len() && (#[trigger] cfg[i]).button is Some && notification_named(
            cfg[i].button->0,
        ) is Some
}

/// The names of the buttons that show what the system is doing.
pub open spec fn sysinfo_names() -> Seq<Seq<char>> {
    seq![
        "CpuUsage"@,
        "CPU"@,
        "cpu"@,
        "MemoryUsage"@,
        "Memory"@,
        "memory"@,
        "ActiveWindow"@,
        "active_window"@,
        "ActiveWorkspace"@,
        "active_workspace"@,
    ]
}

/// The buttons of a layer at their places.
pub open spec fn buttons_built(cfg: Seq<ButtonConfigView>, images: Images, hw: Hardware) -> Seq<
    (i64, ButtonView),
> {
    Seq::new(cfg.len(), |i: int| (stretched(cfg, i as nat) as i64, built(cfg[i], images, hw)))
}

/// The layer that descriptions stand for.
pub open spec fn layer_built(
    name: Seq<char>,
    cfg: Seq<ButtonConfigView>,
    images: Images,
    hw: Hardware,
) -> LayerView {
    LayerView {
        name,
        displays_time: any_named(cfg, seq!["Time"@, "time"@]),
        displays_battery: any_named(cfg, seq!["Battery"@, "battery"@]),
        displays_sysinfo: any_named(cfg, sysinfo_names()),
        displays_slider: any_named(cfg, seq!["Slider"@, "slider"@]),
        displays_weather: any_named(cfg, seq!["Weather"@, "weather"@]),
        displays_notifications: any_notification(cfg),
        buttons: buttons_built(cfg, images, hw),
        virtual_button_count: stretched(cfg, cfg.len()) as i64,
        faster_refresh: exists|i: int|
            0 <= i < cfg.len() && (#[trigger] built(cfg[i], images, hw)).hurried(),
        overlay_parent: None,
        overlay_coverage: 0,
        overlay_reveal: ONE,
        overlay_slide_start_x: None,
    }
}

/// Why a layer cannot be built.
#[derive(Clone, Copy, PartialEq, Eq, Structural, Debug)]
pub enum LayerProblem {
    /// It has no buttons.
    Empty,
    /// Its width is more than the number for it holds.
    TooWide,
    /// The button of this number cannot be built.
    Button(usize, BuildProblem),
}

/// The first button that cannot be built.
pub open spec fn first_problem(
    cfg: Seq<ButtonConfigView>,
    images: Images,
    hw: Hardware,
    from: nat,
) -> Option<LayerProblem>
    decreases cfg.len() - from,
{
    if from >= cfg.len() {
        None
    } else {
        match problem_of(cfg[from as int], images, hw) {
            Some(p) => Some(LayerProblem::Button(from as usize, p)),
            None => first_problem(cfg, images, hw, from + 1),
        }
    }
}

/// Why a layer cannot be built, if so.
pub open spec fn layer_problem(cfg: Seq<ButtonConfigView>, images: Images, hw: Hardware) -> Option<
    LayerProblem,
> {
    if cfg.len() == 0 {
        Some(LayerProblem::Empty)
    } else if stretched(cfg, cfg.len()) > i64::MAX {
        Some(LayerProblem::TooWide)
    } else {
        first_problem(cfg, images, hw, 0)
    }
}

proof fn lemma_stretched(cfg: Seq<ButtonConfigView>, i: nat, j: nat)
    requires
        i <= j <= cfg.len(),
    ensures
        0 <= stretched(cfg, i) <= stretched(cfg, j),
        (j - i) * HALF <= stretched(cfg, j) - stretched(cfg, i),
    decreases j,
{
    if i < j {
        lemma_stretched(cfg, i, (j - 1) as nat);
        assert((j - i) * HALF == (j - 1 - i) * HALF + HALF) by (nonlinear_arith);
    } else if i > 0 {
        lemma_stretched(cfg, 0, (i - 1) as nat);
        lemma_stretched_positive(cfg, i);
    }
}

proof fn lemma_stretched_positive(cfg: Seq<ButtonConfigView>, i: nat)
    requires
        i <= cfg.len(),
    ensures
        0 <= stretched(cfg, i),
    decreases i,
{
    if i > 0 {
        lemma_stretched_positive(cfg, (i - 1) as nat);
    }
}

proof fn lemma_no_problem(
    cfg: Seq<ButtonConfigView>,
    images: Images,
    hw: Hardware,
    from: nat,
    i: int,
)
    requires
        first_problem(cfg, images, hw, from) is None,
        from <= i < cfg.len(),
    ensures
        problem_of(cfg[i], images, hw) is None,
    decreases cfg.len() - from,
{
    if from < i {
        lemma_no_problem(cfg, images, hw, from + 1, i);
    }
}

/// Whether a text is one of a list.
fn is_one_of(s: &str, names: &Vec<String>) -> (r: bool)
    ensures
        r == texts(names@).contains(s@),
{
    let n = names.len();
    let mut i: usize = 0;
    while i < n
        invariant
            i <= n,
            n == names@.len(),
            forall|k: int| 0 <= k < i ==> (#[trigger] texts(names@)[k]) != s@,
        decreases n - i,
    {
        assert(texts(names@)[i as int] == names@[i as int]@);
        if same(s, names[i].as_str()) {
            return true;
        }
        i += 1;
    }
    false
}

/// Whether one of the buttons has one of these names.
fn has_button(cfg: &Vec<ButtonConfig>, names: &Vec<String>) -> (r: bool)
    ensures
        r == any_named(configs(cfg@), texts(names@)),
{
    let n = cfg.len();
    let mut i: usize = 0;
    while i < n
        invariant
            i <= n,
            n == cfg@.len(),
            forall|k: int|
                0 <= k < i ==> !((#[trigger] configs(cfg@)[k]).button is Some && texts(
                    names@,
                ).contains(configs(cfg@)[k].button->0)),
        decreases n - i,
    {
        assert(configs(cfg@)[i as int] == cfg@[i as int]@);
        match &cfg[i].button {
            Some(b) => {
                if is_one_of(b.as_str(), names) {
                    return true;
                }
            },
            None => {},
        }
        i += 1;
    }
    false
}

fn has_either(cfg: &Vec<ButtonConfig>, one: &str, other: &str) -> (r: bool)
    ensures
        r == any_named(configs(cfg@), seq![one@, other@]),
{
    let mut names: Vec<String> = Vec::new();
    names.push(one.to_owned());
    names.push(other.to_owned());
    assert(texts(names@) =~= seq![one@, other@]);
    has_button(cfg, &names)
}

fn has_sysinfo(cfg: &Vec<ButtonConfig>) -> (r: bool)
    ensures
        r == any_named(configs(cfg@), sysinfo_names()),
{
    let mut names: Vec<String> = Vec::new();
    names.push("CpuUsage".to_owned());
    names.push("CPU".to_owned());
    names.push("cpu".to_owned());
    names.push("MemoryUsage".to_owned());
    names.push("Memory".to_owned());
    names.push("memory".to_owned());
    names.push("ActiveWindow".to_owned());
    names.push("active_window".to_owned());
    names.push("ActiveWorkspace".to_owned());
    names.push("active_workspace".to_owned());
    assert(texts(names@) =~= sysinfo_names());
    has_button(cfg, &names)
}

fn has_notification(cfg: &Vec<ButtonConfig>) -> (r: bool)
    ensures
        r == any_notification(configs(cfg@)),
{
    let n = cfg.len();
    let mut i: usize = 0;
    while i < n
        invariant
            i <= n,
            n == cfg@.len(),
            forall|k: int|
                0 <= k < i ==> !((#[trigger] configs(cfg@)[k]).button is Some && notification_named(
                    configs(cfg@)[k].button->0,
                ) is Some),
        decreases n - i,
    {
        assert(configs(cfg@)[i as int] == cfg@[i as int]@);
        match &cfg[i].button {
            Some(b) => {
                if notification_button_alias(b.as_str()).is_some() {
                    return true;
                }
            },
            None => {},
        }
        i += 1;
    }
    false
}

/// How wide a button is, in button widths.
fn stretch_units(c: &ButtonConfig) -> (r: i64)
    ensures
        r == stretch_of(c@),
        r >= HALF,
{
    match c.stretch {
        Some(s) => if s < HALF {
            HALF
        } else {
            s
        },
        None => ONE,
    }
}

/// Whether the buttons are wider together than the number for it holds.
fn too_wide(cfg: &Vec<ButtonConfig>) -> (r: bool)
    ensures
        r == (stretched(configs(cfg@), cfg@.len()) > i64::MAX),
{
    let ghost all = configs(cfg@);
    let n = cfg.len();
    let mut sum: i64 = 0;
    let mut i: usize = 0;
    while i < n
        invariant
            i <= n,
            n == cfg@.len(),
            all == configs(cfg@),
            sum == stretched(all, i as nat),
            0 <= sum,
        decreases n - i,
    {
        assert(all[i as int] == cfg@[i as int]@);
        let s = stretch_units(&cfg[i]);
        proof {
            lemma_stretched(all, (i + 1) as nat, n as nat);
        }
        if s > i64::MAX - sum {
            return true;
        }
        sum = sum + s;
        i += 1;
    }
    false
}

/// Finds the first button that cannot be built.
fn find_problem(cfg: &Vec<ButtonConfig>, images: &Images, hw: &Hardware) -> (r: Option<LayerProblem>)
    ensures
        r == first_problem(configs(cfg@), *images, *hw, 0),
{
    let ghost all = configs(cfg@);
    let n = cfg.len();
    let mut i: usize = 0;
    while i < n
        invariant
            i <= n,
            n == cfg@.len(),
            all == configs(cfg@),
            first_problem(all, *images, *hw, 0) == first_problem(all, *images, *hw, i as nat),
        decreases n - i,
    {
        assert(all[i as int] == cfg@[i as int]@);
        match build_problem(&cfg[i], images, hw) {
            Some(p) => {
                return Some(LayerProblem::Button(i, p));
            },
            None => {},
        }
        i += 1;
    }
    None
}

impl FunctionLayer {
    /// Builds a layer from descriptions of buttons.
    pub fn with_config(name: String, cfg: Vec<ButtonConfig>, images: &Images, hw: &Hardware) -> (r:
        FunctionLayer)
        requires
            layer_problem(configs(cfg@), *images, *hw) is None,
        ensures
            r@ == layer_built(name@, configs(cfg@), *images, *hw),
            r@.wf(),
    {
        let ghost all = configs(cfg@);
        let displays_time = has_either(&cfg, "Time", "time");
        let displays_battery = has_either(&cfg, "Battery", "battery");
        let displays_sysinfo = has_sysinfo(&cfg);
        let displays_slider = has_either(&cfg, "Slider", "slider");
        let displays_weather = has_either(&cfg, "Weather", "weather");
        let displays_notifications = has_notification(&cfg);
        let n = cfg.len();
        let mut buttons: Vec<(i64, Button)> = Vec::new();
        let mut count: i64 = 0;
        let mut faster_refresh = false;
        let mut i: usize = 0;
        while i < n
            invariant
                i <= n,
                n == cfg@.len(),
                all == configs(cfg@),
                layer_problem(all, *images, *hw) is None,
                count == stretched(all, i as nat),
                0 <= count,
                buttons@.len() == i,
                forall|k: int|
                    0 <= k < i ==> (#[trigger] buttons@[k]).0 == stretched(all, k as nat)
                        && buttons@[k].1@ == built(all[k], *images, *hw) && buttons@[k].1@.wf(),
                faster_refresh == exists|k: int|
                    0 <= k < i && (#[trigger] built(all[k], *images, *hw)).hurried(),
            decreases n - i,
        {
            assert(all[i as int] == cfg@[i as int]@);
            proof {
                lemma_no_problem(all, *images, *hw, 0, i as int);
                lemma_stretched(all, (i + 1) as nat, n as nat);
            }
            let c = cfg[i].clone();
            let stretch = stretch_units(&c);
            let button = Button::with_config(c, images, hw);
            let hurried = button.needs_faster_refresh();
            let ghost was = faster_refresh;
            faster_refresh = faster_refresh || hurried;
            proof {
                if hurried {
                    assert(built(all[i as int], *images, *hw).hurried());
                }
                if was {
                    let k = choose|k: int|
                        0 <= k < i && (#[trigger] built(all[k], *images, *hw)).hurried();
                    assert(built(all[k], *images, *hw).hurried());
                }
            }
            buttons.push((count, button));
            count = count + stretch;
            i += 1;
        }
        let r = FunctionLayer {
            name,
            displays_time,
            displays_battery,
            displays_sysinfo,
            displays_slider,
            displays_weather,
            displays_notifications,
            buttons,
            virtual_button_count: count,
            faster_refresh,
            overlay_parent: None,
            overlay_coverage: 0,
            overlay_reveal: ONE,
            overlay_slide_start_x: None,
        };
        proof {
            assert forall|k: int| 0 <= k < n implies (#[trigger] r@.buttons[k]) == buttons_built(
                all,
                *images,
                *hw,
            )[k] && 0 <= r@.buttons[k].0 <= count by {
                lemma_stretched(all, k as nat, n as nat);
                assert(buttons@[k].0 == stretched(all, k as nat));
            }
            assert(r@.buttons =~= buttons_built(all, *images, *hw));
            assert forall|i: int, j: int| 0 <= i <= j < r@.buttons.len() implies (
            #[trigger] r@.buttons[i]).0 <= (#[trigger] r@.buttons[j]).0 by {
                lemma_stretched(all, i as nat, j as nat);
                assert(buttons@[i].0 == stretched(all, i as nat));
                assert(buttons@[j].0 == stretched(all, j as nat));
            }
            lemma_stretched(all, 0, n as nat);
            assert(n <= 34_359_738_368) by (nonlinear_arith)
                requires
                    (n - 0) * 500_000_000 <= 9_223_372_036_854_775_807,
            ;
            assert(n * HALF >= HALF) by (nonlinear_arith)
                requires
                    n >= 1,
            ;
        }
        r
    }

    /// Builds a layer from descriptions of buttons, or tells why it cannot be
    /// built.
    pub fn build(name: String, cfg: Vec<ButtonConfig>, images: &Images, hw: &Hardware) -> (r: Result<
        FunctionLayer,
        LayerProblem,
    >)
        ensures
            match r {
                Ok(l) => layer_problem(configs(cfg@), *images, *hw) is None && l@ == layer_built(
                    name@,
                    configs(cfg@),
                    *images,
                    *hw,
                ) && l@.wf(),
                Err(p) => layer_problem(configs(cfg@), *images, *hw) == Some(p),
            },
    {
        if cfg.len() == 0 {
            return Err(LayerProblem::Empty);
        }
        if too_wide(&cfg) {
            return Err(LayerProblem::TooWide);
        }
        match find_problem(&cfg, images, hw) {
            Some(p) => Err(p),
            None => Ok(FunctionLayer::with_config(name, cfg, images, hw)),
        }
    }
}

/// The layer of a plan.
pub open spec fn plan_built(p: LayerPlanView, images: Images, hw: Hardware) -> LayerView {
    let l = layer_built(p.name, p.keys, images, hw);
    match p.overlay {
        Some(o) => LayerView { overlay_parent: Some(o.0), overlay_coverage: o.1, ..l },
        None => l,
    }
}

/// The first plan that cannot be built.
pub open spec fn first_bad_plan(
    v: Seq<LayerPlanView>,
    images: Images,
    hw: Hardware,
    from: nat,
) -> Option<(nat, LayerProblem)>
    decreases v.len() - from,
{
    if from >= v.len() {
        None
    } else {
        match layer_problem(v[from as int].keys, images, hw) {
            Some(p) => Some((from, p)),
            None => first_bad_plan(v, images, hw, from + 1),
        }
    }
}

/// The part of the bar that each panel covers is a part of it.
pub open spec fn coverages_valid(v: Seq<LayerPlanView>) -> bool {
    forall|i: int|
        0 <= i < v.len() && (#[trigger] v[i]).overlay is Some ==> 0 <= (v[i].overlay->0).1 <= ONE
}

/// Builds the layers of plans, or tells which of them cannot be built.
pub fn build_layers(v: &Vec<LayerPlan>, images: &Images, hw: &Hardware) -> (r: Result<
    Vec<FunctionLayer>,
    (usize, LayerProblem),
>)
    requires
        coverages_valid(plans(v@)),
    ensures
        match r {
            Ok(layers) => {
                &&& first_bad_plan(plans(v@), *images, *hw, 0) is None
                &&& layers@.len() == v@.len()
                &&& forall|i: int|
                    0 <= i < layers@.len() ==> (#[trigger] layers@[i])@ == plan_built(
                        plans(v@)[i],
                        *images,
                        *hw,
                    ) && layers@[i]@.wf()
            },
            Err(e) => first_bad_plan(plans(v@), *images, *hw, 0) == Some((e.0 as nat, e.1)),
        },
{
    let ghost all = plans(v@);
    let n = v.len();
    let mut layers: Vec<FunctionLayer> = Vec::new();
    let mut i: usize = 0;
    while i < n
        invariant
            i <= n,
            n == v@.len(),
            all == plans(v@),
            coverages_valid(all),
            first_bad_plan(all, *images, *hw, 0) == first_bad_plan(all, *images, *hw, i as nat),
            layers@.len() == i,
            forall|k: int|
                0 <= k < i ==> (#[trigger] layers@[k])@ == plan_built(all[k], *images, *hw)
                    && layers@[k]@.wf(),
        decreases n - i,
    {
        let p = &v[i];
        assert(all[i as int] == p@);
        let keys = crate::config::copy_configs(&p.keys);
        match FunctionLayer::build(p.name.clone(), keys, images, hw) {
            Ok(mut layer) => {
                match &p.overlay {
                    Some(o) => {
                        layer.set_overlay(o.0.clone(), o.1);
                    },
                    None => {},
                }
                layers.push(layer);
            },
            Err(e) => {
                return Err((i, e));
            },
        }
        i += 1;
    }
    Ok(layers)
}

/// Why a configuration cannot be loaded.
#[derive(Clone, Copy, PartialEq, Eq, Structural, Debug)]
pub enum LoadProblem {
    /// Something is not set that must be.
    Incomplete,
    /// The layer of this number cannot be built.
    Layer(usize, LayerProblem),
}

proof fn lemma_coverages(base: ConfigProxy)
    ensures
        coverages_valid(planned(base)),
{
    assert forall|i: int|
        0 <= i < planned(base).len() && (#[trigger] planned(base)[i]).overlay is Some implies 0 <= (
    planned(base)[i].overlay->0).1 <= ONE by {
        crate::config::panel_coverage_is_bounded(base, i);
    }
}

/// The layers that a configuration stands for.
pub open spec fn layers_built(base: ConfigProxy, images: Images, hw: Hardware) -> Seq<LayerView> {
    Seq::new(planned(base).len(), |i: int| plan_built(planned(base)[i], images, hw))
}

/// Why a configuration cannot be loaded, if so.
pub open spec fn load_problem(base: ConfigProxy, images: Images, hw: Hardware) -> Option<
    LoadProblem,
> {
    if !complete(base) {
        Some(LoadProblem::Incomplete)
    } else {
        match first_bad_plan(planned(base), images, hw, 0) {
            Some(e) => Some(LoadProblem::Layer(e.0 as usize, e.1)),
            None => None,
        }
    }
}

/// Loads a configuration whose files have been merged: the settings, and the
/// layers with their buttons. Every load turns diagnostics on or off as the
/// configuration says, also one that fails.
pub fn load_config(
    base: ConfigProxy,
    images: &Images,
    hw: &Hardware,
    logging: &mut Logging,
) -> (r: Result<(Config, Vec<FunctionLayer>), LoadProblem>)
    ensures
        final(logging).enabled == (base.logging != Some(false)),
        match r {
            Ok(loaded) => {
                &&& load_problem(base, *images, *hw) is None
                &&& layers_of(loaded.1@) == layers_built(base, *images, *hw)
                &&& forall|i: int| 0 <= i < loaded.1@.len() ==> (#[trigger] loaded.1@[i])@.wf()
                &&& loaded.0.default_layer@ == start_layer(base)
                &&& crate::config::settings_of(base, loaded.0)
            },
            Err(p) => load_problem(base, *images, *hw) == Some(p),
        },
{
    let enabled = match base.logging {
        Some(b) => b,
        None => true,
    };
    set_logging_enabled(logging, enabled);
    if !is_complete(&base) {
        return Err(LoadProblem::Incomplete);
    }
    proof {
        lemma_coverages(base);
    }
    let (cfg, plan) = assemble(base);
    match build_layers(&plan, images, hw) {
        Ok(layers) => {
            assert(layers_of(layers@) =~= layers_built(base, *images, *hw));
            Ok((cfg, layers))
        },
        Err(e) => Err(LoadProblem::Layer(e.0, e.1)),
    }
}

/// The layer to start with is one of the layers that were built.
pub proof fn start_layer_is_built(base: ConfigProxy, images: Images, hw: Hardware)
    ensures
        crate::layer::layer_at(layers_built(base, images, hw), start_layer(base)) is Some,
{
    crate::config::start_layer_is_planned(base);
    let v = layers_built(base, images, hw);
    let i = choose|i: int| 0 <= i < planned(base).len() && (#[trigger] planned(base)[i]).name
        == start_layer(base);
    crate::layer::layer_at_is_first(v, start_layer(base));
    assert(v[i].name == start_layer(base));
}

/// Every panel that was built lies over a layer that was built.
pub proof fn panels_lie_over_layers(base: ConfigProxy, images: Images, hw: Hardware, i: int)
    requires
        0 <= i < layers_built(base, images, hw).len(),
        layers_built(base, images, hw)[i].is_panel(),
    ensures
        crate::layer::parent_at(layers_built(base, images, hw), i) is Some,
{
    let v = layers_built(base, images, hw);
    crate::config::panels_have_parents(base, i);
    let parent = v[i].overlay_parent->0;
    let j = choose|j: int| 0 <= j < planned(base).len() && (#[trigger] planned(base)[j]).name
        == parent;
    crate::layer::layer_at_is_first(v, parent);
    assert(v[j].name == parent);
}

/// The buttons of a layer stand in the order of their descriptions, each behind the
/// one before it: the first one at the beginning, and each as wide as it is asked
/// to be, one button width where nothing is said and never less than half of one.
/// All widths together make up the layer.
pub proof fn buttons_stand_side_by_side(
    name: Seq<char>,
    cfg: Seq<ButtonConfigView>,
    images: Images,
    hw: Hardware,
    i: int,
)
    requires
        stretched(cfg, cfg.len()) <= i64::MAX,
        0 <= i < cfg.len(),
    ensures
        ({
            let l = layer_built(name, cfg, images, hw);
            let end = if i + 1 < cfg.len() {
                l.buttons[i + 1].0
            } else {
                l.virtual_button_count
            };
            let width = end - l.buttons[i].0;
            &&& l.name == name
            &&& l.buttons.len() == cfg.len()
            &&& l.buttons[0].0 == 0
            &&& l.buttons[i].1 == built(cfg[i], images, hw)
            &&& cfg[i].stretch is None ==> width == 1_000_000_000
            &&& cfg[i].stretch matches Some(s) ==> {
                &&& s >= 500_000_000 ==> width == s
                &&& s < 500_000_000 ==> width == 500_000_000
            }
        }),
{
    lemma_stretched(cfg, i as nat, cfg.len());
    lemma_stretched(cfg, (i + 1) as nat, cfg.len());
    assert(stretched(cfg, (i + 1) as nat) == stretched(cfg, i as nat) + stretch_of(cfg[i]));
    assert(stretched(cfg, 0) == 0);
}

/// A layer knows what it displays: one with a time, a battery, a figure or the
/// desktop, a slider, the weather or notifications says so, and is looked after for
/// it.
pub proof fn layer_knows_what_it_displays(
    name: Seq<char>,
    cfg: Seq<ButtonConfigView>,
    images: Images,
    hw: Hardware,
    i: int,
)
    requires
        0 <= i < cfg.len(),
    ensures
        ({
            let l = layer_built(name, cfg, images, hw);
            let image = l.buttons[i].1.image;
            &&& image is Time ==> l.displays_time
            &&& image is Battery ==> l.displays_battery
            &&& image is CpuUsage || image is MemoryUsage || image is ActiveWindow || image
                is ActiveWorkspace ==> l.displays_sysinfo
            &&& image is Slider ==> l.displays_slider
            &&& image is WeatherCurrent || image is WeatherForecast ==> l.displays_weather
            &&& image is Notification ==> l.displays_notifications
            &&& l.buttons[i].1.hurried() ==> l.faster_refresh
            &&& l.overlay_parent is None
            &&& l.overlay_reveal == 1_000_000_000
        }),
{
    let c = cfg[i];
    let b = built(c, images, hw);
    if c.button is Some {
        let n = c.button->0;
        let time = seq!["Time"@, "time"@];
        let battery = seq!["Battery"@, "battery"@];
        let slider = seq!["Slider"@, "slider"@];
        let weather = seq!["Weather"@, "weather"@];
        let system = sysinfo_names();
        assert(time[0] == "Time"@ && time[1] == "time"@);
        assert(battery[0] == "Battery"@ && battery[1] == "battery"@);
        assert(slider[0] == "Slider"@ && slider[1] == "slider"@);
        assert(weather[0] == "Weather"@ && weather[1] == "weather"@);
        assert(system[0] == "CpuUsage"@ && system[1] == "CPU"@ && system[2] == "cpu"@ && system[3]
            == "MemoryUsage"@ && system[4] == "Memory"@ && system[5] == "memory"@ && system[6]
            == "ActiveWindow"@ && system[7] == "active_window"@ && system[8] == "ActiveWorkspace"@
            && system[9] == "active_workspace"@);
        assert(kind_of(c) == ButtonKind::Time ==> time.contains(n));
        assert(kind_of(c) == ButtonKind::Battery ==> battery.contains(n));
        assert(kind_of(c) == ButtonKind::Slider ==> slider.contains(n));
        assert(kind_of(c) == ButtonKind::Weather ==> weather.contains(n));
        assert(kind_of(c) == ButtonKind::Cpu ==> system.contains(n));
        assert(kind_of(c) == ButtonKind::Memory ==> system.contains(n));
        assert(kind_of(c) == ButtonKind::ActiveWindow ==> system.contains(n));
        assert(kind_of(c) == ButtonKind::ActiveWorkspace ==> system.contains(n));
    }
    assert(built(cfg[i], images, hw) == layer_built(name, cfg, images, hw).buttons[i].1);
}

/// A layer displays something only if one of its descriptions is of a button of
/// such a name.
pub proof fn layer_displays_nothing_else(
    name: Seq<char>,
    cfg: Seq<ButtonConfigView>,
    images: Images,
    hw: Hardware,
)
    requires
        forall|i: int| 0 <= i < cfg.len() ==> (#[trigger] cfg[i]).button is None,
    ensures
        ({
            let l = layer_built(name, cfg, images, hw);
            &&& !l.displays_time && !l.displays_battery && !l.displays_sysinfo
            &&& !l.displays_slider && !l.displays_weather && !l.displays_notifications
        }),
{
}

/// A layer cannot be built exactly if it has no buttons, is too wide, or has a
/// button that cannot be built; the first one of those is named.
pub proof fn first_problem_is_named(cfg: Seq<ButtonConfigView>, images: Images, hw: Hardware)
    requires
        cfg.len() <= usize::MAX,
    ensures
        layer_problem(cfg, images, hw) is None <==> {
            &&& cfg.len() > 0
            &&& stretched(cfg, cfg.len()) <= i64::MAX
            &&& forall|i: int| 0 <= i < cfg.len() ==> problem_of(#[trigger] cfg[i], images, hw) is None
        },
        layer_problem(cfg, images, hw) matches Some(LayerProblem::Button(i, p)) ==> {
            &&& i < cfg.len()
            &&& problem_of(cfg[i as int], images, hw) == Some(p)
            &&& forall|j: int| 0 <= j < i ==> problem_of(#[trigger] cfg[j], images, hw) is None
        },
        cfg.len() == 0 <==> layer_problem(cfg, images, hw) == Some(LayerProblem::Empty),
{
    lemma_first_problem(cfg, images, hw, 0);
}

proof fn lemma_first_problem(cfg: Seq<ButtonConfigView>, images: Images, hw: Hardware, from: nat)
    requires
        cfg.len() <= usize::MAX,
        from <= cfg.len(),
    ensures
        match first_problem(cfg, images, hw, from) {
            Some(q) => exists|i: int|
                {
                    &&& from <= i < cfg.len()
                    &&& problem_of(#[trigger] cfg[i], images, hw) is Some
                    &&& q == LayerProblem::Button(
                        i as usize,
                        problem_of(cfg[i], images, hw)->0,
                    )
                    &&& forall|j: int|
                        from <= j < i ==> problem_of(#[trigger] cfg[j], images, hw) is None
                },
            None => forall|j: int|
                from <= j < cfg.len() ==> problem_of(#[trigger] cfg[j], images, hw) is None,
        },
    decreases cfg.len() - from,
{
    if from < cfg.len() {
        if problem_of(cfg[from as int], images, hw) is None {
            lemma_first_problem(cfg, images, hw, from + 1);
        } else {
            assert(problem_of(cfg[from as int], images, hw) is Some);
        }
    }
}

/// Each layer that is loaded is the one planned at its place: under its name, with a
/// button for each of its descriptions, and over the layer that it is a panel of.
pub proof fn layers_are_those_planned(base: ConfigProxy, images: Images, hw: Hardware, i: int)
    requires
        0 <= i < planned(base).len(),
    ensures
        ({
            let l = layers_built(base, images, hw)[i];
            let p = planned(base)[i];
            &&& layers_built(base, images, hw).len() == planned(base).len()
            &&& l.name == p.name
            &&& l.buttons.len() == p.keys.len()
            &&& forall|k: int|
                0 <= k < p.keys.len() ==> (#[trigger] l.buttons[k]).1 == built(
                    p.keys[k],
                    images,
                    hw,
                )
            &&& p.overlay matches Some(o) ==> l.overlay_parent == Some(o.0) && l.overlay_coverage
                == o.1
            &&& p.overlay is None ==> l.overlay_parent is None
        }),
{
}

/// A configuration cannot be loaded exactly if something is missing that must be
/// set, or one of its layers cannot be built; the first one of those is named.
pub proof fn first_bad_layer_is_named(base: ConfigProxy, images: Images, hw: Hardware)
    requires
        planned(base).len() <= usize::MAX,
    ensures
        load_problem(base, images, hw) is None <==> {
            &&& complete(base)
            &&& forall|i: int|
                0 <= i < planned(base).len() ==> layer_problem(
                    (#[trigger] planned(base)[i]).keys,
                    images,
                    hw,
                ) is None
        },
        !complete(base) <==> load_problem(base, images, hw) == Some(LoadProblem::Incomplete),
        load_problem(base, images, hw) matches Some(LoadProblem::Layer(i, p)) ==> {
            &&& i < planned(base).len()
            &&& layer_problem(planned(base)[i as int].keys, images, hw) == Some(p)
            &&& forall|j: int|
                0 <= j < i ==> layer_problem((#[trigger] planned(base)[j]).keys, images, hw) is None
        },
{
    lemma_first_bad_plan(planned(base), images, hw, 0);
}

proof fn lemma_first_bad_plan(v: Seq<LayerPlanView>, images: Images, hw: Hardware, from: nat)
    requires
        from <= v.len(),
    ensures
        match first_bad_plan(v, images, hw, from) {
            Some(e) => {
                &&& from <= e.0 < v.len()
                &&& layer_problem(v[e.0 as int].keys, images, hw) == Some(e.1)
                &&& forall|j: int|
                    from <= j < e.0 ==> layer_problem((#[trigger] v[j]).keys, images, hw) is None
            },
            None => forall|j: int|
                from <= j < v.len() ==> layer_problem((#[trigger] v[j]).keys, images, hw) is None,
        },
    decreases v.len() - from,
{
    if from < v.len() && layer_problem(v[from as int].keys, images, hw) is None {
        lemma_first_bad_plan(v, images, hw, from + 1);
    }
}

} // verus!
