//! The configuration: its files, how they override one another, and the layers
//! that they describe.

use vstd::prelude::*;
use vstd::string::*;

use crate::command::text_opt;
use crate::text::{
    before, comes_before, join_path, lemma_before_total, lemma_before_transitive, lower, number_up_to, parse_up_to, path_joined, same, texts,
    to_ascii_lowercase,
};

verus! {

/// The description of a button. Stretch and font size are in billionths, key
/// actions are key codes.
pub struct ButtonConfig {
    pub button: Option<String>,
    pub option: Option<String>,
    pub icon: Option<String>,
    pub icon_active: Option<String>,
    pub text: Option<String>,
    pub theme: Option<String>,
    pub locale: Option<String>,
    pub layer_toggle: Option<String>,
    pub weather_day: Option<usize>,
    pub action: Vec<u16>,
    pub command: Option<String>,
    pub stretch: Option<i64>,
    pub icon_width: Option<i32>,
    pub icon_height: Option<i32>,
    pub stacked: bool,
    pub colorize: bool,
    pub font_size: Option<i64>,
    pub max_title_length: Option<usize>,
    pub children: Option<Vec<ButtonConfig>>,
}

/// The mathematical counterpart of [`ButtonConfig`].
#[verifier::ext_equal]
pub struct ButtonConfigView {
    pub button: Option<Seq<char>>,
    pub option: Option<Seq<char>>,
    pub icon: Option<Seq<char>>,
    pub icon_active: Option<Seq<char>>,
    pub text: Option<Seq<char>>,
    pub theme: Option<Seq<char>>,
    pub locale: Option<Seq<char>>,
    pub layer_toggle: Option<Seq<char>>,
    pub weather_day: Option<usize>,
    pub action: Seq<u16>,
    pub command: Option<Seq<char>>,
    pub stretch: Option<i64>,
    pub icon_width: Option<i32>,
    pub icon_height: Option<i32>,
    pub stacked: bool,
    pub colorize: bool,
    pub font_size: Option<i64>,
    pub max_title_length: Option<usize>,
    pub children: Option<Seq<ButtonConfigView>>,
}

/// The mathematical value of a description.
pub open spec fn config_view(c: ButtonConfig) -> ButtonConfigView
    decreases c,
{
    ButtonConfigView {
        button: text_opt(c.button),
        option: text_opt(c.option),
        icon: text_opt(c.icon),
        icon_active: text_opt(c.icon_active),
        text: text_opt(c.text),
        theme: text_opt(c.theme),
        locale: text_opt(c.locale),
        layer_toggle: text_opt(c.layer_toggle),
        weather_day: c.weather_day,
        action: c.action@,
        command: text_opt(c.command),
        stretch: c.stretch,
        icon_width: c.icon_width,
        icon_height: c.icon_height,
        stacked: c.stacked,
        colorize: c.colorize,
        font_size: c.font_size,
        max_title_length: c.max_title_length,
        children: match c.children {
            Some(v) => Some(
                Seq::new(
                    v@.len(),
                    |i: int|
                        if 0 <= i < v@.len() {
                            config_view(v@[i])
                        } else {
                            arbitrary()
                        },
                ),
            ),
            None => None,
        },
    }
}

impl View for ButtonConfig {
    type V = ButtonConfigView;

    open spec fn view(&self) -> ButtonConfigView {
        config_view(*self)
    }
}

/// The values of a list of descriptions.
pub open spec fn configs(v: Seq<ButtonConfig>) -> Seq<ButtonConfigView> {
    Seq::new(v.len(), |i: int| v[i]@)
}

/// The children of a description.
pub open spec fn children_view(c: Option<Vec<ButtonConfig>>) -> Option<Seq<ButtonConfigView>> {
    match c {
        Some(v) => Some(configs(v@)),
        None => None,
    }
}

proof fn lemma_children(c: ButtonConfig)
    ensures
        c@.children == children_view(c.children),
{
    match c.children {
        Some(v) => {
            assert(c@.children->0 =~= configs(v@));
        },
        None => {},
    }
}

/// The description of a button that shows and does nothing.
pub open spec fn blank() -> ButtonConfigView {
    ButtonConfigView {
        button: None,
        option: None,
        icon: None,
        icon_active: None,
        text: None,
        theme: None,
        locale: None,
        layer_toggle: None,
        weather_day: None,
        action: Seq::empty(),
        command: None,
        stretch: None,
        icon_width: None,
        icon_height: None,
        stacked: false,
        colorize: false,
        font_size: None,
        max_title_length: None,
        children: None,
    }
}

impl Default for ButtonConfig {
    fn default() -> (r: ButtonConfig)
        ensures
            r@ == blank(),
    {
        ButtonConfig {
            button: None,
            option: None,
            icon: None,
            icon_active: None,
            text: None,
            theme: None,
            locale: None,
            layer_toggle: None,
            weather_day: None,
            action: Vec::new(),
            command: None,
            stretch: None,
            icon_width: None,
            icon_height: None,
            stacked: false,
            colorize: false,
            font_size: None,
            max_title_length: None,
            children: None,
        }
    }
}

/// Copies a list of key codes.
pub(crate) fn copy_keys(v: &Vec<u16>) -> (r: Vec<u16>)
    ensures
        r@ == v@,
{
    let mut r: Vec<u16> = Vec::new();
    let mut i: usize = 0;
    while i < v.len()
        invariant
            i <= v@.len(),
            r@ == v@.subrange(0, i as int),
        decreases v@.len() - i,
    {
        r.push(v[i]);
        assert(r@ =~= v@.subrange(0, i + 1));
        i += 1;
    }
    assert(v@.subrange(0, i as int) =~= v@);
    r
}

impl Clone for ButtonConfig {
    fn clone(&self) -> (r: ButtonConfig)
        ensures
            r@ == self@,
        decreases self,
    {
        let children: Option<Vec<ButtonConfig>> = match &self.children {
            Some(v) => {
                let mut copies: Vec<ButtonConfig> = Vec::new();
                let n = v.len();
                let mut i: usize = 0;
                while i < n
                    invariant
                        i <= n,
                        n == v@.len(),
                        copies@.len() == i,
                        self.children == Some(*v),
                        forall|k: int| 0 <= k < i ==> (#[trigger] copies@[k])@ == v@[k]@,
                    decreases n - i,
                {
                    proof {
                        assert(decreases_to!(self => self.children));
                        assert(decreases_to!(self.children => self.children->0));
                        assert(decreases_to!(*v => v@));
                        assert(decreases_to!(v@ => v@[i as int]));
                    }
                    let child = v[i].clone();
                    copies.push(child);
                    i += 1;
                }
                assert(configs(copies@) =~= configs(v@));
                Some(copies)
            },
            None => None,
        };
        let r = ButtonConfig {
            button: self.button.clone(),
            option: self.option.clone(),
            icon: self.icon.clone(),
            icon_active: self.icon_active.clone(),
            text: self.text.clone(),
            theme: self.theme.clone(),
            locale: self.locale.clone(),
            layer_toggle: self.layer_toggle.clone(),
            weather_day: self.weather_day,
            action: copy_keys(&self.action),
            command: self.command.clone(),
            stretch: self.stretch,
            icon_width: self.icon_width,
            icon_height: self.icon_height,
            stacked: self.stacked,
            colorize: self.colorize,
            font_size: self.font_size,
            max_title_length: self.max_title_length,
            children,
        };
        proof {
            lemma_children(*self);
            lemma_children(r);
        }
        r
    }
}

/// The name of a layer and the buttons in it.
pub type LayerEntry = (Seq<char>, Seq<ButtonConfigView>);

/// The values of a list of named layers.
pub open spec fn entries(v: Seq<(String, Vec<ButtonConfig>)>) -> Seq<LayerEntry> {
    Seq::new(v.len(), |i: int| (v[i].0@, configs(v[i].1@)))
}

/// A pullout marker.
pub open spec fn is_pullout(b: ButtonConfigView) -> bool {
    b.button == Some("pullout"@) || b.button == Some("Pullout"@)
}

/// The position of the first pullout marker.
pub open spec fn first_pullout(keys: Seq<ButtonConfigView>) -> Option<nat>
    decreases keys.len(),
{
    if keys.len() == 0 {
        None
    } else {
        match first_pullout(keys.drop_last()) {
            Some(m) => Some(m),
            None => if is_pullout(keys.last()) {
                Some((keys.len() - 1) as nat)
            } else {
                None
            },
        }
    }
}

/// What is added to a layer's name for that of its pullout panel.
pub const PULLOUT_SUFFIX: &'static str = "__pullout";

/// How many children of a pullout stay in view where nothing is said of it.
pub const DEFAULT_PULLOUT_VISIBLE: usize = 2;

/// The part of the bar that a panel covers where nothing is said of it, and the
/// least and the most that it can cover.
pub const DEFAULT_PULLOUT_COVERAGE: i64 = 660_000_000;

pub const MIN_PULLOUT_COVERAGE: i64 = 250_000_000;

pub const MAX_PULLOUT_COVERAGE: i64 = 950_000_000;

/// The description of the button that opens or closes a panel.
pub open spec fn toggle_config(label: Seq<char>, target: Seq<char>) -> ButtonConfigView {
    ButtonConfigView {
        button: Some("pullout_toggle"@),
        text: Some(label),
        layer_toggle: Some(target),
        ..blank()
    }
}

/// A panel that lies over the right part of its parent layer.
pub struct Pullout {
    pub name: String,
    pub keys: Vec<ButtonConfig>,
    pub parent: String,
    pub coverage: i64,
}

/// The mathematical counterpart of [`Pullout`].
#[verifier::ext_equal]
pub struct PulloutView {
    pub name: Seq<char>,
    pub keys: Seq<ButtonConfigView>,
    pub parent: Seq<char>,
    pub coverage: i64,
}

impl View for Pullout {
    type V = PulloutView;

    open spec fn view(&self) -> PulloutView {
        PulloutView {
            name: self.name@,
            keys: configs(self.keys@),
            parent: self.parent@,
            coverage: self.coverage,
        }
    }
}

/// The children of a marker.
pub open spec fn pulled_children(b: ButtonConfigView) -> Seq<ButtonConfigView> {
    match b.children {
        Some(c) => c,
        None => Seq::empty(),
    }
}

/// How many of a marker's children stay in view: its option, two where that is
/// no number, and never more than there are.
pub open spec fn pulled_visible(b: ButtonConfigView) -> nat {
    let asked = match b.option {
        Some(o) => match number_up_to(o, usize::MAX as nat) {
            Some(n) => n,
            None => DEFAULT_PULLOUT_VISIBLE as nat,
        },
        None => DEFAULT_PULLOUT_VISIBLE as nat,
    };
    if asked < pulled_children(b).len() {
        asked
    } else {
        pulled_children(b).len()
    }
}

/// The part of the bar that a marker's panel covers.
pub open spec fn pulled_coverage(b: ButtonConfigView) -> i64 {
    let asked = match b.stretch {
        Some(s) => s,
        None => DEFAULT_PULLOUT_COVERAGE,
    };
    if asked < MIN_PULLOUT_COVERAGE {
        MIN_PULLOUT_COVERAGE
    } else if asked > MAX_PULLOUT_COVERAGE {
        MAX_PULLOUT_COVERAGE
    } else {
        asked
    }
}

/// The last children of a marker, which stay in view.
pub open spec fn pulled_rest(b: ButtonConfigView) -> Seq<ButtonConfigView> {
    let c = pulled_children(b);
    c.subrange(c.len() - pulled_visible(b), c.len() as int)
}

/// A layer with its first pullout marker replaced by a toggle and the children
/// that stay in view.
pub open spec fn collapsed(name: Seq<char>, keys: Seq<ButtonConfigView>) -> Seq<ButtonConfigView> {
    match first_pullout(keys) {
        Some(m) => keys.subrange(0, m as int).push(toggle_config("<"@, name + PULLOUT_SUFFIX@))
            + pulled_rest(keys[m as int]) + keys.subrange(m as int + 1, keys.len() as int),
        None => keys,
    }
}

/// The panel of a layer's first pullout marker: a toggle back, and all of the
/// marker's children.
pub open spec fn panel(name: Seq<char>, keys: Seq<ButtonConfigView>) -> Option<PulloutView> {
    match first_pullout(keys) {
        Some(m) => Some(
            PulloutView {
                name: name + PULLOUT_SUFFIX@,
                keys: seq![toggle_config(">"@, name)] + pulled_children(keys[m as int]),
                parent: name,
                coverage: pulled_coverage(keys[m as int]),
            },
        ),
        None => None,
    }
}

/// The description of the button that opens or closes a panel.
pub fn pullout_toggle(label: &str, target: String) -> (r: ButtonConfig)
    ensures
        r@ == toggle_config(label@, target@),
{
    let mut c = ButtonConfig::default();
    c.button = Some("pullout_toggle".to_owned());
    c.text = Some(label.to_owned());
    c.layer_toggle = Some(target);
    c
}

/// Whether a button has one of two names.
pub(crate) fn named(b: &Option<String>, one: &str, other: &str) -> (r: bool)
    ensures
        r == (text_opt(*b) == Some(one@) || text_opt(*b) == Some(other@)),
{
    match b {
        Some(n) => same(n.as_str(), one) || same(n.as_str(), other),
        None => false,
    }
}

/// Finds the first pullout marker.
fn find_pullout(keys: &Vec<ButtonConfig>) -> (r: Option<usize>)
    ensures
        match r {
            Some(m) => first_pullout(configs(keys@)) == Some(m as nat) && m < keys@.len(),
            None => first_pullout(configs(keys@)) is None,
        },
{
    let n = keys.len();
    let mut i: usize = 0;
    assert(configs(keys@).subrange(0, 0) =~= Seq::<ButtonConfigView>::empty());
    while i < n
        invariant
            i <= n,
            n == keys@.len(),
            first_pullout(configs(keys@).subrange(0, i as int)) is None,
        decreases n - i,
    {
        let ghost seen = configs(keys@).subrange(0, i + 1);
        assert(seen.drop_last() =~= configs(keys@).subrange(0, i as int));
        assert(seen.last() == keys@[i as int]@);
        if named(&keys[i].button, "pullout", "Pullout") {
            proof {
                lemma_first_pullout_grows(configs(keys@), i + 1);
            }
            return Some(i);
        }
        i += 1;
    }
    assert(configs(keys@).subrange(0, n as int) =~= configs(keys@));
    None
}

proof fn lemma_first_pullout_grows(keys: Seq<ButtonConfigView>, len: int)
    requires
        0 <= len <= keys.len(),
        first_pullout(keys.subrange(0, len)) is Some,
    ensures
        first_pullout(keys) == first_pullout(keys.subrange(0, len)),
    decreases keys.len() - len,
{
    if len == keys.len() {
        assert(keys.subrange(0, len) =~= keys);
    } else {
        assert(keys.subrange(0, len + 1).drop_last() =~= keys.subrange(0, len));
        lemma_first_pullout_grows(keys, len + 1);
    }
}

/// The first pullout marker is one, stands in the list, and none stands before
/// it.
pub proof fn first_pullout_is_first(keys: Seq<ButtonConfigView>)
    ensures
        match first_pullout(keys) {
            Some(m) => m < keys.len() && is_pullout(keys[m as int]) && forall|i: int|
                0 <= i < m ==> !is_pullout(#[trigger] keys[i]),
            None => forall|i: int| 0 <= i < keys.len() ==> !is_pullout(#[trigger] keys[i]),
        },
    decreases keys.len(),
{
    if keys.len() > 0 {
        first_pullout_is_first(keys.drop_last());
        assert forall|i: int| 0 <= i < keys.len() - 1 implies keys.drop_last()[i] == keys[i] by {}
        match first_pullout(keys.drop_last()) {
            Some(m) => {
                assert(is_pullout(keys.drop_last()[m as int]));
                assert forall|i: int| 0 <= i < m implies !is_pullout(#[trigger] keys[i]) by {
                    assert(!is_pullout(keys.drop_last()[i]));
                }
            },
            None => {
                assert forall|i: int| 0 <= i < keys.len() - 1 implies !is_pullout(
                    #[trigger] keys[i],
                ) by {
                    assert(!is_pullout(keys.drop_last()[i]));
                }
            },
        }
    }
}

/// Copies the descriptions from one position up to another behind a list.
fn copy_range(to: &mut Vec<ButtonConfig>, v: &Vec<ButtonConfig>, from: usize, upto: usize)
    requires
        from <= upto <= v@.len(),
    ensures
        configs(final(to)@) == configs(old(to)@) + configs(v@).subrange(from as int, upto as int),
{
    let ghost start = configs(to@);
    let mut i: usize = from;
    assert(configs(v@).subrange(from as int, from as int) =~= Seq::empty());
    assert(start + Seq::empty() =~= start);
    while i < upto
        invariant
            from <= i <= upto <= v@.len(),
            configs(to@) == start + configs(v@).subrange(from as int, i as int),
        decreases upto - i,
    {
        let ghost was = configs(to@);
        to.push(v[i].clone());
        assert(configs(to@) =~= was.push(v@[i as int]@));
        assert(configs(v@).subrange(from as int, i + 1) =~= configs(v@).subrange(
            from as int,
            i as int,
        ).push(v@[i as int]@));
        assert(start + configs(v@).subrange(from as int, i + 1) =~= was.push(v@[i as int]@));
        i += 1;
    }
}

/// Copies a list of descriptions.
pub fn copy_configs(v: &Vec<ButtonConfig>) -> (r: Vec<ButtonConfig>)
    ensures
        configs(r@) == configs(v@),
{
    let mut r: Vec<ButtonConfig> = Vec::new();
    copy_range(&mut r, v, 0, v.len());
    assert(configs(r@) =~= configs(v@));
    r
}

/// Puts one string behind another.
pub(crate) fn concatenated(a: &str, b: &str) -> (r: String)
    ensures
        r@ == a@ + b@,
{
    let mut s = a.to_owned();
    s.append(b);
    s
}

/// Splits a layer at its first pullout marker: the layer with the marker
/// replaced, and the panel. Later markers stay as they are.
pub fn expand_pullout(name: &str, keys: Vec<ButtonConfig>) -> (r: (
    Vec<ButtonConfig>,
    Option<Pullout>,
))
    ensures
        configs(r.0@) == collapsed(name@, configs(keys@)),
        match r.1 {
            Some(p) => panel(name@, configs(keys@)) == Some(p@),
            None => panel(name@, configs(keys@)) is None,
        },
{
    let ghost all = configs(keys@);
    match find_pullout(&keys) {
        Some(m) => {
            let ghost marker = all[m as int];
            proof {
                lemma_children(keys@[m as int]);
            }
            let children: Vec<ButtonConfig> = match &keys[m].children {
                Some(c) => copy_configs(c),
                None => Vec::new(),
            };
            assert(configs(children@) =~= pulled_children(marker));
            let asked: usize = match &keys[m].option {
                Some(o) => match parse_up_to(o.as_str(), usize::MAX as u64) {
                    Some(n) => n as usize,
                    None => DEFAULT_PULLOUT_VISIBLE,
                },
                None => DEFAULT_PULLOUT_VISIBLE,
            };
            let visible: usize = if asked < children.len() {
                asked
            } else {
                children.len()
            };
            assert(visible == pulled_visible(marker));
            let asked: i64 = match keys[m].stretch {
                Some(s) => s,
                None => DEFAULT_PULLOUT_COVERAGE,
            };
            let coverage: i64 = if asked < MIN_PULLOUT_COVERAGE {
                MIN_PULLOUT_COVERAGE
            } else if asked > MAX_PULLOUT_COVERAGE {
                MAX_PULLOUT_COVERAGE
            } else {
                asked
            };
            let expanded_name = concatenated(name, PULLOUT_SUFFIX);
            let mut rest: Vec<ButtonConfig> = Vec::new();
            copy_range(&mut rest, &keys, 0, m);
            let ghost head = configs(rest@);
            assert(head =~= all.subrange(0, m as int));
            rest.push(pullout_toggle("<", expanded_name.clone()));
            assert(configs(rest@) =~= head.push(toggle_config("<"@, expanded_name@)));
            copy_range(&mut rest, &children, children.len() - visible, children.len());
            let end = keys.len();
            copy_range(&mut rest, &keys, m + 1, end);
            let mut panel_keys: Vec<ButtonConfig> = Vec::new();
            panel_keys.push(pullout_toggle(">", name.to_owned()));
            assert(configs(panel_keys@) =~= seq![toggle_config(">"@, name@)]);
            let n = children.len();
            copy_range(&mut panel_keys, &children, 0, n);
            assert(configs(children@).subrange(0, n as int) =~= configs(children@));
            let p = Pullout {
                name: expanded_name,
                keys: panel_keys,
                parent: name.to_owned(),
                coverage,
            };
            (rest, Some(p))
        },
        None => (keys, None),
    }
}

/// A description that is coloured as its parent is.
pub open spec fn tinted_one(b: ButtonConfigView, tint: bool) -> ButtonConfigView {
    ButtonConfigView { colorize: b.colorize || tint, ..b }
}

/// Descriptions that are coloured as their parent is.
pub open spec fn tinted(v: Seq<ButtonConfigView>, tint: bool) -> Seq<ButtonConfigView> {
    Seq::new(v.len(), |i: int| tinted_one(v[i], tint))
}

/// The layers that the buttons of a list bring along, each behind those that
/// its own buttons bring along: the children of a button that toggles to a
/// layer are that layer. Where the list is coloured by its parent, `tint` says
/// so.
pub open spec fn child_layers(v: Seq<ButtonConfigView>, tint: bool) -> Seq<LayerEntry>
    decreases v,
{
    if v.len() == 0 {
        Seq::empty()
    } else {
        let b = v[v.len() - 1];
        let earlier = child_layers(v.subrange(0, v.len() - 1), tint);
        match b.children {
            Some(c) => match b.layer_toggle {
                Some(target) => {
                    let inner = b.colorize || tint;
                    (earlier + child_layers(c, inner)).push((target, tinted(c, inner)))
                },
                None => earlier + child_layers(c, false),
            },
            None => earlier,
        }
    }
}

/// The layers that one button brings along.
pub open spec fn layers_of(b: ButtonConfigView, tint: bool) -> Seq<LayerEntry> {
    match b.children {
        Some(c) => match b.layer_toggle {
            Some(target) => child_layers(c, b.colorize || tint).push(
                (target, tinted(c, b.colorize || tint)),
            ),
            None => child_layers(c, false),
        },
        None => Seq::empty(),
    }
}

proof fn lemma_layers_of_next(v: Seq<ButtonConfigView>, i: int, tint: bool)
    requires
        0 <= i < v.len(),
    ensures
        child_layers(v.subrange(0, i + 1), tint) == child_layers(v.subrange(0, i), tint)
            + layers_of(v[i], tint),
{
    let w = v.subrange(0, i + 1);
    assert(w.subrange(0, w.len() - 1) =~= v.subrange(0, i));
    assert(w[w.len() - 1] == v[i]);
    assert(child_layers(w, tint) =~= child_layers(v.subrange(0, i), tint) + layers_of(v[i], tint));
}

/// Copies descriptions, coloured as their parent is.
fn copy_tinted(v: &Vec<ButtonConfig>, tint: bool) -> (r: Vec<ButtonConfig>)
    ensures
        configs(r@) == tinted(configs(v@), tint),
{
    let mut r: Vec<ButtonConfig> = Vec::new();
    let n = v.len();
    let mut i: usize = 0;
    while i < n
        invariant
            i <= n,
            n == v@.len(),
            r@.len() == i,
            forall|k: int| 0 <= k < i ==> (#[trigger] r@[k])@ == tinted_one(v@[k]@, tint),
        decreases n - i,
    {
        let mut c = v[i].clone();
        c.colorize = c.colorize || tint;
        r.push(c);
        i += 1;
    }
    assert(configs(r@) =~= tinted(configs(v@), tint));
    r
}

/// Adds the layers that one button brings along.
fn collect_from(b: &ButtonConfig, tint: bool, layers: &mut Vec<(String, Vec<ButtonConfig>)>)
    ensures
        entries(final(layers)@) == entries(old(layers)@) + layers_of(b@, tint),
    decreases b,
{
    let ghost start = entries(layers@);
    proof {
        lemma_children(*b);
    }
    match &b.children {
        Some(v) => {
            let inner = b.layer_toggle.is_some() && (b.colorize || tint);
            let n = v.len();
            let mut i: usize = 0;
            assert(configs(v@).subrange(0, 0) =~= Seq::empty());
            assert(start + child_layers(configs(v@).subrange(0, 0), inner) =~= start);
            while i < n
                invariant
                    i <= n,
                    n == v@.len(),
                    b.children == Some(*v),
                    entries(layers@) == start + child_layers(
                        configs(v@).subrange(0, i as int),
                        inner,
                    ),
                decreases n - i,
            {
                proof {
                    assert(decreases_to!(b => b.children));
                    assert(decreases_to!(b.children => b.children->0));
                    assert(decreases_to!(*v => v@));
                    assert(decreases_to!(v@ => v@[i as int]));
                    lemma_layers_of_next(configs(v@), i as int, inner);
                }
                collect_from(&v[i], inner, layers);
                assert(entries(layers@) =~= start + child_layers(
                    configs(v@).subrange(0, i + 1),
                    inner,
                ));
                i += 1;
            }
            assert(configs(v@).subrange(0, n as int) =~= configs(v@));
            match &b.layer_toggle {
                Some(target) => {
                    let ghost was = entries(layers@);
                    let copies = copy_tinted(v, inner);
                    layers.push((target.clone(), copies));
                    assert(entries(layers@) =~= was.push((target@, tinted(configs(v@), inner))));
                },
                None => {},
            }
            assert(entries(layers@) =~= start + layers_of(b@, tint));
        },
        None => {
            assert(start + Seq::empty() =~= start);
        },
    }
}

/// Adds the layers that a list of buttons brings along.
pub fn collect_child_layers(
    buttons: &[ButtonConfig],
    layers: &mut Vec<(String, Vec<ButtonConfig>)>,
)
    ensures
        entries(final(layers)@) == entries(old(layers)@) + child_layers(configs(buttons@), false),
{
    let ghost start = entries(layers@);
    let n = buttons.len();
    let mut i: usize = 0;
    assert(configs(buttons@).subrange(0, 0) =~= Seq::empty());
    assert(start + child_layers(configs(buttons@).subrange(0, 0), false) =~= start);
    while i < n
        invariant
            i <= n,
            n == buttons@.len(),
            entries(layers@) == start + child_layers(
                configs(buttons@).subrange(0, i as int),
                false,
            ),
        decreases n - i,
    {
        proof {
            lemma_layers_of_next(configs(buttons@), i as int, false);
        }
        collect_from(&buttons[i], false, layers);
        assert(entries(layers@) =~= start + child_layers(
            configs(buttons@).subrange(0, i + 1),
            false,
        ));
        i += 1;
    }
    assert(configs(buttons@).subrange(0, n as int) =~= configs(buttons@));
}

/// The layer of that name, in a list of named layers.
pub open spec fn layer_named(m: Seq<LayerEntry>, name: Seq<char>) -> Option<Seq<ButtonConfigView>>
    decreases m.len(),
{
    if m.len() == 0 {
        None
    } else if m.last().0 == name {
        Some(m.last().1)
    } else {
        layer_named(m.drop_last(), name)
    }
}

/// Names in ascending order, none of them twice.
pub open spec fn in_name_order(m: Seq<LayerEntry>) -> bool {
    forall|i: int, j: int| 0 <= i < j < m.len() ==> before((#[trigger] m[i]).0, (#[trigger] m[j]).0)
}

/// Named layers with one more, which replaces the one of its name.
pub open spec fn put(m: Seq<LayerEntry>, name: Seq<char>, keys: Seq<ButtonConfigView>) -> Seq<
    LayerEntry,
>
    decreases m.len(),
{
    if m.len() == 0 {
        seq![(name, keys)]
    } else if m.last().0 == name {
        m.drop_last().push((name, keys))
    } else if before(m.last().0, name) {
        m.push((name, keys))
    } else {
        put(m.drop_last(), name, keys).push(m.last())
    }
}

/// Named layers with others added in turn.
pub open spec fn put_all(m: Seq<LayerEntry>, more: Seq<LayerEntry>) -> Seq<LayerEntry>
    decreases more.len(),
{
    if more.len() == 0 {
        m
    } else {
        put(put_all(m, more.drop_last()), more.last().0, more.last().1)
    }
}

/// Named layers in the order of their names.
pub struct LayerMap {
    items: Vec<(String, Vec<ButtonConfig>)>,
}

impl View for LayerMap {
    type V = Seq<LayerEntry>;

    closed spec fn view(&self) -> Seq<LayerEntry> {
        entries(self.items@)
    }
}

/// Puts a named layer at its place, over the one of its name.
fn put_entry(m: &mut Vec<(String, Vec<ButtonConfig>)>, name: String, keys: Vec<ButtonConfig>)
    ensures
        entries(final(m)@) == put(entries(old(m)@), name@, configs(keys@)),
    decreases old(m)@.len(),
{
    let ghost all = entries(m@);
    match m.pop() {
        None => {
            m.push((name, keys));
            assert(entries(m@) =~= seq![(name@, configs(keys@))]);
        },
        Some(last) => {
            assert(entries(m@) =~= all.drop_last());
            assert(all.last() == (last.0@, configs(last.1@)));
            let ghost front = entries(m@);
            if same(last.0.as_str(), name.as_str()) {
                m.push((name, keys));
                assert(entries(m@) =~= front.push((name@, configs(keys@))));
            } else if comes_before(last.0.as_str(), name.as_str()) {
                m.push(last);
                assert(entries(m@) =~= all);
                m.push((name, keys));
                assert(entries(m@) =~= all.push((name@, configs(keys@))));
            } else {
                put_entry(m, name, keys);
                let ghost placed = entries(m@);
                m.push(last);
                assert(entries(m@) =~= placed.push(all.last()));
            }
        },
    }
}

impl LayerMap {
    /// The names are in order, none of them twice.
    pub open spec fn wf(&self) -> bool {
        in_name_order(self@)
    }

    /// No layers.
    pub fn new() -> (r: LayerMap)
        ensures
            r.wf(),
            r@ == Seq::<LayerEntry>::empty(),
    {
        let r = LayerMap { items: Vec::new() };
        assert(r@ =~= Seq::empty());
        r
    }

    /// The layers, each with its name.
    pub fn items(&self) -> (r: &Vec<(String, Vec<ButtonConfig>)>)
        ensures
            entries(r@) == self@,
    {
        &self.items
    }

    /// Puts a layer over the one of its name, or adds it.
    pub fn insert(&mut self, name: String, keys: Vec<ButtonConfig>)
        ensures
            final(self)@ == put(old(self)@, name@, configs(keys@)),
            old(self).wf() ==> final(self).wf(),
    {
        proof {
            if self.wf() {
                put_keeps_order(self@, name@, configs(keys@));
            }
        }
        put_entry(&mut self.items, name, keys);
    }

    /// Puts the layers of a list over those of their names, one after another.
    fn insert_all(&mut self, more: Vec<(String, Vec<ButtonConfig>)>)
        ensures
            final(self)@ == put_all(old(self)@, entries(more@)),
    {
        let ghost start = self@;
        let n = more.len();
        let mut i: usize = 0;
        assert(entries(more@).subrange(0, 0) =~= Seq::empty());
        while i < n
            invariant
                i <= n,
                n == more@.len(),
                self@ == put_all(start, entries(more@).subrange(0, i as int)),
            decreases n - i,
        {
            proof {
                let seen = entries(more@).subrange(0, i + 1);
                assert(seen.drop_last() =~= entries(more@).subrange(0, i as int));
                assert(seen.last() == (more@[i as int].0@, configs(more@[i as int].1@)));
            }
            let keys = copy_configs(&more[i].1);
            self.insert(more[i].0.clone(), keys);
            i += 1;
        }
        assert(entries(more@).subrange(0, n as int) =~= entries(more@));
    }

    /// Puts the layers of another map over those of their names.
    pub fn extend(&mut self, other: LayerMap)
        ensures
            final(self)@ == put_all(old(self)@, other@),
            old(self).wf() ==> final(self).wf(),
    {
        proof {
            if self.wf() {
                put_all_keeps_order(self@, other@);
            }
        }
        self.insert_all(other.items);
    }
}

proof fn lemma_put_names(m: Seq<LayerEntry>, name: Seq<char>, keys: Seq<ButtonConfigView>)
    ensures
        forall|i: int|
            0 <= i < put(m, name, keys).len() ==> (#[trigger] put(m, name, keys)[i]).0 == name
                || exists|j: int| 0 <= j < m.len() && (#[trigger] m[j]).0 == put(m, name, keys)[i].0,
    decreases m.len(),
{
    let p = put(m, name, keys);
    if m.len() == 0 {
    } else if m.last().0 == name {
        assert forall|i: int| 0 <= i < p.len() implies (#[trigger] p[i]).0 == name || exists|j: int|
            0 <= j < m.len() && (#[trigger] m[j]).0 == p[i].0 by {
            if i < m.len() - 1 {
                assert(m[i].0 == p[i].0);
            }
        }
    } else if before(m.last().0, name) {
        assert forall|i: int| 0 <= i < p.len() implies (#[trigger] p[i]).0 == name || exists|j: int|
            0 <= j < m.len() && (#[trigger] m[j]).0 == p[i].0 by {
            if i < m.len() {
                assert(m[i].0 == p[i].0);
            }
        }
    } else {
        lemma_put_names(m.drop_last(), name, keys);
        let q = put(m.drop_last(), name, keys);
        assert forall|i: int| 0 <= i < p.len() implies (#[trigger] p[i]).0 == name || exists|j: int|
            0 <= j < m.len() && (#[trigger] m[j]).0 == p[i].0 by {
            if i < q.len() {
                assert(p[i] == q[i]);
                if q[i].0 != name {
                    let j = choose|j: int|
                        0 <= j < m.drop_last().len() && (#[trigger] m.drop_last()[j]).0 == q[i].0;
                    assert(m[j].0 == p[i].0);
                }
            } else {
                assert(m[m.len() - 1].0 == p[i].0);
            }
        }
    }
}

/// Adding a layer keeps the names in order.
pub proof fn put_keeps_order(m: Seq<LayerEntry>, name: Seq<char>, keys: Seq<ButtonConfigView>)
    requires
        in_name_order(m),
    ensures
        in_name_order(put(m, name, keys)),
    decreases m.len(),
{
    if m.len() == 0 {
    } else if m.last().0 == name {
        let p = put(m, name, keys);
        assert forall|i: int, j: int| 0 <= i < j < p.len() implies before(
            (#[trigger] p[i]).0,
            (#[trigger] p[j]).0,
        ) by {
            assert(p[i].0 == m[i].0);
            assert(p[j].0 == m[j].0);
        }
    } else if before(m.last().0, name) {
        let p = put(m, name, keys);
        assert forall|i: int, j: int| 0 <= i < j < p.len() implies before(
            (#[trigger] p[i]).0,
            (#[trigger] p[j]).0,
        ) by {
            assert(p[i] == m[i]);
            if j == m.len() {
                if i < m.len() - 1 {
                    assert(before(m[i].0, m[m.len() - 1].0));
                    lemma_before_transitive(m[i].0, m.last().0, name);
                }
            } else {
                assert(p[j] == m[j]);
            }
        }
    } else {
        let front = m.drop_last();
        assert forall|i: int, j: int| 0 <= i < j < front.len() implies before(
            (#[trigger] front[i]).0,
            (#[trigger] front[j]).0,
        ) by {
            assert(front[i] == m[i] && front[j] == m[j]);
        }
        put_keeps_order(front, name, keys);
        lemma_put_names(front, name, keys);
        lemma_before_total(m.last().0, name);
        let q = put(front, name, keys);
        let p = put(m, name, keys);
        assert forall|i: int, j: int| 0 <= i < j < p.len() implies before(
            (#[trigger] p[i]).0,
            (#[trigger] p[j]).0,
        ) by {
            assert(p[i] == q[i]);
            if j < q.len() {
                assert(p[j] == q[j]);
            } else {
                assert(p[j] == m.last());
                if q[i].0 != name {
                    let k = choose|k: int|
                        0 <= k < front.len() && (#[trigger] front[k]).0 == q[i].0;
                    assert(front[k] == m[k]);
                    assert(before(m[k].0, m[m.len() - 1].0));
                }
            }
        }
    }
}

/// A layer that was added is found under its name, and the others are found as
/// before.
pub proof fn put_then_found(
    m: Seq<LayerEntry>,
    name: Seq<char>,
    keys: Seq<ButtonConfigView>,
    other: Seq<char>,
)
    requires
        in_name_order(m),
    ensures
        layer_named(put(m, name, keys), other) == if other == name {
            Some(keys)
        } else {
            layer_named(m, other)
        },
    decreases m.len(),
{
    let p = put(m, name, keys);
    if m.len() == 0 {
        assert(p.drop_last() =~= m);
    } else if m.last().0 == name {
        assert(p.drop_last() =~= m.drop_last());
    } else if before(m.last().0, name) {
        assert(p.drop_last() =~= m);
    } else {
        let front = m.drop_last();
        assert forall|i: int, j: int| 0 <= i < j < front.len() implies before(
            (#[trigger] front[i]).0,
            (#[trigger] front[j]).0,
        ) by {
            assert(front[i] == m[i] && front[j] == m[j]);
        }
        put_then_found(front, name, keys, other);
        assert(p.drop_last() =~= put(front, name, keys));
    }
}

/// Adding layers in turn keeps the names in order.
pub proof fn put_all_keeps_order(m: Seq<LayerEntry>, more: Seq<LayerEntry>)
    requires
        in_name_order(m),
    ensures
        in_name_order(put_all(m, more)),
    decreases more.len(),
{
    if more.len() > 0 {
        put_all_keeps_order(m, more.drop_last());
        put_keeps_order(put_all(m, more.drop_last()), more.last().0, more.last().1);
    }
}

/// Of layers that are added in turn, the last one of a name is found under it;
/// where none has the name, the layer is found that was there before.
pub proof fn later_layers_override(m: Seq<LayerEntry>, more: Seq<LayerEntry>, name: Seq<char>)
    requires
        in_name_order(m),
    ensures
        layer_named(put_all(m, more), name) == match layer_named(more, name) {
            Some(keys) => Some(keys),
            None => layer_named(m, name),
        },
    decreases more.len(),
{
    if more.len() > 0 {
        later_layers_override(m, more.drop_last(), name);
        put_all_keeps_order(m, more.drop_last());
        put_then_found(put_all(m, more.drop_last()), more.last().0, more.last().1, name);
    }
}

/// A coloured button colours the layer that it toggles to.
pub proof fn children_inherit_colorize(v: Seq<ButtonConfigView>, tint: bool, i: int, k: int)
    requires
        0 <= i < v.len(),
        v[i].layer_toggle is Some,
        v[i].children is Some,
        v[i].colorize || tint,
        0 <= k < v[i].children->0.len(),
    ensures
        exists|j: int|
            0 <= j < child_layers(v, tint).len() && (#[trigger] child_layers(v, tint)[j]).0
                == v[i].layer_toggle->0 && child_layers(v, tint)[j].1.len()
                == v[i].children->0.len() && child_layers(v, tint)[j].1[k].colorize,
    decreases v.len(),
{
    let front = v.subrange(0, v.len() - 1);
    let all = child_layers(v, tint);
    if i == v.len() - 1 {
        let j = all.len() - 1;
        assert(all[j].0 == v[i].layer_toggle->0);
    } else {
        assert(front[i] == v[i]);
        children_inherit_colorize(front, tint, i, k);
        let part = child_layers(front, tint);
        let j = choose|j: int|
            0 <= j < part.len() && (#[trigger] part[j]).0 == v[i].layer_toggle->0
                && part[j].1.len() == v[i].children->0.len() && part[j].1[k].colorize;
        assert(v.subrange(0, v.len() as int) =~= v);
        lemma_layers_of_next(v, v.len() - 1, tint);
        assert(all[j] == part[j]);
    }
}

/// The layer that a button with children toggles to is collected where the
/// button stands among the children of a pullout marker.
pub proof fn pulled_toggle_target_is_collected(v: Seq<ButtonConfigView>, tint: bool, i: int, k: int)
    requires
        0 <= i < v.len(),
        v[i].layer_toggle is None,
        v[i].children is Some,
        0 <= k < v[i].children->0.len(),
        v[i].children->0[k].layer_toggle is Some,
        v[i].children->0[k].children is Some,
    ensures
        exists|j: int|
            0 <= j < child_layers(v, tint).len() && (#[trigger] child_layers(v, tint)[j]).0
                == v[i].children->0[k].layer_toggle->0,
    decreases v.len(),
{
    let front = v.subrange(0, v.len() - 1);
    let all = child_layers(v, tint);
    let target = v[i].children->0[k].layer_toggle->0;
    assert(v.subrange(0, v.len() as int) =~= v);
    lemma_layers_of_next(v, v.len() - 1, tint);
    let part = child_layers(front, tint);
    if i == v.len() - 1 {
        let inner = child_layers(v[i].children->0, false);
        toggle_target_is_collected(v[i].children->0, false, k);
        let j = choose|j: int| 0 <= j < inner.len() && (#[trigger] inner[j]).0 == target;
        assert(all[part.len() + j] == inner[j]);
    } else {
        assert(front[i] == v[i]);
        pulled_toggle_target_is_collected(front, tint, i, k);
        let j = choose|j: int| 0 <= j < part.len() && (#[trigger] part[j]).0 == target;
        assert(all[j] == part[j]);
    }
}

/// The layer that a button with children toggles to is collected.
pub proof fn toggle_target_is_collected(v: Seq<ButtonConfigView>, tint: bool, i: int)
    requires
        0 <= i < v.len(),
        v[i].layer_toggle is Some,
        v[i].children is Some,
    ensures
        exists|j: int|
            0 <= j < child_layers(v, tint).len() && (#[trigger] child_layers(v, tint)[j]).0
                == v[i].layer_toggle->0,
    decreases v.len(),
{
    let front = v.subrange(0, v.len() - 1);
    let all = child_layers(v, tint);
    assert(v.subrange(0, v.len() as int) =~= v);
    lemma_layers_of_next(v, v.len() - 1, tint);
    let part = child_layers(front, tint);
    if i == v.len() - 1 {
        assert(all[all.len() - 1].0 == v[i].layer_toggle->0);
    } else {
        assert(front[i] == v[i]);
        toggle_target_is_collected(front, tint, i);
        let j = choose|j: int| 0 <= j < part.len() && (#[trigger] part[j]).0 == v[i].layer_toggle->0;
        assert(all[j] == part[j]);
    }
}

/// A collapsed layer has a button if the layer had one, and its panel holds the
/// toggle back and every child of the marker; the toggles lead from one to the
/// other and back.
pub proof fn pullout_toggles_pair_up(name: Seq<char>, keys: Seq<ButtonConfigView>)
    ensures
        keys.len() > 0 ==> collapsed(name, keys).len() > 0,
        match first_pullout(keys) {
            Some(m) => {
                let c = collapsed(name, keys);
                let p = panel(name, keys)->0;
                &&& m < keys.len()
                &&& m < c.len()
                &&& c[m as int].layer_toggle == Some(p.name)
                &&& p.keys[0].layer_toggle == Some(name)
                &&& p.parent == name
                &&& p.keys.len() == 1 + pulled_children(keys[m as int]).len()
                &&& c.len() == keys.len() + pulled_visible(keys[m as int])
                &&& MIN_PULLOUT_COVERAGE <= p.coverage <= MAX_PULLOUT_COVERAGE
            },
            None => panel(name, keys) is None && collapsed(name, keys) == keys,
        },
{
    first_pullout_is_first(keys);
}

/// One configuration file. What is not set in it is absent. Font sizes are in
/// billionths.
pub struct ConfigProxy {
    pub default_layer: Option<String>,
    pub show_button_outlines: Option<bool>,
    pub enable_pixel_shift: Option<bool>,
    pub font_template: Option<String>,
    pub font_size: Option<i64>,
    pub adaptive_brightness: Option<bool>,
    pub active_brightness: Option<u32>,
    pub double_press_switch_layers: Option<u32>,
    pub drop_privileges: Option<bool>,
    pub logging: Option<bool>,
    pub weather_location: Option<String>,
    pub weather_units: Option<String>,
    pub primary_layer_keys: Option<Vec<ButtonConfig>>,
    pub system_info_layer_keys: Option<Vec<ButtonConfig>>,
    pub media_layer_keys: Option<Vec<ButtonConfig>>,
    pub layers: Option<LayerMap>,
}

/// A setting of a later file, or that of an earlier one where the later file is
/// silent.
pub open spec fn overridden<T>(earlier: Option<T>, later: Option<T>) -> Option<T> {
    if later is Some {
        later
    } else {
        earlier
    }
}

fn overriding<T>(earlier: Option<T>, later: Option<T>) -> (r: Option<T>)
    ensures
        r == overridden(earlier, later),
{
    match later {
        Some(v) => Some(v),
        None => earlier,
    }
}

/// The named layers of a file.
pub open spec fn layers_view(layers: Option<LayerMap>) -> Seq<LayerEntry> {
    match layers {
        Some(m) => m@,
        None => Seq::empty(),
    }
}

impl ConfigProxy {
    /// The named layers are in order.
    pub open spec fn wf(&self) -> bool {
        self.layers matches Some(m) ==> m.wf()
    }

    /// Takes over what a later file sets. Its named layers are added to those
    /// that are there, over those of the same name.
    pub fn merge(&mut self, other: ConfigProxy)
        ensures
            old(self).wf() ==> final(self).wf(),
            final(self).default_layer == overridden(old(self).default_layer, other.default_layer),
            final(self).show_button_outlines == overridden(
                old(self).show_button_outlines,
                other.show_button_outlines,
            ),
            final(self).enable_pixel_shift == overridden(
                old(self).enable_pixel_shift,
                other.enable_pixel_shift,
            ),
            final(self).font_template == overridden(old(self).font_template, other.font_template),
            final(self).font_size == overridden(old(self).font_size, other.font_size),
            final(self).adaptive_brightness == overridden(
                old(self).adaptive_brightness,
                other.adaptive_brightness,
            ),
            final(self).active_brightness == overridden(
                old(self).active_brightness,
                other.active_brightness,
            ),
            final(self).double_press_switch_layers == overridden(
                old(self).double_press_switch_layers,
                other.double_press_switch_layers,
            ),
            final(self).drop_privileges == overridden(
                old(self).drop_privileges,
                other.drop_privileges,
            ),
            final(self).logging == overridden(old(self).logging, other.logging),
            final(self).weather_location == overridden(
                old(self).weather_location,
                other.weather_location,
            ),
            final(self).weather_units == overridden(old(self).weather_units, other.weather_units),
            final(self).primary_layer_keys == overridden(
                old(self).primary_layer_keys,
                other.primary_layer_keys,
            ),
            final(self).system_info_layer_keys == overridden(
                old(self).system_info_layer_keys,
                other.system_info_layer_keys,
            ),
            final(self).media_layer_keys == overridden(
                old(self).media_layer_keys,
                other.media_layer_keys,
            ),
            layers_view(final(self).layers) == put_all(
                layers_view(old(self).layers),
                layers_view(other.layers),
            ),
            final(self).layers is Some <==> old(self).layers is Some || other.layers is Some,
    {
        self.default_layer = overriding(self.default_layer.take(), other.default_layer);
        self.show_button_outlines = overriding(
            self.show_button_outlines,
            other.show_button_outlines,
        );
        self.enable_pixel_shift = overriding(self.enable_pixel_shift, other.enable_pixel_shift);
        self.font_template = overriding(self.font_template.take(), other.font_template);
        self.font_size = overriding(self.font_size, other.font_size);
        self.adaptive_brightness = overriding(self.adaptive_brightness, other.adaptive_brightness);
        self.active_brightness = overriding(self.active_brightness, other.active_brightness);
        self.double_press_switch_layers = overriding(
            self.double_press_switch_layers,
            other.double_press_switch_layers,
        );
        self.drop_privileges = overriding(self.drop_privileges, other.drop_privileges);
        self.logging = overriding(self.logging, other.logging);
        self.weather_location = overriding(self.weather_location.take(), other.weather_location);
        self.weather_units = overriding(self.weather_units.take(), other.weather_units);
        self.primary_layer_keys = overriding(
            self.primary_layer_keys.take(),
            other.primary_layer_keys,
        );
        self.system_info_layer_keys = overriding(
            self.system_info_layer_keys.take(),
            other.system_info_layer_keys,
        );
        self.media_layer_keys = overriding(self.media_layer_keys.take(), other.media_layer_keys);
        match other.layers {
            Some(layers) => {
                let mut all = match self.layers.take() {
                    Some(m) => m,
                    None => LayerMap::new(),
                };
                all.extend(layers);
                self.layers = Some(all);
            },
            None => {},
        }
    }
}

/// The settings of the daemon. Font sizes are in billionths.
pub struct Config {
    pub default_layer: String,
    pub show_button_outlines: bool,
    pub enable_pixel_shift: bool,
    pub font_template: String,
    pub font_size: i64,
    pub adaptive_brightness: bool,
    pub active_brightness: u32,
    pub double_press_switch_layers: u32,
    pub drop_privileges: bool,
    pub logging: bool,
    pub weather_location: Option<String>,
    pub weather_fahrenheit: bool,
}

/// The font size where none is set.
pub const DEFAULT_FONT_SIZE: i64 = 32_000_000_000;

/// A layer to be built, and, for a pullout panel, its parent and the part of
/// the bar that it covers.
pub struct LayerPlan {
    pub name: String,
    pub keys: Vec<ButtonConfig>,
    pub overlay: Option<(String, i64)>,
}

/// The mathematical counterpart of [`LayerPlan`].
#[verifier::ext_equal]
pub struct LayerPlanView {
    pub name: Seq<char>,
    pub keys: Seq<ButtonConfigView>,
    pub overlay: Option<(Seq<char>, i64)>,
}

impl View for LayerPlan {
    type V = LayerPlanView;

    open spec fn view(&self) -> LayerPlanView {
        LayerPlanView {
            name: self.name@,
            keys: configs(self.keys@),
            overlay: match self.overlay {
                Some(o) => Some((o.0@, o.1)),
                None => None,
            },
        }
    }
}

/// The values of a list of plans.
pub open spec fn plans(v: Seq<LayerPlan>) -> Seq<LayerPlanView> {
    Seq::new(v.len(), |i: int| v[i]@)
}

/// The values of a list of panels.
pub open spec fn pullouts(v: Seq<Pullout>) -> Seq<PulloutView> {
    Seq::new(v.len(), |i: int| v[i]@)
}

/// What a file must set, by itself or through those that it overrides, to make
/// a configuration.
pub open spec fn complete(base: ConfigProxy) -> bool {
    &&& base.primary_layer_keys is Some
    &&& base.system_info_layer_keys is Some || base.media_layer_keys is Some
    &&& base.show_button_outlines is Some
    &&& base.enable_pixel_shift is Some
    &&& base.adaptive_brightness is Some
    &&& base.font_template is Some
    &&& base.active_brightness is Some
    &&& base.double_press_switch_layers is Some
}

/// Whether everything is set that must be.
pub fn is_complete(base: &ConfigProxy) -> (r: bool)
    ensures
        r == complete(*base),
{
    base.primary_layer_keys.is_some() && (base.system_info_layer_keys.is_some()
        || base.media_layer_keys.is_some()) && base.show_button_outlines.is_some()
        && base.enable_pixel_shift.is_some() && base.adaptive_brightness.is_some()
        && base.font_template.is_some() && base.active_brightness.is_some()
        && base.double_press_switch_layers.is_some()
}

/// The function key layer.
pub open spec fn primary_keys(base: ConfigProxy) -> Seq<ButtonConfigView> {
    children_view(base.primary_layer_keys)->0
}

/// The system layer: that of the media keys where no other is set.
pub open spec fn system_keys(base: ConfigProxy) -> Seq<ButtonConfigView> {
    match children_view(base.system_info_layer_keys) {
        Some(k) => k,
        None => children_view(base.media_layer_keys)->0,
    }
}

/// The media layer: the system layer where no other is set.
pub open spec fn media_keys(base: ConfigProxy) -> Seq<ButtonConfigView> {
    match children_view(base.media_layer_keys) {
        Some(k) => k,
        None => children_view(base.system_info_layer_keys)->0,
    }
}

/// The layers that the buttons of named layers bring along.
pub open spec fn brought_along(m: Seq<LayerEntry>) -> Seq<LayerEntry>
    decreases m.len(),
{
    if m.len() == 0 {
        Seq::empty()
    } else {
        brought_along(m.drop_last()) + child_layers(m.last().1, false)
    }
}

/// The three layers that every configuration has.
pub open spec fn standard_layers(base: ConfigProxy) -> Seq<LayerEntry> {
    seq![
        ("SystemInfo"@, system_keys(base)),
        ("FKeys"@, primary_keys(base)),
        ("Media"@, media_keys(base)),
    ]
}

/// The layers beside the three: those of the files, and those that buttons
/// bring along.
pub open spec fn extra_layers(base: ConfigProxy) -> Seq<LayerEntry> {
    put_all(
        layers_view(base.layers),
        child_layers(primary_keys(base), false) + child_layers(system_keys(base), false)
            + child_layers(media_keys(base), false) + brought_along(layers_view(base.layers)),
    )
}

/// The panels of named layers, in their order.
pub open spec fn panels(m: Seq<LayerEntry>) -> Seq<PulloutView>
    decreases m.len(),
{
    if m.len() == 0 {
        Seq::empty()
    } else {
        match panel(m.last().0, m.last().1) {
            Some(p) => panels(m.drop_last()).push(p),
            None => panels(m.drop_last()),
        }
    }
}

/// Whether a name is that of one of the three layers.
pub open spec fn is_standard(name: Seq<char>) -> bool {
    name == "SystemInfo"@ || name == "FKeys"@ || name == "Media"@
}

/// The plan of a layer that is no panel.
pub open spec fn base_plan(e: LayerEntry) -> LayerPlanView {
    LayerPlanView { name: e.0, keys: collapsed(e.0, e.1), overlay: None }
}

/// The plan of a panel.
pub open spec fn panel_plan(p: PulloutView) -> LayerPlanView {
    LayerPlanView { name: p.name, keys: p.keys, overlay: Some((p.parent, p.coverage)) }
}

/// The plans of the layers that do not take a name of the three.
pub open spec fn other_plans(m: Seq<LayerEntry>) -> Seq<LayerPlanView>
    decreases m.len(),
{
    if m.len() == 0 {
        Seq::empty()
    } else if is_standard(m.last().0) {
        other_plans(m.drop_last())
    } else {
        other_plans(m.drop_last()).push(base_plan(m.last()))
    }
}

/// The layers of a configuration: the three, then the panels, then the others.
pub open spec fn planned(base: ConfigProxy) -> Seq<LayerPlanView> {
    standard_layers(base).map_values(|e: LayerEntry| base_plan(e)) + (panels(standard_layers(base))
        + panels(extra_layers(base))).map_values(|p: PulloutView| panel_plan(p)) + other_plans(
        extra_layers(base),
    )
}

/// Whether a layer of that name is planned.
pub open spec fn is_planned(v: Seq<LayerPlanView>, name: Seq<char>) -> bool {
    exists|i: int| 0 <= i < v.len() && (#[trigger] v[i]).name == name
}

/// The layer to start with: the one that is set, if there is such a layer.
pub open spec fn start_layer(base: ConfigProxy) -> Seq<char> {
    match base.default_layer {
        Some(d) => if is_planned(planned(base), d@) {
            d@
        } else {
            "SystemInfo"@
        },
        None => "SystemInfo"@,
    }
}

/// Whether temperatures are in degrees Fahrenheit.
pub open spec fn fahrenheit_units(units: Option<Seq<char>>) -> bool {
    match units {
        Some(u) => {
            let l = lower(u);
            l == "fahrenheit"@ || l == "imperial"@ || l == "f"@
        },
        None => false,
    }
}

/// The layer to start with is among the layers.
pub proof fn start_layer_is_planned(base: ConfigProxy)
    ensures
        is_planned(planned(base), start_layer(base)),
{
    assert(planned(base)[0].name == "SystemInfo"@);
}

proof fn lemma_panel_parents(m: Seq<LayerEntry>, i: int)
    requires
        0 <= i < panels(m).len(),
    ensures
        exists|j: int| 0 <= j < m.len() && (#[trigger] m[j]).0 == panels(m)[i].parent,
    decreases m.len(),
{
    if m.len() > 0 {
        let front = panels(m.drop_last());
        if i < front.len() {
            lemma_panel_parents(m.drop_last(), i);
            let j = choose|j: int|
                0 <= j < m.drop_last().len() && (#[trigger] m.drop_last()[j]).0 == front[i].parent;
            assert(m[j].0 == front[i].parent);
        } else {
            assert(m[m.len() - 1].0 == panels(m)[i].parent);
        }
    }
}

proof fn lemma_others_named(m: Seq<LayerEntry>, j: int)
    requires
        0 <= j < m.len(),
        !is_standard(m[j].0),
    ensures
        exists|k: int|
            0 <= k < other_plans(m).len() && (#[trigger] other_plans(m)[k]).name == m[j].0,
    decreases m.len(),
{
    let front = other_plans(m.drop_last());
    if j == m.len() - 1 {
        assert(other_plans(m)[front.len() as int].name == m[j].0);
    } else {
        assert(m.drop_last()[j] == m[j]);
        lemma_others_named(m.drop_last(), j);
        let k = choose|k: int| 0 <= k < front.len() && (#[trigger] front[k]).name == m[j].0;
        assert(other_plans(m)[k] == front[k]);
    }
}

/// Every panel lies over a layer of the configuration.
pub proof fn panels_have_parents(base: ConfigProxy, i: int)
    requires
        0 <= i < planned(base).len(),
        planned(base)[i].overlay is Some,
    ensures
        is_planned(planned(base), (planned(base)[i].overlay->0).0),
{
    let three = standard_layers(base);
    let extra = extra_layers(base);
    let first = three.map_values(|e: LayerEntry| base_plan(e));
    let lying = panels(three) + panels(extra);
    let second = lying.map_values(|p: PulloutView| panel_plan(p));
    let third = other_plans(extra);
    let all = planned(base);
    assert(all =~= first + second + third);
    assert(all[0].name == "SystemInfo"@);
    assert(all[1].name == "FKeys"@);
    assert(all[2].name == "Media"@);
    if i < first.len() {
    } else if i < first.len() + second.len() {
        let p = i - first.len();
        let parent = lying[p].parent;
        assert(all[i] == panel_plan(lying[p]));
        if p < panels(three).len() {
            lemma_panel_parents(three, p);
        } else {
            lemma_panel_parents(extra, p - panels(three).len());
            let j = choose|j: int| 0 <= j < extra.len() && (#[trigger] extra[j]).0 == parent;
            if !is_standard(parent) {
                lemma_others_named(extra, j);
                let k = choose|k: int| 0 <= k < third.len() && (#[trigger] third[k]).name == parent;
                assert(all[first.len() + second.len() + k] == third[k]);
            }
        }
    } else {
        let k = i - first.len() - second.len();
        lemma_others_plain(extra, k);
        assert(all[i] == third[k]);
    }
}

proof fn lemma_panel_bounds(m: Seq<LayerEntry>, i: int)
    requires
        0 <= i < panels(m).len(),
    ensures
        MIN_PULLOUT_COVERAGE <= panels(m)[i].coverage <= MAX_PULLOUT_COVERAGE,
    decreases m.len(),
{
    if m.len() > 0 && i < panels(m.drop_last()).len() {
        lemma_panel_bounds(m.drop_last(), i);
    }
}

/// A panel covers between a quarter and nineteen twentieths of the bar.
pub proof fn panel_coverage_is_bounded(base: ConfigProxy, i: int)
    requires
        0 <= i < planned(base).len(),
        planned(base)[i].overlay is Some,
    ensures
        MIN_PULLOUT_COVERAGE <= (planned(base)[i].overlay->0).1 <= MAX_PULLOUT_COVERAGE,
{
    let three = standard_layers(base);
    let extra = extra_layers(base);
    let first = three.map_values(|e: LayerEntry| base_plan(e));
    let lying = panels(three) + panels(extra);
    let second = lying.map_values(|p: PulloutView| panel_plan(p));
    let third = other_plans(extra);
    let all = planned(base);
    assert(all =~= first + second + third);
    if i < first.len() {
    } else if i < first.len() + second.len() {
        let p = i - first.len();
        assert(all[i] == panel_plan(lying[p]));
        if p < panels(three).len() {
            lemma_panel_bounds(three, p);
        } else {
            lemma_panel_bounds(extra, p - panels(three).len());
        }
    } else {
        let k = i - first.len() - second.len();
        lemma_others_plain(extra, k);
        assert(all[i] == third[k]);
    }
}

proof fn lemma_others_plain(m: Seq<LayerEntry>, k: int)
    requires
        0 <= k < other_plans(m).len(),
    ensures
        other_plans(m)[k].overlay is None,
    decreases m.len(),
{
    if m.len() > 0 && k < other_plans(m.drop_last()).len() {
        lemma_others_plain(m.drop_last(), k);
    }
}

/// Replaces the marker of each named layer, and adds the panels to a list.
pub(crate) fn expand_all(m: Vec<(String, Vec<ButtonConfig>)>, lying: &mut Vec<Pullout>) -> (r: Vec<
    (String, Vec<ButtonConfig>),
>)
    ensures
        pullouts(final(lying)@) == pullouts(old(lying)@) + panels(entries(m@)),
        r@.len() == m@.len(),
        forall|k: int|
            0 <= k < r@.len() ==> (#[trigger] r@[k]).0@ == m@[k].0@ && configs(r@[k].1@)
                == collapsed(m@[k].0@, configs(m@[k].1@)),
{
    let ghost all = entries(m@);
    let ghost start = pullouts(lying@);
    let n = m.len();
    let mut r: Vec<(String, Vec<ButtonConfig>)> = Vec::new();
    let mut i: usize = 0;
    assert(all.subrange(0, 0) =~= Seq::empty());
    assert(start + Seq::empty() =~= start);
    while i < n
        invariant
            i <= n,
            n == m@.len(),
            all == entries(m@),
            r@.len() == i,
            pullouts(lying@) == start + panels(all.subrange(0, i as int)),
            forall|k: int|
                0 <= k < i ==> (#[trigger] r@[k]).0@ == m@[k].0@ && configs(r@[k].1@)
                    == collapsed(m@[k].0@, configs(m@[k].1@)),
        decreases n - i,
    {
        let ghost seen = all.subrange(0, i + 1);
        assert(seen.drop_last() =~= all.subrange(0, i as int));
        assert(seen.last() == all[i as int]);
        let keys = copy_configs(&m[i].1);
        let (rest, p) = expand_pullout(m[i].0.as_str(), keys);
        let ghost was = pullouts(lying@);
        match p {
            Some(p) => {
                lying.push(p);
                assert(pullouts(lying@) =~= was.push(p@));
                assert(start + panels(seen) =~= was.push(p@));
            },
            None => {},
        }
        r.push((m[i].0.clone(), rest));
        i += 1;
    }
    assert(all.subrange(0, n as int) =~= all);
    r
}

/// Adds the layers that the buttons of named layers bring along.
fn collect_all(m: &Vec<(String, Vec<ButtonConfig>)>, layers: &mut Vec<(String, Vec<ButtonConfig>)>)
    ensures
        entries(final(layers)@) == entries(old(layers)@) + brought_along(entries(m@)),
{
    let ghost all = entries(m@);
    let ghost start = entries(layers@);
    let n = m.len();
    let mut i: usize = 0;
    assert(all.subrange(0, 0) =~= Seq::empty());
    assert(start + Seq::empty() =~= start);
    while i < n
        invariant
            i <= n,
            n == m@.len(),
            all == entries(m@),
            entries(layers@) == start + brought_along(all.subrange(0, i as int)),
        decreases n - i,
    {
        let ghost seen = all.subrange(0, i + 1);
        assert(seen.drop_last() =~= all.subrange(0, i as int));
        assert(seen.last() == all[i as int]);
        collect_child_layers(m[i].1.as_slice(), layers);
        assert(entries(layers@) =~= start + brought_along(seen));
        i += 1;
    }
    assert(all.subrange(0, n as int) =~= all);
}

/// Whether one of the plans has this name.
pub(crate) fn has_plan(v: &Vec<LayerPlan>, name: &str) -> (r: bool)
    ensures
        r == is_planned(plans(v@), name@),
{
    let n = v.len();
    let mut i: usize = 0;
    while i < n
        invariant
            i <= n,
            n == v@.len(),
            forall|k: int| 0 <= k < i ==> (#[trigger] plans(v@)[k]).name != name@,
        decreases n - i,
    {
        assert(plans(v@)[i as int] == v@[i as int]@);
        if same(v[i].name.as_str(), name) {
            return true;
        }
        i += 1;
    }
    false
}

/// The plans of the layers that do not take a name of the three, added to a
/// list.
fn plan_others(
    m: Vec<(String, Vec<ButtonConfig>)>,
    Ghost(given): Ghost<Seq<LayerEntry>>,
    to: &mut Vec<LayerPlan>,
)
    requires
        m@.len() == given.len(),
        forall|k: int|
            0 <= k < m@.len() ==> (#[trigger] m@[k]).0@ == given[k].0 && configs(m@[k].1@)
                == collapsed(given[k].0, given[k].1),
    ensures
        plans(final(to)@) == plans(old(to)@) + other_plans(given),
{
    let ghost start = plans(to@);
    let n = m.len();
    let mut i: usize = 0;
    assert(given.subrange(0, 0) =~= Seq::empty());
    assert(start + Seq::empty() =~= start);
    while i < n
        invariant
            i <= n,
            n == m@.len(),
            n == given.len(),
            plans(to@) == start + other_plans(given.subrange(0, i as int)),
            forall|k: int|
                0 <= k < m@.len() ==> (#[trigger] m@[k]).0@ == given[k].0 && configs(m@[k].1@)
                    == collapsed(given[k].0, given[k].1),
        decreases n - i,
    {
        let ghost seen = given.subrange(0, i + 1);
        assert(seen.drop_last() =~= given.subrange(0, i as int));
        assert(seen.last() == given[i as int]);
        assert(m@[i as int].0@ == given[i as int].0);
        let name = m[i].0.as_str();
        if !same(name, "SystemInfo") && !same(name, "FKeys") && !same(name, "Media") {
            let ghost was = plans(to@);
            let keys = copy_configs(&m[i].1);
            to.push(LayerPlan { name: m[i].0.clone(), keys, overlay: None });
            assert(plans(to@) =~= was.push(base_plan(given[i as int])));
            assert(start + other_plans(seen) =~= was.push(base_plan(given[i as int])));
        }
        i += 1;
    }
    assert(given.subrange(0, n as int) =~= given);
}

/// The settings of a complete configuration, but for the layer to start with.
pub open spec fn settings_of(base: ConfigProxy, cfg: Config) -> bool {
    &&& cfg.show_button_outlines == base.show_button_outlines->0
    &&& cfg.enable_pixel_shift == base.enable_pixel_shift->0
    &&& cfg.font_template == base.font_template->0
    &&& cfg.font_size == match base.font_size {
        Some(s) => s,
        None => DEFAULT_FONT_SIZE,
    }
    &&& cfg.adaptive_brightness == base.adaptive_brightness->0
    &&& cfg.active_brightness == base.active_brightness->0
    &&& cfg.double_press_switch_layers == base.double_press_switch_layers->0
    &&& cfg.drop_privileges == (base.drop_privileges != Some(false))
    &&& cfg.logging == (base.logging != Some(false))
    &&& cfg.weather_location == base.weather_location
    &&& cfg.weather_fahrenheit == fahrenheit_units(text_opt(base.weather_units))
}

/// Copies named layers.
fn copy_entries(m: &Vec<(String, Vec<ButtonConfig>)>) -> (r: Vec<(String, Vec<ButtonConfig>)>)
    ensures
        entries(r@) == entries(m@),
{
    let n = m.len();
    let mut r: Vec<(String, Vec<ButtonConfig>)> = Vec::new();
    let mut i: usize = 0;
    while i < n
        invariant
            i <= n,
            n == m@.len(),
            r@.len() == i,
            forall|k: int| 0 <= k < i ==> (#[trigger] entries(r@)[k]) == entries(m@)[k],
        decreases n - i,
    {
        let ghost was = entries(r@);
        let keys = copy_configs(&m[i].1);
        r.push((m[i].0.clone(), keys));
        assert(entries(r@) =~= was.push(entries(m@)[i as int]));
        i += 1;
    }
    assert(entries(r@) =~= entries(m@));
    r
}

/// Copies the keys of a layer, which are there.
fn layer_keys(keys: &Option<Vec<ButtonConfig>>, other: &Option<Vec<ButtonConfig>>) -> (r: Vec<
    ButtonConfig,
>)
    requires
        keys is Some || other is Some,
    ensures
        configs(r@) == match children_view(*keys) {
            Some(k) => k,
            None => children_view(*other)->0,
        },
{
    match keys {
        Some(k) => copy_configs(k),
        None => match other {
            Some(k) => copy_configs(k),
            None => Vec::new(),
        },
    }
}

/// Lists the layers of a complete configuration, with their markers: the three
/// that every configuration has, and the others.
pub(crate) fn layer_lists(base: &ConfigProxy) -> (r: (
    Vec<(String, Vec<ButtonConfig>)>,
    Vec<(String, Vec<ButtonConfig>)>,
))
    requires
        complete(*base),
    ensures
        entries(r.0@) == standard_layers(*base),
        entries(r.1@) == extra_layers(*base),
{
    let primary = layer_keys(&base.primary_layer_keys, &base.primary_layer_keys);
    let system = layer_keys(&base.system_info_layer_keys, &base.media_layer_keys);
    let media = layer_keys(&base.media_layer_keys, &base.system_info_layer_keys);
    let mut extra = match &base.layers {
        Some(m) => LayerMap { items: copy_entries(&m.items) },
        None => LayerMap::new(),
    };
    let ghost own = layers_view(base.layers);
    assert(extra@ == own);
    let mut brought: Vec<(String, Vec<ButtonConfig>)> = Vec::new();
    assert(entries(brought@) =~= Seq::empty());
    collect_child_layers(primary.as_slice(), &mut brought);
    collect_child_layers(system.as_slice(), &mut brought);
    collect_child_layers(media.as_slice(), &mut brought);
    collect_all(&extra.items, &mut brought);
    assert(entries(brought@) =~= child_layers(primary_keys(*base), false) + child_layers(
        system_keys(*base),
        false,
    ) + child_layers(media_keys(*base), false) + brought_along(own));
    extra.insert_all(brought);
    assert(extra@ == extra_layers(*base));
    let mut three: Vec<(String, Vec<ButtonConfig>)> = Vec::new();
    three.push(("SystemInfo".to_owned(), system));
    three.push(("FKeys".to_owned(), primary));
    three.push(("Media".to_owned(), media));
    assert(entries(three@) =~= standard_layers(*base));
    (three, extra.items)
}

/// Plans the layers of a complete configuration.
pub(crate) fn plan_layers(base: &ConfigProxy) -> (r: Vec<LayerPlan>)
    requires
        complete(*base),
    ensures
        plans(r@) == planned(*base),
{
    let (three, extra) = layer_lists(base);
    let mut lying: Vec<Pullout> = Vec::new();
    assert(pullouts(lying@) =~= Seq::empty());
    let standard = expand_all(three, &mut lying);
    let others = expand_all(extra, &mut lying);
    let ghost all_panels = panels(standard_layers(*base)) + panels(extra_layers(*base));
    assert(pullouts(lying@) =~= all_panels);

    let mut layers: Vec<LayerPlan> = Vec::new();
    let ghost first = standard_layers(*base).map_values(|e: LayerEntry| base_plan(e));
    let mut i: usize = 0;
    while i < 3
        invariant
            i <= 3,
            standard@.len() == 3,
            first.len() == 3,
            layers@.len() == i,
            forall|k: int| 0 <= k < i ==> (#[trigger] layers@[k])@ == first[k],
            forall|k: int|
                0 <= k < 3 ==> (#[trigger] standard@[k]).0@ == first[k].name && configs(
                    standard@[k].1@,
                ) == first[k].keys && first[k].overlay is None,
        decreases 3 - i,
    {
        let keys = copy_configs(&standard[i].1);
        layers.push(LayerPlan { name: standard[i].0.clone(), keys, overlay: None });
        i += 1;
    }
    assert(plans(layers@) =~= first);
    let ghost second = all_panels.map_values(|p: PulloutView| panel_plan(p));
    let n = lying.len();
    let mut i: usize = 0;
    assert(first + second.subrange(0, 0) =~= first);
    while i < n
        invariant
            i <= n,
            n == lying@.len(),
            n == second.len(),
            plans(layers@) == first + second.subrange(0, i as int),
            forall|k: int| 0 <= k < n ==> panel_plan((#[trigger] lying@[k])@) == second[k],
        decreases n - i,
    {
        let ghost was = plans(layers@);
        let keys = copy_configs(&lying[i].keys);
        let p = &lying[i];
        layers.push(
            LayerPlan {
                name: p.name.clone(),
                keys,
                overlay: Some((p.parent.clone(), p.coverage)),
            },
        );
        assert(plans(layers@) =~= was.push(second[i as int]));
        assert(first + second.subrange(0, i + 1) =~= was.push(second[i as int]));
        i += 1;
    }
    assert(second.subrange(0, n as int) =~= second);
    plan_others(others, Ghost(extra_layers(*base)), &mut layers);
    assert(plans(layers@) =~= planned(*base));
    layers
}

/// Turns a complete configuration into settings and the layers to build.
pub fn assemble(base: ConfigProxy) -> (r: (Config, Vec<LayerPlan>))
    requires
        complete(base),
    ensures
        plans(r.1@) == planned(base),
        r.0.default_layer@ == start_layer(base),
        settings_of(base, r.0),
{
    let layers = plan_layers(&base);
    let default_layer = match base.default_layer {
        Some(d) => if has_plan(&layers, d.as_str()) {
            d
        } else {
            "SystemInfo".to_owned()
        },
        None => "SystemInfo".to_owned(),
    };
    let weather_fahrenheit = match base.weather_units {
        Some(u) => {
            let l = to_ascii_lowercase(u.as_str());
            same(l.as_str(), "fahrenheit") || same(l.as_str(), "imperial") || same(l.as_str(), "f")
        },
        None => false,
    };
    let cfg = Config {
        default_layer,
        show_button_outlines: base.show_button_outlines.unwrap(),
        enable_pixel_shift: base.enable_pixel_shift.unwrap(),
        font_template: base.font_template.unwrap(),
        font_size: match base.font_size {
            Some(s) => s,
            None => DEFAULT_FONT_SIZE,
        },
        adaptive_brightness: base.adaptive_brightness.unwrap(),
        active_brightness: base.active_brightness.unwrap(),
        double_press_switch_layers: base.double_press_switch_layers.unwrap(),
        drop_privileges: match base.drop_privileges {
            Some(d) => d,
            None => true,
        },
        weather_location: base.weather_location,
        weather_fahrenheit,
        logging: match base.logging {
            Some(b) => b,
            None => true,
        },
    };
    (cfg, layers)
}

/// The configuration that comes with the program, and the system's own.
pub const DEFAULT_CFG_PATH: &'static str = "/usr/share/tiny-dfr/config.toml";

pub const SYSTEM_CFG_PATH: &'static str = "/etc/tiny-dfr/config.toml";

/// The file of default settings: in the share directory where one is set.
pub fn default_cfg_path(share_dir: Option<String>) -> (r: String)
    ensures
        r@ == match share_dir {
            Some(dir) => path_joined(dir@, "config.toml"@),
            None => DEFAULT_CFG_PATH@,
        },
{
    match share_dir {
        Some(dir) => join_path(dir.as_str(), "config.toml"),
        None => DEFAULT_CFG_PATH.to_owned(),
    }
}

/// The user's own file: below their configuration directory, or below their
/// home directory.
pub open spec fn user_path(config_home: Option<Seq<char>>, home: Option<Seq<char>>) -> Option<
    Seq<char>,
> {
    match config_home {
        Some(dir) => Some(path_joined(dir, "tiny-dfr/config.toml"@)),
        None => match home {
            Some(dir) => Some(path_joined(dir, ".config/tiny-dfr/config.toml"@)),
            None => None,
        },
    }
}

/// The path of the user's own file, if it can be told.
pub fn user_config_path(config_home: Option<String>, home: Option<String>) -> (r: Option<String>)
    ensures
        text_opt(r) == user_path(text_opt(config_home), text_opt(home)),
{
    match config_home {
        Some(dir) => Some(join_path(dir.as_str(), "tiny-dfr/config.toml")),
        None => match home {
            Some(dir) => Some(join_path(dir.as_str(), ".config/tiny-dfr/config.toml")),
            None => None,
        },
    }
}

/// The files that override the default settings, each one those before it.
pub fn config_paths(config_home: Option<String>, home: Option<String>) -> (r: Vec<String>)
    ensures
        texts(r@) == match user_path(text_opt(config_home), text_opt(home)) {
            Some(p) => seq![SYSTEM_CFG_PATH@, p],
            None => seq![SYSTEM_CFG_PATH@],
        },
{
    let mut paths: Vec<String> = Vec::new();
    paths.push(SYSTEM_CFG_PATH.to_owned());
    match user_config_path(config_home, home) {
        Some(p) => {
            paths.push(p);
            assert(texts(paths@) =~= seq![SYSTEM_CFG_PATH@, p@]);
        },
        None => {
            assert(texts(paths@) =~= seq![SYSTEM_CFG_PATH@]);
        },
    }
    paths
}

/// The files that are watched for changes, by the numbers of their watches.
pub struct ConfigManager {
    pub watch_descs: Vec<u64>,
}

/// The watches that were set up: a file that is missing has none.
pub open spec fn armed(watches: Seq<Option<u64>>) -> Seq<u64>
    decreases watches.len(),
{
    if watches.len() == 0 {
        Seq::empty()
    } else {
        match watches.last() {
            Some(w) => armed(watches.drop_last()).push(w),
            None => armed(watches.drop_last()),
        }
    }
}

/// What an attempt to learn of changes comes to.
#[derive(Clone, Copy, PartialEq, Eq, Structural, Debug)]
pub enum WatchStep {
    /// No file is watched: set up watches, and look again next time.
    Arm,
    /// Read what happened to the files.
    Read,
}

impl ConfigManager {
    /// Starts with the watches that were set up, one entry for each file.
    pub fn new(watches: Vec<Option<u64>>) -> (r: ConfigManager)
        ensures
            r.watch_descs@ == armed(watches@),
    {
        let mut m = ConfigManager { watch_descs: Vec::new() };
        m.arm(watches);
        m
    }

    /// What to do to learn of changes.
    pub fn next_step(&self) -> (r: WatchStep)
        ensures
            r == if self.watch_descs@.len() == 0 {
                WatchStep::Arm
            } else {
                WatchStep::Read
            },
    {
        if self.watch_descs.len() == 0 {
            WatchStep::Arm
        } else {
            WatchStep::Read
        }
    }

    /// Takes over the watches that were set up, one entry for each file.
    pub fn arm(&mut self, watches: Vec<Option<u64>>)
        ensures
            final(self).watch_descs@ == armed(watches@),
    {
        let mut descs: Vec<u64> = Vec::new();
        let n = watches.len();
        let mut i: usize = 0;
        assert(watches@.subrange(0, 0) =~= Seq::empty());
        assert(descs@ =~= Seq::empty());
        while i < n
            invariant
                i <= n,
                n == watches@.len(),
                descs@ == armed(watches@.subrange(0, i as int)),
            decreases n - i,
        {
            let ghost seen = watches@.subrange(0, i + 1);
            assert(seen.drop_last() =~= watches@.subrange(0, i as int));
            assert(seen.last() == watches@[i as int]);
            match watches[i] {
                Some(w) => {
                    descs.push(w);
                },
                None => {},
            }
            i += 1;
        }
        assert(watches@.subrange(0, n as int) =~= watches@);
        self.watch_descs = descs;
    }

    /// Whether an event on this watch calls for loading the configuration
    /// again. The watches are then used up, and new ones are set up.
    pub fn calls_for_reload(&self, watch: u64) -> (r: bool)
        ensures
            r == self.watch_descs@.contains(watch),
    {
        let n = self.watch_descs.len();
        let mut i: usize = 0;
        while i < n
            invariant
                i <= n,
                n == self.watch_descs@.len(),
                forall|k: int| 0 <= k < i ==> self.watch_descs@[k] != watch,
            decreases n - i,
        {
            if self.watch_descs[i] == watch {
                assert(self.watch_descs@[i as int] == watch);
                return true;
            }
            i += 1;
        }
        false
    }
}

/// A pullout marker gives way to a toggle with an arrow to the left, and to its
/// last children: as many as its option says, two where that is no number, and no
/// more than there are. What stands before and behind the marker stays as it is.
pub proof fn marker_gives_way_to_its_last_children(name: Seq<char>, keys: Seq<ButtonConfigView>)
    ensures
        first_pullout(keys) matches Some(m) ==> {
            let marker = keys[m as int];
            let children = match marker.children {
                Some(c) => c,
                None => Seq::empty(),
            };
            let asked = match marker.option {
                Some(o) => match number_up_to(o, usize::MAX as nat) {
                    Some(n) => n as int,
                    None => 2,
                },
                None => 2,
            };
            let c = collapsed(name, keys);
            let kept = c.len() - keys.len();
            &&& m < keys.len()
            &&& 0 <= kept <= children.len()
            &&& kept == asked || (asked > children.len() && kept == children.len())
            &&& forall|i: int| 0 <= i < m ==> #[trigger] c[i] == keys[i]
            &&& c[m as int].button == Some("pullout_toggle"@)
            &&& c[m as int].text == Some(seq!['<'])
            &&& c[m as int].layer_toggle == Some(name + "__pullout"@)
            &&& forall|i: int|
                0 <= i < kept ==> #[trigger] c[m + 1 + i] == children[children.len() - kept + i]
            &&& forall|i: int| m < i < keys.len() ==> c[i + kept] == #[trigger] keys[i]
        },
{
    first_pullout_is_first(keys);
    reveal_strlit("<");
    assert("<"@ =~= seq!['<']);
}

/// The panel of a marker holds a toggle with an arrow to the right, which leads back,
/// and all children of the marker in their order. It covers as much of the bar as
/// the marker asks for, from a quarter to nineteen twentieths, and 66 hundredths
/// where nothing is said.
pub proof fn panel_holds_all_children(name: Seq<char>, keys: Seq<ButtonConfigView>)
    ensures
        first_pullout(keys) matches Some(m) ==> {
            let marker = keys[m as int];
            let children = match marker.children {
                Some(c) => c,
                None => Seq::empty(),
            };
            &&& panel(name, keys) matches Some(p)
            &&& p.name == name + "__pullout"@
            &&& p.parent == name
            &&& p.keys.len() == children.len() + 1
            &&& p.keys[0].button == Some("pullout_toggle"@)
            &&& p.keys[0].text == Some(seq!['>'])
            &&& p.keys[0].layer_toggle == Some(name)
            &&& forall|i: int| 0 <= i < children.len() ==> p.keys[i + 1] == #[trigger] children[i]
            &&& match marker.stretch {
                Some(s) => {
                    &&& 250_000_000 <= s <= 950_000_000 ==> p.coverage == s
                    &&& s < 250_000_000 ==> p.coverage == 250_000_000
                    &&& s > 950_000_000 ==> p.coverage == 950_000_000
                },
                None => p.coverage == 660_000_000,
            }
        },
{
    reveal_strlit(">");
    assert(">"@ =~= seq!['>']);
}

/// A button with children that toggles to a layer brings that layer along: its
/// buttons are these children, as they are but for their colour, which they have
/// from the button too.
pub proof fn children_are_the_layer_toggled_to(v: Seq<ButtonConfigView>, tint: bool, i: int)
    requires
        0 <= i < v.len(),
        v[i].layer_toggle is Some,
        v[i].children is Some,
    ensures
        exists|j: int|
            {
                let c = v[i].children->0;
                &&& 0 <= j < child_layers(v, tint).len()
                &&& (#[trigger] child_layers(v, tint)[j]).0 == v[i].layer_toggle->0
                &&& child_layers(v, tint)[j].1.len() == c.len()
                &&& forall|k: int|
                    0 <= k < c.len() ==> #[trigger] child_layers(v, tint)[j].1[k] == (
                    ButtonConfigView { colorize: c[k].colorize || v[i].colorize || tint, ..c[k] })
            },
    decreases v.len(),
{
    let front = v.subrange(0, v.len() - 1);
    let all = child_layers(v, tint);
    let c = v[i].children->0;
    assert(v.subrange(0, v.len() as int) =~= v);
    lemma_layers_of_next(v, v.len() - 1, tint);
    let part = child_layers(front, tint);
    if i == v.len() - 1 {
        let j = all.len() - 1;
        assert(all[j].0 == v[i].layer_toggle->0);
        assert(all[j].1 == tinted(c, v[i].colorize || tint));
        assert forall|k: int| 0 <= k < c.len() implies #[trigger] all[j].1[k] == (ButtonConfigView {
            colorize: c[k].colorize || v[i].colorize || tint,
            ..c[k]
        }) by {
            assert(all[j].1[k] == tinted_one(c[k], v[i].colorize || tint));
        }
    } else {
        assert(front[i] == v[i]);
        children_are_the_layer_toggled_to(front, tint, i);
        let j = choose|j: int|
            {
                &&& 0 <= j < part.len()
                &&& (#[trigger] part[j]).0 == v[i].layer_toggle->0
                &&& part[j].1.len() == c.len()
                &&& forall|k: int|
                    0 <= k < c.len() ==> #[trigger] part[j].1[k] == (ButtonConfigView {
                        colorize: c[k].colorize || v[i].colorize || tint,
                        ..c[k]
                    })
            };
        assert(all[j] == part[j]);
    }
}

/// A configuration begins with its three layers, in this order: the system layer,
/// the function keys and the media keys. Where one of the first and the last is
/// not set, the other one stands for it.
pub proof fn three_layers_come_first(base: ConfigProxy)
    requires
        complete(base),
    ensures
        ({
            let p = planned(base);
            let system = children_view(base.system_info_layer_keys);
            let media = children_view(base.media_layer_keys);
            let primary = children_view(base.primary_layer_keys);
            &&& p.len() >= 3
            &&& p[0].name == "SystemInfo"@
            &&& p[1].name == "FKeys"@
            &&& p[2].name == "Media"@
            &&& p[0].overlay is None && p[1].overlay is None && p[2].overlay is None
            &&& p[1].keys == collapsed("FKeys"@, primary->0)
            &&& system is Some ==> p[0].keys == collapsed("SystemInfo"@, system->0)
            &&& system is None ==> p[0].keys == collapsed("SystemInfo"@, media->0)
            &&& media is Some ==> p[2].keys == collapsed("Media"@, media->0)
            &&& media is None ==> p[2].keys == collapsed("Media"@, system->0)
        }),
{
}

proof fn lemma_other_planned(m: Seq<LayerEntry>, i: int)
    requires
        0 <= i < m.len(),
        !is_standard(m[i].0),
    ensures
        other_plans(m).contains(base_plan(m[i])),
    decreases m.len(),
{
    let front = m.drop_last();
    let all = other_plans(m);
    if i < m.len() - 1 {
        assert(front[i] == m[i]);
        lemma_other_planned(front, i);
        let part = other_plans(front);
        let k = choose|k: int| 0 <= k < part.len() && part[k] == base_plan(m[i]);
        assert(all[k] == part[k]);
    } else {
        assert(all[all.len() - 1] == base_plan(m[i]));
    }
}

proof fn lemma_panel_planned(m: Seq<LayerEntry>, i: int)
    requires
        0 <= i < m.len(),
        panel(m[i].0, m[i].1) is Some,
    ensures
        panels(m).contains(panel(m[i].0, m[i].1)->0),
    decreases m.len(),
{
    let front = m.drop_last();
    let all = panels(m);
    if i < m.len() - 1 {
        assert(front[i] == m[i]);
        lemma_panel_planned(front, i);
        let part = panels(front);
        let k = choose|k: int| 0 <= k < part.len() && part[k] == panel(m[i].0, m[i].1)->0;
        assert(all[k] == part[k]);
    } else {
        assert(all[all.len() - 1] == panel(m[i].0, m[i].1)->0);
    }
}

/// Each further layer of a configuration is planned under its name, with its own
/// buttons, unless it takes a name of the three; and the panel of each layer with a
/// marker is planned over that layer.
pub proof fn every_layer_is_planned(base: ConfigProxy, i: int)
    requires
        0 <= i < extra_layers(base).len(),
    ensures
        ({
            let (name, keys) = extra_layers(base)[i];
            &&& name != "SystemInfo"@ && name != "FKeys"@ && name != "Media"@ ==> planned(
                base,
            ).contains(LayerPlanView { name, keys: collapsed(name, keys), overlay: None })
            &&& panel(name, keys) matches Some(p) ==> planned(base).contains(
                LayerPlanView { name: p.name, keys: p.keys, overlay: Some((name, p.coverage)) },
            )
        }),
{
    let extra = extra_layers(base);
    let all = planned(base);
    let e = extra[i];
    let three = standard_layers(base).map_values(|e: LayerEntry| base_plan(e));
    let pulled = panels(standard_layers(base)) + panels(extra);
    let middle = pulled.map_values(|p: PulloutView| panel_plan(p));
    let others = other_plans(extra);
    assert(all == three + middle + others);
    if !is_standard(e.0) {
        lemma_other_planned(extra, i);
        let k = choose|k: int| 0 <= k < others.len() && others[k] == base_plan(e);
        assert(all[three.len() + middle.len() + k] == others[k]);
    }
    if panel(e.0, e.1) is Some {
        lemma_panel_planned(extra, i);
        let p = panel(e.0, e.1)->0;
        let part = panels(extra);
        let k = choose|k: int| 0 <= k < part.len() && part[k] == p;
        let at = panels(standard_layers(base)).len() + k;
        assert(pulled[at as int] == p);
        assert(middle[at as int] == panel_plan(p));
        assert(all[three.len() + at] == middle[at as int]);
    }
}

/// The layer to start with is the one that is set, if it is planned, and else the
/// system layer.
pub proof fn start_layer_is_the_one_set(base: ConfigProxy, i: int)
    ensures
        base.default_layer is None ==> start_layer(base) == "SystemInfo"@,
        base.default_layer matches Some(d) ==> {
            &&& 0 <= i < planned(base).len() && planned(base)[i].name == d@ ==> start_layer(base)
                == d@
            &&& (forall|k: int|
                0 <= k < planned(base).len() ==> (#[trigger] planned(base)[k]).name != d@)
                ==> start_layer(base) == "SystemInfo"@
        },
{
}

/// The settings are those of the files. Privileges are dropped and a log is kept
/// unless a file says otherwise, the font has 32 pixels unless a file says
/// otherwise, and temperatures are in degrees Fahrenheit only where a file asks for
/// that unit by one of its names.
pub proof fn settings_are_those_of_the_files(base: ConfigProxy, cfg: Config)
    requires
        complete(base),
        settings_of(base, cfg),
    ensures
        base.show_button_outlines == Some(cfg.show_button_outlines),
        base.enable_pixel_shift == Some(cfg.enable_pixel_shift),
        base.font_template == Some(cfg.font_template),
        base.adaptive_brightness == Some(cfg.adaptive_brightness),
        base.active_brightness == Some(cfg.active_brightness),
        base.double_press_switch_layers == Some(cfg.double_press_switch_layers),
        base.font_size matches Some(s) ==> cfg.font_size == s,
        base.font_size is None ==> cfg.font_size == 32_000_000_000,
        base.drop_privileges matches Some(b) ==> cfg.drop_privileges == b,
        base.drop_privileges is None ==> cfg.drop_privileges,
        base.logging matches Some(b) ==> cfg.logging == b,
        base.logging is None ==> cfg.logging,
        cfg.weather_location == base.weather_location,
        base.weather_units is None ==> !cfg.weather_fahrenheit,
        base.weather_units matches Some(u) ==> {
            cfg.weather_fahrenheit <==> (lower(u@) == "fahrenheit"@ || lower(u@) == "imperial"@
                || lower(u@) == "f"@)
        },
{
}

/// What a later file sets takes the place of what an earlier one sets, and what it
/// does not set stays.
pub proof fn later_setting_wins<T>(earlier: Option<T>, later: T)
    ensures
        overridden(earlier, Some(later)) == Some(later),
        overridden(earlier, None) == earlier,
{
}

/// The user's own file lies below their configuration directory, and below their
/// home directory where they have none.
pub proof fn own_file_lies_below_home(config_home: Seq<char>, home: Seq<char>)
    ensures
        user_path(Some(config_home), Some(home)) == user_path(Some(config_home), None),
        user_path(Some(config_home), None) == Some(
            path_joined(config_home, "tiny-dfr/config.toml"@),
        ),
        user_path(None, Some(home)) == Some(path_joined(home, ".config/tiny-dfr/config.toml"@)),
        user_path(None, None) is None,
{
}

proof fn lemma_named_is_found(m: Seq<LayerEntry>, j: int)
    requires
        0 <= j < m.len(),
    ensures
        layer_named(m, m[j].0) is Some,
    decreases m.len(),
{
    if m.last().0 != m[j].0 {
        assert(m.drop_last()[j] == m[j]);
        lemma_named_is_found(m.drop_last(), j);
    }
}

proof fn lemma_found_is_named(m: Seq<LayerEntry>, name: Seq<char>)
    requires
        layer_named(m, name) is Some,
    ensures
        exists|j: int| 0 <= j < m.len() && (#[trigger] m[j]).0 == name,
    decreases m.len(),
{
    if m.last().0 == name {
        assert(m[m.len() - 1].0 == name);
    } else {
        lemma_found_is_named(m.drop_last(), name);
        let j = choose|j: int|
            0 <= j < m.drop_last().len() && (#[trigger] m.drop_last()[j]).0 == name;
        assert(m[j].0 == name);
    }
}

/// A button of one of the three layers that has children and toggles to a layer
/// leads somewhere: a layer of that name is planned.
pub proof fn toggle_with_children_leads_somewhere(
    base: ConfigProxy,
    v: Seq<ButtonConfigView>,
    i: int,
)
    requires
        base.wf(),
        v == primary_keys(base) || v == system_keys(base) || v == media_keys(base),
        0 <= i < v.len(),
        v[i].layer_toggle is Some,
        v[i].children is Some,
    ensures
        is_planned(planned(base), v[i].layer_toggle->0),
{
    let name = v[i].layer_toggle->0;
    let files = layers_view(base.layers);
    let a = child_layers(primary_keys(base), false);
    let b = child_layers(system_keys(base), false);
    let c = child_layers(media_keys(base), false);
    let more = a + b + c + brought_along(files);
    toggle_target_is_collected(v, false, i);
    let own = child_layers(v, false);
    let j = choose|j: int| 0 <= j < own.len() && (#[trigger] own[j]).0 == name;
    let k = if v == primary_keys(base) {
        j
    } else if v == system_keys(base) {
        a.len() + j
    } else {
        a.len() + b.len() + j
    };
    assert(more[k] == own[j]);
    lemma_named_is_found(more, k);
    assert(in_name_order(files));
    later_layers_override(files, more, name);
    let extra = extra_layers(base);
    lemma_found_is_named(extra, name);
    let e = choose|e: int| 0 <= e < extra.len() && (#[trigger] extra[e]).0 == name;
    every_layer_is_planned(base, e);
    let p = planned(base);
    if is_standard(name) {
        let three = standard_layers(base).map_values(|e: LayerEntry| base_plan(e));
        assert(three[0].name == "SystemInfo"@ && three[1].name == "FKeys"@ && three[2].name
            == "Media"@);
        assert(p[0] == three[0] && p[1] == three[1] && p[2] == three[2]);
    } else {
        let plan = LayerPlanView { name, keys: collapsed(name, extra[e].1), overlay: None };
        let at = choose|at: int| 0 <= at < p.len() && p[at] == plan;
        assert(p[at].name == name);
    }
}

proof fn lemma_brought_along(m: Seq<LayerEntry>, j: int, k: int)
    requires
        0 <= j < m.len(),
        0 <= k < child_layers(m[j].1, false).len(),
    ensures
        brought_along(m).contains(child_layers(m[j].1, false)[k]),
    decreases m.len(),
{
    let front = m.drop_last();
    let before = brought_along(front);
    let all = brought_along(m);
    let e = child_layers(m[j].1, false)[k];
    if j < m.len() - 1 {
        assert(front[j] == m[j]);
        lemma_brought_along(front, j, k);
        let i = choose|i: int| 0 <= i < before.len() && before[i] == e;
        assert(all[i] == e);
    } else {
        assert(all[before.len() + k] == e);
    }
}

/// A button of a further layer that has children and toggles to a layer leads
/// somewhere too: a layer of that name is among the further ones.
pub proof fn further_toggle_leads_somewhere(base: ConfigProxy, j: int, i: int)
    requires
        base.wf(),
        0 <= j < layers_view(base.layers).len(),
        ({
            let v = layers_view(base.layers)[j].1;
            0 <= i < v.len() && v[i].layer_toggle is Some && v[i].children is Some
        }),
    ensures
        layer_named(
            extra_layers(base),
            layers_view(base.layers)[j].1[i].layer_toggle->0,
        ) is Some,
{
    let files = layers_view(base.layers);
    let v = files[j].1;
    let name = v[i].layer_toggle->0;
    toggle_target_is_collected(v, false, i);
    let own = child_layers(v, false);
    let k = choose|k: int| 0 <= k < own.len() && (#[trigger] own[k]).0 == name;
    lemma_brought_along(files, j, k);
    let brought = brought_along(files);
    let at = choose|at: int| 0 <= at < brought.len() && brought[at] == own[k];
    let head = child_layers(primary_keys(base), false) + child_layers(system_keys(base), false)
        + child_layers(media_keys(base), false);
    let more = head + brought;
    assert(more[head.len() + at] == own[k]);
    lemma_named_is_found(more, head.len() + at);
    assert(in_name_order(files));
    later_layers_override(files, more, name);
}

/// A layer of the files is among the further layers under its name; what a button
/// brings along under the same name takes its place.
pub proof fn layers_of_the_files_are_kept(base: ConfigProxy, j: int)
    requires
        base.wf(),
        0 <= j < layers_view(base.layers).len(),
    ensures
        layer_named(extra_layers(base), layers_view(base.layers)[j].0) is Some,
{
    let files = layers_view(base.layers);
    let more = child_layers(primary_keys(base), false) + child_layers(system_keys(base), false)
        + child_layers(media_keys(base), false) + brought_along(files);
    lemma_named_is_found(files, j);
    assert(in_name_order(files));
    later_layers_override(files, more, files[j].0);
}

} // verus!
