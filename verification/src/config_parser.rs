//! Reading the configuration out of a KDL document, node by node.
use vstd::prelude::*;
use crate::config::{
    opt_chars, strings_view, ActionView, BindAction, BindConfig, BindOption, BindView,
    DaemonSettings, ModeConfig, ModeView, NotifyLevel, OptionView, OutputOverride, OverrideView,
    PositionConfig, PositionView, ScratchpadConfig, ScratchpadView, SizeConfig, SizeView,
    ModesUiConfig, ModesUiView, ScratchpadsUiConfig, ScratchpadsUiView, UiConfig, UiView,
    no_modes_ui, no_scratchpads_ui, no_ui,
};
use crate::error::NiriToolsError;
use crate::json::deref_opt;
use crate::kdl_doc::{
    arg_at, doc_arg, doc_node, first_string, kdl_document, number_of, number_value, opt_string,
    prop_of, read_kdl, small_int_of, small_int_value, string_args_of, value_bool, value_str,
    ConfigDoc, ConfigNode, ConfigValue, NumberView,
};
use crate::strmap::StrMap;
use crate::strmap::StrSet;
use crate::text::{join, join3, join5, join7, str_eq};

verus! {

/// What has been read of the configuration so far.
#[derive(Debug)]
pub struct LoadedConfig {
    pub settings: DaemonSettings,
    pub scratchpads: StrMap<ScratchpadConfig>,
    pub modes: StrMap<ModeConfig>,
    /// The files read, in the order they were opened.
    pub config_files: Vec<String>,
    /// Problems found on the way; none of them stops the reading.
    pub warnings: Vec<String>,
    /// The look of the overlays.
    pub ui_config: UiConfig,
}

/// A configuration as plain values.
pub struct LoadedView {
    pub settings: DaemonSettings,
    pub scratchpads: Map<Seq<char>, ScratchpadView>,
    pub modes: Map<Seq<char>, ModeView>,
    pub config_files: Seq<Seq<char>>,
    pub warnings: Seq<Seq<char>>,
    pub ui_config: UiView,
}

impl View for LoadedConfig {
    type V = LoadedView;

    open spec fn view(&self) -> LoadedView {
        LoadedView {
            settings: self.settings,
            scratchpads: self.scratchpads@.map_values(|s: ScratchpadConfig| s@),
            modes: self.modes@.map_values(|m: ModeConfig| m@),
            config_files: strings_view(self.config_files@),
            warnings: strings_view(self.warnings@),
            ui_config: self.ui_config@,
        }
    }
}

impl Default for LoadedConfig {
    fn default() -> (res: Self)
        ensures
            res.settings == (DaemonSettings { notify_level: NotifyLevel::All, watch_config: true }),
            res.scratchpads@ == Map::<Seq<char>, ScratchpadConfig>::empty(),
            res.modes@ == Map::<Seq<char>, ModeConfig>::empty(),
            res.config_files@.len() == 0,
            res.warnings@.len() == 0,
            res.ui_config@ == no_ui(),
    {
        LoadedConfig {
            settings: DaemonSettings::default(),
            scratchpads: StrMap::new(),
            modes: StrMap::new(),
            config_files: Vec::new(),
            warnings: Vec::new(),
            ui_config: UiConfig::default(),
        }
    }
}

/// The notification level a name stands for (`none` is [`NotifyLevel::Off`]).
pub open spec fn level_named(s: Seq<char>) -> Option<NotifyLevel> {
    if s == "all"@ {
        Some(NotifyLevel::All)
    } else if s == "error"@ {
        Some(NotifyLevel::Error)
    } else if s == "warning"@ {
        Some(NotifyLevel::Warning)
    } else if s == "none"@ {
        Some(NotifyLevel::Off)
    } else {
        None
    }
}

fn level_of(s: &str) -> (res: Option<NotifyLevel>)
    ensures
        res == level_named(s@),
{
    if str_eq(s, "all") {
        Some(NotifyLevel::All)
    } else if str_eq(s, "error") {
        Some(NotifyLevel::Error)
    } else if str_eq(s, "warning") {
        Some(NotifyLevel::Warning)
    } else if str_eq(s, "none") {
        Some(NotifyLevel::Off)
    } else {
        None
    }
}

/// A flag written as a boolean, or as the string `"true"` (any other string is false).
pub open spec fn flag_value(v: Option<ConfigValue>) -> Option<bool> {
    match value_bool(v) {
        Some(b) => Some(b),
        None => match value_str(v) {
            Some(s) => Some(s == "true"@),
            None => None,
        },
    }
}

fn flag_of(v: Option<&ConfigValue>) -> (res: Option<bool>)
    ensures
        res == flag_value(deref_opt(v)),
{
    match v {
        Some(x) => match x.as_bool() {
            Some(b) => Some(b),
            None => match x.as_string() {
                Some(s) => Some(str_eq(s, "true")),
                None => None,
            },
        },
        None => None,
    }
}

/// The settings after a `settings` node: `notify` picks the level (an unknown name
/// gives `All`), `watch` the file watching.
pub open spec fn settings_applied(s: DaemonSettings, node: ConfigNode) -> DaemonSettings {
    match node.children {
        None => s,
        Some(c) => {
            let s1 = match value_str(doc_arg(c, "notify"@)) {
                Some(l) => DaemonSettings {
                    notify_level: match level_named(l) {
                        Some(x) => x,
                        None => NotifyLevel::All,
                    },
                    ..s
                },
                None => s,
            };
            match flag_value(doc_arg(c, "watch"@)) {
                Some(b) => DaemonSettings { watch_config: b, ..s1 },
                None => s1,
            }
        },
    }
}

/// The warning of a `settings` node with an unknown notify level.
pub open spec fn settings_warnings(node: ConfigNode) -> Seq<Seq<char>> {
    match node.children {
        Some(c) => match value_str(doc_arg(c, "notify"@)) {
            Some(l) => if level_named(l) is None {
                seq![
                    "Unknown notify level \""@ + l
                        + "\". Valid values: all, error, warning, none. Using \"all\"."@,
                ]
            } else {
                Seq::empty()
            },
            None => Seq::empty(),
        },
        None => Seq::empty(),
    }
}

/// The level after a `notifications` node: its first argument names the level (an
/// unknown name gives `All`).
pub open spec fn notifications_applied(s: DaemonSettings, node: ConfigNode) -> DaemonSettings {
    match first_string(node) {
        Some(l) => DaemonSettings {
            notify_level: match level_named(l) {
                Some(x) => x,
                None => NotifyLevel::All,
            },
            ..s
        },
        None => s,
    }
}

/// The warning of a `notifications` node with an unknown level.
pub open spec fn notifications_warnings(node: ConfigNode) -> Seq<Seq<char>> {
    match first_string(node) {
        Some(l) => if level_named(l) is None {
            seq!["Unknown notification level: "@ + l]
        } else {
            Seq::empty()
        },
        None => Seq::empty(),
    }
}

impl LoadedConfig {
    /// Appends a warning.
    fn warn(&mut self, w: String)
        ensures
            final(self).settings == old(self).settings,
            final(self).scratchpads@ == old(self).scratchpads@,
            final(self).modes@ == old(self).modes@,
            final(self).config_files@ == old(self).config_files@,
            final(self)@.ui_config == old(self)@.ui_config,
            final(self)@.warnings == old(self)@.warnings.push(w@),
    {
        self.warnings.push(w);
        assert(strings_view(self.warnings@) =~= strings_view(old(self).warnings@).push(w@));
    }
}

/// Reads a `settings` node (see [`settings_applied`]).
pub fn parse_settings(node: &ConfigNode, config: &mut LoadedConfig)
    ensures
        final(config).settings == settings_applied(old(config).settings, *node),
        final(config)@.warnings == old(config)@.warnings + settings_warnings(*node),
        final(config).scratchpads@ == old(config).scratchpads@,
        final(config).modes@ == old(config).modes@,
        final(config).config_files@ == old(config).config_files@,
        final(config)@.ui_config == old(config)@.ui_config,
{
    let children = match &node.children {
        Some(c) => c,
        None => {
            assert(old(config)@.warnings + settings_warnings(*node) =~= old(config)@.warnings);
            return;
        },
    };
    match crate::kdl_doc::opt_string(children.get_arg("notify")) {
        Some(l) => match level_of(l) {
            Some(level) => {
                config.settings.notify_level = level;
                assert(old(config)@.warnings + settings_warnings(*node) =~= old(config)@.warnings);
            },
            None => {
                let w = join3(
                    "Unknown notify level \"",
                    l,
                    "\". Valid values: all, error, warning, none. Using \"all\".",
                );
                config.warn(w);
                config.settings.notify_level = NotifyLevel::All;
                assert(old(config)@.warnings + settings_warnings(*node) =~= config@.warnings);
            },
        },
        None => {
            assert(old(config)@.warnings + settings_warnings(*node) =~= old(config)@.warnings);
        },
    }
    if let Some(b) = flag_of(children.get_arg("watch")) {
        config.settings.watch_config = b;
    }
}

/// Reads a `notifications` node (see [`notifications_applied`]).
pub fn parse_notifications(node: &ConfigNode, config: &mut LoadedConfig)
    ensures
        final(config).settings == notifications_applied(old(config).settings, *node),
        final(config)@.warnings == old(config)@.warnings + notifications_warnings(*node),
        final(config).scratchpads@ == old(config).scratchpads@,
        final(config).modes@ == old(config).modes@,
        final(config).config_files@ == old(config).config_files@,
        final(config)@.ui_config == old(config)@.ui_config,
{
    match node.first_string() {
        Some(l) => match level_of(l) {
            Some(level) => {
                config.settings.notify_level = level;
                assert(old(config)@.warnings + notifications_warnings(*node) =~= old(
                    config,
                )@.warnings);
            },
            None => {
                let w = join("Unknown notification level: ", l);
                config.warn(w);
                config.settings.notify_level = NotifyLevel::All;
                assert(old(config)@.warnings + notifications_warnings(*node) =~= config@.warnings);
            },
        },
        None => {
            assert(old(config)@.warnings + notifications_warnings(*node) =~= old(config)@.warnings);
        },
    }
}

/// The size a node gives with its `width` and `height` properties (both strings).
pub open spec fn size_of_node(n: ConfigNode) -> Option<SizeView> {
    match (value_str(prop_of(n.entries@, "width"@)), value_str(prop_of(n.entries@, "height"@))) {
        (Some(w), Some(h)) => Some(SizeView { width: w, height: h }),
        _ => None,
    }
}

/// The size of the first `size` node of a block.
pub open spec fn size_in(d: ConfigDoc) -> Option<SizeView> {
    match doc_node(d, "size"@) {
        Some(n) => size_of_node(n),
        None => None,
    }
}

/// The position a node gives with its `x` and `y` properties (both strings).
pub open spec fn position_of_node(n: ConfigNode) -> Option<PositionView> {
    match (value_str(prop_of(n.entries@, "x"@)), value_str(prop_of(n.entries@, "y"@))) {
        (Some(x), Some(y)) => Some(PositionView { x, y }),
        _ => None,
    }
}

/// The position of the first `position` node of a block.
pub open spec fn position_in(d: ConfigDoc) -> Option<PositionView> {
    match doc_node(d, "position"@) {
        Some(n) => position_of_node(n),
        None => None,
    }
}

/// The override an `output` node gives with its block.
pub open spec fn override_of(n: ConfigNode) -> OverrideView {
    match n.children {
        Some(c) => OverrideView { size: size_in(c), position: position_in(c) },
        None => OverrideView { size: None, position: None },
    }
}

/// The overrides of the `output` nodes among `nodes` that name their output, keyed by
/// that name (a later one replaces an earlier one).
pub open spec fn overrides_in(nodes: Seq<ConfigNode>) -> Map<Seq<char>, OverrideView>
    decreases nodes.len(),
{
    if nodes.len() == 0 {
        Map::empty()
    } else {
        let m = overrides_in(nodes.drop_last());
        let n = nodes.last();
        if n.name@ == "output"@ {
            match first_string(n) {
                Some(o) => m.insert(o, override_of(n)),
                None => m,
            }
        } else {
            m
        }
    }
}

/// The scratchpad that a `scratchpad` node defines, or the warning that explains why
/// it defines none: it needs a name (first argument), a block, and an `app-id`.
pub open spec fn scratchpad_from(node: ConfigNode) -> Result<ScratchpadView, Seq<char>> {
    match first_string(node) {
        None => Err("Scratchpad node missing name argument"@),
        Some(name) => match node.children {
            None => Err("Scratchpad \""@ + name + "\" has no body"@),
            Some(c) => match value_str(doc_arg(c, "app-id"@)) {
                None => Err("Scratchpad \""@ + name + "\" missing required app-id, skipping"@),
                Some(app) => Ok(
                    ScratchpadView {
                        name,
                        command: match doc_node(c, "command"@) {
                            Some(cn) => Some(string_args_of(cn.entries@)),
                            None => None,
                        },
                        app_id: Some(app),
                        title: value_str(doc_arg(c, "title"@)),
                        auto_adopt: match flag_value(doc_arg(c, "auto-adopt"@)) {
                            Some(b) => b,
                            None => false,
                        },
                        key: value_str(doc_arg(c, "key"@)),
                        desc: value_str(doc_arg(c, "desc"@)),
                        size: size_in(c),
                        position: position_in(c),
                        output_overrides: overrides_in(c.nodes@),
                    },
                ),
            },
        },
    }
}

fn owned(s: Option<&str>) -> (res: Option<String>)
    ensures
        match s {
            Some(x) => res matches Some(r) && r@ == x@,
            None => res is None,
        },
{
    match s {
        Some(x) => Some(x.to_owned()),
        None => None,
    }
}

fn parse_size_node(n: &ConfigNode) -> (res: Option<SizeConfig>)
    ensures
        crate::config::opt_size_view(res) == size_of_node(*n),
{
    let w = crate::kdl_doc::opt_string(n.prop("width"));
    let h = crate::kdl_doc::opt_string(n.prop("height"));
    match (w, h) {
        (Some(w), Some(h)) => Some(SizeConfig { width: w.to_owned(), height: h.to_owned() }),
        _ => None,
    }
}

fn parse_size_from_doc(d: &ConfigDoc) -> (res: Option<SizeConfig>)
    ensures
        crate::config::opt_size_view(res) == size_in(*d),
{
    match d.get("size") {
        Some(n) => parse_size_node(n),
        None => None,
    }
}

fn parse_position_node(n: &ConfigNode) -> (res: Option<PositionConfig>)
    ensures
        crate::config::opt_position_view(res) == position_of_node(*n),
{
    let x = crate::kdl_doc::opt_string(n.prop("x"));
    let y = crate::kdl_doc::opt_string(n.prop("y"));
    match (x, y) {
        (Some(x), Some(y)) => Some(PositionConfig { x: x.to_owned(), y: y.to_owned() }),
        _ => None,
    }
}

fn parse_position_from_doc(d: &ConfigDoc) -> (res: Option<PositionConfig>)
    ensures
        crate::config::opt_position_view(res) == position_in(*d),
{
    match d.get("position") {
        Some(n) => parse_position_node(n),
        None => None,
    }
}

/// Reads an `output` override node (see [`override_of`]).
fn parse_output_override(n: &ConfigNode) -> (res: OutputOverride)
    ensures
        res@ == override_of(*n),
{
    match &n.children {
        Some(c) => OutputOverride { size: parse_size_from_doc(c), position: parse_position_from_doc(c) },
        None => OutputOverride { size: None, position: None },
    }
}

fn overrides_of(d: &ConfigDoc) -> (res: StrMap<OutputOverride>)
    ensures
        res@.map_values(|o: OutputOverride| o@) == overrides_in(d.nodes@),
{
    let mut m: StrMap<OutputOverride> = StrMap::new();
    let mut i: usize = 0;
    assert(m@.map_values(|o: OutputOverride| o@) =~= overrides_in(d.nodes@.take(0)));
    while i < d.nodes.len()
        invariant
            i <= d.nodes@.len(),
            m@.map_values(|o: OutputOverride| o@) == overrides_in(d.nodes@.take(i as int)),
        decreases d.nodes@.len() - i,
    {
        let child = &d.nodes[i];
        assert(d.nodes@.take(i + 1).drop_last() =~= d.nodes@.take(i as int));
        assert(d.nodes@.take(i + 1).last() == d.nodes@[i as int]);
        if str_eq(child.name.as_str(), "output") {
            match child.first_string() {
                Some(o) => {
                    let ov = parse_output_override(child);
                    m.insert(o.to_owned(), ov);
                    assert(m@.map_values(|o: OutputOverride| o@) =~= overrides_in(
                        d.nodes@.take(i + 1),
                    ));
                },
                None => {},
            }
        }
        i = i + 1;
    }
    assert(d.nodes@.take(d.nodes@.len() as int) =~= d.nodes@);
    m
}

/// Reads a `scratchpad` node: the scratchpad it defines replaces any earlier one of
/// the same name; a node that defines none leaves a warning (see
/// [`scratchpad_from`]).
pub fn parse_scratchpad(node: &ConfigNode, config: &mut LoadedConfig)
    ensures
        final(config).settings == old(config).settings,
        final(config).modes@ == old(config).modes@,
        final(config).config_files@ == old(config).config_files@,
        final(config)@.ui_config == old(config)@.ui_config,
        match scratchpad_from(*node) {
            Ok(v) => {
                &&& final(config)@.scratchpads == old(config)@.scratchpads.insert(v.name, v)
                &&& final(config)@.warnings == old(config)@.warnings
            },
            Err(w) => {
                &&& final(config).scratchpads@ == old(config).scratchpads@
                &&& final(config)@.warnings == old(config)@.warnings.push(w)
            },
        },
{
    let name = match node.first_string() {
        Some(n) => n,
        None => {
            config.warn("Scratchpad node missing name argument".to_owned());
            return;
        },
    };
    let children = match &node.children {
        Some(c) => c,
        None => {
            config.warn(join3("Scratchpad \"", name, "\" has no body"));
            return;
        },
    };
    let app_id = match crate::kdl_doc::opt_string(children.get_arg("app-id")) {
        Some(a) => a.to_owned(),
        None => {
            config.warn(join3("Scratchpad \"", name, "\" missing required app-id, skipping"));
            return;
        },
    };
    let title = owned(crate::kdl_doc::opt_string(children.get_arg("title")));
    let auto_adopt = match flag_of(children.get_arg("auto-adopt")) {
        Some(b) => b,
        None => false,
    };
    let key = owned(crate::kdl_doc::opt_string(children.get_arg("key")));
    let desc = owned(crate::kdl_doc::opt_string(children.get_arg("desc")));
    let command = match children.get("command") {
        Some(cn) => Some(cn.string_args()),
        None => None,
    };
    let size = parse_size_from_doc(children);
    let position = parse_position_from_doc(children);
    let output_overrides = overrides_of(children);
    let sp = ScratchpadConfig {
        name: name.to_owned(),
        command,
        app_id: Some(app_id),
        title,
        auto_adopt,
        key,
        desc,
        size,
        position,
        output_overrides,
    };
    config.scratchpads.insert(name.to_owned(), sp);
    assert(config@.scratchpads =~= old(config)@.scratchpads.insert(name@, sp@));
}

/// Options and action after one more child of a bind: `keep-open`, `close` and
/// `alias` add options; every other name sets the action (the last one wins), names
/// that are not the tool's own passing through to niri.
pub open spec fn bind_step(
    acc: (Seq<OptionView>, Option<ActionView>),
    child: ConfigNode,
) -> (Seq<OptionView>, Option<ActionView>) {
    let opts = acc.0;
    let n = child.name@;
    if n == "keep-open"@ {
        (opts.push(OptionView::KeepOpen), acc.1)
    } else if n == "close"@ {
        (opts.push(OptionView::Close), acc.1)
    } else if n == "alias"@ {
        match first_string(child) {
            Some(a) => (opts.push(OptionView::Alias(a)), acc.1),
            None => acc,
        }
    } else if n == "spawn-sh"@ {
        match first_string(child) {
            Some(c) => (opts, Some(ActionView::SpawnSh(c))),
            None => acc,
        }
    } else if n == "spawn"@ {
        (opts, Some(ActionView::Spawn(string_args_of(child.entries@))))
    } else if n == "switch-mode"@ {
        match first_string(child) {
            Some(m) => (opts, Some(ActionView::SwitchMode(m))),
            None => acc,
        }
    } else if n == "scratchpad-pick"@ {
        (opts, Some(ActionView::ScratchpadPick))
    } else if n == "scratchpad-toggle"@ {
        (opts, Some(ActionView::ScratchpadToggle(first_string(child))))
    } else if n == "scratchpad-hide"@ {
        (opts, Some(ActionView::ScratchpadHide))
    } else if n == "scratchpad-float"@ {
        (opts, Some(ActionView::ScratchpadFloat(first_string(child))))
    } else if n == "scratchpad-tile"@ {
        (opts, Some(ActionView::ScratchpadTile(first_string(child))))
    } else if n == "scratchpad-toggle-float"@ {
        (opts, Some(ActionView::ScratchpadToggleFloat))
    } else if n == "scratchpad-adopt"@ {
        (opts, Some(ActionView::ScratchpadAdopt))
    } else if n == "scratchpad-disown"@ {
        (opts, Some(ActionView::ScratchpadDisown))
    } else {
        (opts, Some(ActionView::NiriAction { name: n, args: string_args_of(child.entries@) }))
    }
}

/// Options and action of a bind with the children `nodes`.
pub open spec fn bind_fold(nodes: Seq<ConfigNode>) -> (Seq<OptionView>, Option<ActionView>)
    decreases nodes.len(),
{
    if nodes.len() == 0 {
        (Seq::empty(), None)
    } else {
        bind_step(bind_fold(nodes.drop_last()), nodes.last())
    }
}

/// Options and action of a bind node (none without a block).
pub open spec fn bind_parts(node: ConfigNode) -> (Seq<OptionView>, Option<ActionView>) {
    match node.children {
        Some(c) => bind_fold(c.nodes@),
        None => (Seq::empty(), None),
    }
}

pub open spec fn opt_action_view(a: Option<BindAction>) -> Option<ActionView> {
    match a {
        Some(x) => Some(x@),
        None => None,
    }
}

pub open spec fn options_view(o: Seq<BindOption>) -> Seq<OptionView> {
    o.map_values(|x: BindOption| x@)
}

/// Reads the children of a bind node (see [`bind_parts`]).
fn parse_bind_children(node: &ConfigNode) -> (res: (Vec<BindOption>, Option<BindAction>))
    ensures
        (options_view(res.0@), opt_action_view(res.1)) == bind_parts(*node),
{
    let children = match &node.children {
        Some(c) => c,
        None => {
            assert(options_view(Seq::<BindOption>::empty()) =~= Seq::<OptionView>::empty());
            return (Vec::new(), None);
        },
    };
    let mut options: Vec<BindOption> = Vec::new();
    let mut action: Option<BindAction> = None;
    let mut i: usize = 0;
    assert(options_view(options@) =~= Seq::<OptionView>::empty());
    assert(children.nodes@.take(0) =~= Seq::<ConfigNode>::empty());
    while i < children.nodes.len()
        invariant
            i <= children.nodes@.len(),
            (options_view(options@), opt_action_view(action)) == bind_fold(
                children.nodes@.take(i as int),
            ),
        decreases children.nodes@.len() - i,
    {
        let child = &children.nodes[i];
        assert(children.nodes@.take(i + 1).drop_last() =~= children.nodes@.take(i as int));
        assert(children.nodes@.take(i + 1).last() == children.nodes@[i as int]);
        let ghost before = options@;
        let n = child.name.as_str();
        if str_eq(n, "keep-open") {
            options.push(BindOption::KeepOpen);
            assert(options_view(options@) =~= options_view(before).push(OptionView::KeepOpen));
        } else if str_eq(n, "close") {
            options.push(BindOption::Close);
            assert(options_view(options@) =~= options_view(before).push(OptionView::Close));
        } else if str_eq(n, "alias") {
            if let Some(a) = child.first_string() {
                let o = BindOption::Alias(a.to_owned());
                options.push(o);
                assert(options_view(options@) =~= options_view(before).push(o@));
            }
        } else if str_eq(n, "spawn-sh") {
            if let Some(c) = child.first_string() {
                action = Some(BindAction::SpawnSh(c.to_owned()));
            }
        } else if str_eq(n, "spawn") {
            action = Some(BindAction::Spawn(child.string_args()));
        } else if str_eq(n, "switch-mode") {
            if let Some(m) = child.first_string() {
                action = Some(BindAction::SwitchMode(m.to_owned()));
            }
        } else if str_eq(n, "scratchpad-pick") {
            action = Some(BindAction::ScratchpadPick);
        } else if str_eq(n, "scratchpad-toggle") {
            action = Some(BindAction::ScratchpadToggle(owned(child.first_string())));
        } else if str_eq(n, "scratchpad-hide") {
            action = Some(BindAction::ScratchpadHide);
        } else if str_eq(n, "scratchpad-float") {
            action = Some(BindAction::ScratchpadFloat(owned(child.first_string())));
        } else if str_eq(n, "scratchpad-tile") {
            action = Some(BindAction::ScratchpadTile(owned(child.first_string())));
        } else if str_eq(n, "scratchpad-toggle-float") {
            action = Some(BindAction::ScratchpadToggleFloat);
        } else if str_eq(n, "scratchpad-adopt") {
            action = Some(BindAction::ScratchpadAdopt);
        } else if str_eq(n, "scratchpad-disown") {
            action = Some(BindAction::ScratchpadDisown);
        } else {
            action = Some(BindAction::NiriAction { name: n.to_owned(), args: child.string_args() });
        }
        i = i + 1;
    }
    assert(children.nodes@.take(children.nodes@.len() as int) =~= children.nodes@);
    (options, action)
}

/// The bind a child of a `binds` block defines, if it has an action: its key is the
/// node's name and its description the first argument (empty without one).
pub open spec fn bind_from(b: ConfigNode) -> Option<BindView> {
    match bind_parts(b).1 {
        Some(act) => Some(
            BindView {
                key: b.name@,
                description: match first_string(b) {
                    Some(d) => d,
                    None => Seq::empty(),
                },
                options: bind_parts(b).0,
                action: act,
            },
        ),
        None => None,
    }
}

/// The binds that the nodes of a `binds` block define, in order.
pub open spec fn binds_in(nodes: Seq<ConfigNode>) -> Seq<BindView>
    decreases nodes.len(),
{
    if nodes.len() == 0 {
        Seq::empty()
    } else {
        match bind_from(nodes.last()) {
            Some(b) => binds_in(nodes.drop_last()).push(b),
            None => binds_in(nodes.drop_last()),
        }
    }
}

/// The binds of a `binds` node (none without a block).
pub open spec fn binds_from(node: ConfigNode) -> Seq<BindView> {
    match node.children {
        Some(c) => binds_in(c.nodes@),
        None => Seq::empty(),
    }
}

pub open spec fn binds_view(b: Seq<BindConfig>) -> Seq<BindView> {
    b.map_values(|x: BindConfig| x@)
}

/// Reads a `binds` block (see [`binds_from`]).
fn parse_binds(node: &ConfigNode) -> (res: Vec<BindConfig>)
    ensures
        binds_view(res@) == binds_from(*node),
{
    let children = match &node.children {
        Some(c) => c,
        None => {
            assert(binds_view(Seq::<BindConfig>::empty()) =~= Seq::<BindView>::empty());
            return Vec::new();
        },
    };
    let mut binds: Vec<BindConfig> = Vec::new();
    let mut i: usize = 0;
    assert(binds_view(binds@) =~= binds_in(children.nodes@.take(0)));
    while i < children.nodes.len()
        invariant
            i <= children.nodes@.len(),
            binds_view(binds@) == binds_in(children.nodes@.take(i as int)),
        decreases children.nodes@.len() - i,
    {
        let b = &children.nodes[i];
        assert(children.nodes@.take(i + 1).drop_last() =~= children.nodes@.take(i as int));
        assert(children.nodes@.take(i + 1).last() == children.nodes@[i as int]);
        let key = b.name.clone();
        let description = match b.first_string() {
            Some(d) => d.to_owned(),
            None => String::new(),
        };
        let (options, action) = parse_bind_children(b);
        if let Some(action) = action {
            let bc = BindConfig { key, description, options, action };
            let ghost before = binds@;
            binds.push(bc);
            assert(binds_view(binds@) =~= binds_view(before).push(bc@));
        }
        i = i + 1;
    }
    assert(children.nodes@.take(children.nodes@.len() as int) =~= children.nodes@);
    binds
}

/// The mode that a `mode` node defines, or the warning that explains why it defines
/// none: it needs a name (first argument) and a block.
pub open spec fn mode_from(node: ConfigNode) -> Result<ModeView, Seq<char>> {
    match first_string(node) {
        None => Err("Mode node missing name argument"@),
        Some(name) => match node.children {
            None => Err("Mode \""@ + name + "\" has no body"@),
            Some(c) => Ok(
                ModeView {
                    name,
                    keep_open: doc_node(c, "keep-open"@) is Some,
                    binds: match doc_node(c, "binds"@) {
                        Some(b) => binds_from(b),
                        None => Seq::empty(),
                    },
                },
            ),
        },
    }
}

/// The warning of a mode defined without a `binds` block.
pub open spec fn mode_warnings(node: ConfigNode) -> Seq<Seq<char>> {
    match (first_string(node), node.children) {
        (Some(name), Some(c)) => if doc_node(c, "binds"@) is None {
            seq!["Mode \""@ + name + "\" has no binds block"@]
        } else {
            Seq::empty()
        },
        _ => Seq::empty(),
    }
}

/// Reads a `mode` node: the mode it defines replaces any earlier one of the same name;
/// a node that defines none leaves a warning (see [`mode_from`], [`mode_warnings`]).
pub fn parse_mode(node: &ConfigNode, config: &mut LoadedConfig)
    ensures
        final(config).settings == old(config).settings,
        final(config).scratchpads@ == old(config).scratchpads@,
        final(config).config_files@ == old(config).config_files@,
        final(config)@.ui_config == old(config)@.ui_config,
        match mode_from(*node) {
            Ok(v) => {
                &&& final(config)@.modes == old(config)@.modes.insert(v.name, v)
                &&& final(config)@.warnings == old(config)@.warnings + mode_warnings(*node)
            },
            Err(w) => {
                &&& final(config).modes@ == old(config).modes@
                &&& final(config)@.warnings == old(config)@.warnings.push(w)
            },
        },
{
    let name = match node.first_string() {
        Some(n) => n,
        None => {
            config.warn("Mode node missing name argument".to_owned());
            return;
        },
    };
    let children = match &node.children {
        Some(c) => c,
        None => {
            config.warn(join3("Mode \"", name, "\" has no body"));
            return;
        },
    };
    let keep_open = children.get("keep-open").is_some();
    let binds = match children.get("binds") {
        Some(b) => {
            assert(old(config)@.warnings + mode_warnings(*node) =~= old(config)@.warnings);
            parse_binds(b)
        },
        None => {
            config.warn(join3("Mode \"", name, "\" has no binds block"));
            assert(old(config)@.warnings + mode_warnings(*node) =~= config@.warnings);
            assert(binds_view(Seq::<BindConfig>::empty()) =~= Seq::<BindView>::empty());
            Vec::new()
        },
    };
    let mode = ModeConfig { name: name.to_owned(), keep_open, binds };
    config.modes.insert(name.to_owned(), mode);
    assert(config@.modes =~= old(config)@.modes.insert(name@, mode@));
}

pub open spec fn duplicate_key_message(mode: Seq<char>, key: Seq<char>) -> Seq<char> {
    "Mode \""@ + mode + "\": duplicate key \""@ + key + "\""@
}

pub open spec fn duplicate_alias_message(mode: Seq<char>, alias: Seq<char>) -> Seq<char> {
    "Mode \""@ + mode + "\": duplicate key/alias \""@ + alias + "\""@
}

pub open spec fn undefined_mode_message(mode: Seq<char>, key: Seq<char>, target: Seq<char>) -> Seq<
    char,
> {
    "Mode \""@ + mode + "\": bind \""@ + key + "\" references undefined mode \""@ + target + "\""@
}

pub open spec fn key_conflict_message(key: Seq<char>, first: Seq<char>, second: Seq<char>) -> Seq<
    char,
> {
    "Scratchpad key \""@ + key + "\" conflict: used by both \""@ + first + "\" and \""@ + second
        + "\""@
}

/// Checks the aliases `opts` of a bind against the keys seen so far in its mode.
pub open spec fn alias_scan(seen: Set<Seq<char>>, mode: Seq<char>, opts: Seq<OptionView>) -> (
    Set<Seq<char>>,
    Seq<Seq<char>>,
)
    decreases opts.len(),
{
    if opts.len() == 0 {
        (seen, Seq::empty())
    } else {
        let prev = alias_scan(seen, mode, opts.drop_last());
        match opts.last() {
            OptionView::Alias(a) => if prev.0.contains(a) {
                (prev.0, prev.1.push(duplicate_alias_message(mode, a)))
            } else {
                (prev.0.insert(a), prev.1)
            },
            _ => prev,
        }
    }
}

/// Checks the keys and aliases of `binds` against those seen before them in their
/// mode: each that was seen already gives a warning.
pub open spec fn duplicate_scan(seen: Set<Seq<char>>, mode: Seq<char>, binds: Seq<BindView>) -> (
    Set<Seq<char>>,
    Seq<Seq<char>>,
)
    decreases binds.len(),
{
    if binds.len() == 0 {
        (seen, Seq::empty())
    } else {
        let prev = duplicate_scan(seen, mode, binds.drop_last());
        let b = binds.last();
        let after_key = if prev.0.contains(b.key) {
            (prev.0, prev.1.push(duplicate_key_message(mode, b.key)))
        } else {
            (prev.0.insert(b.key), prev.1)
        };
        let aliases = alias_scan(after_key.0, mode, b.options);
        (aliases.0, after_key.1 + aliases.1)
    }
}

/// A warning for each bind of `binds` that switches to a mode not in `names`.
pub open spec fn switch_warnings(names: Set<Seq<char>>, mode: Seq<char>, binds: Seq<BindView>) -> Seq<
    Seq<char>,
>
    decreases binds.len(),
{
    if binds.len() == 0 {
        Seq::empty()
    } else {
        let prev = switch_warnings(names, mode, binds.drop_last());
        let b = binds.last();
        match b.action {
            ActionView::SwitchMode(t) => if names.contains(t) {
                prev
            } else {
                prev.push(undefined_mode_message(mode, b.key, t))
            },
            _ => prev,
        }
    }
}

/// The warnings about modes, mode by mode: repeated keys, then switches to unknown
/// modes.
pub open spec fn mode_checks(names: Set<Seq<char>>, modes: Seq<ModeView>) -> Seq<Seq<char>>
    decreases modes.len(),
{
    if modes.len() == 0 {
        Seq::empty()
    } else {
        let m = modes.last();
        mode_checks(names, modes.drop_last()) + duplicate_scan(Set::empty(), m.name, m.binds).1
            + switch_warnings(names, m.name, m.binds)
    }
}

/// The first owner of each scratchpad key, and a warning for each later scratchpad
/// with a key already taken.
pub open spec fn key_checks(sps: Seq<ScratchpadView>) -> (Map<Seq<char>, Seq<char>>, Seq<Seq<char>>)
    decreases sps.len(),
{
    if sps.len() == 0 {
        (Map::empty(), Seq::empty())
    } else {
        let prev = key_checks(sps.drop_last());
        let sp = sps.last();
        match sp.key {
            Some(k) => if prev.0.contains_key(k) {
                (prev.0, prev.1.push(key_conflict_message(k, prev.0[k], sp.name)))
            } else {
                (prev.0.insert(k, sp.name), prev.1)
            },
            None => prev,
        }
    }
}

/// What [`validate_config`] warns about, modes and scratchpads in entry order.
pub open spec fn validation_warnings(c: LoadedConfig) -> Seq<Seq<char>> {
    mode_checks(c.modes@.dom(), c.modes.val_seq().map_values(|m: ModeConfig| m@)) + key_checks(
        c.scratchpads.val_seq().map_values(|s: ScratchpadConfig| s@),
    ).1
}

fn push_warning(out: &mut Vec<String>, w: String)
    ensures
        strings_view(final(out)@) == strings_view(old(out)@).push(w@),
{
    out.push(w);
    assert(strings_view(out@) =~= strings_view(old(out)@).push(w@));
}

/// Checks one mode's binds for repeated keys and aliases (see [`duplicate_scan`]).
fn check_duplicates(mode: &ModeConfig, out: &mut Vec<String>)
    ensures
        strings_view(final(out)@) == strings_view(old(out)@) + duplicate_scan(
            Set::empty(),
            mode.name@,
            binds_view(mode.binds@),
        ).1,
{
    let mut seen = StrSet::new();
    let ghost bv = binds_view(mode.binds@);
    let mut j: usize = 0;
    assert(bv.take(0) =~= Seq::<BindView>::empty());
    assert(strings_view(out@) =~= strings_view(old(out)@) + Seq::<Seq<char>>::empty());
    while j < mode.binds.len()
        invariant
            j <= mode.binds@.len(),
            bv == binds_view(mode.binds@),
            seen@ == duplicate_scan(Set::empty(), mode.name@, bv.take(j as int)).0,
            strings_view(out@) == strings_view(old(out)@) + duplicate_scan(
                Set::empty(),
                mode.name@,
                bv.take(j as int),
            ).1,
        decreases mode.binds@.len() - j,
    {
        let b = &mode.binds[j];
        assert(bv.take(j + 1).drop_last() =~= bv.take(j as int));
        assert(bv.take(j + 1).last() == b@);
        let ghost prev = duplicate_scan(Set::empty(), mode.name@, bv.take(j as int));
        let ghost out0 = strings_view(out@);
        if !seen.insert(b.key.clone()) {
            push_warning(
                out,
                join5("Mode \"", mode.name.as_str(), "\": duplicate key \"", b.key.as_str(), "\""),
            );
        }
        let ghost mid = strings_view(out@);
        let ghost seen_mid = seen@;
        let ghost ov = options_view(b.options@);
        let mut k: usize = 0;
        assert(ov.take(0) =~= Seq::<OptionView>::empty());
        assert(mid =~= mid + Seq::<Seq<char>>::empty());
        while k < b.options.len()
            invariant
                k <= b.options@.len(),
                ov == options_view(b.options@),
                seen@ == alias_scan(seen_mid, mode.name@, ov.take(k as int)).0,
                strings_view(out@) == mid + alias_scan(seen_mid, mode.name@, ov.take(k as int)).1,
            decreases b.options@.len() - k,
        {
            assert(ov.take(k + 1).drop_last() =~= ov.take(k as int));
            assert(ov.take(k + 1).last() == b.options@[k as int]@);
            let ghost before = strings_view(out@);
            match &b.options[k] {
                BindOption::Alias(a) => {
                    if !seen.insert(a.clone()) {
                        push_warning(
                            out,
                            join5(
                                "Mode \"",
                                mode.name.as_str(),
                                "\": duplicate key/alias \"",
                                a.as_str(),
                                "\"",
                            ),
                        );
                        assert(strings_view(out@) =~= mid + alias_scan(
                            seen_mid,
                            mode.name@,
                            ov.take(k + 1),
                        ).1);
                    }
                },
                _ => {},
            }
            k = k + 1;
        }
        assert(ov.take(b.options@.len() as int) =~= ov);
        proof {
            let after_key = if prev.0.contains(b.key@) {
                (prev.0, prev.1.push(duplicate_key_message(mode.name@, b.key@)))
            } else {
                (prev.0.insert(b.key@), prev.1)
            };
            assert(seen_mid == after_key.0);
            assert(mid == strings_view(old(out)@) + after_key.1);
            let al = alias_scan(after_key.0, mode.name@, ov);
            assert(strings_view(out@) =~= strings_view(old(out)@) + (after_key.1 + al.1));
        }
        j = j + 1;
    }
    assert(bv.take(mode.binds@.len() as int) =~= bv);
}

/// Checks one mode's `switch-mode` binds against the defined modes (see
/// [`switch_warnings`]).
fn check_switches(names: &StrMap<ModeConfig>, mode: &ModeConfig, out: &mut Vec<String>)
    ensures
        strings_view(final(out)@) == strings_view(old(out)@) + switch_warnings(
            names@.dom(),
            mode.name@,
            binds_view(mode.binds@),
        ),
{
    let ghost bv = binds_view(mode.binds@);
    let mut j: usize = 0;
    assert(strings_view(out@) =~= strings_view(old(out)@) + switch_warnings(
        names@.dom(),
        mode.name@,
        bv.take(0),
    ));
    while j < mode.binds.len()
        invariant
            j <= mode.binds@.len(),
            bv == binds_view(mode.binds@),
            strings_view(out@) == strings_view(old(out)@) + switch_warnings(
                names@.dom(),
                mode.name@,
                bv.take(j as int),
            ),
        decreases mode.binds@.len() - j,
    {
        let b = &mode.binds[j];
        assert(bv.take(j + 1).drop_last() =~= bv.take(j as int));
        assert(bv.take(j + 1).last() == b@);
        match &b.action {
            BindAction::SwitchMode(t) => {
                if !names.contains_key(t.as_str()) {
                    push_warning(
                        out,
                        join7(
                            "Mode \"",
                            mode.name.as_str(),
                            "\": bind \"",
                            b.key.as_str(),
                            "\" references undefined mode \"",
                            t.as_str(),
                            "\"",
                        ),
                    );
                    assert(strings_view(out@) =~= strings_view(old(out)@) + switch_warnings(
                        names@.dom(),
                        mode.name@,
                        bv.take(j + 1),
                    ));
                }
            },
            _ => {},
        }
        j = j + 1;
    }
    assert(bv.take(mode.binds@.len() as int) =~= bv);
}

/// Warns about repeated keys and aliases within a mode, about switches to undefined
/// modes, and about scratchpads sharing a key (see [`validation_warnings`]).
pub fn validate_config(config: &mut LoadedConfig)
    ensures
        final(config).settings == old(config).settings,
        final(config).scratchpads@ == old(config).scratchpads@,
        final(config).modes@ == old(config).modes@,
        final(config).config_files@ == old(config).config_files@,
        final(config)@.ui_config == old(config)@.ui_config,
        final(config)@.warnings == old(config)@.warnings + validation_warnings(*old(config)),
{
    proof {
        use_type_invariant(&config.modes);
        use_type_invariant(&config.scratchpads);
        config.modes.lemma_entries();
        config.scratchpads.lemma_entries();
    }
    let mut out: Vec<String> = Vec::new();
    let ghost mv = config.modes.val_seq().map_values(|m: ModeConfig| m@);
    let ghost names = config.modes@.dom();
    let n = config.modes.len();
    let mut i: usize = 0;
    assert(strings_view(out@) =~= mode_checks(names, mv.take(0)));
    while i < n
        invariant
            n == config.modes.val_seq().len(),
            n == config.modes.key_seq().len(),
            i <= n,
            mv == config.modes.val_seq().map_values(|m: ModeConfig| m@),
            names == config.modes@.dom(),
            strings_view(out@) == mode_checks(names, mv.take(i as int)),
        decreases n - i,
    {
        let mode = config.modes.value_at(i);
        assert(mv.take(i + 1).drop_last() =~= mv.take(i as int));
        assert(mv.take(i + 1).last() == mode@);
        check_duplicates(mode, &mut out);
        check_switches(&config.modes, mode, &mut out);
        assert(strings_view(out@) =~= mode_checks(names, mv.take(i + 1)));
        i = i + 1;
    }
    assert(mv.take(n as int) =~= mv);
    let ghost sv = config.scratchpads.val_seq().map_values(|s: ScratchpadConfig| s@);
    let mut owners: StrMap<String> = StrMap::new();
    let ghost base = strings_view(out@);
    let m = config.scratchpads.len();
    let mut j: usize = 0;
    assert(owners@.map_values(|s: String| s@) =~= key_checks(sv.take(0)).0);
    assert(strings_view(out@) =~= base + key_checks(sv.take(0)).1);
    while j < m
        invariant
            m == config.scratchpads.val_seq().len(),
            m == config.scratchpads.key_seq().len(),
            j <= m,
            sv == config.scratchpads.val_seq().map_values(|s: ScratchpadConfig| s@),
            owners@.map_values(|s: String| s@) == key_checks(sv.take(j as int)).0,
            strings_view(out@) == base + key_checks(sv.take(j as int)).1,
        decreases m - j,
    {
        let sp = config.scratchpads.value_at(j);
        assert(sv.take(j + 1).drop_last() =~= sv.take(j as int));
        assert(sv.take(j + 1).last() == sp@);
        if let Some(k) = &sp.key {
            match owners.get(k.as_str()) {
                Some(existing) => {
                    let w = join7(
                        "Scratchpad key \"",
                        k.as_str(),
                        "\" conflict: used by both \"",
                        existing.as_str(),
                        "\" and \"",
                        sp.name.as_str(),
                        "\"",
                    );
                    push_warning(&mut out, w);
                    assert(strings_view(out@) =~= base + key_checks(sv.take(j + 1)).1);
                },
                None => {
                    owners.insert(k.clone(), sp.name.clone());
                    assert(owners@.map_values(|s: String| s@) =~= key_checks(sv.take(j + 1)).0);
                },
            }
        }
        j = j + 1;
    }
    assert(sv.take(m as int) =~= sv);
    let ghost added = out@;
    config.warnings.append(&mut out);
    assert(strings_view(config.warnings@) =~= strings_view(old(config).warnings@) + strings_view(
        added,
    ));
}

/// A string setting of a block: the first argument of its first node named `key`.
pub open spec fn text_setting(c: ConfigDoc, key: Seq<char>) -> Option<Seq<char>> {
    value_str(doc_arg(c, key))
}

/// A numeric setting of a block (see [`number_value`]).
pub open spec fn number_setting(c: ConfigDoc, key: Seq<char>) -> Option<NumberView> {
    number_value(doc_arg(c, key))
}

/// An integer setting of a block, cut to 32 bits (see [`small_int_value`]).
pub open spec fn margin_setting(c: ConfigDoc, key: Seq<char>) -> Option<i32> {
    small_int_value(doc_arg(c, key))
}

fn text_of(c: &ConfigDoc, key: &str) -> (res: Option<String>)
    ensures
        opt_chars(res) == text_setting(*c, key@),
{
    match opt_string(c.get_arg(key)) {
        Some(s) => Some(s.to_string()),
        None => None,
    }
}

/// The mode overlay's look that a `modes` block inside `ui` sets; a block without
/// children sets nothing.
pub open spec fn modes_ui_from(node: ConfigNode) -> ModesUiView {
    match node.children {
        None => no_modes_ui(),
        Some(c) => ModesUiView {
            font: text_setting(c, "font"@),
            background_color: text_setting(c, "background-color"@),
            color: text_setting(c, "color"@),
            corner_radius: number_setting(c, "corner-radius"@),
            anchor: text_setting(c, "anchor"@),
            separator: text_setting(c, "separator"@),
            margin_top: margin_setting(c, "margin-top"@),
            margin_right: margin_setting(c, "margin-right"@),
            margin_bottom: margin_setting(c, "margin-bottom"@),
            margin_left: margin_setting(c, "margin-left"@),
            padding: number_setting(c, "padding"@),
            column_padding: number_setting(c, "column-padding"@),
            min_width: number_setting(c, "min-width"@),
            border_width: number_setting(c, "border-width"@),
        },
    }
}

/// The picker's look that a `scratchpads` block inside `ui` sets.
pub open spec fn scratchpads_ui_from(node: ConfigNode) -> ScratchpadsUiView {
    match node.children {
        None => no_scratchpads_ui(),
        Some(c) => ScratchpadsUiView {
            font: text_setting(c, "font"@),
            background_color: text_setting(c, "background-color"@),
            color: text_setting(c, "color"@),
            corner_radius: number_setting(c, "corner-radius"@),
            anchor: text_setting(c, "anchor"@),
            padding: number_setting(c, "padding"@),
        },
    }
}

/// The overlays' look after a `ui` block. With children, the block sets each global
/// value (unset when absent), and a `modes` or `scratchpads` child replaces that
/// overlay's look; without children nothing changes.
pub open spec fn ui_applied(u: UiView, node: ConfigNode) -> UiView {
    match node.children {
        None => u,
        Some(c) => UiView {
            font: text_setting(c, "font"@),
            background_color: text_setting(c, "background-color"@),
            color: text_setting(c, "color"@),
            corner_radius: number_setting(c, "corner-radius"@),
            modes: match doc_node(c, "modes"@) {
                Some(m) => modes_ui_from(m),
                None => u.modes,
            },
            scratchpads: match doc_node(c, "scratchpads"@) {
                Some(sp) => scratchpads_ui_from(sp),
                None => u.scratchpads,
            },
        },
    }
}

/// Reads a `modes` block inside `ui` (see [`modes_ui_from`]).
pub fn parse_modes_ui(node: &ConfigNode) -> (res: ModesUiConfig)
    ensures
        res@ == modes_ui_from(*node),
{
    match &node.children {
        None => ModesUiConfig::default(),
        Some(c) => ModesUiConfig {
            font: text_of(c, "font"),
            background_color: text_of(c, "background-color"),
            color: text_of(c, "color"),
            corner_radius: number_of(c.get_arg("corner-radius")),
            anchor: text_of(c, "anchor"),
            separator: text_of(c, "separator"),
            margin_top: small_int_of(c.get_arg("margin-top")),
            margin_right: small_int_of(c.get_arg("margin-right")),
            margin_bottom: small_int_of(c.get_arg("margin-bottom")),
            margin_left: small_int_of(c.get_arg("margin-left")),
            padding: number_of(c.get_arg("padding")),
            column_padding: number_of(c.get_arg("column-padding")),
            min_width: number_of(c.get_arg("min-width")),
            border_width: number_of(c.get_arg("border-width")),
        },
    }
}

/// Reads a `scratchpads` block inside `ui` (see [`scratchpads_ui_from`]).
pub fn parse_scratchpads_ui(node: &ConfigNode) -> (res: ScratchpadsUiConfig)
    ensures
        res@ == scratchpads_ui_from(*node),
{
    match &node.children {
        None => ScratchpadsUiConfig::default(),
        Some(c) => ScratchpadsUiConfig {
            font: text_of(c, "font"),
            background_color: text_of(c, "background-color"),
            color: text_of(c, "color"),
            corner_radius: number_of(c.get_arg("corner-radius")),
            anchor: text_of(c, "anchor"),
            padding: number_of(c.get_arg("padding")),
        },
    }
}

/// Reads a `ui` block (see [`ui_applied`]).
pub fn parse_ui(node: &ConfigNode, config: &mut LoadedConfig)
    ensures
        final(config)@ == (LoadedView {
            ui_config: ui_applied(old(config)@.ui_config, *node),
            ..old(config)@
        }),
{
    match &node.children {
        None => {},
        Some(c) => {
            config.ui_config.font = text_of(c, "font");
            config.ui_config.background_color = text_of(c, "background-color");
            config.ui_config.color = text_of(c, "color");
            config.ui_config.corner_radius = number_of(c.get_arg("corner-radius"));
            match c.get("modes") {
                Some(m) => {
                    config.ui_config.modes = parse_modes_ui(m);
                },
                None => {},
            }
            match c.get("scratchpads") {
                Some(sp) => {
                    config.ui_config.scratchpads = parse_scratchpads_ui(sp);
                },
                None => {},
            }
        },
    }
}

/// What the reader does with a top-level node beyond updating the configuration.
#[derive(Debug, PartialEq, Eq)]
pub enum NodeOutcome {
    /// Nothing more: the node was read, or ignored.
    Read,
    /// An `include` of this path (relative to the including file's directory), to be
    /// read at this point, before the nodes that follow.
    Include(String),
}

/// The configuration after one top-level node. Unknown nodes are ignored; an
/// `include` without a path leaves a warning.
pub open spec fn config_after_node(c: LoadedView, node: ConfigNode) -> LoadedView {
    let n = node.name@;
    if n == "include"@ {
        if first_string(node) is None {
            LoadedView { warnings: c.warnings.push("include node missing path argument"@), ..c }
        } else {
            c
        }
    } else if n == "settings"@ {
        LoadedView {
            settings: settings_applied(c.settings, node),
            warnings: c.warnings + settings_warnings(node),
            ..c
        }
    } else if n == "notifications"@ {
        LoadedView {
            settings: notifications_applied(c.settings, node),
            warnings: c.warnings + notifications_warnings(node),
            ..c
        }
    } else if n == "scratchpad"@ {
        match scratchpad_from(node) {
            Ok(v) => LoadedView { scratchpads: c.scratchpads.insert(v.name, v), ..c },
            Err(w) => LoadedView { warnings: c.warnings.push(w), ..c },
        }
    } else if n == "mode"@ {
        match mode_from(node) {
            Ok(v) => LoadedView {
                modes: c.modes.insert(v.name, v),
                warnings: c.warnings + mode_warnings(node),
                ..c
            },
            Err(w) => LoadedView { warnings: c.warnings.push(w), ..c },
        }
    } else if n == "ui"@ {
        LoadedView { ui_config: ui_applied(c.ui_config, node), ..c }
    } else {
        c
    }
}

/// Reads one top-level node (see [`config_after_node`]) and says whether the caller
/// has an include to read.
pub fn apply_node(node: &ConfigNode, config: &mut LoadedConfig) -> (res: NodeOutcome)
    ensures
        final(config)@ == config_after_node(old(config)@, *node),
        node.name@ == "include"@ ==> match first_string(*node) {
            Some(p) => res matches NodeOutcome::Include(q) && q@ == p,
            None => res == NodeOutcome::Read,
        },
        node.name@ != "include"@ ==> res == NodeOutcome::Read,
{
    proof {
        reveal_strlit("include");
        reveal_strlit("settings");
        reveal_strlit("notifications");
        reveal_strlit("scratchpad");
        reveal_strlit("mode");
        reveal_strlit("ui");
        assert("ui"@.len() == 2);
        assert("ui"@ != "include"@);
        assert("ui"@ != "settings"@);
        assert("ui"@ != "notifications"@);
        assert("ui"@ != "scratchpad"@);
        assert("ui"@ != "mode"@);
    }
    let n = node.name.as_str();
    if str_eq(n, "include") {
        match node.first_string() {
            Some(p) => NodeOutcome::Include(p.to_owned()),
            None => {
                config.warn("include node missing path argument".to_owned());
                NodeOutcome::Read
            },
        }
    } else if str_eq(n, "settings") {
        parse_settings(node, config);
        NodeOutcome::Read
    } else if str_eq(n, "notifications") {
        parse_notifications(node, config);
        NodeOutcome::Read
    } else if str_eq(n, "scratchpad") {
        parse_scratchpad(node, config);
        NodeOutcome::Read
    } else if str_eq(n, "mode") {
        parse_mode(node, config);
        NodeOutcome::Read
    } else if str_eq(n, "ui") {
        parse_ui(node, config);
        NodeOutcome::Read
    } else {
        NodeOutcome::Read
    }
}

/// Reads the text of configuration file `path` as a KDL document (see
/// [`kdl_document`]); text that is not KDL is a configuration error naming the file.
pub fn read_config_text(path: &str, content: &str) -> (res: Result<ConfigDoc, NiriToolsError>)
    ensures
        match kdl_document(content@) {
            Some(d) => res == Ok::<ConfigDoc, NiriToolsError>(d),
            None => res matches Err(NiriToolsError::Config(m)) && exists|e: Seq<char>|
                m@ == "KDL parse error in "@ + path@ + ": "@ + e,
        },
{
    match read_kdl(content) {
        Ok(d) => Ok(d),
        Err(e) => {
            let m = crate::text::join5("KDL parse error in ", path, ": ", e.as_str(), "");
            proof {
                reveal_strlit("");
                assert(m@ =~= "KDL parse error in "@ + path@ + ": "@ + e@);
            }
            Err(NiriToolsError::Config(m))
        },
    }
}

/// Later configuration wins: whatever node came before, a valid scratchpad node
/// leaves its definition under its name, and a `settings` node that names a notify
/// level decides the level.
pub proof fn law_later_nodes_win(c: LoadedView, a: ConfigNode, b: ConfigNode)
    ensures
        b.name@ == "scratchpad"@ ==> match scratchpad_from(b) {
            Ok(v) => config_after_node(config_after_node(c, a), b).scratchpads.contains_key(v.name)
                && config_after_node(config_after_node(c, a), b).scratchpads[v.name] == v,
            Err(_) => true,
        },
        b.name@ == "settings"@ ==> match b.children {
            Some(ch) => match value_str(doc_arg(ch, "notify"@)) {
                Some(l) => config_after_node(config_after_node(c, a), b).settings.notify_level == (
                match level_named(l) {
                    Some(x) => x,
                    None => NotifyLevel::All,
                }),
                None => true,
            },
            None => true,
        },
{
    reveal_strlit("include");
    reveal_strlit("settings");
    reveal_strlit("scratchpad");
    reveal_strlit("notifications");
    assert("scratchpad"@.len() == 10 && "include"@.len() == 7 && "settings"@.len() == 8);
    assert("notifications"@.len() == 13);
    assert("scratchpad"@ != "include"@);
    assert("scratchpad"@ != "notifications"@);
    assert("scratchpad"@ != "settings"@);
    assert("settings"@ != "include"@);
}

/// The configuration read from no file: default settings, nothing else.
pub open spec fn no_config() -> LoadedView {
    LoadedView {
        settings: DaemonSettings { notify_level: NotifyLevel::All, watch_config: true },
        scratchpads: Map::empty(),
        modes: Map::empty(),
        config_files: Seq::empty(),
        warnings: Seq::empty(),
        ui_config: no_ui(),
    }
}

/// The configuration when the main file does not exist: an error naming the path
/// when the path was given explicitly, else the defaults.
pub fn missing_config(explicit: bool, path: &str) -> (res: Result<LoadedConfig, NiriToolsError>)
    ensures
        explicit ==> (res matches Err(NiriToolsError::Config(m)) && m@ == "Config file not found: "@
            + path@),
        !explicit ==> (res matches Ok(c) && c@ == no_config()),
{
    if explicit {
        Err(NiriToolsError::Config(join("Config file not found: ", path)))
    } else {
        let c = LoadedConfig::default();
        assert(c@.scratchpads =~= Map::<Seq<char>, ScratchpadView>::empty());
        assert(c@.modes =~= Map::<Seq<char>, ModeView>::empty());
        assert(c@.config_files =~= Seq::<Seq<char>>::empty());
        assert(c@.warnings =~= Seq::<Seq<char>>::empty());
        Ok(c)
    }
}

/// Starts reading the configuration file whose canonical path is `resolved`. A file
/// already read (an include cycle) is not read again; a new one is remembered and
/// listed among the files read. Returns whether to read it.
pub fn enter_config_file(visited: &mut StrSet, config: &mut LoadedConfig, resolved: &str) -> (res: bool)
    ensures
        res == !old(visited)@.contains(resolved@),
        final(visited)@ == old(visited)@.insert(resolved@),
        final(config)@ == (if res {
            LoadedView { config_files: old(config)@.config_files.push(resolved@), ..old(config)@ }
        } else {
            old(config)@
        }),
{
    let fresh = visited.insert(resolved.to_owned());
    if fresh {
        config.config_files.push(resolved.to_owned());
        assert(strings_view(config.config_files@) =~= strings_view(old(config).config_files@).push(
            resolved@,
        ));
    }
    fresh
}

/// Notes an include whose file does not exist (`path` as the including file's
/// directory joined with the include's path).
pub fn include_not_found(config: &mut LoadedConfig, path: &str)
    ensures
        final(config)@ == (LoadedView {
            warnings: old(config)@.warnings.push("Include file not found: "@ + path@),
            ..old(config)@
        }),
{
    config.warn(join("Include file not found: ", path));
}

/// Notes an include that could not be read, with the error that stopped it.
pub fn include_failed(config: &mut LoadedConfig, path: &str, error: &NiriToolsError)
    ensures
        final(config)@ == (LoadedView {
            warnings: old(config)@.warnings.push(
                "Error loading include "@ + path@ + ": "@ + error.message_spec(),
            ),
            ..old(config)@
        }),
{
    let m = error.message();
    config.warn(join5("Error loading include ", path, ": ", m.as_str(), ""));
    proof {
        reveal_strlit("");
    }
}

} // verus!
