//! Configuration values: scratchpads, daemon settings and modes.
use vstd::prelude::*;
use crate::kdl_doc::{opt_number, Number, NumberView};
use crate::strmap::StrMap;

verus! {

/// Window size: each side a percentage of the output (`"60%"`) or pixels (`"800"`).
#[derive(Debug, Clone, PartialEq, Eq)]
pub struct SizeConfig {
    pub width: String,
    pub height: String,
}

/// Window position: each coordinate a percentage of the free space (`"50%"`) or pixels.
#[derive(Debug, Clone, PartialEq, Eq)]
pub struct PositionConfig {
    pub x: String,
    pub y: String,
}

/// Size and position that replace a scratchpad's defaults on one output.
#[derive(Debug, Clone, PartialEq, Eq)]
pub struct OutputOverride {
    pub size: Option<SizeConfig>,
    pub position: Option<PositionConfig>,
}

impl Default for OutputOverride {
    fn default() -> (res: Self)
        ensures
            res.size is None,
            res.position is None,
    {
        OutputOverride { size: None, position: None }
    }
}

/// One scratchpad definition.
#[derive(Debug, PartialEq, Eq)]
pub struct ScratchpadConfig {
    pub name: String,
    /// Program and arguments that spawn the window.
    pub command: Option<Vec<String>>,
    /// App id to match: exact, or a regex after a leading `/` or starting with `^`.
    pub app_id: Option<String>,
    /// Title to match, with the same pattern rules as `app_id`.
    pub title: Option<String>,
    pub auto_adopt: bool,
    /// Shortcut key in the picker.
    pub key: Option<String>,
    /// Display name in the picker.
    pub desc: Option<String>,
    pub size: Option<SizeConfig>,
    pub position: Option<PositionConfig>,
    pub output_overrides: StrMap<OutputOverride>,
}

/// How much the daemon reports through desktop notifications (`Off` reports nothing).
#[derive(Debug, Clone, Copy, PartialEq, Eq, PartialOrd, Ord, Structural)]
pub enum NotifyLevel {
    Off,
    Error,
    Warning,
    All,
}

impl NotifyLevel {
    /// Position in the order `None < Error < Warning < All`.
    pub open spec fn rank_spec(self) -> nat {
        match self {
            NotifyLevel::Off => 0,
            NotifyLevel::Error => 1,
            NotifyLevel::Warning => 2,
            NotifyLevel::All => 3,
        }
    }

    /// Position in the order `None < Error < Warning < All`.
    pub fn rank(self) -> (res: u8)
        ensures
            res as nat == self.rank_spec(),
    {
        match self {
            NotifyLevel::Off => 0,
            NotifyLevel::Error => 1,
            NotifyLevel::Warning => 2,
            NotifyLevel::All => 3,
        }
    }

    /// Whether this level lets messages of level `other` through (`self >= other`).
    pub fn admits(self, other: NotifyLevel) -> (res: bool)
        ensures
            res == (self.rank_spec() >= other.rank_spec()),
    {
        self.rank() >= other.rank()
    }
}

/// Daemon-wide settings.
#[derive(Debug, Clone, Copy, PartialEq, Eq, Structural)]
pub struct DaemonSettings {
    pub notify_level: NotifyLevel,
    pub watch_config: bool,
}

impl Default for DaemonSettings {
    fn default() -> (res: Self)
        ensures
            res.notify_level == NotifyLevel::All,
            res.watch_config,
    {
        DaemonSettings { notify_level: NotifyLevel::All, watch_config: true }
    }
}

/// A mode of the mode overlay: a named set of key bindings.
#[derive(Debug, PartialEq, Eq)]
pub struct ModeConfig {
    pub name: String,
    /// The overlay stays open after a bind fires.
    pub keep_open: bool,
    pub binds: Vec<BindConfig>,
}

/// One key binding inside a mode.
#[derive(Debug, PartialEq, Eq)]
pub struct BindConfig {
    pub key: String,
    pub description: String,
    pub options: Vec<BindOption>,
    pub action: BindAction,
}

#[derive(Debug, PartialEq, Eq)]
pub enum BindOption {
    KeepOpen,
    Close,
    /// A second key that triggers the same bind.
    Alias(String),
}

#[derive(Debug, PartialEq, Eq)]
pub enum BindAction {
    SpawnSh(String),
    Spawn(Vec<String>),
    SwitchMode(String),
    ScratchpadPick,
    ScratchpadToggle(Option<String>),
    ScratchpadHide,
    ScratchpadFloat(Option<String>),
    ScratchpadTile(Option<String>),
    ScratchpadToggleFloat,
    ScratchpadAdopt,
    ScratchpadDisown,
    /// Pass-through niri action: name and arguments.
    NiriAction { name: String, args: Vec<String> },
}

/// An optional string as plain characters.
pub open spec fn opt_chars(o: Option<String>) -> Option<Seq<char>> {
    match o {
        Some(s) => Some(s@),
        None => None,
    }
}

/// Strings as plain characters.
pub open spec fn strings_view(v: Seq<String>) -> Seq<Seq<char>> {
    v.map_values(|s: String| s@)
}

pub struct SizeView {
    pub width: Seq<char>,
    pub height: Seq<char>,
}

impl View for SizeConfig {
    type V = SizeView;

    open spec fn view(&self) -> SizeView {
        SizeView { width: self.width@, height: self.height@ }
    }
}

pub struct PositionView {
    pub x: Seq<char>,
    pub y: Seq<char>,
}

impl View for PositionConfig {
    type V = PositionView;

    open spec fn view(&self) -> PositionView {
        PositionView { x: self.x@, y: self.y@ }
    }
}

pub open spec fn opt_size_view(o: Option<SizeConfig>) -> Option<SizeView> {
    match o {
        Some(s) => Some(s@),
        None => None,
    }
}

pub open spec fn opt_position_view(o: Option<PositionConfig>) -> Option<PositionView> {
    match o {
        Some(p) => Some(p@),
        None => None,
    }
}

pub struct OverrideView {
    pub size: Option<SizeView>,
    pub position: Option<PositionView>,
}

impl View for OutputOverride {
    type V = OverrideView;

    open spec fn view(&self) -> OverrideView {
        OverrideView { size: opt_size_view(self.size), position: opt_position_view(self.position) }
    }
}

/// A scratchpad definition as plain values.
pub struct ScratchpadView {
    pub name: Seq<char>,
    pub command: Option<Seq<Seq<char>>>,
    pub app_id: Option<Seq<char>>,
    pub title: Option<Seq<char>>,
    pub auto_adopt: bool,
    pub key: Option<Seq<char>>,
    pub desc: Option<Seq<char>>,
    pub size: Option<SizeView>,
    pub position: Option<PositionView>,
    pub output_overrides: Map<Seq<char>, OverrideView>,
}

impl View for ScratchpadConfig {
    type V = ScratchpadView;

    open spec fn view(&self) -> ScratchpadView {
        ScratchpadView {
            name: self.name@,
            command: match self.command {
                Some(c) => Some(strings_view(c@)),
                None => None,
            },
            app_id: opt_chars(self.app_id),
            title: opt_chars(self.title),
            auto_adopt: self.auto_adopt,
            key: opt_chars(self.key),
            desc: opt_chars(self.desc),
            size: opt_size_view(self.size),
            position: opt_position_view(self.position),
            output_overrides: self.output_overrides@.map_values(|o: OutputOverride| o@),
        }
    }
}

pub enum OptionView {
    KeepOpen,
    Close,
    Alias(Seq<char>),
}

impl View for BindOption {
    type V = OptionView;

    open spec fn view(&self) -> OptionView {
        match self {
            BindOption::KeepOpen => OptionView::KeepOpen,
            BindOption::Close => OptionView::Close,
            BindOption::Alias(a) => OptionView::Alias(a@),
        }
    }
}

pub enum ActionView {
    SpawnSh(Seq<char>),
    Spawn(Seq<Seq<char>>),
    SwitchMode(Seq<char>),
    ScratchpadPick,
    ScratchpadToggle(Option<Seq<char>>),
    ScratchpadHide,
    ScratchpadFloat(Option<Seq<char>>),
    ScratchpadTile(Option<Seq<char>>),
    ScratchpadToggleFloat,
    ScratchpadAdopt,
    ScratchpadDisown,
    NiriAction { name: Seq<char>, args: Seq<Seq<char>> },
}

impl View for BindAction {
    type V = ActionView;

    open spec fn view(&self) -> ActionView {
        match self {
            BindAction::SpawnSh(c) => ActionView::SpawnSh(c@),
            BindAction::Spawn(a) => ActionView::Spawn(strings_view(a@)),
            BindAction::SwitchMode(m) => ActionView::SwitchMode(m@),
            BindAction::ScratchpadPick => ActionView::ScratchpadPick,
            BindAction::ScratchpadToggle(n) => ActionView::ScratchpadToggle(opt_chars(*n)),
            BindAction::ScratchpadHide => ActionView::ScratchpadHide,
            BindAction::ScratchpadFloat(n) => ActionView::ScratchpadFloat(opt_chars(*n)),
            BindAction::ScratchpadTile(n) => ActionView::ScratchpadTile(opt_chars(*n)),
            BindAction::ScratchpadToggleFloat => ActionView::ScratchpadToggleFloat,
            BindAction::ScratchpadAdopt => ActionView::ScratchpadAdopt,
            BindAction::ScratchpadDisown => ActionView::ScratchpadDisown,
            BindAction::NiriAction { name, args } => ActionView::NiriAction {
                name: name@,
                args: strings_view(args@),
            },
        }
    }
}

pub struct BindView {
    pub key: Seq<char>,
    pub description: Seq<char>,
    pub options: Seq<OptionView>,
    pub action: ActionView,
}

impl View for BindConfig {
    type V = BindView;

    open spec fn view(&self) -> BindView {
        BindView {
            key: self.key@,
            description: self.description@,
            options: self.options@.map_values(|o: BindOption| o@),
            action: self.action@,
        }
    }
}

pub struct ModeView {
    pub name: Seq<char>,
    pub keep_open: bool,
    pub binds: Seq<BindView>,
}

impl View for ModeConfig {
    type V = ModeView;

    open spec fn view(&self) -> ModeView {
        ModeView {
            name: self.name@,
            keep_open: self.keep_open,
            binds: self.binds@.map_values(|b: BindConfig| b@),
        }
    }
}

/// Look of the mode overlay. A number is kept as the configuration wrote it.
#[derive(Debug, PartialEq)]
pub struct ModesUiConfig {
    pub font: Option<String>,
    pub background_color: Option<String>,
    pub color: Option<String>,
    pub corner_radius: Option<Number>,
    pub anchor: Option<String>,
    pub separator: Option<String>,
    pub margin_top: Option<i32>,
    pub margin_right: Option<i32>,
    pub margin_bottom: Option<i32>,
    pub margin_left: Option<i32>,
    pub padding: Option<Number>,
    pub column_padding: Option<Number>,
    pub min_width: Option<Number>,
    pub border_width: Option<Number>,
}

/// Look of the scratchpad picker.
#[derive(Debug, PartialEq)]
pub struct ScratchpadsUiConfig {
    pub font: Option<String>,
    pub background_color: Option<String>,
    pub color: Option<String>,
    pub corner_radius: Option<Number>,
    pub anchor: Option<String>,
    pub padding: Option<Number>,
}

/// Look of the overlays: global values, and a block for each overlay.
#[derive(Debug, PartialEq)]
pub struct UiConfig {
    pub font: Option<String>,
    pub background_color: Option<String>,
    pub color: Option<String>,
    pub corner_radius: Option<Number>,
    pub modes: ModesUiConfig,
    pub scratchpads: ScratchpadsUiConfig,
}

pub struct ModesUiView {
    pub font: Option<Seq<char>>,
    pub background_color: Option<Seq<char>>,
    pub color: Option<Seq<char>>,
    pub corner_radius: Option<NumberView>,
    pub anchor: Option<Seq<char>>,
    pub separator: Option<Seq<char>>,
    pub margin_top: Option<i32>,
    pub margin_right: Option<i32>,
    pub margin_bottom: Option<i32>,
    pub margin_left: Option<i32>,
    pub padding: Option<NumberView>,
    pub column_padding: Option<NumberView>,
    pub min_width: Option<NumberView>,
    pub border_width: Option<NumberView>,
}

pub struct ScratchpadsUiView {
    pub font: Option<Seq<char>>,
    pub background_color: Option<Seq<char>>,
    pub color: Option<Seq<char>>,
    pub corner_radius: Option<NumberView>,
    pub anchor: Option<Seq<char>>,
    pub padding: Option<NumberView>,
}

pub struct UiView {
    pub font: Option<Seq<char>>,
    pub background_color: Option<Seq<char>>,
    pub color: Option<Seq<char>>,
    pub corner_radius: Option<NumberView>,
    pub modes: ModesUiView,
    pub scratchpads: ScratchpadsUiView,
}

impl View for ModesUiConfig {
    type V = ModesUiView;

    open spec fn view(&self) -> ModesUiView {
        ModesUiView {
            font: opt_chars(self.font),
            background_color: opt_chars(self.background_color),
            color: opt_chars(self.color),
            corner_radius: opt_number(self.corner_radius),
            anchor: opt_chars(self.anchor),
            separator: opt_chars(self.separator),
            margin_top: self.margin_top,
            margin_right: self.margin_right,
            margin_bottom: self.margin_bottom,
            margin_left: self.margin_left,
            padding: opt_number(self.padding),
            column_padding: opt_number(self.column_padding),
            min_width: opt_number(self.min_width),
            border_width: opt_number(self.border_width),
        }
    }
}

impl View for ScratchpadsUiConfig {
    type V = ScratchpadsUiView;

    open spec fn view(&self) -> ScratchpadsUiView {
        ScratchpadsUiView {
            font: opt_chars(self.font),
            background_color: opt_chars(self.background_color),
            color: opt_chars(self.color),
            corner_radius: opt_number(self.corner_radius),
            anchor: opt_chars(self.anchor),
            padding: opt_number(self.padding),
        }
    }
}

impl View for UiConfig {
    type V = UiView;

    open spec fn view(&self) -> UiView {
        UiView {
            font: opt_chars(self.font),
            background_color: opt_chars(self.background_color),
            color: opt_chars(self.color),
            corner_radius: opt_number(self.corner_radius),
            modes: self.modes@,
            scratchpads: self.scratchpads@,
        }
    }
}

/// The mode overlay's look with nothing set.
pub open spec fn no_modes_ui() -> ModesUiView {
    ModesUiView {
        font: None,
        background_color: None,
        color: None,
        corner_radius: None,
        anchor: None,
        separator: None,
        margin_top: None,
        margin_right: None,
        margin_bottom: None,
        margin_left: None,
        padding: None,
        column_padding: None,
        min_width: None,
        border_width: None,
    }
}

/// The picker's look with nothing set.
pub open spec fn no_scratchpads_ui() -> ScratchpadsUiView {
    ScratchpadsUiView {
        font: None,
        background_color: None,
        color: None,
        corner_radius: None,
        anchor: None,
        padding: None,
    }
}

/// The overlays' look with nothing set.
pub open spec fn no_ui() -> UiView {
    UiView {
        font: None,
        background_color: None,
        color: None,
        corner_radius: None,
        modes: no_modes_ui(),
        scratchpads: no_scratchpads_ui(),
    }
}

impl Default for ModesUiConfig {
    fn default() -> (res: Self)
        ensures
            res@ == no_modes_ui(),
    {
        ModesUiConfig {
            font: None,
            background_color: None,
            color: None,
            corner_radius: None,
            anchor: None,
            separator: None,
            margin_top: None,
            margin_right: None,
            margin_bottom: None,
            margin_left: None,
            padding: None,
            column_padding: None,
            min_width: None,
            border_width: None,
        }
    }
}

impl Default for ScratchpadsUiConfig {
    fn default() -> (res: Self)
        ensures
            res@ == no_scratchpads_ui(),
    {
        ScratchpadsUiConfig {
            font: None,
            background_color: None,
            color: None,
            corner_radius: None,
            anchor: None,
            padding: None,
        }
    }
}

impl Default for UiConfig {
    fn default() -> (res: Self)
        ensures
            res@ == no_ui(),
    {
        UiConfig {
            font: None,
            background_color: None,
            color: None,
            corner_radius: None,
            modes: ModesUiConfig::default(),
            scratchpads: ScratchpadsUiConfig::default(),
        }
    }
}

} // verus!
