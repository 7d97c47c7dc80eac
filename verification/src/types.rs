//! What the daemon mirrors of niri: windows, workspaces, outputs and events.
use vstd::prelude::*;
use crate::strmap::StrMap;

verus! {

#[derive(Debug, Clone, PartialEq, Eq)]
pub struct WindowInfo {
    pub id: u64,
    pub app_id: String,
    pub title: String,
    pub workspace_id: Option<u64>,
    pub is_focused: bool,
    pub is_floating: bool,
    pub width: u32,
    pub height: u32,
}

#[derive(Debug, Clone, PartialEq, Eq)]
pub struct WorkspaceInfo {
    pub id: u64,
    pub idx: u32,
    pub output: String,
    pub is_active: bool,
    pub name: Option<String>,
}

#[derive(Debug, Clone, PartialEq, Eq)]
pub struct OutputInfo {
    pub name: String,
    pub width: u32,
    pub height: u32,
}

/// An event of niri's event stream.
#[derive(Debug, PartialEq, Eq)]
pub enum NiriEvent {
    WindowOpenedOrChanged(WindowInfo),
    WindowsChanged(Vec<WindowInfo>),
    WindowClosed { id: u64 },
    WindowFocusChanged { id: Option<u64> },
    WorkspaceActivated { id: u64, focused: bool },
    WorkspacesChanged,
    OutputFocusChanged { output: Option<String> },
    OutputsChanged(StrMap<OutputInfo>),
}

/// A window as plain values.
pub struct WindowView {
    pub id: u64,
    pub app_id: Seq<char>,
    pub title: Seq<char>,
    pub workspace_id: Option<u64>,
    pub is_focused: bool,
    pub is_floating: bool,
    pub width: u32,
    pub height: u32,
}

impl View for WindowInfo {
    type V = WindowView;

    open spec fn view(&self) -> WindowView {
        WindowView {
            id: self.id,
            app_id: self.app_id@,
            title: self.title@,
            workspace_id: self.workspace_id,
            is_focused: self.is_focused,
            is_floating: self.is_floating,
            width: self.width,
            height: self.height,
        }
    }
}

/// A workspace as plain values.
pub struct WorkspaceView {
    pub id: u64,
    pub idx: u32,
    pub output: Seq<char>,
    pub is_active: bool,
    pub name: Option<Seq<char>>,
}

impl View for WorkspaceInfo {
    type V = WorkspaceView;

    open spec fn view(&self) -> WorkspaceView {
        WorkspaceView {
            id: self.id,
            idx: self.idx,
            output: self.output@,
            is_active: self.is_active,
            name: match self.name {
                Some(n) => Some(n@),
                None => None,
            },
        }
    }
}

/// An output as plain values.
pub struct OutputView {
    pub name: Seq<char>,
    pub width: u32,
    pub height: u32,
}

impl View for OutputInfo {
    type V = OutputView;

    open spec fn view(&self) -> OutputView {
        OutputView { name: self.name@, width: self.width, height: self.height }
    }
}

impl WindowInfo {
    /// A copy of this window.
    pub fn duplicate(&self) -> (res: WindowInfo)
        ensures
            res == *self,
    {
        WindowInfo {
            id: self.id,
            app_id: self.app_id.clone(),
            title: self.title.clone(),
            workspace_id: self.workspace_id,
            is_focused: self.is_focused,
            is_floating: self.is_floating,
            width: self.width,
            height: self.height,
        }
    }
}

impl WorkspaceInfo {
    /// A copy of this workspace.
    pub fn duplicate(&self) -> (res: WorkspaceInfo)
        ensures
            res == *self,
    {
        let name = match &self.name {
            Some(n) => Some(n.clone()),
            None => None,
        };
        WorkspaceInfo {
            id: self.id,
            idx: self.idx,
            output: self.output.clone(),
            is_active: self.is_active,
            name,
        }
    }
}

impl OutputInfo {
    /// A copy of this output.
    pub fn duplicate(&self) -> (res: OutputInfo)
        ensures
            res == *self,
    {
        OutputInfo { name: self.name.clone(), width: self.width, height: self.height }
    }
}

/// An event as plain values.
pub enum EventView {
    WindowOpenedOrChanged(WindowView),
    WindowsChanged(Seq<WindowView>),
    WindowClosed { id: u64 },
    WindowFocusChanged { id: Option<u64> },
    WorkspaceActivated { id: u64, focused: bool },
    WorkspacesChanged,
    OutputFocusChanged { output: Option<Seq<char>> },
    OutputsChanged(Map<Seq<char>, OutputView>),
}

impl View for NiriEvent {
    type V = EventView;

    open spec fn view(&self) -> EventView {
        match self {
            NiriEvent::WindowOpenedOrChanged(w) => EventView::WindowOpenedOrChanged(w@),
            NiriEvent::WindowsChanged(ws) => EventView::WindowsChanged(
                ws@.map_values(|w: WindowInfo| w@),
            ),
            NiriEvent::WindowClosed { id } => EventView::WindowClosed { id: *id },
            NiriEvent::WindowFocusChanged { id } => EventView::WindowFocusChanged { id: *id },
            NiriEvent::WorkspaceActivated { id, focused } => EventView::WorkspaceActivated {
                id: *id,
                focused: *focused,
            },
            NiriEvent::WorkspacesChanged => EventView::WorkspacesChanged,
            NiriEvent::OutputFocusChanged { output } => EventView::OutputFocusChanged {
                output: match output {
                    Some(o) => Some(o@),
                    None => None,
                },
            },
            NiriEvent::OutputsChanged(m) => EventView::OutputsChanged(
                m@.map_values(|o: OutputInfo| o@),
            ),
        }
    }
}

} // verus!
