//! The menu controller: where the user is in the tree, what is selected, the search
//! filter and the preview pane.
use vstd::prelude::*;
use crate::command::Command;
use crate::keys::{dispatch, dispatch_spec, KeyAction, KeyEvent};
use crate::text::{lower_of, lines_of, views_of, split_lines, to_lower};
use ego_tree::{NodeId, Tree};
use crate::tree::{
    child_ids, entry_of, is_filter_result, is_leaf, matching_leaves, root_id, tree_nodes, tree_root,
    MenuEntry, NodeModel,
};

verus! {

/// This struct stores the preview window state.
pub struct PreviewWindowState {
    /// The text inside the window.
    pub text: Vec<String>,
    /// The current line scroll.
    pub scroll: usize,
}

/// The abstract content of the preview pane.
pub struct PreviewModel {
    pub lines: Seq<Seq<char>>,
    pub scroll: nat,
}

impl View for PreviewWindowState {
    type V = PreviewModel;

    open spec fn view(&self) -> PreviewModel {
        PreviewModel { lines: views_of(self.text@), scroll: self.scroll as nat }
    }
}

impl PreviewWindowState {
    /// Create a new PreviewWindowState, scrolled to the first line.
    pub fn new(text: Vec<String>) -> (r: Self)
        ensures
            r.text == text,
            r.scroll == 0,
    {
        PreviewWindowState { text, scroll: 0 }
    }
}

/// The abstract state of the menu.
pub struct ListModel {
    /// The menu tree; never changed by the controller.
    pub tree: Map<NodeId, NodeModel>,
    /// The path of groups from the root to the group shown.
    pub stack: Seq<NodeId>,
    /// The selected row of the rows shown.
    pub selected: Option<usize>,
    /// The preview pane, when open.
    pub preview: Option<PreviewModel>,
    /// The search query; empty when no filter is active.
    pub query: Seq<char>,
    /// The commands that match the query, sorted by name.
    pub filtered: Seq<NodeId>,
}

/// What a key event leaves for the caller to do.
#[derive(Debug, PartialEq, Eq)]
pub enum KeyOutcome {
    /// Nothing: the event was handled, or ignored.
    Nothing,
    /// Run this command.
    Run(Command),
    /// Read the script file at this path and open the preview on its text.
    LoadPreview(String),
}

/// One row of the list shown.
#[derive(Debug)]
pub struct Row {
    pub name: String,
    pub is_group: bool,
}

/// The name of the row that leads to the parent group.
pub open spec fn up_row_name() -> Seq<char> {
    seq!['.', '.']
}

impl ListModel {
    pub open spec fn at_root(self) -> bool {
        self.stack.len() == 1
    }

    /// The group shown.
    pub open spec fn current(self) -> NodeId {
        self.stack.last()
    }

    /// The children of the group shown.
    pub open spec fn kids(self) -> Seq<NodeId> {
        self.tree[self.current()].children
    }

    pub open spec fn filter_active(self) -> bool {
        self.query.len() > 0
    }

    /// The number of rows shown: the matches under a filter, else the children of the
    /// current group and, below the root, one row to go up.
    pub open spec fn visible_count(self) -> int {
        if self.filter_active() {
            self.filtered.len() as int
        } else if self.at_root() {
            self.kids().len() as int
        } else {
            self.kids().len() + 1int
        }
    }

    /// The selection refers to a row shown, and there is one when a row is shown.
    pub open spec fn selection_ok(self) -> bool {
        match self.selected {
            Some(i) => i < self.visible_count(),
            None => self.visible_count() == 0,
        }
    }

    pub open spec fn wf(self) -> bool {
        self.shape_ok() && self.selection_ok()
    }

    /// Everything but the selection is consistent.
    pub open spec fn shape_ok(self) -> bool {
        &&& self.stack.len() >= 1
        &&& forall|k: int| 0 <= k < self.stack.len() ==> self.tree.contains_key(#[trigger] self.stack[k])
        &&& forall|k: int|
            0 <= k < self.stack.len() - 1 ==> self.tree[self.stack[k]].children.contains(
                #[trigger] self.stack[k + 1],
            )
        &&& !self.filter_active() ==> self.filtered.len() == 0
        &&& self.filter_active() ==> is_filter_result(self.tree, lower_of(self.query), self.filtered)
        &&& match self.preview {
            Some(p) => p.scroll == 0 || p.scroll < p.lines.len(),
            None => true,
        }
    }

    /// The selection reset to the first row, or to none when no row is shown.
    pub open spec fn reset_selection(self) -> ListModel {
        ListModel {
            selected: if self.visible_count() > 0 { Some(0) } else { None },
            ..self
        }
    }

    pub open spec fn move_down(self) -> ListModel {
        match self.selected {
            Some(i) => ListModel {
                selected: Some(if i + 1 < self.visible_count() { (i + 1) as usize } else { i }),
                ..self
            },
            None => self,
        }
    }

    pub open spec fn move_up(self) -> ListModel {
        match self.selected {
            Some(i) => if i > 0 {
                ListModel { selected: Some((i - 1) as usize), ..self }
            } else {
                self
            },
            None => self,
        }
    }

    pub open spec fn scroll_preview_down(self) -> ListModel {
        match self.preview {
            Some(p) => if p.scroll + 1 < p.lines.len() {
                ListModel { preview: Some(PreviewModel { scroll: p.scroll + 1, ..p }), ..self }
            } else {
                self
            },
            None => self,
        }
    }

    pub open spec fn scroll_preview_up(self) -> ListModel {
        match self.preview {
            Some(p) => if p.scroll > 0 {
                ListModel { preview: Some(PreviewModel { scroll: (p.scroll - 1) as nat, ..p }), ..self }
            } else {
                self
            },
            None => self,
        }
    }

    /// Maps a row shown (without a filter) to the index of a child of the current group:
    /// below the root, row 0 is the row that goes up.
    pub open spec fn child_index(self, d: int) -> int {
        if self.at_root() {
            d
        } else {
            d - 1
        }
    }

    /// Row `k` shown: its name, and whether it is a group.
    pub open spec fn row(self, k: int) -> (Seq<char>, bool) {
        if self.filter_active() {
            (self.tree[self.filtered[k]].name, false)
        } else if !self.at_root() && k == 0 {
            (up_row_name(), true)
        } else {
            let c = self.kids()[self.child_index(k)];
            (self.tree[c].name, self.tree[c].children.len() > 0)
        }
    }

    /// The command behind the selected row, if that row is an entry of the tree.
    pub open spec fn selected_command(self) -> Option<Command> {
        match self.selected {
            None => None,
            Some(d) => if self.filter_active() {
                if d < self.filtered.len() {
                    Some(self.tree[self.filtered[d as int]].command)
                } else {
                    None
                }
            } else if !self.at_root() && d == 0 {
                None
            } else {
                let ci = self.child_index(d as int);
                if 0 <= ci < self.kids().len() {
                    Some(self.tree[self.kids()[ci]].command)
                } else {
                    None
                }
            },
        }
    }

    /// Pressing enter: under a filter, the selected match's command; on the row that goes
    /// up, the parent group; on a group, that group; on a command, that command.
    pub open spec fn enter(self) -> (ListModel, Option<Command>) {
        let d = match self.selected {
            Some(i) => i as int,
            None => 0,
        };
        if self.filter_active() {
            (
                self,
                if d < self.filtered.len() {
                    Some(self.tree[self.filtered[d]].command)
                } else {
                    None
                },
            )
        } else if !self.at_root() && d == 0 {
            (ListModel { stack: self.stack.drop_last(), selected: Some(0), ..self }, None)
        } else {
            let ci = self.child_index(d);
            if 0 <= ci < self.kids().len() {
                let c = self.kids()[ci];
                if self.tree[c].children.len() > 0 {
                    (ListModel { stack: self.stack.push(c), selected: Some(0), ..self }, None)
                } else {
                    (self, Some(self.tree[c].command))
                }
            } else {
                (self, None)
            }
        }
    }

    /// Toggling the preview: close it when open; else open it on the selected inline
    /// script, or hand out the path of the selected script file to be read.
    pub open spec fn toggle_preview(self) -> (ListModel, Option<String>) {
        match self.preview {
            Some(_) => (self.closed(), None),
            None => match self.selected_command() {
                Some(Command::Raw(t)) => (self.opened(lines_of(t@)), None),
                Some(Command::LocalFile(path)) => (self, Some(path)),
                _ => (self, None),
            },
        }
    }

    /// The state and outcome after key event `e`.
    pub open spec fn handle_key(self, e: KeyEvent) -> (ListModel, KeyOutcome) {
        match dispatch_spec(e, self.preview is Some) {
            KeyAction::MoveDown => (self.move_down(), KeyOutcome::Nothing),
            KeyAction::MoveUp => (self.move_up(), KeyOutcome::Nothing),
            KeyAction::ScrollPreviewDown => (self.scroll_preview_down(), KeyOutcome::Nothing),
            KeyAction::ScrollPreviewUp => (self.scroll_preview_up(), KeyOutcome::Nothing),
            KeyAction::TogglePreview => {
                let (s, path) = self.toggle_preview();
                (
                    s,
                    match path {
                        Some(path) => KeyOutcome::LoadPreview(path),
                        None => KeyOutcome::Nothing,
                    },
                )
            },
            KeyAction::ResolveEnter => {
                let (s, c) = self.enter();
                (
                    s,
                    match c {
                        Some(c) => KeyOutcome::Run(c),
                        None => KeyOutcome::Nothing,
                    },
                )
            },
            KeyAction::NoOp => (self, KeyOutcome::Nothing),
        }
    }

    pub open spec fn with_preview(self, p: Option<PreviewModel>) -> ListModel {
        ListModel { preview: p, ..self }
    }

    /// The state with the preview open on `lines`, scrolled to the top.
    pub open spec fn opened(self, lines: Seq<Seq<char>>) -> ListModel {
        self.with_preview(Some(PreviewModel { lines, scroll: 0 }))
    }

    /// The state with the preview closed.
    pub open spec fn closed(self) -> ListModel {
        self.with_preview(None)
    }
}

/// This is a data structure that has everything necessary to manage a menu of commands.
pub struct CustomList {
    /// The tree of entries: groups and commands.
    pub inner_tree: Tree<MenuEntry>,
    /// The "current directory" and every group on the way to it, root first.
    pub visit_stack: Vec<NodeId>,
    /// The selected row, if any.
    pub selected: Option<usize>,
    /// The preview window, shown while it is `Some`.
    pub preview_window_state: Option<PreviewWindowState>,
    /// The current search query.
    pub filter_query: String,
    /// The commands matching the query, sorted by name.
    pub filtered_items: Vec<NodeId>,
}

impl View for CustomList {
    type V = ListModel;

    open spec fn view(&self) -> ListModel {
        ListModel {
            tree: tree_nodes(self.inner_tree),
            stack: self.visit_stack@,
            selected: self.selected,
            preview: match self.preview_window_state {
                Some(p) => Some(p@),
                None => None,
            },
            query: self.filter_query@,
            filtered: self.filtered_items@,
        }
    }
}

impl CustomList {
    pub open spec fn wf(&self) -> bool {
        self@.wf()
    }

    /// A menu over `tree`, at its root, with the first row selected.
    pub fn new(tree: Tree<MenuEntry>) -> (r: Self)
        ensures
            r.wf(),
            r@.tree == tree_nodes(tree),
            r@.stack == seq![tree_root(tree)],
            r@.selected == (if tree_nodes(tree)[tree_root(tree)].children.len() > 0 {
                Some(0usize)
            } else {
                None
            }),
            r@.preview is None,
            r@.query.len() == 0,
            r@.filtered.len() == 0,
    {
        let root = root_id(&tree);
        let selected = if child_ids(&tree, root).len() > 0 { Some(0) } else { None };
        let mut visit_stack: Vec<NodeId> = Vec::new();
        visit_stack.push(root);
        let r = CustomList {
            inner_tree: tree,
            visit_stack,
            selected,
            preview_window_state: None,
            filter_query: String::new(),
            filtered_items: Vec::new(),
        };
        assert(r@.stack =~= seq![root]);
        r
    }

    /// Whether the current group is the root (there is no group to go up to).
    pub fn at_root(&self) -> (r: bool)
        ensures
            r == self@.at_root(),
    {
        self.visit_stack.len() == 1
    }

    /// The index of the last row shown, or `None` when no row is shown.
    pub fn last_visible_index(&self) -> (r: Option<usize>)
        requires
            self@.shape_ok(),
        ensures
            match r {
                Some(l) => l == self@.visible_count() - 1,
                None => self@.visible_count() == 0,
            },
    {
        if !self.filter_query.as_str().is_empty() {
            let n = self.filtered_items.len();
            if n > 0 { Some(n - 1) } else { None }
        } else {
            let cur = self.visit_stack[self.visit_stack.len() - 1];
            let n = child_ids(&self.inner_tree, cur).len();
            if self.visit_stack.len() == 1 {
                if n > 0 { Some(n - 1) } else { None }
            } else {
                Some(n)
            }
        }
    }

    /// Resets the selection to the first row, or to none when no row is shown.
    pub fn reset_selection(&mut self)
        requires
            old(self)@.shape_ok(),
        ensures
            final(self).wf(),
            final(self)@ == old(self)@.reset_selection(),
    {
        if self.last_visible_index().is_some() {
            self.selected = Some(0);
        } else {
            self.selected = None;
        }
    }

    /// Moves the selection one row down, stopping at the last row.
    pub fn try_scroll_down(&mut self)
        requires
            old(self).wf(),
        ensures
            final(self).wf(),
            final(self)@ == old(self)@.move_down(),
    {
        if let Some(i) = self.selected {
            if let Some(last) = self.last_visible_index() {
                if i < last {
                    self.selected = Some(i + 1);
                }
            }
        }
    }

    /// Moves the selection one row up, stopping at the first row.
    pub fn try_scroll_up(&mut self)
        requires
            old(self).wf(),
        ensures
            final(self).wf(),
            final(self)@ == old(self)@.move_up(),
    {
        if let Some(i) = self.selected {
            if i > 0 {
                self.selected = Some(i - 1);
            }
        }
    }

    /// Scrolls the preview one line down, unless it shows the last line already.
    pub fn scroll_preview_window_down(&mut self)
        requires
            old(self).wf(),
        ensures
            final(self).wf(),
            final(self)@ == old(self)@.scroll_preview_down(),
    {
        if let Some(pw_state) = &mut self.preview_window_state {
            if pw_state.scroll < pw_state.text.len() && pw_state.scroll + 1 < pw_state.text.len() {
                pw_state.scroll = pw_state.scroll + 1;
            }
        }
    }

    /// Scrolls the preview one line up, unless it is at the top.
    pub fn scroll_preview_window_up(&mut self)
        requires
            old(self).wf(),
        ensures
            final(self).wf(),
            final(self)@ == old(self)@.scroll_preview_up(),
    {
        if let Some(pw_state) = &mut self.preview_window_state {
            if pw_state.scroll > 0 {
                pw_state.scroll = pw_state.scroll - 1;
            }
        }
    }

    /// The command behind the selected row, if that row is an entry of the tree.
    pub fn get_selected_command(&self) -> (r: Option<Command>)
        requires
            self.wf(),
        ensures
            r == self@.selected_command(),
    {
        let selected = match self.selected {
            Some(i) => i,
            None => {
                return None;
            },
        };
        if !self.filter_query.as_str().is_empty() {
            if selected < self.filtered_items.len() {
                let id = self.filtered_items[selected];
                return Some(entry_of(&self.inner_tree, id).command.duplicate());
            }
            return None;
        }
        let at_root = self.at_root();
        if !at_root && selected == 0 {
            return None;
        }
        let cur = self.visit_stack[self.visit_stack.len() - 1];
        let ci = if at_root { selected } else { selected - 1 };
        let kids = child_ids(&self.inner_tree, cur);
        if ci < kids.len() {
            let c = kids[ci];
            return Some(entry_of(&self.inner_tree, c).command.duplicate());
        }
        None
    }

    /// Handles the enter key: runs a command, goes up a group, or goes down into one.
    /// Returns the command to run, if any.
    pub fn handle_enter(&mut self) -> (r: Option<Command>)
        requires
            old(self).wf(),
        ensures
            final(self).wf(),
            (final(self)@, r) == old(self)@.enter(),
    {
        let selected: usize = match self.selected {
            Some(i) => i,
            None => 0,
        };
        if !self.filter_query.as_str().is_empty() {
            if selected < self.filtered_items.len() {
                let id = self.filtered_items[selected];
                return Some(entry_of(&self.inner_tree, id).command.duplicate());
            }
            return None;
        }
        let at_root = self.at_root();
        if !at_root && selected == 0 {
            let ghost s0 = self@;
            self.visit_stack.pop();
            self.selected = Some(0);
            proof {
                let k = s0.stack.len() - 2;
                assert(s0.tree[s0.stack[k]].children.contains(s0.stack[k + 1]));
                assert(self@.stack =~= s0.stack.drop_last());
            }
            return None;
        }
        let cur = self.visit_stack[self.visit_stack.len() - 1];
        let ci = if at_root { selected } else { selected - 1 };
        let kids = child_ids(&self.inner_tree, cur);
        if ci < kids.len() {
            let c = kids[ci];
            if child_ids(&self.inner_tree, c).len() > 0 {
                let ghost s0 = self@;
                self.visit_stack.push(c);
                self.selected = Some(0);
                proof {
                    assert(s0.kids()[ci as int] == c);
                    assert forall|k: int| 0 <= k < self@.stack.len() - 1 implies self@.tree[self@.stack[k]].children.contains(
                        #[trigger] self@.stack[k + 1],
                    ) by {
                        if k < s0.stack.len() - 1 {
                            assert(self@.stack[k] == s0.stack[k] && self@.stack[k + 1] == s0.stack[k + 1]);
                        }
                    }
                }
                return None;
            } else {
                return Some(entry_of(&self.inner_tree, c).command.duplicate());
            }
        }
        None
    }

    /// Sets the search query and recomputes the matches. An empty query turns the filter
    /// off. When the number of rows shown changes, the selection is reset.
    pub fn filter(&mut self, query: String)
        requires
            old(self).wf(),
        ensures
            final(self).wf(),
            final(self)@.query == query@,
            final(self)@.tree == old(self)@.tree,
            final(self)@.stack == old(self)@.stack,
            final(self)@.preview == old(self)@.preview,
            query@.len() == 0 ==> final(self)@.filtered.len() == 0,
            query@.len() > 0 ==> is_filter_result(old(self)@.tree, lower_of(query@), final(self)@.filtered),
            final(self)@.selected == (if final(self)@.visible_count() == old(self)@.visible_count() {
                old(self)@.selected
            } else if final(self)@.visible_count() > 0 {
                Some(0usize)
            } else {
                None
            }),
    {
        let old_last = self.last_visible_index();
        let items = if query.as_str().is_empty() {
            Vec::new()
        } else {
            let query_lower = to_lower(query.as_str());
            matching_leaves(&self.inner_tree, query_lower.as_str())
        };
        self.filter_query = query;
        self.filtered_items = items;
        let new_last = self.last_visible_index();
        let changed = match (old_last, new_last) {
            (Some(a), Some(b)) => a != b,
            (None, None) => false,
            _ => true,
        };
        if changed {
            self.reset_selection();
        }
    }

    /// Toggles the preview. Opening it on an inline script shows the script's lines; on a
    /// script file, returns the file's path for the caller to read (then
    /// `open_preview_text`); on a group, does nothing.
    pub fn toggle_preview_window(&mut self) -> (r: Option<String>)
        requires
            old(self).wf(),
        ensures
            final(self).wf(),
            (final(self)@, r) == old(self)@.toggle_preview(),
    {
        if self.preview_window_state.is_some() {
            self.close_preview();
            return None;
        }
        match self.get_selected_command() {
            Some(Command::Raw(t)) => {
                self.open_preview_text(t.as_str());
                None
            },
            Some(Command::LocalFile(path)) => Some(path),
            _ => None,
        }
    }

    /// Handles a key event; only presses and repeats count.
    pub fn handle_key(&mut self, event: KeyEvent) -> (r: KeyOutcome)
        requires
            old(self).wf(),
        ensures
            final(self).wf(),
            (final(self)@, r) == old(self)@.handle_key(event),
    {
        match dispatch(event, self.preview_window_state.is_some()) {
            KeyAction::MoveDown => {
                self.try_scroll_down();
                KeyOutcome::Nothing
            },
            KeyAction::MoveUp => {
                self.try_scroll_up();
                KeyOutcome::Nothing
            },
            KeyAction::ScrollPreviewDown => {
                self.scroll_preview_window_down();
                KeyOutcome::Nothing
            },
            KeyAction::ScrollPreviewUp => {
                self.scroll_preview_window_up();
                KeyOutcome::Nothing
            },
            KeyAction::TogglePreview => match self.toggle_preview_window() {
                Some(path) => KeyOutcome::LoadPreview(path),
                None => KeyOutcome::Nothing,
            },
            KeyAction::ResolveEnter => match self.handle_enter() {
                Some(c) => KeyOutcome::Run(c),
                None => KeyOutcome::Nothing,
            },
            KeyAction::NoOp => KeyOutcome::Nothing,
        }
    }

    /// The rows shown: under a filter the matches, else the row that goes up (below the
    /// root) and the children of the current group.
    pub fn visible_rows(&self) -> (r: Vec<Row>)
        requires
            self.wf(),
        ensures
            r@.len() == self@.visible_count(),
            forall|k: int| 0 <= k < r@.len() ==> (#[trigger] r@[k].name@, r@[k].is_group) == self@.row(k),
    {
        let mut rows: Vec<Row> = Vec::new();
        if !self.filter_query.as_str().is_empty() {
            let mut k: usize = 0;
            while k < self.filtered_items.len()
                invariant
                    self.wf(),
                    self@.filter_active(),
                    k <= self.filtered_items@.len(),
                    rows@.len() == k,
                    forall|j: int| 0 <= j < k ==> (#[trigger] rows@[j].name@, rows@[j].is_group) == self@.row(j),
                decreases self.filtered_items@.len() - k,
            {
                let id = self.filtered_items[k];
                rows.push(Row { name: entry_of(&self.inner_tree, id).name.clone(), is_group: false });
                k = k + 1;
            }
            return rows;
        }
        let at_root = self.at_root();
        if !at_root {
            let up = "..".to_owned();
            proof {
                reveal_strlit("..");
                assert(up@ =~= up_row_name());
            }
            rows.push(Row { name: up, is_group: true });
        }
        let cur = self.visit_stack[self.visit_stack.len() - 1];
        let kids = child_ids(&self.inner_tree, cur);
        let off: usize = if at_root { 0 } else { 1 };
        let mut k: usize = 0;
        while k < kids.len()
            invariant
                self.wf(),
                !self@.filter_active(),
                at_root == self@.at_root(),
                off == (if at_root { 0usize } else { 1usize }),
                kids@ == self@.kids(),
                forall|j: int| 0 <= j < kids@.len() ==> self@.tree.contains_key(#[trigger] kids@[j]),
                k <= kids@.len(),
                rows@.len() == k + off,
                forall|j: int| 0 <= j < k + off ==> (#[trigger] rows@[j].name@, rows@[j].is_group) == self@.row(j),
            decreases kids@.len() - k,
        {
            let c = kids[k];
            let name = entry_of(&self.inner_tree, c).name.clone();
            rows.push(Row { name, is_group: child_ids(&self.inner_tree, c).len() > 0 });
            proof {
                assert(self@.child_index(k + off) == k);
            }
            k = k + 1;
        }
        rows
    }

    /// Opens the preview on `lines`, replacing any preview that was open.
    pub fn open_preview(&mut self, lines: Vec<String>)
        requires
            old(self).wf(),
        ensures
            final(self).wf(),
            final(self)@ == old(self)@.opened(views_of(lines@)),
    {
        self.preview_window_state = Some(PreviewWindowState::new(lines));
    }

    /// Opens the preview on the lines of `text`.
    pub fn open_preview_text(&mut self, text: &str)
        requires
            old(self).wf(),
        ensures
            final(self).wf(),
            final(self)@ == old(self)@.opened(lines_of(text@)),
    {
        let lines = split_lines(text);
        self.open_preview(lines);
    }

    /// Closes the preview.
    pub fn close_preview(&mut self)
        requires
            old(self).wf(),
        ensures
            final(self).wf(),
            final(self)@ == old(self)@.closed(),
    {
        self.preview_window_state = None;
    }
}

/// The state after a run of cursor moves, `true` for down and `false` for up.
pub open spec fn after_moves(s: ListModel, moves: Seq<bool>) -> ListModel
    decreases moves.len(),
{
    if moves.len() == 0 {
        s
    } else {
        let next = if moves[0] {
            s.move_down()
        } else {
            s.move_up()
        };
        after_moves(next, moves.drop_first())
    }
}

/// Whatever run of cursor moves is made, the selection stays on a row shown, and there
/// is none exactly when no row is shown.
pub proof fn lemma_moves_keep_selection_in_range(s: ListModel, moves: Seq<bool>)
    requires
        s.wf(),
    ensures
        after_moves(s, moves).wf(),
        after_moves(s, moves).visible_count() > 0 ==> (after_moves(s, moves).selected matches Some(i)
            && 0 <= i < after_moves(s, moves).visible_count()),
        after_moves(s, moves).visible_count() == 0 ==> after_moves(s, moves).selected is None,
    decreases moves.len(),
{
    if moves.len() > 0 {
        let next = if moves[0] {
            s.move_down()
        } else {
            s.move_up()
        };
        assert(next.wf());
        lemma_moves_keep_selection_in_range(next, moves.drop_first());
    }
}

/// The filter yields commands only: no group is ever among the matches.
pub proof fn lemma_filter_yields_only_commands(t: Map<NodeId, NodeModel>, ql: Seq<char>, r: Seq<NodeId>)
    requires
        is_filter_result(t, ql, r),
    ensures
        forall|k: int| 0 <= k < r.len() ==> is_leaf(t, #[trigger] r[k]),
{
}

/// With an empty query the filter is off: the rows are those of the navigation view
/// that a state without a filter, at the same place in the tree, shows.
pub proof fn lemma_empty_query_shows_navigation(before: ListModel, after: ListModel)
    requires
        !before.filter_active(),
        after.query.len() == 0,
        after.tree == before.tree,
        after.stack == before.stack,
    ensures
        !after.filter_active(),
        after.visible_count() == before.visible_count(),
        forall|k: int| 0 <= k < after.visible_count() ==> #[trigger] after.row(k) == before.row(k),
{
}

/// Enter on the row that goes up leaves exactly one group and returns no command.
pub proof fn lemma_enter_on_up_row(s: ListModel)
    requires
        s.wf(),
        !s.filter_active(),
        !s.at_root(),
        s.selected == Some(0usize),
    ensures
        s.enter().0.stack == s.stack.drop_last(),
        s.enter().0.selected == Some(0usize),
        s.enter().1 is None,
        s.enter().0.wf(),
{
    let k = s.stack.len() - 2;
    assert(s.tree[s.stack[k]].children.contains(s.stack[k + 1]));
}

/// Enter on a group goes down into it: one group more on the path, the first row
/// selected, and no command.
pub proof fn lemma_enter_on_group(s: ListModel, d: usize)
    requires
        s.wf(),
        !s.filter_active(),
        s.selected == Some(d),
        s.at_root() || d > 0,
        s.tree[s.kids()[s.child_index(d as int)]].children.len() > 0,
    ensures
        s.enter().0.stack == s.stack.push(s.kids()[s.child_index(d as int)]),
        s.enter().0.selected == Some(0usize),
        s.enter().1 is None,
{
}

/// Enter on a command returns that command as it is and leaves the path unchanged.
pub proof fn lemma_enter_on_command(s: ListModel, d: usize)
    requires
        s.wf(),
        !s.filter_active(),
        s.selected == Some(d),
        s.at_root() || d > 0,
        s.tree[s.kids()[s.child_index(d as int)]].children.len() == 0,
    ensures
        s.enter().1 == Some(s.tree[s.kids()[s.child_index(d as int)]].command),
        s.enter().0 == s,
{
}

/// Enter under a filter returns the selected match's command and leaves the path unchanged.
pub proof fn lemma_enter_on_match(s: ListModel, d: usize)
    requires
        s.wf(),
        s.filter_active(),
        s.selected == Some(d),
    ensures
        s.enter().1 == Some(s.tree[s.filtered[d as int]].command),
        s.enter().0 == s,
{
}

/// Opening the preview and closing it again gives back the state before, exactly.
pub proof fn lemma_preview_round_trip(s: ListModel, lines: Seq<Seq<char>>)
    requires
        s.preview is None,
    ensures
        s.opened(lines).closed() == s,
{
}

} // verus!
