//! The state of the host picker and how it reacts to keys.

use vstd::prelude::*;
use std::collections::HashSet;
use crate::config::{Config, HostOverride, HostOverrideModel, InventoryConfig, overrides_view, upserted};
use crate::theme::{ThemeKind, theme_kind, theme_of};
use crate::external::{home_dir, skim_positions, tilde_expansion, tilde_with_home};
use crate::hostlist::{prepare_hosts, prepared};
use crate::inventory::{Host, HostModel, connect_target_of, hosts_view};
use crate::search::{SearchEngine, all_by_name, name_ordered, search_result};
use crate::text::{
    chars_of, clone_opt, concat, decimal, decimal_vec, opt_view, string_from, string_of,
    strings_view, str_eq, trim, trim_str, vv, words, words_vec, is_blank,
};

verus! {

broadcast use vstd::std_specs::hash::group_hash_axioms;

#[derive(Debug, Clone, Copy, PartialEq, Eq, Structural)]
pub enum EditField {
    User,
    Alias,
    Label,
    JumpHost,
}

pub open spec fn next_field(f: EditField) -> EditField {
    match f {
        EditField::User => EditField::Alias,
        EditField::Alias => EditField::Label,
        EditField::Label => EditField::JumpHost,
        EditField::JumpHost => EditField::User,
    }
}

pub open spec fn prev_field(f: EditField) -> EditField {
    match f {
        EditField::User => EditField::JumpHost,
        EditField::Alias => EditField::User,
        EditField::Label => EditField::Alias,
        EditField::JumpHost => EditField::Label,
    }
}

impl EditField {
    pub fn next(&self) -> (r: Self)
        ensures
            r == next_field(*self),
    {
        match self {
            EditField::User => EditField::Alias,
            EditField::Alias => EditField::Label,
            EditField::Label => EditField::JumpHost,
            EditField::JumpHost => EditField::User,
        }
    }

    pub fn prev(&self) -> (r: Self)
        ensures
            r == prev_field(*self),
    {
        match self {
            EditField::User => EditField::JumpHost,
            EditField::Alias => EditField::User,
            EditField::Label => EditField::Alias,
            EditField::JumpHost => EditField::Label,
        }
    }
}

/// Tab and Shift-Tab undo each other, and four Tabs come back to the start.
pub proof fn lemma_field_cycle(f: EditField)
    ensures
        prev_field(next_field(f)) == f,
        next_field(prev_field(f)) == f,
        next_field(next_field(next_field(next_field(f)))) == f,
{
}

/// State for the host-edit overlay
pub struct EditState {
    /// index into App::hosts
    pub host_idx: usize,
    pub user_input: String,
    pub alias_input: String,
    pub label_input: String,
    pub jump_input: String,
    pub active_field: EditField,
}

#[derive(Debug, Clone, Copy, PartialEq, Eq, Structural)]
pub enum Mode {
    Search,
    Navigate,
    Help,
    EditHost,
}

/// A key, as far as the picker distinguishes keys.
#[derive(Debug, Clone, Copy, PartialEq, Eq, Structural)]
pub enum KeyInput {
    Char(char),
    F(u8),
    Esc,
    Backspace,
    Enter,
    Tab,
    BackTab,
    Up,
    Down,
    PageUp,
    PageDown,
    Delete,
    Other,
}

/// A key press: the key and the modifier bits (1 shift, 2 control, 4 alt,
/// 8 super, 16 hyper, 32 meta).
#[derive(Debug, Clone, Copy, PartialEq, Eq, Structural)]
pub struct Key {
    pub code: KeyInput,
    pub modifiers: u8,
}

/// The modifier bits of a press with Control and nothing else.
pub open spec fn control_only(k: Key) -> bool {
    k.modifiers == 2
}

/// What the caller has to do after a key: nothing, connect to the selected
/// host, open the config in an editor, or save the config (the overrides
/// were just changed).
#[derive(Debug, Clone, Copy, PartialEq, Eq, Structural)]
pub enum AppAction {
    Nothing,
    Connect,
    OpenEditor,
    SaveConfig(usize),
}

pub struct App {
    pub config: Config,
    pub hosts: Vec<Host>,
    /// (index into self.hosts, fuzzy score)
    pub filtered: Vec<(usize, i64)>,
    pub query: String,
    pub list_cursor: usize,
    pub list_scroll: usize,
    /// Visible list height, used for PgUp/PgDn
    pub list_page_size: usize,
    pub multi_selected: HashSet<usize>,
    pub mode: Mode,
    pub edit_state: Option<EditState>,
    pub status: Option<String>,
    pub should_quit: bool,
    pub search_engine: SearchEngine,
    /// The color theme the configured name selects.
    pub theme: ThemeKind,
    /// Which sources the list shows.
    pub source_filter: SourceFilter,
}

/// The status line shown when a source fails to load with the error `err`.
pub open spec fn load_warning_of(c: InventoryConfig, err: Seq<char>) -> Seq<char> {
    match c {
        InventoryConfig::Ansible { .. } => "Warning: Ansible inventory failed: "@ + err,
        InventoryConfig::SshConfig { .. } => "Warning: SSH config failed: "@ + err,
        InventoryConfig::Yaml { .. } => "Warning: YAML config failed: "@ + err,
        InventoryConfig::ShellAlias { .. } => "Warning: shell alias scan failed: "@ + err,
    }
}

pub fn load_warning(c: &InventoryConfig, err: &str) -> (r: String)
    ensures
        r@ == load_warning_of(*c, err@),
{
    let head = match c {
        InventoryConfig::Ansible { .. } => "Warning: Ansible inventory failed: ",
        InventoryConfig::SshConfig { .. } => "Warning: SSH config failed: ",
        InventoryConfig::Yaml { .. } => "Warning: YAML config failed: ",
        InventoryConfig::ShellAlias { .. } => "Warning: shell alias scan failed: ",
    };
    string_of(&concat(&chars_of(head), &chars_of(err)))
}

/// Which hosts the list shows by source: all, those not from Teleport, or
/// only those from Teleport.
#[derive(Debug, Clone, Copy, PartialEq, Eq, Structural)]
pub enum SourceFilter {
    All,
    Ssh,
    Teleport,
}

/// The filter after `f`: all → ssh → teleport → all.
pub open spec fn next_filter(f: SourceFilter) -> SourceFilter {
    match f {
        SourceFilter::All => SourceFilter::Ssh,
        SourceFilter::Ssh => SourceFilter::Teleport,
        SourceFilter::Teleport => SourceFilter::All,
    }
}

impl SourceFilter {
    /// The next filter in the cycle.
    pub fn next(&self) -> (r: SourceFilter)
        ensures
            r == next_filter(*self),
    {
        match self {
            SourceFilter::All => SourceFilter::Ssh,
            SourceFilter::Ssh => SourceFilter::Teleport,
            SourceFilter::Teleport => SourceFilter::All,
        }
    }
}

/// Whether a host shows under the filter (Teleport hosts have the source
/// `teleport`).
pub open spec fn passes(h: HostModel, f: SourceFilter) -> bool {
    match f {
        SourceFilter::All => true,
        SourceFilter::Ssh => h.source != "teleport"@,
        SourceFilter::Teleport => h.source == "teleport"@,
    }
}

/// The entries of `full` whose host shows under the filter, in order.
pub open spec fn only_source(full: Seq<(usize, i64)>, hs: Seq<HostModel>, f: SourceFilter) -> Seq<(usize, i64)>
    decreases full.len(),
{
    if full.len() == 0 {
        seq![]
    } else {
        let rest = only_source(full.drop_last(), hs, f);
        let e = full.last();
        if e.0 < hs.len() && passes(hs[e.0 as int], f) {
            rest.push(e)
        } else {
            rest
        }
    }
}

/// The whole list for a query: all hosts by name when the query is
/// blank, else the search result.
pub open spec fn listed_for(hosts: Seq<Host>, query: Seq<char>, f: Seq<(usize, i64)>) -> bool {
    if trim(query).len() == 0 {
        name_ordered(hosts_view(hosts), f)
    } else {
        search_result(hosts_view(hosts), query, f)
    }
}

/// The list shown for a query and a source filter: the whole list for the
/// query, restricted to the hosts the filter shows.
pub open spec fn filtered_for(hosts: Seq<Host>, query: Seq<char>, filter: SourceFilter, f: Seq<(usize, i64)>) -> bool {
    exists|full: Seq<(usize, i64)>| #[trigger] listed_for(hosts, query, full) && f == only_source(full, hosts_view(hosts), filter)
}

fn passes_exec(h: &Host, f: SourceFilter) -> (b: bool)
    ensures
        b == passes(h@, f),
{
    proof {
        reveal_strlit("teleport");
    }
    match f {
        SourceFilter::All => true,
        SourceFilter::Ssh => !str_eq(h.source.as_str(), "teleport"),
        SourceFilter::Teleport => str_eq(h.source.as_str(), "teleport"),
    }
}

fn only_source_exec(full: &Vec<(usize, i64)>, hosts: &Vec<Host>, f: SourceFilter) -> (r: Vec<(usize, i64)>)
    ensures
        r@ == only_source(full@, hosts_view(hosts@), f),
        forall|k: int| 0 <= k < r@.len() ==> (#[trigger] r@[k]).0 < hosts@.len(),
{
    let ghost hs = hosts_view(hosts@);
    let mut r: Vec<(usize, i64)> = Vec::new();
    let mut i: usize = 0;
    while i < full.len()
        invariant
            i <= full.len(),
            hs == hosts_view(hosts@),
            r@ == only_source(full@.take(i as int), hs, f),
            forall|k: int| 0 <= k < r@.len() ==> (#[trigger] r@[k]).0 < hosts@.len(),
        decreases full.len() - i,
    {
        assert(full@.take(i + 1).drop_last() =~= full@.take(i as int));
        let e = full[i];
        if e.0 < hosts.len() && passes_exec(&hosts[e.0], f) {
            r.push(e);
        }
        i += 1;
    }
    assert(full@.take(full.len() as int) =~= full@);
    r
}

/// The cursor kept inside a list of `len` entries.
pub open spec fn clamp_cursor(c: usize, len: nat) -> usize {
    if c >= len {
        if len == 0 {
            0
        } else {
            (len - 1) as usize
        }
    } else {
        c
    }
}

pub open spec fn cursor_down(c: usize, len: nat) -> usize {
    if c + 1 < len {
        (c + 1) as usize
    } else {
        c
    }
}

pub open spec fn cursor_up(c: usize) -> usize {
    if c > 0 {
        (c - 1) as usize
    } else {
        c
    }
}

pub open spec fn page_up(c: usize, page: usize) -> usize {
    if c >= page {
        (c - page) as usize
    } else {
        0
    }
}

pub open spec fn page_down(c: usize, page: usize, len: nat) -> usize {
    let max: int = if len == 0 {
        0
    } else {
        len - 1
    };
    if c + page <= max {
        (c + page) as usize
    } else {
        max as usize
    }
}

pub open spec fn input_of(e: EditState, f: EditField) -> Seq<char> {
    match f {
        EditField::User => e.user_input@,
        EditField::Alias => e.alias_input@,
        EditField::Label => e.label_input@,
        EditField::JumpHost => e.jump_input@,
    }
}

/// The edit state with the active field's input set to `s`.
pub open spec fn with_active_input(e0: EditState, e1: EditState, s: Seq<char>) -> bool {
    &&& e1.host_idx == e0.host_idx
    &&& e1.active_field == e0.active_field
    &&& input_of(e1, e1.active_field) == s
    &&& forall|f: EditField| f != e0.active_field ==> input_of(e1, f) == input_of(e0, f)
}

/// The value an edit field saves: none when the input is empty, else the
/// trimmed input.
pub open spec fn saved_value(input: Seq<char>) -> Option<Seq<char>> {
    if input.len() == 0 {
        None
    } else {
        Some(trim(input))
    }
}

impl App {
    /// Well-formedness: listed entries index hosts, the cursor is on an
    /// entry (or 0 when there is none), an edit refers to a host.
    pub open spec fn wf(&self) -> bool {
        &&& forall|k: int| 0 <= k < self.filtered@.len() ==> (#[trigger] self.filtered@[k]).0 < self.hosts@.len()
        &&& (self.list_cursor < self.filtered@.len() || (self.filtered@.len() == 0 && self.list_cursor == 0))
        &&& (self.edit_state matches Some(e) ==> e.host_idx < self.hosts@.len())
    }

    /// Everything but the query, the filter, the list and the cursor is as in `old`.
    pub open spec fn same_but_list(&self, old: &App) -> bool {
        &&& self.config == old.config
        &&& self.theme == old.theme
        &&& self.hosts == old.hosts
        &&& self.list_scroll == old.list_scroll
        &&& self.list_page_size == old.list_page_size
        &&& self.multi_selected@ == old.multi_selected@
        &&& self.mode == old.mode
        &&& self.edit_state == old.edit_state
        &&& self.status == old.status
        &&& self.should_quit == old.should_quit
    }

    /// Only the mode, the cursor and the selection may differ from `old`.
    pub open spec fn same_but_ui(&self, old: &App) -> bool {
        &&& self.source_filter == old.source_filter
        &&& self.config == old.config
        &&& self.theme == old.theme
        &&& self.hosts == old.hosts
        &&& self.filtered == old.filtered
        &&& self.query == old.query
        &&& self.list_scroll == old.list_scroll
        &&& self.list_page_size == old.list_page_size
        &&& self.edit_state == old.edit_state
        &&& self.status == old.status
        &&& self.should_quit == old.should_quit
    }

    /// The picker over `hosts` (prepared from the loaded ones) with the
    /// initial query applied; searching starts in search mode, showing
    /// `status` (the warning of a source that failed to load, if any).
    pub fn new(config: Config, initial_query: String, loaded: Vec<Host>, status: Option<String>) -> (app: App)
        ensures
            app.wf(),
            hosts_view(app.hosts@) == prepared(hosts_view(loaded@), config),
            app.config == config,
            app.query == initial_query,
            app.source_filter == SourceFilter::All,
            filtered_for(app.hosts@, app.query@, app.source_filter, app.filtered@),
            app.list_cursor == 0,
            app.list_scroll == 0,
            app.list_page_size == 20,
            app.multi_selected@ == Set::<usize>::empty(),
            app.mode == Mode::Search,
            app.edit_state is None,
            app.status == status,
            !app.should_quit,
            app.theme == theme_of(config.settings.theme@),
    {
        let theme = theme_kind(config.settings.theme.as_str());
        let hosts = prepare_hosts(loaded, &config);
        let mut app = App {
            config,
            hosts,
            filtered: Vec::new(),
            query: initial_query,
            list_cursor: 0,
            list_scroll: 0,
            list_page_size: 20,
            multi_selected: HashSet::new(),
            mode: Mode::Search,
            edit_state: None,
            status,
            should_quit: false,
            search_engine: SearchEngine::new(),
            theme,
            source_filter: SourceFilter::All,
        };
        app.update_filter();
        app
    }

    /// Replaces the hosts with freshly loaded ones (prepared with the same
    /// config), recomputes the list and shows `status`; the mode, the query
    /// and the selection stay, no edit is open.
    pub fn reload(&mut self, loaded: Vec<Host>, status: String)
        ensures
            final(self).wf(),
            hosts_view(final(self).hosts@) == prepared(hosts_view(loaded@), old(self).config),
            final(self).source_filter == old(self).source_filter,
            filtered_for(final(self).hosts@, final(self).query@, final(self).source_filter, final(self).filtered@),
            final(self).list_cursor == clamp_cursor(old(self).list_cursor, final(self).filtered@.len()),
            final(self).status == Some(status),
            final(self).edit_state is None,
            final(self).config == old(self).config,
            final(self).query == old(self).query,
            final(self).mode == old(self).mode,
            final(self).multi_selected@ == old(self).multi_selected@,
            final(self).theme == old(self).theme,
    {
        self.hosts = prepare_hosts(loaded, &self.config);
        self.edit_state = None;
        self.update_filter();
        self.status = Some(status);
    }

    /// Recomputes the list for the current query and keeps the cursor in it.
    pub fn update_filter(&mut self)
        requires
            old(self).edit_state matches Some(e) ==> e.host_idx < old(self).hosts@.len(),
        ensures
            final(self).wf(),
            final(self).same_but_list(old(self)),
            final(self).query == old(self).query,
            final(self).source_filter == old(self).source_filter,
            filtered_for(final(self).hosts@, final(self).query@, final(self).source_filter, final(self).filtered@),
            final(self).list_cursor == clamp_cursor(old(self).list_cursor, final(self).filtered@.len()),
    {
        let q = chars_of(self.query.as_str());
        proof {
            crate::text::lemma_trim_empty_iff(q@);
        }
        let full = if is_blank(&q) {
            all_by_name(&self.hosts)
        } else {
            self.search_engine.search(self.query.as_str(), &self.hosts)
        };
        assert(listed_for(self.hosts@, self.query@, full@));
        self.filtered = only_source_exec(&full, &self.hosts, self.source_filter);
        if self.list_cursor >= self.filtered.len() {
            self.list_cursor = if self.filtered.len() > 0 {
                self.filtered.len() - 1
            } else {
                0
            };
        }
    }

    /// The host under the cursor.
    pub fn selected_host(&self) -> (r: Option<&Host>)
        requires
            self.wf(),
        ensures
            match r {
                Some(h) => self.list_cursor < self.filtered@.len() && *h == self.hosts@[self.filtered@[self.list_cursor as int].0 as int],
                None => self.list_cursor >= self.filtered@.len(),
            },
    {
        if self.list_cursor < self.filtered.len() {
            let idx = self.filtered[self.list_cursor].0;
            Some(&self.hosts[idx])
        } else {
            None
        }
    }

    pub fn move_up(&mut self)
        ensures
            final(self).list_cursor == cursor_up(old(self).list_cursor),
            final(self).same_but_ui(old(self)),
            final(self).mode == old(self).mode,
            final(self).multi_selected@ == old(self).multi_selected@,
    {
        if self.list_cursor > 0 {
            self.list_cursor -= 1;
        }
    }

    pub fn move_down(&mut self)
        ensures
            final(self).list_cursor == cursor_down(old(self).list_cursor, old(self).filtered@.len()),
            final(self).same_but_ui(old(self)),
            final(self).mode == old(self).mode,
            final(self).multi_selected@ == old(self).multi_selected@,
    {
        if self.list_cursor < self.filtered.len() && self.list_cursor + 1 < self.filtered.len() {
            self.list_cursor += 1;
        }
    }

    pub fn move_page_up(&mut self)
        ensures
            final(self).list_cursor == page_up(old(self).list_cursor, old(self).list_page_size),
            final(self).same_but_ui(old(self)),
            final(self).mode == old(self).mode,
            final(self).multi_selected@ == old(self).multi_selected@,
    {
        self.list_cursor = if self.list_cursor >= self.list_page_size {
            self.list_cursor - self.list_page_size
        } else {
            0
        };
    }

    pub fn move_page_down(&mut self)
        requires
            old(self).list_cursor + old(self).list_page_size <= usize::MAX,
        ensures
            final(self).list_cursor == page_down(old(self).list_cursor, old(self).list_page_size, old(self).filtered@.len()),
            final(self).same_but_ui(old(self)),
            final(self).mode == old(self).mode,
            final(self).multi_selected@ == old(self).multi_selected@,
    {
        let max = if self.filtered.len() > 0 {
            self.filtered.len() - 1
        } else {
            0
        };
        let c = self.list_cursor + self.list_page_size;
        self.list_cursor = if c <= max {
            c
        } else {
            max
        };
    }

    /// Toggles the selection of the host under the cursor, then moves down.
    pub fn toggle_multi_select(&mut self)
        ensures
            final(self).list_cursor == cursor_down(old(self).list_cursor, old(self).filtered@.len()),
            final(self).same_but_ui(old(self)),
            final(self).mode == old(self).mode,
            old(self).list_cursor < old(self).filtered@.len() ==> {
                let idx = old(self).filtered@[old(self).list_cursor as int].0;
                final(self).multi_selected@ == if old(self).multi_selected@.contains(idx) {
                    old(self).multi_selected@.remove(idx)
                } else {
                    old(self).multi_selected@.insert(idx)
                }
            },
            old(self).list_cursor >= old(self).filtered@.len() ==> final(self).multi_selected@ == old(self).multi_selected@,
    {
        if self.list_cursor < self.filtered.len() {
            let idx = self.filtered[self.list_cursor].0;
            if self.multi_selected.contains(&idx) {
                self.multi_selected.remove(&idx);
            } else {
                self.multi_selected.insert(idx);
            }
        }
        self.move_down();
    }

    /// Selects every listed host.
    pub fn select_all_listed(&mut self)
        ensures
            final(self).multi_selected@ == old(self).multi_selected@.union(
                old(self).filtered@.map_values(|e: (usize, i64)| e.0).to_set(),
            ),
            final(self).same_but_ui(old(self)),
            final(self).mode == old(self).mode,
            final(self).list_cursor == old(self).list_cursor,
    {
        let ghost idxs = self.filtered@.map_values(|e: (usize, i64)| e.0);
        let ghost s0 = self.multi_selected@;
        let mut i: usize = 0;
        while i < self.filtered.len()
            invariant
                i <= self.filtered.len(),
                idxs == self.filtered@.map_values(|e: (usize, i64)| e.0),
                self.multi_selected@ == s0.union(idxs.take(i as int).to_set()),
                s0 == old(self).multi_selected@,
                self.same_but_ui(old(self)),
                self.mode == old(self).mode,
                self.list_cursor == old(self).list_cursor,
            decreases self.filtered.len() - i,
        {
            let idx = self.filtered[i].0;
            self.multi_selected.insert(idx);
            assert(idxs.take(i + 1) =~= idxs.take(i as int).push(idx));
            assert(idxs.take(i + 1).to_set() =~= idxs.take(i as int).to_set().insert(idx)) by {
                idxs.take(i as int).lemma_push_to_set_commute(idx);
            }
            assert(self.multi_selected@ =~= s0.union(idxs.take(i + 1).to_set()));
            i += 1;
        }
        assert(idxs.take(self.filtered.len() as int) =~= idxs);
    }

    /// The query's highlighted positions in `text`; none for a blank query.
    pub fn highlight_indices(&self, text: &str) -> (r: Vec<usize>)
        ensures
            trim(self.query@).len() == 0 ==> r@.len() == 0,
            trim(self.query@).len() != 0 ==> match skim_positions(text@, self.query@) {
                Some(p) => r@ == p,
                None => r@.len() == 0,
            },
    {
        let q = chars_of(self.query.as_str());
        if is_blank(&q) {
            return Vec::new();
        }
        self.search_engine.highlight_indices(text, self.query.as_str())
    }

    /// Keeps the cursor row inside the visible window of `height` rows.
    pub fn adjust_scroll(&mut self, height: usize)
        requires
            old(self).wf(),
            old(self).list_scroll + height <= usize::MAX,
        ensures
            final(self).list_scroll == if old(self).list_cursor < old(self).list_scroll {
                old(self).list_cursor
            } else if old(self).list_cursor >= old(self).list_scroll + height {
                (old(self).list_cursor - height + 1) as usize
            } else {
                old(self).list_scroll
            },
            final(self).list_cursor == old(self).list_cursor,
            final(self).filtered == old(self).filtered,
            final(self).hosts == old(self).hosts,
            final(self).edit_state == old(self).edit_state,
    {
        let n = self.filtered.len();
        assert(self.list_cursor < n || self.list_cursor == 0);
        if self.list_cursor < self.list_scroll {
            self.list_scroll = self.list_cursor;
        } else if self.list_cursor >= self.list_scroll + height {
            self.list_scroll = self.list_cursor - height + 1;
        }
    }

    /// Opens the edit overlay on the host under the cursor.
    pub fn open_edit_overlay(&mut self)
        requires
            old(self).wf(),
        ensures
            final(self).wf(),
            old(self).list_cursor < old(self).filtered@.len() ==> {
                let idx = old(self).filtered@[old(self).list_cursor as int].0;
                let h = old(self).hosts@[idx as int]@;
                &&& final(self).mode == Mode::EditHost
                &&& final(self).edit_state matches Some(e) && e.host_idx == idx && e.active_field == EditField::User
                    && e.user_input@ == unwrap_or_empty(h.user) && e.alias_input@ == unwrap_or_empty(h.alias)
                    && e.label_input@ == unwrap_or_empty(h.label) && e.jump_input@ == unwrap_or_empty(h.jump_host)
            },
            old(self).list_cursor >= old(self).filtered@.len() ==> final(self).edit_state == old(self).edit_state && final(self).mode == old(self).mode,
            final(self).same_but_ui_and_edit(old(self)),
    {
        if self.list_cursor < self.filtered.len() {
            let idx = self.filtered[self.list_cursor].0;
            let host = &self.hosts[idx];
            let state = EditState {
                host_idx: idx,
                user_input: unwrap_or_default(&host.user),
                alias_input: unwrap_or_default(&host.alias),
                label_input: unwrap_or_default(&host.label),
                jump_input: unwrap_or_default(&host.jump_host),
                active_field: EditField::User,
            };
            self.edit_state = Some(state);
            self.mode = Mode::EditHost;
        }
    }

    /// Only the mode and the edit overlay may differ from `old`.
    pub open spec fn same_but_ui_and_edit(&self, old: &App) -> bool {
        &&& self.source_filter == old.source_filter
        &&& self.config == old.config
        &&& self.theme == old.theme
        &&& self.hosts == old.hosts
        &&& self.filtered == old.filtered
        &&& self.query == old.query
        &&& self.list_cursor == old.list_cursor
        &&& self.list_scroll == old.list_scroll
        &&& self.list_page_size == old.list_page_size
        &&& self.multi_selected@ == old.multi_selected@
        &&& self.status == old.status
        &&& self.should_quit == old.should_quit
    }
}

pub open spec fn unwrap_or_empty(o: Option<Seq<char>>) -> Seq<char> {
    match o {
        Some(s) => s,
        None => seq![],
    }
}

fn unwrap_or_default(o: &Option<String>) -> (r: String)
    ensures
        r@ == unwrap_or_empty(opt_view(*o)),
{
    match o {
        Some(s) => s.clone(),
        None => String::new(),
    }
}

/// Everything but the mode, the cursor, the selection and the quit flag is
/// as in `a0`.
pub open spec fn core_same(a1: App, a0: App) -> bool {
    &&& a1.source_filter == a0.source_filter
    &&& a1.config == a0.config
    &&& a1.theme == a0.theme
    &&& a1.hosts == a0.hosts
    &&& a1.filtered == a0.filtered
    &&& a1.query == a0.query
    &&& a1.list_scroll == a0.list_scroll
    &&& a1.list_page_size == a0.list_page_size
    &&& a1.edit_state == a0.edit_state
    &&& a1.status == a0.status
}

/// `a1` is `a0` in mode `mode` with the cursor at `cursor`.
pub open spec fn moved(a1: App, a0: App, mode: Mode, cursor: usize) -> bool {
    &&& core_same(a1, a0)
    &&& a1.mode == mode
    &&& a1.list_cursor == cursor
    &&& a1.multi_selected@ == a0.multi_selected@
    &&& a1.should_quit == a0.should_quit
}

pub open spec fn unchanged(a1: App, a0: App) -> bool {
    moved(a1, a0, a0.mode, a0.list_cursor)
}

pub open spec fn quit(a1: App, a0: App) -> bool {
    &&& core_same(a1, a0)
    &&& a1.mode == a0.mode
    &&& a1.list_cursor == a0.list_cursor
    &&& a1.multi_selected@ == a0.multi_selected@
    &&& a1.should_quit
}

/// `a1` is `a0` with query `q`, source filter `filter` and the list
/// recomputed for them.
pub open spec fn refiltered_with(a1: App, a0: App, q: Seq<char>, filter: SourceFilter) -> bool {
    &&& a1.query@ == q
    &&& a1.source_filter == filter
    &&& filtered_for(a1.hosts@, q, filter, a1.filtered@)
    &&& a1.list_cursor == clamp_cursor(a0.list_cursor, a1.filtered@.len())
    &&& a1.same_but_list(&a0)
}

/// `a1` is `a0` with query `q` and the list recomputed for it.
pub open spec fn refiltered(a1: App, a0: App, q: Seq<char>) -> bool {
    refiltered_with(a1, a0, q, a0.source_filter)
}

pub open spec fn popped(q: Seq<char>) -> Seq<char> {
    if q.len() > 0 {
        q.drop_last()
    } else {
        q
    }
}

pub open spec fn is_char(k: Key, c: char) -> bool {
    k.code == KeyInput::Char(c)
}

/// Keys in the help screen: Esc, q, ? or F1 go back to the list.
pub open spec fn help_key(a0: App, a1: App, k: Key, r: AppAction) -> bool {
    &&& r == AppAction::Nothing
    &&& if k.code == KeyInput::Esc || is_char(k, 'q') || is_char(k, '?') || k.code == KeyInput::F(1) {
        moved(a1, a0, Mode::Navigate, a0.list_cursor)
    } else {
        unchanged(a1, a0)
    }
}

/// Keys while typing a query.
pub open spec fn search_key(a0: App, a1: App, k: Key, r: AppAction) -> bool {
    let len = a0.filtered@.len();
    if k.code == KeyInput::Esc {
        r == AppAction::Nothing && if a0.query@.len() == 0 {
            moved(a1, a0, Mode::Navigate, a0.list_cursor)
        } else {
            refiltered(a1, a0, seq![])
        }
    } else if k.code == KeyInput::Backspace {
        r == AppAction::Nothing && refiltered(a1, a0, popped(a0.query@))
    } else if control_only(k) && is_char(k, 'u') {
        r == AppAction::Nothing && refiltered(a1, a0, seq![])
    } else if control_only(k) && is_char(k, 'c') {
        r == AppAction::Nothing && quit(a1, a0)
    } else if control_only(k) && is_char(k, 'd') {
        &&& r == AppAction::Nothing
        &&& core_same(a1, a0)
        &&& a1.mode == a0.mode
        &&& a1.should_quit == a0.should_quit
        &&& a1.list_cursor == a0.list_cursor
        &&& a1.multi_selected@ == Set::<usize>::empty()
    } else if k.code == KeyInput::Down || (control_only(k) && is_char(k, 'n')) || k.code == KeyInput::Tab {
        r == AppAction::Nothing && moved(a1, a0, Mode::Navigate, cursor_down(a0.list_cursor, len))
    } else if k.code == KeyInput::Up || (control_only(k) && is_char(k, 'p')) {
        r == AppAction::Nothing && moved(a1, a0, Mode::Navigate, cursor_up(a0.list_cursor))
    } else if k.code == KeyInput::PageDown {
        r == AppAction::Nothing && moved(a1, a0, Mode::Navigate, page_down(a0.list_cursor, a0.list_page_size, len))
    } else if k.code == KeyInput::PageUp {
        r == AppAction::Nothing && moved(a1, a0, Mode::Navigate, page_up(a0.list_cursor, a0.list_page_size))
    } else if k.code == KeyInput::Enter {
        unchanged(a1, a0) && r == if len > 0 {
            AppAction::Connect
        } else {
            AppAction::Nothing
        }
    } else if let KeyInput::Char(c) = k.code {
        r == AppAction::Nothing && refiltered(a1, a0, a0.query@.push(c))
    } else {
        r == AppAction::Nothing && unchanged(a1, a0)
    }
}

/// The selection after Space on the list.
pub open spec fn toggled(a0: App) -> Set<usize> {
    if a0.list_cursor < a0.filtered@.len() {
        let idx = a0.filtered@[a0.list_cursor as int].0;
        if a0.multi_selected@.contains(idx) {
            a0.multi_selected@.remove(idx)
        } else {
            a0.multi_selected@.insert(idx)
        }
    } else {
        a0.multi_selected@
    }
}

/// Keys while moving through the list.
pub open spec fn navigate_key(a0: App, a1: App, k: Key, r: AppAction) -> bool {
    let len = a0.filtered@.len();
    if is_char(k, 'q') || (control_only(k) && is_char(k, 'c')) {
        r == AppAction::Nothing && quit(a1, a0)
    } else if is_char(k, '?') || k.code == KeyInput::F(1) {
        r == AppAction::Nothing && moved(a1, a0, Mode::Help, a0.list_cursor)
    } else if is_char(k, '/') || is_char(k, 'i') || is_char(k, 's') || k.code == KeyInput::Tab {
        r == AppAction::Nothing && moved(a1, a0, Mode::Search, a0.list_cursor)
    } else if is_char(k, 'f') {
        r == AppAction::Nothing && refiltered_with(a1, a0, a0.query@, next_filter(a0.source_filter))
    } else if k.code == KeyInput::Down || is_char(k, 'j') {
        r == AppAction::Nothing && moved(a1, a0, a0.mode, cursor_down(a0.list_cursor, len))
    } else if k.code == KeyInput::Up || is_char(k, 'k') {
        r == AppAction::Nothing && moved(a1, a0, a0.mode, cursor_up(a0.list_cursor))
    } else if k.code == KeyInput::PageDown {
        r == AppAction::Nothing && moved(a1, a0, a0.mode, page_down(a0.list_cursor, a0.list_page_size, len))
    } else if k.code == KeyInput::PageUp {
        r == AppAction::Nothing && moved(a1, a0, a0.mode, page_up(a0.list_cursor, a0.list_page_size))
    } else if k.code == KeyInput::Enter {
        r == AppAction::Connect && unchanged(a1, a0)
    } else if is_char(k, ' ') {
        &&& r == AppAction::Nothing
        &&& core_same(a1, a0)
        &&& a1.mode == a0.mode
        &&& a1.should_quit == a0.should_quit
        &&& a1.list_cursor == cursor_down(a0.list_cursor, len)
        &&& a1.multi_selected@ == toggled(a0)
    } else if control_only(k) && is_char(k, 'a') {
        &&& r == AppAction::Nothing
        &&& core_same(a1, a0)
        &&& a1.mode == a0.mode
        &&& a1.should_quit == a0.should_quit
        &&& a1.list_cursor == a0.list_cursor
        &&& a1.multi_selected@ == a0.multi_selected@.union(a0.filtered@.map_values(|e: (usize, i64)| e.0).to_set())
    } else if control_only(k) && is_char(k, 'd') {
        &&& r == AppAction::Nothing
        &&& core_same(a1, a0)
        &&& a1.mode == a0.mode
        &&& a1.should_quit == a0.should_quit
        &&& a1.list_cursor == a0.list_cursor
        &&& a1.multi_selected@ == Set::<usize>::empty()
    } else if is_char(k, 'c') {
        r == AppAction::OpenEditor && unchanged(a1, a0)
    } else if is_char(k, 'e') {
        &&& r == AppAction::Nothing
        &&& opened_editor(a0, a1)
    } else {
        r == AppAction::Nothing && unchanged(a1, a0)
    }
}

/// The edit overlay opened on the host under the cursor (nothing happens
/// when the list is empty).
pub open spec fn opened_editor(a0: App, a1: App) -> bool {
    if a0.list_cursor < a0.filtered@.len() {
        let idx = a0.filtered@[a0.list_cursor as int].0;
        let h = a0.hosts@[idx as int]@;
        &&& a1.mode == Mode::EditHost
        &&& a1.edit_state matches Some(e) && e.host_idx == idx && e.active_field == EditField::User
            && e.user_input@ == unwrap_or_empty(h.user) && e.alias_input@ == unwrap_or_empty(h.alias)
            && e.label_input@ == unwrap_or_empty(h.label) && e.jump_input@ == unwrap_or_empty(h.jump_host)
        &&& a1.same_but_ui_and_edit(&a0)
    } else {
        unchanged(a1, a0)
    }
}

/// What saving the edit overlay does: the host takes the edited values
/// (empty input: none; else trimmed), the config records them as the
/// host's override, and the overlay closes.
pub open spec fn saved_edit(a0: App, a1: App, e: EditState) -> bool {
    let h0 = a0.hosts@[e.host_idx as int]@;
    let h1 = HostModel {
        user: saved_value(e.user_input@),
        alias: saved_value(e.alias_input@),
        label: saved_value(e.label_input@),
        jump_host: saved_value(e.jump_input@),
        ..h0
    };
    &&& a1.hosts@.len() == a0.hosts@.len()
    &&& a1.hosts@[e.host_idx as int]@ == h1
    &&& forall|j: int| 0 <= j < a0.hosts@.len() && j != e.host_idx ==> #[trigger] a1.hosts@[j] == a0.hosts@[j]
    &&& overrides_view(a1.config.host_overrides@) == upserted(
        overrides_view(a0.config.host_overrides@),
        HostOverrideModel {
            hostname: h0.hostname,
            user: h1.user,
            alias: h1.alias,
            label: h1.label,
            jump_host: h1.jump_host,
        },
    )
    &&& a1.config.settings == a0.config.settings
    &&& a1.config.inventory == a0.config.inventory
    &&& a1.config.ip_labels == a0.config.ip_labels
    &&& a1.config.jump_hosts == a0.config.jump_hosts
    &&& a1.edit_state is None
    &&& a1.mode == a0.mode
    &&& a1.filtered == a0.filtered
    &&& a1.query == a0.query
    &&& a1.list_cursor == a0.list_cursor
    &&& a1.list_scroll == a0.list_scroll
    &&& a1.list_page_size == a0.list_page_size
    &&& a1.multi_selected@ == a0.multi_selected@
    &&& a1.status == a0.status
    &&& a1.should_quit == a0.should_quit
}

/// `a1` is `a0` with the edit state `e1`.
pub open spec fn edited(a1: App, a0: App, e1: EditState) -> bool {
    &&& a1.edit_state == Some(e1)
    &&& a1.same_but_ui_and_edit(&a0)
    &&& a1.mode == a0.mode
}

/// Keys in the edit overlay.
pub open spec fn edit_key(a0: App, a1: App, k: Key, r: AppAction) -> bool {
    match a0.edit_state {
        None => r == AppAction::Nothing && unchanged(a1, a0),
        Some(e) => if k.code == KeyInput::Esc {
            &&& r == AppAction::Nothing
            &&& a1.edit_state is None
            &&& a1.mode == Mode::Navigate
            &&& a1.same_but_ui_and_edit(&a0)
        } else if k.code == KeyInput::Tab {
            r == AppAction::Nothing && (a1.edit_state matches Some(e1) && edited(a1, a0, e1) && e1.active_field == next_field(e.active_field) && e1.host_idx == e.host_idx
                    && e1.user_input == e.user_input && e1.alias_input == e.alias_input
                    && e1.label_input == e.label_input && e1.jump_input == e.jump_input)
        } else if k.code == KeyInput::BackTab {
            r == AppAction::Nothing && (a1.edit_state matches Some(e1) && edited(a1, a0, e1) && e1.active_field == prev_field(e.active_field) && e1.host_idx == e.host_idx
                    && e1.user_input == e.user_input && e1.alias_input == e.alias_input
                    && e1.label_input == e.label_input && e1.jump_input == e.jump_input)
        } else if k.code == KeyInput::Backspace {
            r == AppAction::Nothing && (a1.edit_state matches Some(e1) && edited(a1, a0, e1) && with_active_input(e, e1, popped(input_of(e, e.active_field))))
        } else if control_only(k) && is_char(k, 'u') {
            r == AppAction::Nothing && (a1.edit_state matches Some(e1) && edited(a1, a0, e1) && with_active_input(e, e1, seq![]))
        } else if k.code == KeyInput::Enter {
            r == AppAction::SaveConfig(e.host_idx) && saved_edit(a0, a1, e)
        } else if let KeyInput::Char(c) = k.code {
            r == AppAction::Nothing && (a1.edit_state matches Some(e1) && edited(a1, a0, e1) && with_active_input(e, e1, input_of(e, e.active_field).push(c)))
        } else {
            r == AppAction::Nothing && unchanged(a1, a0)
        },
    }
}

/// `s` with its last character removed (std `String::pop`).
pub(crate) fn pop_char(s: &String) -> (r: String)
    ensures
        r@ == popped(s@),
{
    let v = chars_of(s.as_str());
    if v.len() == 0 {
        return String::new();
    }
    let t = crate::text::slice_of(&v, 0, v.len() - 1);
    assert(t@ =~= v@.drop_last());
    string_of(&t)
}

pub(crate) fn push_to(s: &String, c: char) -> (r: String)
    ensures
        r@ == s@.push(c),
{
    let mut t = s.clone();
    crate::external::push_char(&mut t, c);
    t
}

fn edited_input(e: &EditState, new_input: String) -> (r: EditState)
    ensures
        with_active_input(*e, r, new_input@),
{
    let mut r = EditState {
        host_idx: e.host_idx,
        user_input: e.user_input.clone(),
        alias_input: e.alias_input.clone(),
        label_input: e.label_input.clone(),
        jump_input: e.jump_input.clone(),
        active_field: e.active_field,
    };
    match e.active_field {
        EditField::User => {
            r.user_input = new_input;
        },
        EditField::Alias => {
            r.alias_input = new_input;
        },
        EditField::Label => {
            r.label_input = new_input;
        },
        EditField::JumpHost => {
            r.jump_input = new_input;
        },
    }
    r
}

fn active_input(e: &EditState) -> (r: &String)
    ensures
        r@ == input_of(*e, e.active_field),
{
    match e.active_field {
        EditField::User => &e.user_input,
        EditField::Alias => &e.alias_input,
        EditField::Label => &e.label_input,
        EditField::JumpHost => &e.jump_input,
    }
}

fn saved_value_exec(input: &String) -> (r: Option<String>)
    ensures
        opt_view(r) == saved_value(input@),
{
    if input.as_str().is_empty() {
        None
    } else {
        Some(trim_str(input.as_str()))
    }
}

impl App {
    /// Applies the edit overlay's inputs to its host, records them as the
    /// host's override and closes the overlay; returns the host's index.
    pub fn apply_edit_overlay(&mut self) -> (r: Option<usize>)
        requires
            old(self).wf(),
        ensures
            final(self).wf(),
            match old(self).edit_state {
                Some(e) => r == Some(e.host_idx) && saved_edit(*old(self), *final(self), e),
                None => r is None && unchanged(*final(self), *old(self)),
            },
    {
        let state = match self.edit_state.take() {
            Some(s) => s,
            None => return None,
        };
        let idx = state.host_idx;
        let mut host = self.hosts[idx].copy();
        host.user = saved_value_exec(&state.user_input);
        host.alias = saved_value_exec(&state.alias_input);
        host.label = saved_value_exec(&state.label_input);
        host.jump_host = saved_value_exec(&state.jump_input);
        let ov = HostOverride {
            hostname: host.hostname.clone(),
            user: clone_opt(&host.user),
            alias: clone_opt(&host.alias),
            label: clone_opt(&host.label),
            jump_host: clone_opt(&host.jump_host),
        };
        let ghost before = self.hosts@;
        self.hosts.set(idx, host);
        self.config.upsert_override(ov);
        assert forall|j: int| 0 <= j < before.len() && j != idx implies #[trigger] self.hosts@[j] == before[j] by {}
        Some(idx)
    }

    /// After the config is written: report the save and return to the list.
    pub fn finish_save(&mut self, idx: usize)
        requires
            old(self).wf(),
            idx < old(self).hosts@.len(),
        ensures
            final(self).wf(),
            final(self).status matches Some(s) && s@ == "Saved overrides for "@ + old(self).hosts@[idx as int].hostname@,
            final(self).mode == Mode::Navigate,
            final(self).hosts == old(self).hosts,
            final(self).config == old(self).config,
            final(self).filtered == old(self).filtered,
            final(self).list_cursor == old(self).list_cursor,
            final(self).edit_state == old(self).edit_state,
    {
        let msg = concat(&chars_of("Saved overrides for "), &chars_of(self.hosts[idx].hostname.as_str()));
        self.status = Some(string_of(&msg));
        self.mode = Mode::Navigate;
    }

    /// Reacts to a key press; returns what the caller has to do next.
    pub fn handle_key(&mut self, key: Key) -> (r: AppAction)
        requires
            old(self).wf(),
            old(self).list_cursor + old(self).list_page_size <= usize::MAX,
        ensures
            final(self).wf(),
            old(self).mode == Mode::Help ==> help_key(*old(self), *final(self), key, r),
            old(self).mode == Mode::Search ==> search_key(*old(self), *final(self), key, r),
            old(self).mode == Mode::Navigate ==> navigate_key(*old(self), *final(self), key, r),
            old(self).mode == Mode::EditHost ==> edit_key(*old(self), *final(self), key, r),
    {
        let ctrl = key.modifiers == 2;
        match self.mode {
            Mode::Help => {
                match key.code {
                    KeyInput::Esc | KeyInput::Char('q') | KeyInput::Char('?') | KeyInput::F(1) => {
                        self.mode = Mode::Navigate;
                    },
                    _ => {},
                }
                AppAction::Nothing
            },
            Mode::Search => {
                match key.code {
                    KeyInput::Esc => {
                        if self.query.as_str().is_empty() {
                            self.mode = Mode::Navigate;
                        } else {
                            self.query = String::new();
                            self.update_filter();
                        }
                        AppAction::Nothing
                    },
                    KeyInput::Backspace => {
                        self.query = pop_char(&self.query);
                        self.update_filter();
                        AppAction::Nothing
                    },
                    KeyInput::Char('u') if ctrl => {
                        self.query = String::new();
                        self.update_filter();
                        AppAction::Nothing
                    },
                    KeyInput::Char('c') if ctrl => {
                        self.should_quit = true;
                        AppAction::Nothing
                    },
                    KeyInput::Char('d') if ctrl => {
                        self.multi_selected.clear();
                        AppAction::Nothing
                    },
                    KeyInput::Down | KeyInput::Tab => {
                        self.mode = Mode::Navigate;
                        self.move_down();
                        AppAction::Nothing
                    },
                    KeyInput::Char('n') if ctrl => {
                        self.mode = Mode::Navigate;
                        self.move_down();
                        AppAction::Nothing
                    },
                    KeyInput::Up => {
                        self.mode = Mode::Navigate;
                        self.move_up();
                        AppAction::Nothing
                    },
                    KeyInput::Char('p') if ctrl => {
                        self.mode = Mode::Navigate;
                        self.move_up();
                        AppAction::Nothing
                    },
                    KeyInput::PageDown => {
                        self.mode = Mode::Navigate;
                        self.move_page_down();
                        AppAction::Nothing
                    },
                    KeyInput::PageUp => {
                        self.mode = Mode::Navigate;
                        self.move_page_up();
                        AppAction::Nothing
                    },
                    KeyInput::Enter => {
                        if self.filtered.len() > 0 {
                            AppAction::Connect
                        } else {
                            AppAction::Nothing
                        }
                    },
                    KeyInput::Char(c) => {
                        self.query = push_to(&self.query, c);
                        self.update_filter();
                        AppAction::Nothing
                    },
                    _ => AppAction::Nothing,
                }
            },
            Mode::Navigate => {
                match key.code {
                    KeyInput::Char('q') => {
                        self.should_quit = true;
                        AppAction::Nothing
                    },
                    KeyInput::Char('c') if ctrl => {
                        self.should_quit = true;
                        AppAction::Nothing
                    },
                    KeyInput::Char('?') | KeyInput::F(1) => {
                        self.mode = Mode::Help;
                        AppAction::Nothing
                    },
                    KeyInput::Char('/') | KeyInput::Char('i') | KeyInput::Char('s') | KeyInput::Tab => {
                        self.mode = Mode::Search;
                        AppAction::Nothing
                    },
                    KeyInput::Char('f') => {
                        self.source_filter = self.source_filter.next();
                        self.update_filter();
                        AppAction::Nothing
                    },
                    KeyInput::Down | KeyInput::Char('j') => {
                        self.move_down();
                        AppAction::Nothing
                    },
                    KeyInput::Up | KeyInput::Char('k') => {
                        self.move_up();
                        AppAction::Nothing
                    },
                    KeyInput::PageDown => {
                        self.move_page_down();
                        AppAction::Nothing
                    },
                    KeyInput::PageUp => {
                        self.move_page_up();
                        AppAction::Nothing
                    },
                    KeyInput::Enter => AppAction::Connect,
                    KeyInput::Char(' ') => {
                        self.toggle_multi_select();
                        AppAction::Nothing
                    },
                    KeyInput::Char('a') if ctrl => {
                        self.select_all_listed();
                        AppAction::Nothing
                    },
                    KeyInput::Char('d') if ctrl => {
                        self.multi_selected.clear();
                        AppAction::Nothing
                    },
                    KeyInput::Char('c') => AppAction::OpenEditor,
                    KeyInput::Char('e') => {
                        self.open_edit_overlay();
                        AppAction::Nothing
                    },
                    _ => AppAction::Nothing,
                }
            },
            Mode::EditHost => {
                let state = match &self.edit_state {
                    Some(s) => s,
                    None => return AppAction::Nothing,
                };
                match key.code {
                    KeyInput::Esc => {
                        self.edit_state = None;
                        self.mode = Mode::Navigate;
                        AppAction::Nothing
                    },
                    KeyInput::Tab | KeyInput::BackTab => {
                        let f = if key.code == KeyInput::Tab {
                            state.active_field.next()
                        } else {
                            state.active_field.prev()
                        };
                        let e1 = EditState {
                            host_idx: state.host_idx,
                            user_input: state.user_input.clone(),
                            alias_input: state.alias_input.clone(),
                            label_input: state.label_input.clone(),
                            jump_input: state.jump_input.clone(),
                            active_field: f,
                        };
                        self.edit_state = Some(e1);
                        AppAction::Nothing
                    },
                    KeyInput::Backspace => {
                        let t = pop_char(active_input(state));
                        let e1 = edited_input(state, t);
                        self.edit_state = Some(e1);
                        AppAction::Nothing
                    },
                    KeyInput::Char('u') if ctrl => {
                        let e1 = edited_input(state, String::new());
                        self.edit_state = Some(e1);
                        AppAction::Nothing
                    },
                    KeyInput::Enter => {
                        match self.apply_edit_overlay() {
                            Some(idx) => AppAction::SaveConfig(idx),
                            None => AppAction::Nothing,
                        }
                    },
                    KeyInput::Char(c) => {
                        let t = push_to(active_input(state), c);
                        let e1 = edited_input(state, t);
                        self.edit_state = Some(e1);
                        AppAction::Nothing
                    },
                    _ => AppAction::Nothing,
                }
            },
        }
    }
}

/// The arguments of the ssh command for a host: `-J jump`, `-i identity`
/// (with `~` expanded), `-p port`, the configured extra arguments split at
/// whitespace, then the connect target.
pub open spec fn ssh_args_of(h: HostModel, extra: Option<Seq<char>>, home: Option<Seq<char>>) -> Seq<Seq<char>> {
    let a: Seq<Seq<char>> = match h.jump_host {
        Some(j) => seq![seq!['-', 'J'], j],
        None => seq![],
    };
    let b = a + match h.identity_file {
        Some(i) => seq![seq!['-', 'i'], tilde_expansion(i, home)],
        None => Seq::<Seq<char>>::empty(),
    };
    let c = b + match h.port {
        Some(p) => seq![seq!['-', 'p'], decimal(p as nat)],
        None => Seq::<Seq<char>>::empty(),
    };
    let d = c + match extra {
        Some(x) => words(x),
        None => Seq::<Seq<char>>::empty(),
    };
    d.push(connect_target_of(h))
}

fn push_vec_string(args: &mut Vec<String>, v: &Vec<char>)
    ensures
        strings_view(final(args)@) == strings_view(old(args)@).push(v@),
{
    let ghost before = args@;
    args.push(string_of(v));
    assert(strings_view(args@) =~= strings_view(before).push(v@));
}

impl App {
    /// The ssh arguments for `host`, `~` in its identity file expanded with
    /// the given home directory.
    pub fn ssh_args_with_home(&self, host: &Host, home: &Option<String>) -> (r: Vec<String>)
        ensures
            strings_view(r@) == ssh_args_of(host@, opt_view(self.config.settings.ssh_extra_args), opt_view(*home)),
    {
        let mut args: Vec<String> = Vec::new();
        let ghost h = host@;
        let ghost a: Seq<Seq<char>> = match h.jump_host {
            Some(j) => seq![seq!['-', 'J'], j],
            None => seq![],
        };
        if let Some(jump) = &host.jump_host {
            push_vec_string(&mut args, &crate::text::chars_of("-J"));
            proof {
                reveal_strlit("-J");
                assert("-J"@ =~= seq!['-', 'J']);
            }
            push_vec_string(&mut args, &chars_of(jump.as_str()));
        }
        assert(strings_view(args@) =~= a);
        let ghost b = a + match h.identity_file {
            Some(i) => seq![seq!['-', 'i'], tilde_expansion(i, opt_view(*home))],
            None => Seq::<Seq<char>>::empty(),
        };
        if let Some(id) = &host.identity_file {
            push_vec_string(&mut args, &chars_of("-i"));
            proof {
                reveal_strlit("-i");
                assert("-i"@ =~= seq!['-', 'i']);
            }
            let e = tilde_with_home(id.as_str(), home);
            push_vec_string(&mut args, &chars_of(e.as_str()));
        }
        assert(strings_view(args@) =~= b);
        let ghost c = b + match h.port {
            Some(p) => seq![seq!['-', 'p'], decimal(p as nat)],
            None => Seq::<Seq<char>>::empty(),
        };
        if let Some(port) = host.port {
            push_vec_string(&mut args, &chars_of("-p"));
            proof {
                reveal_strlit("-p");
                assert("-p"@ =~= seq!['-', 'p']);
            }
            push_vec_string(&mut args, &decimal_vec(port));
        }
        assert(strings_view(args@) =~= c);
        if let Some(extra) = &self.config.settings.ssh_extra_args {
            let ws = words_vec(&chars_of(extra.as_str()));
            let mut i: usize = 0;
            while i < ws.len()
                invariant
                    i <= ws.len(),
                    strings_view(args@) == c + vv(ws@).take(i as int),
                decreases ws.len() - i,
            {
                push_vec_string(&mut args, &ws[i]);
                assert(c + vv(ws@).take(i + 1) =~= (c + vv(ws@).take(i as int)).push(ws@[i as int]@));
                i += 1;
            }
            assert(vv(ws@).take(ws.len() as int) =~= vv(ws@));
        } else {
            assert(c + Seq::<Seq<char>>::empty() =~= c);
        }
        let target = host.connect_target();
        push_vec_string(&mut args, &chars_of(target.as_str()));
        args
    }

    /// The ssh arguments for `host`, `~` expanded with the current home directory.
    pub fn ssh_args(&self, host: &Host) -> (r: Vec<String>)
        ensures
            exists|home: Option<Seq<char>>| strings_view(r@) == ssh_args_of(host@, opt_view(self.config.settings.ssh_extra_args), home),
    {
        let home = home_dir();
        self.ssh_args_with_home(host, &home)
    }
}

} // verus!
