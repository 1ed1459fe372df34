//! The first-run setup wizard's state: reviewing discovered sources, adding
//! one by hand, editing IP labels, and the config it produces.

use vstd::prelude::*;
use crate::app::{Key, KeyInput, is_char, pop_char, popped, push_to};
use crate::config::{Config, HostOverride, InventoryConfig, IpLabel, JumpHostRule, Settings, check_label, check_line};
use crate::discovery::{DiscoveredSource, counted_label, counted_label_exec};
use crate::external::{home_dir, tilde_expansion, tilde_with_home};
use crate::text::{
    chars_of, concat, contains_char, ends_with, ends_with_vec, opt_view, slice_of, string_from,
    string_of, trim, trim_vec,
};

verus! {

#[derive(Debug, Clone, Copy, PartialEq, Eq, Structural)]
pub enum WizardStep {
    /// Background scan running, showing spinner + live results
    Scanning,
    /// Scan done (or timed out), user reviews sources
    ReviewSources,
    /// User is typing a manual path to add
    ManualAdd,
    /// Optional: add IP range labels
    IpLabels,
    /// Typing a new IP label entry
    AddIpLabel,
    /// Done: the config is ready to be written
    Done,
}

#[derive(Debug, Clone, Copy, PartialEq, Eq, Structural)]
pub enum IpLabelField {
    Pattern,
    Label,
}

pub struct IpLabelEntry {
    pub pattern: String,
    pub label: String,
    pub editing_field: IpLabelField,
    pub pattern_input: String,
    pub label_input: String,
}

pub struct Wizard {
    pub step: WizardStep,
    pub sources: Vec<DiscoveredSource>,
    pub scan_done: bool,
    pub cursor: usize,
    pub spinner_tick: usize,
    pub manual_input: String,
    pub manual_error: Option<String>,
    pub ip_labels: Vec<IpLabel>,
    pub ip_label_cursor: usize,
    pub label_entry: Option<IpLabelEntry>,
    /// The settings, jump host rules and host overrides the written config
    /// keeps (those of the config being reconfigured, if any).
    pub settings: Settings,
    pub jump_hosts: Vec<JumpHostRule>,
    pub host_overrides: Vec<HostOverride>,
}

/// What the caller does after a key: keep going, quit without saving, or
/// probe the path typed into the manual-add field.
#[derive(Debug, Clone, Copy, PartialEq, Eq, Structural)]
pub enum WizardAction {
    Continue,
    Quit,
    CommitManualAdd,
}

/// The IP labels the wizard starts with.
pub open spec fn default_labels(ls: Seq<IpLabel>) -> bool {
    &&& ls.len() == 3
    &&& ls[0].pattern@ == "192.168.*"@ && ls[0].label@ == "Local Network"@ && opt_view(ls[0].color) == Some("green"@)
    &&& ls[1].pattern@ == "10.0.*"@ && ls[1].label@ == "Private (10.0)"@ && ls[1].color is None
    &&& ls[2].pattern@ == "172.16.*"@ && ls[2].label@ == "Private (172.16)"@ && ls[2].color is None
}

/// Sensible default IP labels shown pre-filled in the wizard.
/// The user can delete or add to these.
pub fn default_ip_labels() -> (r: Vec<IpLabel>)
    ensures
        default_labels(r@),
{
    let mut r: Vec<IpLabel> = Vec::new();
    r.push(IpLabel { pattern: string_from("192.168.*"), label: string_from("Local Network"), color: Some(string_from("green")) });
    r.push(IpLabel { pattern: string_from("10.0.*"), label: string_from("Private (10.0)"), color: None });
    r.push(IpLabel { pattern: string_from("172.16.*"), label: string_from("Private (172.16)"), color: None });
    r
}

/// The path (or pattern) of an inventory source.
pub fn config_path(c: &InventoryConfig) -> (r: String)
    ensures
        r@ == c.path_of(),
{
    c.path()
}

/// Whether the control bit is among the modifiers.
pub open spec fn has_control(k: Key) -> bool {
    (k.modifiers / 2) % 2 == 1
}

pub open spec fn selected_configs(ss: Seq<DiscoveredSource>) -> Seq<InventoryConfig>
    decreases ss.len(),
{
    if ss.len() == 0 {
        seq![]
    } else {
        let prev = selected_configs(ss.drop_last());
        if ss.last().selected {
            prev.push(ss.last().config)
        } else {
            prev
        }
    }
}

/// The manual-add input classified: a glob is an Ansible pattern, a
/// `.yaml`/`.yml` path a YAML inventory, anything else a directory whose
/// `*/hosts_*` files are an Ansible inventory.
pub open spec fn manual_kind(expanded: Seq<char>) -> int {
    if expanded.contains('*') {
        0
    } else if ends_with(expanded, ".yaml"@) || ends_with(expanded, ".yml"@) {
        1
    } else {
        2
    }
}

/// `s` without trailing `/`.
pub open spec fn trim_slashes(s: Seq<char>) -> Seq<char>
    decreases s.len(),
{
    if s.len() > 0 && s.last() == '/' {
        trim_slashes(s.drop_last())
    } else {
        s
    }
}

/// The path the manual-add source records for an expanded input.
pub open spec fn manual_path(expanded: Seq<char>) -> Seq<char> {
    if manual_kind(expanded) == 2 {
        trim_slashes(expanded) + "/"@ + "*/hosts_*"@
    } else {
        expanded
    }
}

pub open spec fn manual_type_label(expanded: Seq<char>) -> Seq<char> {
    if manual_kind(expanded) == 1 {
        "yaml"@
    } else {
        "ansible"@
    }
}

/// `r` is the source the manual-add field names: the raw trimmed input
/// `raw`, expanded to `ex`, classified and turned into a path.
pub open spec fn manual_candidate_for(r: Option<(InventoryConfig, String, String)>, raw: Seq<char>, ex: Seq<char>) -> bool {
    &&& r matches Some((c, t, rw))
    &&& c.path_of() == manual_path(ex)
    &&& t@ == manual_type_label(ex)
    &&& rw@ == raw
    &&& (manual_kind(ex) == 1 <==> c is Yaml)
    &&& (manual_kind(ex) != 1 <==> c is Ansible)
}

/// Everything but the step, the two cursors and the scan flag is as before.
pub open spec fn wz_rest_same(w0: Wizard, w1: Wizard) -> bool {
    &&& w1.sources == w0.sources
    &&& w1.spinner_tick == w0.spinner_tick
    &&& w1.manual_input == w0.manual_input
    &&& w1.manual_error == w0.manual_error
    &&& w1.ip_labels == w0.ip_labels
    &&& w1.label_entry == w0.label_entry
}

/// `w1` is `w0` on step `step` with the cursors at `c` and `lc`.
pub open spec fn wz_at(w0: Wizard, w1: Wizard, step: WizardStep, c: int, lc: int) -> bool {
    &&& wz_rest_same(w0, w1)
    &&& w1.step == step
    &&& w1.cursor == c
    &&& w1.ip_label_cursor == lc
    &&& w1.scan_done == w0.scan_done
}

pub open spec fn wz_unchanged(w0: Wizard, w1: Wizard) -> bool {
    wz_at(w0, w1, w0.step, w0.cursor as int, w0.ip_label_cursor as int)
}

/// The label entry has been closed: a trimmed, nonempty pattern and label
/// were appended as a new IP label with the cursor on the "add" row;
/// otherwise the labels are as they were.
pub open spec fn label_committed(w0: Wizard, w1: Wizard) -> bool {
    &&& w1.step == WizardStep::IpLabels
    &&& w1.label_entry is None
    &&& match w0.label_entry {
        Some(e) => if trim(e.pattern_input@).len() > 0 && trim(e.label_input@).len() > 0 {
            &&& w1.ip_labels@.len() == w0.ip_labels@.len() + 1
            &&& w1.ip_labels@.take(w0.ip_labels@.len() as int) == w0.ip_labels@
            &&& w1.ip_labels@.last().pattern@ == trim(e.pattern_input@)
            &&& w1.ip_labels@.last().label@ == trim(e.label_input@)
            &&& w1.ip_labels@.last().color is None
            &&& w1.ip_label_cursor == w1.ip_labels@.len()
        } else {
            w1.ip_labels == w0.ip_labels && w1.ip_label_cursor == w0.ip_label_cursor
        },
        None => w1.ip_labels == w0.ip_labels && w1.ip_label_cursor == w0.ip_label_cursor,
    }
    &&& w1.sources == w0.sources
    &&& w1.cursor == w0.cursor
    &&& w1.scan_done == w0.scan_done
    &&& w1.spinner_tick == w0.spinner_tick
    &&& w1.manual_input == w0.manual_input
    &&& w1.manual_error == w0.manual_error
}

/// A source with its tick flipped.
pub open spec fn toggled(s: DiscoveredSource) -> DiscoveredSource {
    DiscoveredSource { selected: !s.selected, ..s }
}

/// Keys while the scan runs: Enter or Space stop waiting.
pub open spec fn scanning_key(w0: Wizard, w1: Wizard, k: Key) -> bool {
    if k.code == KeyInput::Enter || is_char(k, ' ') {
        &&& wz_rest_same(w0, w1)
        &&& w1.step == WizardStep::ReviewSources
        &&& w1.scan_done
        &&& w1.cursor == w0.cursor
        &&& w1.ip_label_cursor == w0.ip_label_cursor
    } else {
        wz_unchanged(w0, w1)
    }
}

/// Keys on the source review: move, tick, open the manual add (on the row
/// after the sources), go on to the labels, or skip to the end.
pub open spec fn review_key(w0: Wizard, w1: Wizard, k: Key) -> bool {
    let c = w0.cursor as int;
    let n = w0.sources@.len() as int;
    let lc = w0.ip_label_cursor as int;
    if k.code == KeyInput::Up || is_char(k, 'k') {
        wz_at(w0, w1, WizardStep::ReviewSources, if c > 0 { c - 1 } else { c }, lc)
    } else if k.code == KeyInput::Down || is_char(k, 'j') {
        wz_at(w0, w1, WizardStep::ReviewSources, if c < n { c + 1 } else { c }, lc)
    } else if is_char(k, ' ') {
        if c < n {
            &&& w1.sources@ == w0.sources@.update(c, toggled(w0.sources@[c]))
            &&& w1.step == w0.step && w1.cursor == w0.cursor && w1.ip_label_cursor == w0.ip_label_cursor
            &&& w1.scan_done == w0.scan_done && w1.spinner_tick == w0.spinner_tick
            &&& w1.manual_input == w0.manual_input && w1.manual_error == w0.manual_error
            &&& w1.ip_labels == w0.ip_labels && w1.label_entry == w0.label_entry
        } else {
            wz_unchanged(w0, w1)
        }
    } else if k.code == KeyInput::Enter {
        if c == n {
            &&& w1.step == WizardStep::ManualAdd
            &&& w1.manual_input@.len() == 0
            &&& w1.manual_error is None
            &&& w1.sources == w0.sources && w1.cursor == w0.cursor && w1.ip_label_cursor == w0.ip_label_cursor
            &&& w1.scan_done == w0.scan_done && w1.spinner_tick == w0.spinner_tick
            &&& w1.ip_labels == w0.ip_labels && w1.label_entry == w0.label_entry
        } else {
            wz_at(w0, w1, WizardStep::IpLabels, c, 0)
        }
    } else if is_char(k, 'n') {
        wz_at(w0, w1, WizardStep::Done, c, lc)
    } else {
        wz_unchanged(w0, w1)
    }
}

/// `w1` is `w0` with the manual-add field changed.
pub open spec fn manual_edited(w0: Wizard, w1: Wizard, input: Seq<char>, error_cleared: bool) -> bool {
    &&& w1.manual_input@ == input
    &&& if error_cleared { w1.manual_error is None } else { w1.manual_error == w0.manual_error }
    &&& w1.step == w0.step && w1.cursor == w0.cursor && w1.ip_label_cursor == w0.ip_label_cursor
    &&& w1.scan_done == w0.scan_done && w1.spinner_tick == w0.spinner_tick
    &&& w1.sources == w0.sources && w1.ip_labels == w0.ip_labels && w1.label_entry == w0.label_entry
}

/// Keys while typing a path: Esc goes back, Backspace deletes, Enter asks
/// the caller to probe the path, any other character is typed.
pub open spec fn manual_key(w0: Wizard, w1: Wizard, k: Key) -> bool {
    if k.code == KeyInput::Esc {
        wz_at(w0, w1, WizardStep::ReviewSources, w0.cursor as int, w0.ip_label_cursor as int)
    } else if k.code == KeyInput::Backspace {
        manual_edited(w0, w1, popped(w0.manual_input@), false)
    } else if k.code == KeyInput::Enter {
        wz_unchanged(w0, w1)
    } else if k.code is Char {
        manual_edited(w0, w1, w0.manual_input@.push(k.code->Char_0), true)
    } else {
        wz_unchanged(w0, w1)
    }
}

/// An empty label entry on the pattern field.
pub open spec fn fresh_entry(e: IpLabelEntry) -> bool {
    &&& e.pattern@.len() == 0
    &&& e.label@.len() == 0
    &&& e.editing_field == IpLabelField::Pattern
    &&& e.pattern_input@.len() == 0
    &&& e.label_input@.len() == 0
}

/// Keys on the IP label list: move, delete the label under the cursor, open
/// a new entry (on the row after the labels) or finish.
pub open spec fn labels_key(w0: Wizard, w1: Wizard, k: Key) -> bool {
    let c = w0.cursor as int;
    let lc = w0.ip_label_cursor as int;
    let n = w0.ip_labels@.len() as int;
    if k.code == KeyInput::Up || is_char(k, 'k') {
        wz_at(w0, w1, WizardStep::IpLabels, c, if lc > 0 { lc - 1 } else { lc })
    } else if k.code == KeyInput::Down || is_char(k, 'j') {
        wz_at(w0, w1, WizardStep::IpLabels, c, if lc < n { lc + 1 } else { lc })
    } else if is_char(k, 'd') || k.code == KeyInput::Delete {
        if lc < n {
            &&& w1.ip_labels@ == w0.ip_labels@.remove(lc)
            &&& w1.ip_label_cursor == if lc > 0 { lc - 1 } else { lc }
            &&& w1.step == w0.step && w1.cursor == w0.cursor
            &&& w1.scan_done == w0.scan_done && w1.spinner_tick == w0.spinner_tick
            &&& w1.sources == w0.sources && w1.manual_input == w0.manual_input
            &&& w1.manual_error == w0.manual_error && w1.label_entry == w0.label_entry
        } else {
            wz_unchanged(w0, w1)
        }
    } else if k.code == KeyInput::Enter {
        if lc == n {
            &&& (w1.label_entry matches Some(e) && fresh_entry(e))
            &&& w1.step == WizardStep::AddIpLabel
            &&& w1.cursor == w0.cursor && w1.ip_label_cursor == w0.ip_label_cursor
            &&& w1.scan_done == w0.scan_done && w1.spinner_tick == w0.spinner_tick
            &&& w1.sources == w0.sources && w1.manual_input == w0.manual_input
            &&& w1.manual_error == w0.manual_error && w1.ip_labels == w0.ip_labels
        } else {
            wz_at(w0, w1, WizardStep::Done, c, lc)
        }
    } else if is_char(k, 's') || is_char(k, 'n') {
        wz_at(w0, w1, WizardStep::Done, c, lc)
    } else {
        wz_unchanged(w0, w1)
    }
}

/// The field that the entry edits, after the change `f`.
pub open spec fn entry_edited(w0: Wizard, w1: Wizard, e1: IpLabelEntry) -> bool {
    &&& w1.label_entry == Some(e1)
    &&& w1.step == w0.step && w1.cursor == w0.cursor && w1.ip_label_cursor == w0.ip_label_cursor
    &&& w1.scan_done == w0.scan_done && w1.spinner_tick == w0.spinner_tick
    &&& w1.sources == w0.sources && w1.manual_input == w0.manual_input
    &&& w1.manual_error == w0.manual_error && w1.ip_labels == w0.ip_labels
}

/// `e1` is `e0` with the active field's text changed to `t`.
pub open spec fn active_text(e0: IpLabelEntry, e1: IpLabelEntry, t: Seq<char>) -> bool {
    &&& e1.pattern == e0.pattern && e1.label == e0.label && e1.editing_field == e0.editing_field
    &&& if e0.editing_field == IpLabelField::Pattern {
        e1.pattern_input@ == t && e1.label_input == e0.label_input
    } else {
        e1.label_input@ == t && e1.pattern_input == e0.pattern_input
    }
}

pub open spec fn active_input(e: IpLabelEntry) -> Seq<char> {
    if e.editing_field == IpLabelField::Pattern {
        e.pattern_input@
    } else {
        e.label_input@
    }
}

/// Keys in the label entry: Esc cancels, Tab switches field, Backspace and
/// characters edit the active field, Enter commits.
pub open spec fn add_label_key(w0: Wizard, w1: Wizard, k: Key) -> bool {
    if k.code == KeyInput::Esc {
        &&& w1.label_entry is None
        &&& w1.step == WizardStep::IpLabels
        &&& w1.cursor == w0.cursor && w1.ip_label_cursor == w0.ip_label_cursor
        &&& w1.scan_done == w0.scan_done && w1.spinner_tick == w0.spinner_tick
        &&& w1.sources == w0.sources && w1.manual_input == w0.manual_input
        &&& w1.manual_error == w0.manual_error && w1.ip_labels == w0.ip_labels
    } else if k.code == KeyInput::Enter {
        label_committed(w0, w1)
    } else if k.code == KeyInput::Tab {
        match w0.label_entry {
            Some(e) => entry_edited(w0, w1, IpLabelEntry {
                editing_field: if e.editing_field == IpLabelField::Pattern { IpLabelField::Label } else { IpLabelField::Pattern },
                ..e
            }),
            None => wz_unchanged(w0, w1),
        }
    } else if k.code == KeyInput::Backspace {
        match w0.label_entry {
            Some(e) => (w1.label_entry matches Some(e1) && entry_edited(w0, w1, e1) && active_text(e, e1, popped(active_input(e)))),
            None => wz_unchanged(w0, w1),
        }
    } else if k.code is Char {
        match w0.label_entry {
            Some(e) => (w1.label_entry matches Some(e1) && entry_edited(w0, w1, e1) && active_text(e, e1, active_input(e).push(k.code->Char_0))),
            None => wz_unchanged(w0, w1),
        }
    } else {
        wz_unchanged(w0, w1)
    }
}

/// One key in the wizard. Control-C quits from every step; Enter in the
/// manual-add field asks the caller to probe the typed path.
pub open spec fn wizard_key(w0: Wizard, w1: Wizard, k: Key, r: WizardAction) -> bool {
    if has_control(k) && is_char(k, 'c') {
        r == WizardAction::Quit && wz_unchanged(w0, w1)
    } else {
        &&& r == if w0.step == WizardStep::ManualAdd && k.code == KeyInput::Enter {
            WizardAction::CommitManualAdd
        } else {
            WizardAction::Continue
        }
        &&& match w0.step {
            WizardStep::Scanning => scanning_key(w0, w1, k),
            WizardStep::ReviewSources => review_key(w0, w1, k),
            WizardStep::ManualAdd => manual_key(w0, w1, k),
            WizardStep::IpLabels => labels_key(w0, w1, k),
            WizardStep::AddIpLabel => add_label_key(w0, w1, k),
            WizardStep::Done => wz_unchanged(w0, w1),
        }
    }
}

/// The settings, rules and overrides the wizard carries are as in `w0`.
pub open spec fn keeps_config(w0: Wizard, w1: Wizard) -> bool {
    &&& w1.settings == w0.settings
    &&& w1.jump_hosts == w0.jump_hosts
    &&& w1.host_overrides == w0.host_overrides
}

/// No two sources read from the same path.
pub open spec fn paths_distinct(ss: Seq<DiscoveredSource>) -> bool {
    forall|a: int, b: int| 0 <= a < b < ss.len() ==> #[trigger] ss[a].config.path_of() != #[trigger] ss[b].config.path_of()
}

/// Some source of `ss` reads from `p`.
pub open spec fn has_path(ss: Seq<DiscoveredSource>, p: Seq<char>) -> bool {
    exists|i: int| 0 <= i < ss.len() && #[trigger] ss[i].config.path_of() == p
}

/// The source listed for an inventory entry of an existing config: selected,
/// labelled with its kind and path.
pub open spec fn configured_source(s: DiscoveredSource, c: InventoryConfig) -> bool {
    &&& s.config == c
    &&& s.label@ == check_line(c)
    &&& s.host_count == 0
    &&& s.selected
}

impl Wizard {
    /// The wizard at the start of the scan. Without an existing config it
    /// starts with no sources, the default IP labels and default settings;
    /// re-running it on an existing config pre-fills that config: its
    /// sources (selected), its IP labels, and its settings, jump host rules
    /// and host overrides, which the written config keeps.
    pub fn new(existing: Option<Config>) -> (w: Wizard)
        ensures
            w.step == WizardStep::Scanning,
            !w.scan_done,
            w.cursor == 0,
            w.spinner_tick == 0,
            w.manual_input@.len() == 0,
            w.manual_error is None,
            w.ip_label_cursor == 0,
            w.label_entry is None,
            match existing {
                None => {
                    &&& w.sources@.len() == 0
                    &&& default_labels(w.ip_labels@)
                    &&& w.settings.default_user is None
                    &&& w.settings.ssh_extra_args is None
                    &&& w.settings.connect_on_single_match
                    &&& !w.settings.exit_after_connect
                    &&& w.settings.theme@ == "default"@
                    &&& w.jump_hosts@.len() == 0
                    &&& w.host_overrides@.len() == 0
                },
                Some(c) => {
                    &&& w.sources@.len() == c.inventory@.len()
                    &&& forall|i: int| 0 <= i < c.inventory@.len() ==> configured_source(#[trigger] w.sources@[i], c.inventory@[i])
                    &&& w.ip_labels == c.ip_labels
                    &&& w.settings == c.settings
                    &&& w.jump_hosts == c.jump_hosts
                    &&& w.host_overrides == c.host_overrides
                },
            },
    {
        match existing {
            None => Wizard {
                step: WizardStep::Scanning,
                sources: Vec::new(),
                scan_done: false,
                cursor: 0,
                spinner_tick: 0,
                manual_input: String::new(),
                manual_error: None,
                ip_labels: default_ip_labels(),
                ip_label_cursor: 0,
                label_entry: None,
                settings: Settings::default(),
                jump_hosts: Vec::new(),
                host_overrides: Vec::new(),
            },
            Some(c) => {
                let mut sources: Vec<DiscoveredSource> = Vec::new();
                let mut i: usize = 0;
                while i < c.inventory.len()
                    invariant
                        i <= c.inventory.len(),
                        sources@.len() == i,
                        forall|j: int| 0 <= j < i ==> configured_source(#[trigger] sources@[j], c.inventory@[j]),
                    decreases c.inventory.len() - i,
                {
                    let cfg = c.inventory[i].copy();
                    sources.push(DiscoveredSource { label: check_label(&cfg), config: cfg, host_count: 0, selected: true });
                    i += 1;
                }
                Wizard {
                    step: WizardStep::Scanning,
                    sources,
                    scan_done: false,
                    cursor: 0,
                    spinner_tick: 0,
                    manual_input: String::new(),
                    manual_error: None,
                    ip_labels: c.ip_labels,
                    ip_label_cursor: 0,
                    label_entry: None,
                    settings: c.settings,
                    jump_hosts: c.jump_hosts,
                    host_overrides: c.host_overrides,
                }
            },
        }
    }

    /// Adds a source found by the scan unless one with the same path is
    /// already listed.
    pub fn add_scanned_source(&mut self, src: DiscoveredSource)
        ensures
            (exists|i: int| 0 <= i < old(self).sources@.len() && #[trigger] old(self).sources@[i].config.path_of() == src.config.path_of())
                ==> final(self).sources@ == old(self).sources@,
            !(exists|i: int| 0 <= i < old(self).sources@.len() && #[trigger] old(self).sources@[i].config.path_of() == src.config.path_of())
                ==> final(self).sources@ == old(self).sources@.push(src),
            final(self).step == old(self).step,
            final(self).cursor == old(self).cursor,
            final(self).ip_labels == old(self).ip_labels,
            final(self).scan_done == old(self).scan_done,
            keeps_config(*old(self), *final(self)),
            paths_distinct(old(self).sources@) ==> paths_distinct(final(self).sources@),
            has_path(final(self).sources@, src.config.path_of()),
    {
        let p = chars_of(src.config.path().as_str());
        let mut i: usize = 0;
        while i < self.sources.len()
            invariant
                i <= self.sources.len(),
                p@ == src.config.path_of(),
                self.sources == old(self).sources,
                self.step == old(self).step,
                self.cursor == old(self).cursor,
                self.ip_labels == old(self).ip_labels,
                self.scan_done == old(self).scan_done,
                keeps_config(*old(self), *self),
                forall|j: int| 0 <= j < i ==> #[trigger] self.sources@[j].config.path_of() != src.config.path_of(),
            decreases self.sources.len() - i,
        {
            let q = chars_of(self.sources[i].config.path().as_str());
            if crate::text::chars_eq(&q, &p) {
                assert(self.sources@[i as int].config.path_of() == src.config.path_of());
                return;
            }
            i += 1;
        }
        let ghost before = self.sources@;
        self.sources.push(src);
        proof {
            let n = before.len() as int;
            assert(self.sources@[n].config.path_of() == src.config.path_of());
            if paths_distinct(before) {
                assert forall|x: int, y: int| 0 <= x < y < self.sources@.len() implies #[trigger] self.sources@[x].config.path_of() != #[trigger] self.sources@[y].config.path_of() by {
                    assert(self.sources@[x] == before[x]);
                    if y < n {
                        assert(self.sources@[y] == before[y]);
                    }
                }
            }
        }
    }

    /// Adds the sources the scan sent since the last turn, in order, each
    /// unless one with its path is listed: sources that were path-distinct
    /// stay so, the earlier ones stay in front, every added one comes from
    /// the batch, and every path of the batch is then listed. Once the scan
    /// has finished nothing is added.
    pub fn add_scanned_sources(&mut self, batch: Vec<DiscoveredSource>)
        ensures
            paths_distinct(old(self).sources@) ==> paths_distinct(final(self).sources@),
            final(self).sources@.len() >= old(self).sources@.len(),
            final(self).sources@.take(old(self).sources@.len() as int) == old(self).sources@,
            forall|j: int| old(self).sources@.len() <= j < final(self).sources@.len() ==> batch@.contains(#[trigger] final(self).sources@[j]),
            !old(self).scan_done ==> forall|q: int| 0 <= q < batch@.len() ==> has_path(final(self).sources@, #[trigger] batch@[q].config.path_of()),
            old(self).scan_done ==> final(self).sources == old(self).sources,
            final(self).step == old(self).step,
            final(self).cursor == old(self).cursor,
            final(self).ip_labels == old(self).ip_labels,
            final(self).scan_done == old(self).scan_done,
            keeps_config(*old(self), *final(self)),
    {
        if self.scan_done {
            assert(self.sources@.take(self.sources@.len() as int) =~= self.sources@);
            return;
        }
        let mut rest = batch;
        let ghost b0 = batch@;
        assert(b0.len() == rest.len());
        let ghost s0 = self.sources@;
        let mut i: usize = 0;
        assert(b0.skip(0) =~= b0);
        assert(self.sources@.take(s0.len() as int) =~= s0);
        while rest.len() > 0
            invariant
                i <= b0.len(),
                rest@ == b0.skip(i as int),
                b0.len() <= usize::MAX,
                b0 == batch@,
                paths_distinct(s0) ==> paths_distinct(self.sources@),
                self.sources@.len() >= s0.len(),
                self.sources@.take(s0.len() as int) == s0,
                forall|j: int| s0.len() <= j < self.sources@.len() ==> b0.contains(#[trigger] self.sources@[j]),
                forall|q: int| 0 <= q < i ==> has_path(self.sources@, #[trigger] b0[q].config.path_of()),
                self.step == old(self).step,
                self.cursor == old(self).cursor,
                self.ip_labels == old(self).ip_labels,
                self.scan_done == old(self).scan_done,
                keeps_config(*old(self), *self),
            decreases rest.len(),
        {
            assert(i < b0.len());
            let x = rest.remove(0);
            assert(x == b0[i as int]);
            assert(rest@ =~= b0.skip(i + 1));
            let ghost before = self.sources@;
            self.add_scanned_source(x);
            proof {
                let after = self.sources@;
                assert(after == before || after == before.push(b0[i as int]));
                assert(after.take(before.len() as int) =~= before);
                assert(after.take(s0.len() as int) =~= before.take(s0.len() as int));
                assert forall|j: int| s0.len() <= j < after.len() implies b0.contains(#[trigger] after[j]) by {
                    if j < before.len() {
                        assert(after[j] == before[j]);
                        assert(b0.contains(before[j]));
                    } else {
                        assert(after[j] == b0[i as int]);
                    }
                }
                assert forall|q: int| 0 <= q < i + 1 implies has_path(after, #[trigger] b0[q].config.path_of()) by {
                    if q < i {
                        let w = choose|w: int| 0 <= w < before.len() && #[trigger] before[w].config.path_of() == b0[q].config.path_of();
                        assert(after[w] == before[w]);
                    }
                }
            }
            i += 1;
        }
        assert(i == b0.len());
        assert(s0 == old(self).sources@);
    }

    /// Ends the scan (the scan finished or ran out of time).
    pub fn finish_scan(&mut self)
        ensures
            final(self).scan_done,
            final(self).step == old(self).step,
            final(self).sources == old(self).sources,
            final(self).cursor == old(self).cursor,
            keeps_config(*old(self), *final(self)),
    {
        self.scan_done = true;
    }

    /// One turn of the event loop after the key: the spinner advances, and a
    /// finished scan moves on to the review.
    pub fn tick(&mut self)
        ensures
            final(self).spinner_tick == if old(self).spinner_tick < usize::MAX {
                (old(self).spinner_tick + 1) as usize
            } else {
                0
            },
            old(self).step == WizardStep::Scanning && old(self).scan_done ==> final(self).step == WizardStep::ReviewSources && final(self).cursor == 0,
            !(old(self).step == WizardStep::Scanning && old(self).scan_done) ==> final(self).step == old(self).step && final(self).cursor == old(self).cursor,
            final(self).sources == old(self).sources,
            final(self).scan_done == old(self).scan_done,
            keeps_config(*old(self), *final(self)),
    {
        self.spinner_tick = if self.spinner_tick < usize::MAX {
            self.spinner_tick + 1
        } else {
            0
        };
        if self.step == WizardStep::Scanning && self.scan_done {
            self.step = WizardStep::ReviewSources;
            self.cursor = 0;
        }
    }

    /// The config the wizard produces: the selected sources in order, the
    /// IP labels, and the settings, jump host rules and host overrides it
    /// carries (defaults on a first run, the existing ones on a re-run).
    pub fn build_config(&self) -> (c: Config)
        ensures
            c.inventory@ == selected_configs(self.sources@),
            c.ip_labels@ == self.ip_labels@,
            c.settings == self.settings,
            c.jump_hosts@ == self.jump_hosts@,
            c.host_overrides@ == self.host_overrides@,
    {
        let mut inventory: Vec<InventoryConfig> = Vec::new();
        let mut i: usize = 0;
        while i < self.sources.len()
            invariant
                i <= self.sources.len(),
                inventory@ == selected_configs(self.sources@.take(i as int)),
            decreases self.sources.len() - i,
        {
            assert(self.sources@.take(i + 1).drop_last() =~= self.sources@.take(i as int));
            if self.sources[i].selected {
                inventory.push(self.sources[i].config.copy());
            }
            i += 1;
        }
        assert(self.sources@.take(self.sources.len() as int) =~= self.sources@);
        let mut labels: Vec<IpLabel> = Vec::new();
        let mut j: usize = 0;
        while j < self.ip_labels.len()
            invariant
                j <= self.ip_labels.len(),
                labels@ == self.ip_labels@.take(j as int),
            decreases self.ip_labels.len() - j,
        {
            labels.push(self.ip_labels[j].copy());
            assert(labels@ =~= self.ip_labels@.take(j + 1));
            j += 1;
        }
        assert(self.ip_labels@.take(self.ip_labels.len() as int) =~= self.ip_labels@);
        let mut rules: Vec<JumpHostRule> = Vec::new();
        let mut k: usize = 0;
        while k < self.jump_hosts.len()
            invariant
                k <= self.jump_hosts.len(),
                rules@ == self.jump_hosts@.take(k as int),
            decreases self.jump_hosts.len() - k,
        {
            rules.push(self.jump_hosts[k].copy());
            assert(rules@ =~= self.jump_hosts@.take(k + 1));
            k += 1;
        }
        assert(self.jump_hosts@.take(self.jump_hosts.len() as int) =~= self.jump_hosts@);
        let mut ovs: Vec<HostOverride> = Vec::new();
        let mut m: usize = 0;
        while m < self.host_overrides.len()
            invariant
                m <= self.host_overrides.len(),
                ovs@ == self.host_overrides@.take(m as int),
            decreases self.host_overrides.len() - m,
        {
            ovs.push(self.host_overrides[m].copy());
            assert(ovs@ =~= self.host_overrides@.take(m + 1));
            m += 1;
        }
        assert(self.host_overrides@.take(self.host_overrides.len() as int) =~= self.host_overrides@);
        Config {
            settings: self.settings.copy(),
            inventory,
            ip_labels: labels,
            jump_hosts: rules,
            host_overrides: ovs,
        }
    }

    /// Ends the label entry: a pattern and label that are nonempty after
    /// trimming become a new IP label (the cursor then on the "add" row).
    pub fn commit_ip_label(&mut self)
        ensures
            label_committed(*old(self), *final(self)),
            keeps_config(*old(self), *final(self)),
    {
        if let Some(entry) = self.label_entry.take() {
            let pattern = trim_vec(&chars_of(entry.pattern_input.as_str()));
            let label = trim_vec(&chars_of(entry.label_input.as_str()));
            if pattern.len() > 0 && label.len() > 0 {
                let ghost before = self.ip_labels@;
                self.ip_labels.push(IpLabel { pattern: string_of(&pattern), label: string_of(&label), color: None });
                assert(self.ip_labels@.take(before.len() as int) =~= before);
                self.ip_label_cursor = self.ip_labels.len();
            }
        }
        self.step = WizardStep::IpLabels;
    }

    /// The source the manual-add input names, `~` expanded with `home`; an
    /// empty input sets the error instead.
    pub fn manual_candidate_with_home(&mut self, home: &Option<String>) -> (r: Option<(InventoryConfig, String, String)>)
        ensures
            trim(old(self).manual_input@).len() == 0 ==> r is None && (final(self).manual_error matches Some(m) && m@ == "Path cannot be empty."@),
            trim(old(self).manual_input@).len() != 0 ==> {
                let raw = trim(old(self).manual_input@);
                let ex = tilde_expansion(raw, opt_view(*home));
                &&& manual_candidate_for(r, raw, ex)
                &&& final(self).manual_error == old(self).manual_error
            },
            final(self).step == old(self).step,
            final(self).sources == old(self).sources,
            keeps_config(*old(self), *final(self)),
            final(self).manual_input == old(self).manual_input,
    {
        let raw = trim_vec(&chars_of(self.manual_input.as_str()));
        if raw.len() == 0 {
            self.manual_error = Some(string_from("Path cannot be empty."));
            return None;
        }
        let raw_s = string_of(&raw);
        let ex = tilde_with_home(raw_s.as_str(), home);
        let exv = chars_of(ex.as_str());
        if contains_char(&exv, '*') {
            return Some((InventoryConfig::Ansible { path: ex }, string_from("ansible"), raw_s));
        }
        if ends_with_vec(&exv, &chars_of(".yaml")) || ends_with_vec(&exv, &chars_of(".yml")) {
            return Some((InventoryConfig::Yaml { path: ex }, string_from("yaml"), raw_s));
        }
        let mut j: usize = exv.len();
        assert(exv@.subrange(0, j as int) =~= exv@);
        while j > 0 && exv[j - 1] == '/'
            invariant
                j <= exv.len(),
                trim_slashes(exv@) == trim_slashes(exv@.subrange(0, j as int)),
            decreases j,
        {
            assert(exv@.subrange(0, j as int).drop_last() =~= exv@.subrange(0, j - 1));
            j -= 1;
        }
        let base = slice_of(&exv, 0, j);
        let p = concat(&concat(&base, &chars_of("/")), &chars_of("*/hosts_*"));
        Some((InventoryConfig::Ansible { path: string_of(&p) }, string_from("ansible"), raw_s))
    }

    /// The source the manual-add input names, `~` expanded with the current
    /// home directory.
    pub fn manual_candidate(&mut self) -> (r: Option<(InventoryConfig, String, String)>)
        ensures
            trim(old(self).manual_input@).len() == 0 ==> r is None && (final(self).manual_error matches Some(m) && m@ == "Path cannot be empty."@),
            trim(old(self).manual_input@).len() != 0 ==> exists|home: Option<Seq<char>>|
                #[trigger] manual_candidate_for(r, trim(old(self).manual_input@), tilde_expansion(trim(old(self).manual_input@), home)),
            final(self).step == old(self).step,
            final(self).sources == old(self).sources,
            keeps_config(*old(self), *final(self)),
    {
        let home = home_dir();
        self.manual_candidate_with_home(&home)
    }

    /// Ends the manual add once the candidate's hosts were counted: none
    /// found sets the error; otherwise the source is added, selected, and the
    /// review shows it under the cursor.
    pub fn complete_manual_add(&mut self, raw: &str, config: InventoryConfig, type_label: &str, count: usize)
        ensures
            count == 0 ==> (final(self).manual_error matches Some(m) && m@ == "No hosts found at '"@ + raw@ + "'. Check the path and try again."@)
                && final(self).sources == old(self).sources && final(self).step == old(self).step,
            count > 0 ==> {
                &&& final(self).sources@.len() == old(self).sources@.len() + 1
                &&& final(self).sources@.take(old(self).sources@.len() as int) == old(self).sources@
                &&& final(self).sources@.last().config == config
                &&& final(self).sources@.last().label@ == counted_label(raw@, count as nat, "hosts, "@ + type_label@)
                &&& final(self).sources@.last().host_count == count
                &&& final(self).sources@.last().selected
                &&& final(self).step == WizardStep::ReviewSources
                &&& final(self).cursor == old(self).sources@.len()
            },
            keeps_config(*old(self), *final(self)),
    {
        if count == 0 {
            let m = concat(&concat(&chars_of("No hosts found at '"), &chars_of(raw)), &chars_of("'. Check the path and try again."));
            self.manual_error = Some(string_of(&m));
            return;
        }
        let what = string_of(&concat(&chars_of("hosts, "), &chars_of(type_label)));
        let label = counted_label_exec(raw, count, what.as_str());
        let ghost before = self.sources@;
        self.sources.push(DiscoveredSource { label, config, host_count: count, selected: true });
        assert(self.sources@.take(before.len() as int) =~= before);
        self.step = WizardStep::ReviewSources;
        self.cursor = self.sources.len() - 1;
    }

    /// Applies one key press to the wizard.
    pub fn handle_key(&mut self, key: Key) -> (r: WizardAction)
        ensures
            wizard_key(*old(self), *final(self), key, r),
            keeps_config(*old(self), *final(self)),
    {
        if (key.modifiers / 2) % 2 == 1 && key.code == KeyInput::Char('c') {
            return WizardAction::Quit;
        }
        let code = key.code;
        match self.step {
            WizardStep::Scanning => {
                if code == KeyInput::Enter || code == KeyInput::Char(' ') {
                    self.scan_done = true;
                    self.step = WizardStep::ReviewSources;
                }
            }
            WizardStep::ReviewSources => {
                if code == KeyInput::Up || code == KeyInput::Char('k') {
                    if self.cursor > 0 {
                        self.cursor -= 1;
                    }
                } else if code == KeyInput::Down || code == KeyInput::Char('j') {
                    if self.cursor < self.sources.len() {
                        self.cursor += 1;
                    }
                } else if code == KeyInput::Char(' ') {
                    if self.cursor < self.sources.len() {
                        let c = self.cursor;
                        let s = &self.sources[c];
                        let t = DiscoveredSource {
                            config: s.config.copy(),
                            label: s.label.clone(),
                            host_count: s.host_count,
                            selected: !s.selected,
                        };
                        self.sources.set(c, t);
                    }
                } else if code == KeyInput::Enter {
                    if self.cursor == self.sources.len() {
                        self.step = WizardStep::ManualAdd;
                        self.manual_input = String::new();
                        self.manual_error = None;
                    } else {
                        self.step = WizardStep::IpLabels;
                        self.ip_label_cursor = 0;
                    }
                } else if code == KeyInput::Char('n') {
                    self.step = WizardStep::Done;
                }
            }
            WizardStep::ManualAdd => {
                if code == KeyInput::Esc {
                    self.step = WizardStep::ReviewSources;
                } else if code == KeyInput::Backspace {
                    self.manual_input = pop_char(&self.manual_input);
                } else if code == KeyInput::Enter {
                    return WizardAction::CommitManualAdd;
                } else if let KeyInput::Char(c) = code {
                    self.manual_input = push_to(&self.manual_input, c);
                    self.manual_error = None;
                }
            }
            WizardStep::IpLabels => {
                if code == KeyInput::Up || code == KeyInput::Char('k') {
                    if self.ip_label_cursor > 0 {
                        self.ip_label_cursor -= 1;
                    }
                } else if code == KeyInput::Down || code == KeyInput::Char('j') {
                    if self.ip_label_cursor < self.ip_labels.len() {
                        self.ip_label_cursor += 1;
                    }
                } else if code == KeyInput::Char('d') || code == KeyInput::Delete {
                    if self.ip_label_cursor < self.ip_labels.len() {
                        self.ip_labels.remove(self.ip_label_cursor);
                        if self.ip_label_cursor > 0 {
                            self.ip_label_cursor -= 1;
                        }
                    }
                } else if code == KeyInput::Enter {
                    if self.ip_label_cursor == self.ip_labels.len() {
                        self.label_entry = Some(IpLabelEntry {
                            pattern: String::new(),
                            label: String::new(),
                            editing_field: IpLabelField::Pattern,
                            pattern_input: String::new(),
                            label_input: String::new(),
                        });
                        self.step = WizardStep::AddIpLabel;
                    } else {
                        self.step = WizardStep::Done;
                    }
                } else if code == KeyInput::Char('s') || code == KeyInput::Char('n') {
                    self.step = WizardStep::Done;
                }
            }
            WizardStep::AddIpLabel => {
                if code == KeyInput::Esc {
                    self.label_entry = None;
                    self.step = WizardStep::IpLabels;
                } else if code == KeyInput::Enter {
                    self.commit_ip_label();
                } else if code == KeyInput::Tab {
                    if let Some(e) = self.label_entry.take() {
                        let f = match e.editing_field {
                            IpLabelField::Pattern => IpLabelField::Label,
                            IpLabelField::Label => IpLabelField::Pattern,
                        };
                        self.label_entry = Some(IpLabelEntry { editing_field: f, ..e });
                    }
                } else if code == KeyInput::Backspace {
                    if let Some(e) = self.label_entry.take() {
                        self.label_entry = Some(match e.editing_field {
                            IpLabelField::Pattern => IpLabelEntry { pattern_input: pop_char(&e.pattern_input), ..e },
                            IpLabelField::Label => IpLabelEntry { label_input: pop_char(&e.label_input), ..e },
                        });
                    }
                } else if let KeyInput::Char(c) = code {
                    if let Some(e) = self.label_entry.take() {
                        self.label_entry = Some(match e.editing_field {
                            IpLabelField::Pattern => IpLabelEntry { pattern_input: push_to(&e.pattern_input, c), ..e },
                            IpLabelField::Label => IpLabelEntry { label_input: push_to(&e.label_input, c), ..e },
                        });
                    }
                }
            }
            WizardStep::Done => {}
        }
        WizardAction::Continue
    }
}

} // verus!
