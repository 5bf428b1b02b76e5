//! Application state: navigation across sections and items, and the
//! multi-step wizard flows that build records and commit them into the
//! document overlay.

use vstd::prelude::*;

use crate::config::{spec_get, spec_validate, Config};
use crate::json::{
    entries_insert, entries_remove, has_key, lookup, sorted_keys, wf_value, Json, JsonV,
};
use crate::settings::{
    known_key, spec_allows_custom, spec_options, spec_section_at, spec_section_keys,
    spec_type_of, Section, SettingDef, SettingType, SECTION_COUNT,
};

verus! {

/// Which panel currently has focus.
#[derive(Debug, Clone, Copy, PartialEq, Eq, Structural)]
pub enum Focus {
    Sidebar,
    Settings,
}

/// Tracks what kind of input the user is currently providing.
#[derive(Debug, Clone, PartialEq, Eq, Structural)]
pub enum InputMode {
    /// Not editing anything.
    Normal,
    /// Inline editing a known setting's value (string/number/array item).
    EditingValue,
    /// Entering a key name for a new custom key in Advanced.
    EnteringKeyName,
    /// Selecting a value type for a new custom key.
    SelectingType,
    /// Entering a value for a new custom key (string/number).
    EnteringCustomValue,
    /// Entering the tool name for a new permission rule.
    EnteringPermissionTool,
    /// Selecting the permission level for a new permission rule.
    SelectingPermissionLevel,
    /// Entering the delegate target program name for a permission rule.
    EnteringDelegateTo,
    /// Confirming whether to open the editor after adding a permission rule.
    ConfirmAdvancedEdit,
    /// Entering the match field for a new MCP permission rule.
    EnteringMcpMatchField,
    /// Entering the match value for a new MCP permission rule.
    EnteringMcpMatchValue,
    /// Selecting the MCP permission action.
    SelectingMcpPermissionLevel,
    /// Confirming whether to open the editor after adding an MCP permission rule.
    ConfirmMcpEdit,
    /// Entering the server name for a new MCP server config.
    EnteringMcpServerName,
}

/// Value type choices for custom keys in the catch-all section.
#[derive(Debug, Clone, Copy, PartialEq, Eq, Structural)]
pub enum CustomKeyType {
    Boolean,
    String,
    Number,
    Array,
    Object,
}

/// How many custom key types there are.
pub const CUSTOM_KEY_TYPE_COUNT: usize = 5;

impl CustomKeyType {
    /// The choice at a position of the fixed list.
    pub fn at(i: usize) -> (r: CustomKeyType)
        requires
            i < CUSTOM_KEY_TYPE_COUNT,
        ensures
            r == spec_custom_key_type_at(i as int),
    {
        if i == 0 {
            CustomKeyType::Boolean
        } else if i == 1 {
            CustomKeyType::String
        } else if i == 2 {
            CustomKeyType::Number
        } else if i == 3 {
            CustomKeyType::Array
        } else {
            CustomKeyType::Object
        }
    }

    /// All choices, in their fixed order.
    pub fn all() -> (r: Vec<CustomKeyType>)
        ensures
            r@.len() == CUSTOM_KEY_TYPE_COUNT,
            forall|i: int| 0 <= i < r@.len() ==> #[trigger] r@[i] == spec_custom_key_type_at(i),
    {
        let mut v: Vec<CustomKeyType> = Vec::new();
        v.push(CustomKeyType::Boolean);
        v.push(CustomKeyType::String);
        v.push(CustomKeyType::Number);
        v.push(CustomKeyType::Array);
        v.push(CustomKeyType::Object);
        v
    }

    /// The display label of the choice.
    pub fn label(self) -> (r: &'static str)
        ensures
            self is Boolean ==> r@ == "boolean"@,
            self is String ==> r@ == "string"@,
            self is Number ==> r@ == "number"@,
            self is Array ==> r@ == "array"@,
            self is Object ==> r@ == "object"@,
    {
        match self {
            CustomKeyType::Boolean => "boolean",
            CustomKeyType::String => "string",
            CustomKeyType::Number => "number",
            CustomKeyType::Array => "array",
            CustomKeyType::Object => "object",
        }
    }
}

/// The choice at a position of the fixed custom key type list.
pub open spec fn spec_custom_key_type_at(i: int) -> CustomKeyType {
    if i == 0 {
        CustomKeyType::Boolean
    } else if i == 1 {
        CustomKeyType::String
    } else if i == 2 {
        CustomKeyType::Number
    } else if i == 3 {
        CustomKeyType::Array
    } else {
        CustomKeyType::Object
    }
}

/// Permission level choices for permission rules.
#[derive(Debug, Clone, Copy, PartialEq, Eq, Structural)]
pub enum PermissionLevel {
    Ask,
    Allow,
    Reject,
    Delegate,
}

/// How many permission levels there are.
pub const PERMISSION_LEVEL_COUNT: usize = 4;

/// The level at a position of the fixed permission level list.
pub open spec fn spec_permission_level_at(i: int) -> PermissionLevel {
    if i == 0 {
        PermissionLevel::Ask
    } else if i == 1 {
        PermissionLevel::Allow
    } else if i == 2 {
        PermissionLevel::Reject
    } else {
        PermissionLevel::Delegate
    }
}

/// The wire word of a permission level.
pub open spec fn spec_permission_label(l: PermissionLevel) -> Seq<char> {
    match l {
        PermissionLevel::Ask => "ask"@,
        PermissionLevel::Allow => "allow"@,
        PermissionLevel::Reject => "reject"@,
        PermissionLevel::Delegate => "delegate"@,
    }
}

impl PermissionLevel {
    /// The level at a position of the fixed list.
    pub fn at(i: usize) -> (r: PermissionLevel)
        requires
            i < PERMISSION_LEVEL_COUNT,
        ensures
            r == spec_permission_level_at(i as int),
    {
        if i == 0 {
            PermissionLevel::Ask
        } else if i == 1 {
            PermissionLevel::Allow
        } else if i == 2 {
            PermissionLevel::Reject
        } else {
            PermissionLevel::Delegate
        }
    }

    /// All levels, in their fixed order.
    pub fn all() -> (r: Vec<PermissionLevel>)
        ensures
            r@.len() == PERMISSION_LEVEL_COUNT,
            forall|i: int| 0 <= i < r@.len() ==> #[trigger] r@[i] == spec_permission_level_at(i),
    {
        let mut v: Vec<PermissionLevel> = Vec::new();
        v.push(PermissionLevel::Ask);
        v.push(PermissionLevel::Allow);
        v.push(PermissionLevel::Reject);
        v.push(PermissionLevel::Delegate);
        v
    }

    /// The wire word of the level.
    pub fn label(self) -> (r: &'static str)
        ensures
            r@ == spec_permission_label(self),
    {
        match self {
            PermissionLevel::Ask => "ask",
            PermissionLevel::Allow => "allow",
            PermissionLevel::Reject => "reject",
            PermissionLevel::Delegate => "delegate",
        }
    }
}

/// MCP permission level choices (no delegate option).
#[derive(Debug, Clone, Copy, PartialEq, Eq, Structural)]
pub enum McpPermissionLevel {
    Allow,
    Reject,
}

/// How many MCP permission levels there are.
pub const MCP_PERMISSION_LEVEL_COUNT: usize = 2;

/// The level at a position of the fixed MCP permission level list.
pub open spec fn spec_mcp_permission_level_at(i: int) -> McpPermissionLevel {
    if i == 0 {
        McpPermissionLevel::Allow
    } else {
        McpPermissionLevel::Reject
    }
}

/// The wire word of an MCP permission level.
pub open spec fn spec_mcp_permission_label(l: McpPermissionLevel) -> Seq<char> {
    match l {
        McpPermissionLevel::Allow => "allow"@,
        McpPermissionLevel::Reject => "reject"@,
    }
}

impl McpPermissionLevel {
    /// The level at a position of the fixed list.
    pub fn at(i: usize) -> (r: McpPermissionLevel)
        requires
            i < MCP_PERMISSION_LEVEL_COUNT,
        ensures
            r == spec_mcp_permission_level_at(i as int),
    {
        if i == 0 {
            McpPermissionLevel::Allow
        } else {
            McpPermissionLevel::Reject
        }
    }

    /// All levels, in their fixed order.
    pub fn all() -> (r: Vec<McpPermissionLevel>)
        ensures
            r@.len() == MCP_PERMISSION_LEVEL_COUNT,
            forall|i: int|
                0 <= i < r@.len() ==> #[trigger] r@[i] == spec_mcp_permission_level_at(i),
    {
        let mut v: Vec<McpPermissionLevel> = Vec::new();
        v.push(McpPermissionLevel::Allow);
        v.push(McpPermissionLevel::Reject);
        v
    }

    /// The wire word of the level.
    pub fn label(self) -> (r: &'static str)
        ensures
            r@ == spec_mcp_permission_label(self),
    {
        match self {
            McpPermissionLevel::Allow => "allow",
            McpPermissionLevel::Reject => "reject",
        }
    }
}

/// Which sub-panel has focus in the split view.
#[derive(Debug, Clone, Copy, PartialEq, Eq, Structural)]
pub enum McpFocus {
    Configs,
    Permissions,
}

/// A request to open an external editor, returned from app methods.
#[derive(Debug, Clone)]
pub struct EditorRequest {
    /// The setting key being edited.
    pub key: String,
    /// The current value to edit.
    pub value: Json,
    /// For object arrays, the index of the item being edited.
    pub array_index: Option<usize>,
    /// For object entries, the key within the object being edited.
    pub object_key: Option<String>,
}

/// An entry in the settings list: a known setting or an unknown key.
#[derive(Debug, Clone)]
pub enum SettingEntry {
    Known(SettingDef),
    Unknown(String),
}

/// Application state.
pub struct App {
    pub config: Config,
    pub selected_section: usize,
    pub selected_setting: usize,
    pub focus: Focus,
    pub should_quit: bool,
    pub status_message: Option<String>,
    /// Current input mode.
    pub input_mode: InputMode,
    /// Buffer for inline text editing.
    pub edit_buffer: String,
    /// Pending custom key name during the catch-all add flow.
    pub pending_custom_key: Option<String>,
    /// Selected type index during type selection.
    pub selected_type: usize,
    /// Pending tool name for the permission add flow.
    pub pending_permission_tool: Option<String>,
    /// Selected permission level index during the permission add flow.
    pub selected_permission_level: usize,
    /// Which sub-panel has focus in the split section.
    pub mcp_focus: McpFocus,
    /// Selected item index in the MCP permissions sub-panel.
    pub selected_mcp_permission: usize,
    /// Selected level index during the MCP permission add flow.
    pub selected_mcp_permission_level: usize,
    /// Pending match field name for the MCP permission add flow.
    pub pending_mcp_match_field: Option<String>,
    /// Pending match value for the MCP permission add flow.
    pub pending_mcp_match_value: Option<String>,
}

/// The items of an object value; empty for anything else.
pub open spec fn obj_entries_of(v: JsonV) -> Seq<(Seq<char>, JsonV)> {
    match v {
        JsonV::Obj(es) => es,
        _ => Seq::empty(),
    }
}

/// The items of an array value; empty for anything else.
pub open spec fn arr_items_of(v: JsonV) -> Seq<JsonV> {
    match v {
        JsonV::Arr(items) => items,
        _ => Seq::empty(),
    }
}

impl App {
    /// The section the cursor is on.
    pub open spec fn spec_section(&self) -> Section {
        spec_section_at(self.selected_section as int)
    }

    /// The basic validity of the state: the section index is in range and
    /// the document's keys are sorted.
    pub open spec fn inv(&self) -> bool {
        self.selected_section < SECTION_COUNT && self.config.inv()
    }

    /// The number of items in the single-key section: the length of its
    /// sole array setting.
    pub open spec fn spec_single_key_count(&self) -> int {
        arr_items_of(spec_get(self.config.entries(), "amp.permissions"@)).len() as int
    }

    /// The number of server entries of the split section's object setting.
    pub open spec fn spec_mcp_config_count(&self) -> int {
        obj_entries_of(spec_get(self.config.entries(), "amp.mcpServers"@)).len() as int
    }

    /// The number of rule entries of the split section's array setting.
    pub open spec fn spec_mcp_permission_count(&self) -> int {
        arr_items_of(spec_get(self.config.entries(), "amp.mcpPermissions"@)).len() as int
    }

    /// The item count the cursor moves over in the current section.
    pub open spec fn spec_item_count(&self) -> int {
        if self.spec_section() is Permissions {
            self.spec_single_key_count()
        } else if self.spec_section() is Mcps {
            if self.mcp_focus is Configs {
                self.spec_mcp_config_count()
            } else {
                self.spec_mcp_permission_count()
            }
        } else if self.spec_section() is Advanced {
            crate::config::spec_unknown_keys(self.config.entries()).len() as int
        } else {
            spec_section_keys(self.spec_section()).len() as int
        }
    }

    /// All wizard state cleared: idle mode, empty buffer, no pending
    /// fields, selection cursors at their first position.
    pub open spec fn wizard_cleared(&self) -> bool {
        &&& self.input_mode is Normal
        &&& self.edit_buffer@ == Seq::<char>::empty()
        &&& self.pending_custom_key is None
        &&& self.selected_type == 0
        &&& self.pending_permission_tool is None
        &&& self.selected_permission_level == 0
        &&& self.pending_mcp_match_field is None
        &&& self.pending_mcp_match_value is None
        &&& self.selected_mcp_permission_level == 0
    }

    /// The navigation state, untouched by wizard transitions.
    pub open spec fn same_nav(a: App, b: App) -> bool {
        &&& a.config == b.config
        &&& a.selected_section == b.selected_section
        &&& a.selected_setting == b.selected_setting
        &&& a.focus == b.focus
        &&& a.should_quit == b.should_quit
        &&& a.mcp_focus == b.mcp_focus
        &&& a.selected_mcp_permission == b.selected_mcp_permission
    }

    /// Creates a new application state from a loaded config.
    pub fn new(config: Config) -> (r: App)
        ensures
            r.config == config,
            r.selected_section == 0,
            r.selected_setting == 0,
            r.focus is Sidebar,
            !r.should_quit,
            r.status_message is None,
            r.mcp_focus is Configs,
            r.selected_mcp_permission == 0,
            r.wizard_cleared(),
    {
        App {
            config,
            selected_section: 0,
            selected_setting: 0,
            focus: Focus::Sidebar,
            should_quit: false,
            status_message: None,
            input_mode: InputMode::Normal,
            edit_buffer: String::new(),
            pending_custom_key: None,
            selected_type: 0,
            pending_permission_tool: None,
            selected_permission_level: 0,
            mcp_focus: McpFocus::Configs,
            selected_mcp_permission: 0,
            selected_mcp_permission_level: 0,
            pending_mcp_match_field: None,
            pending_mcp_match_value: None,
        }
    }

    /// Whether the app is in any editing or input mode.
    pub fn is_editing(&self) -> (r: bool)
        ensures
            r == !(self.input_mode is Normal),
    {
        !matches!(self.input_mode, InputMode::Normal)
    }

    /// The currently selected section.
    pub fn current_section(&self) -> (r: Section)
        requires
            self.selected_section < SECTION_COUNT,
        ensures
            r == self.spec_section(),
    {
        Section::at(self.selected_section)
    }

    /// Toggles focus between the sidebar and the settings panel, without
    /// altering any index.
    pub fn toggle_focus(&mut self)
        ensures
            final(self).focus == (if old(self).focus is Sidebar {
                Focus::Settings
            } else {
                Focus::Sidebar
            }),
            *final(self) == (App { focus: final(self).focus, ..*old(self) }),
    {
        self.focus = match self.focus {
            Focus::Sidebar => Focus::Settings,
            Focus::Settings => Focus::Sidebar,
        };
    }
}

} // verus!

verus! {

impl App {
    /// The settings list of the current section: schema entries, or the
    /// unknown keys for the catch-all section.
    pub fn current_settings(&self) -> (r: Vec<SettingEntry>)
        requires
            self.selected_section < SECTION_COUNT,
        ensures
            self.spec_section() is Advanced ==> r@.len() == crate::config::spec_unknown_keys(
                self.config.entries(),
            ).len() && forall|i: int|
                0 <= i < r@.len() ==> ((#[trigger] r@[i]) matches SettingEntry::Unknown(k)
                    && k@ == crate::config::spec_unknown_keys(self.config.entries())[i]),
            !(self.spec_section() is Advanced) ==> r@.len() == spec_section_keys(
                self.spec_section(),
            ).len() && forall|i: int|
                0 <= i < r@.len() ==> ((#[trigger] r@[i]) matches SettingEntry::Known(d) && d.wf()
                    && d.key@ == spec_section_keys(self.spec_section())[i]),
    {
        let section = self.current_section();
        let mut out: Vec<SettingEntry> = Vec::new();
        if matches!(section, Section::Advanced) {
            let mut keys = self.config.unknown_keys();
            let ghost all = crate::config::spec_unknown_keys(self.config.entries());
            while keys.len() > 0
                invariant
                    all == crate::config::spec_unknown_keys(self.config.entries()),
                    out@.len() + keys@.len() == all.len(),
                    forall|i: int|
                        0 <= i < out@.len() ==> ((#[trigger] out@[i]) matches
                            SettingEntry::Unknown(k) && k@ == all[i]),
                    forall|i: int|
                        0 <= i < keys@.len() ==> (#[trigger] keys@[i])@ == all[
                            out@.len() + i
                        ],
                decreases keys@.len(),
            {
                let k = keys.remove(0);
                out.push(SettingEntry::Unknown(k));
            }
        } else {
            let mut defs = crate::settings::settings_for_section(section);
            let ghost ks = spec_section_keys(self.spec_section());
            while defs.len() > 0
                invariant
                    ks == spec_section_keys(self.spec_section()),
                    out@.len() + defs@.len() == ks.len(),
                    forall|i: int|
                        0 <= i < out@.len() ==> ((#[trigger] out@[i]) matches
                            SettingEntry::Known(d) && d.wf() && d.key@ == ks[i]),
                    forall|i: int|
                        0 <= i < defs@.len() ==> (#[trigger] defs@[i]).wf() && defs@[i].key@
                            == ks[out@.len() + i],
                decreases defs@.len(),
            {
                let d = defs.remove(0);
                out.push(SettingEntry::Known(d));
            }
        }
        out
    }

    /// The sorted server names of the split section's object setting.
    pub fn mcp_server_names(&self) -> (r: Vec<String>)
        ensures
            r@.len() == obj_entries_of(spec_get(self.config.entries(), "amp.mcpServers"@)).len(),
            forall|i: int|
                0 <= i < r@.len() ==> (#[trigger] r@[i])@ == obj_entries_of(
                    spec_get(self.config.entries(), "amp.mcpServers"@),
                )[i].0,
    {
        let v = self.config.get("amp.mcpServers");
        match v {
            Json::Obj(es) => crate::json::entries_keys(&es),
            _ => Vec::new(),
        }
    }

    /// The number of MCP server config entries.
    pub fn mcp_config_count(&self) -> (r: usize)
        ensures
            r == self.spec_mcp_config_count(),
    {
        let v = self.config.get("amp.mcpServers");
        match v {
            Json::Obj(es) => {
                proof {
                    crate::json::lemma_view_of_entries_len(es@);
                }
                es.len()
            },
            _ => 0,
        }
    }

    /// The number of MCP permission items.
    pub fn mcp_permission_item_count(&self) -> (r: usize)
        ensures
            r == self.spec_mcp_permission_count(),
    {
        let v = self.config.get("amp.mcpPermissions");
        match v {
            Json::Arr(items) => {
                proof {
                    crate::json::lemma_view_of_list_len(items@);
                }
                items.len()
            },
            _ => 0,
        }
    }

    /// The number of array items of the single-key section's setting.
    fn single_key_item_count(&self) -> (r: usize)
        ensures
            r == self.spec_single_key_count(),
    {
        let v = self.config.get("amp.permissions");
        match v {
            Json::Arr(items) => {
                proof {
                    crate::json::lemma_view_of_list_len(items@);
                }
                items.len()
            },
            _ => 0,
        }
    }

    /// The number of items in the current section.
    pub fn current_item_count(&self) -> (r: usize)
        requires
            self.selected_section < SECTION_COUNT,
        ensures
            r == self.spec_item_count(),
    {
        let section = self.current_section();
        if section.is_single_key() {
            self.single_key_item_count()
        } else if section.is_split_panel() {
            match self.mcp_focus {
                McpFocus::Configs => self.mcp_config_count(),
                McpFocus::Permissions => self.mcp_permission_item_count(),
            }
        } else {
            self.current_settings().len()
        }
    }

    /// Moves the selection up: steps the section in the sidebar, or the
    /// item in the content panel, clamped at the top; in the split
    /// section, moving up from the top of the lower panel crosses into
    /// the upper one at its last entry.
    pub fn move_up(&mut self)
        requires
            old(self).inv(),
        ensures
            old(self).focus is Sidebar ==> *final(self) == (if old(self).selected_section > 0 {
                (App {
                    selected_section: (old(self).selected_section - 1) as usize,
                    selected_setting: 0,
                    mcp_focus: McpFocus::Configs,
                    selected_mcp_permission: 0,
                    ..*old(self)
                })
            } else {
                *old(self)
            }),
            old(self).focus is Settings && old(self).spec_section() is Mcps && old(self).mcp_focus is Configs ==> *final(self) == (if old(self).selected_setting > 0 {
                (App { selected_setting: (old(self).selected_setting - 1) as usize, ..*old(self) })
            } else {
                *old(self)
            }),
            old(self).focus is Settings && old(self).spec_section() is Mcps && old(self).mcp_focus is Permissions ==> *final(self) == (if old(self).selected_mcp_permission
                > 0 {
                (App {
                    selected_mcp_permission: (old(self).selected_mcp_permission - 1) as usize,
                    ..*old(self)
                })
            } else {
                (App {
                    mcp_focus: McpFocus::Configs,
                    selected_setting: (if old(self).spec_mcp_config_count() > 0 {
                        (old(self).spec_mcp_config_count() - 1) as usize
                    } else {
                        0usize
                    }),
                    ..*old(self)
                })
            }),
            old(self).focus is Settings && !(old(self).spec_section() is Mcps) ==> *final(self)
                == (if old(self).selected_setting > 0 {
                (App { selected_setting: (old(self).selected_setting - 1) as usize, ..*old(self) })
            } else {
                *old(self)
            }),
    {
        match self.focus {
            Focus::Sidebar => {
                if self.selected_section > 0 {
                    self.selected_section = self.selected_section - 1;
                    self.selected_setting = 0;
                    self.mcp_focus = McpFocus::Configs;
                    self.selected_mcp_permission = 0;
                }
            },
            Focus::Settings => {
                if self.current_section().is_split_panel() {
                    match self.mcp_focus {
                        McpFocus::Configs => {
                            if self.selected_setting > 0 {
                                self.selected_setting = self.selected_setting - 1;
                            }
                        },
                        McpFocus::Permissions => {
                            if self.selected_mcp_permission > 0 {
                                self.selected_mcp_permission = self.selected_mcp_permission - 1;
                            } else {
                                self.mcp_focus = McpFocus::Configs;
                                let count = self.mcp_config_count();
                                self.selected_setting = if count > 0 {
                                    count - 1
                                } else {
                                    0
                                };
                            }
                        },
                    }
                } else {
                    if self.selected_setting > 0 {
                        self.selected_setting = self.selected_setting - 1;
                    }
                }
            },
        }
    }

    /// Moves the selection down: steps the section in the sidebar, or the
    /// item in the content panel, clamped at the end; in the split
    /// section, moving down past the upper panel's last entry crosses
    /// into the lower one at its first.
    pub fn move_down(&mut self)
        requires
            old(self).inv(),
        ensures
            old(self).focus is Sidebar ==> *final(self) == (if old(self).selected_section + 1
                < SECTION_COUNT {
                (App {
                    selected_section: (old(self).selected_section + 1) as usize,
                    selected_setting: 0,
                    mcp_focus: McpFocus::Configs,
                    selected_mcp_permission: 0,
                    ..*old(self)
                })
            } else {
                *old(self)
            }),
            old(self).focus is Settings && old(self).spec_section() is Mcps && old(self).mcp_focus is Configs ==> *final(self) == (if old(self).spec_mcp_config_count() > 0
                && old(self).selected_setting + 1 < old(self).spec_mcp_config_count() {
                (App { selected_setting: (old(self).selected_setting + 1) as usize, ..*old(self) })
            } else {
                (App { mcp_focus: McpFocus::Permissions, selected_mcp_permission: 0, ..*old(self) })
            }),
            old(self).focus is Settings && old(self).spec_section() is Mcps && old(self).mcp_focus is Permissions ==> *final(self) == (if old(self).spec_mcp_permission_count() > 0 && old(self).selected_mcp_permission + 1 < old(self).spec_mcp_permission_count() {
                (App {
                    selected_mcp_permission: (old(self).selected_mcp_permission + 1) as usize,
                    ..*old(self)
                })
            } else {
                *old(self)
            }),
            old(self).focus is Settings && !(old(self).spec_section() is Mcps) ==> *final(self)
                == (if old(self).spec_item_count() > 0 && old(self).selected_setting + 1 < old(self).spec_item_count() {
                (App { selected_setting: (old(self).selected_setting + 1) as usize, ..*old(self) })
            } else {
                *old(self)
            }),
    {
        match self.focus {
            Focus::Sidebar => {
                if self.selected_section < SECTION_COUNT - 1 {
                    self.selected_section = self.selected_section + 1;
                    self.selected_setting = 0;
                    self.mcp_focus = McpFocus::Configs;
                    self.selected_mcp_permission = 0;
                }
            },
            Focus::Settings => {
                if self.current_section().is_split_panel() {
                    match self.mcp_focus {
                        McpFocus::Configs => {
                            let count = self.mcp_config_count();
                            if count > 0 && self.selected_setting < count - 1 {
                                self.selected_setting = self.selected_setting + 1;
                            } else {
                                self.mcp_focus = McpFocus::Permissions;
                                self.selected_mcp_permission = 0;
                            }
                        },
                        McpFocus::Permissions => {
                            let count = self.mcp_permission_item_count();
                            if count > 0 && self.selected_mcp_permission < count - 1 {
                                self.selected_mcp_permission = self.selected_mcp_permission + 1;
                            }
                        },
                    }
                } else {
                    let count = self.current_item_count();
                    if count > 0 && self.selected_setting < count - 1 {
                        self.selected_setting = self.selected_setting + 1;
                    }
                }
            },
        }
    }
}

} // verus!

verus! {

/// The record a permission commit appends: `{action, tool}`.
pub open spec fn permission_record(tool: Seq<char>, action: Seq<char>) -> JsonV {
    JsonV::Obj(seq![("action"@, JsonV::Str(action)), ("tool"@, JsonV::Str(tool))])
}

/// The record a delegate commit appends: `{action: "delegate", to, tool}`.
pub open spec fn delegate_record(tool: Seq<char>, to: Seq<char>) -> JsonV {
    JsonV::Obj(
        seq![
            ("action"@, JsonV::Str("delegate"@)),
            ("to"@, JsonV::Str(to)),
            ("tool"@, JsonV::Str(tool)),
        ],
    )
}

/// The record an MCP permission commit appends:
/// `{action, matches: {field: value}}`.
pub open spec fn mcp_permission_record(
    field: Seq<char>,
    value: Seq<char>,
    action: Seq<char>,
) -> JsonV {
    JsonV::Obj(
        seq![
            ("action"@, JsonV::Str(action)),
            ("matches"@, JsonV::Obj(seq![(field, JsonV::Str(value))])),
        ],
    )
}

/// Builds the two-field permission record, in key order.
fn permission_record_exec(tool: &str, action: &str) -> (r: Json)
    ensures
        r.deep_view() == permission_record(tool@, action@),
        wf_value(r.deep_view()),
{
    let mut obj: Vec<(String, Json)> = Vec::new();
    obj.push(("action".to_owned(), Json::Str(action.to_owned())));
    obj.push(("tool".to_owned(), Json::Str(tool.to_owned())));
    let r = Json::Obj(obj);
    proof {
        reveal_strlit("action");
        reveal_strlit("tool");
        crate::json::lemma_view_of_entries_len(obj@);
        crate::json::lemma_view_of_entries_index(obj@, 0);
        crate::json::lemma_view_of_entries_index(obj@, 1);
        let es = crate::json::view_of_entries(obj@);
        assert(es =~= seq![("action"@, JsonV::Str(action@)), ("tool"@, JsonV::Str(tool@))]);
        assert(crate::text::str_lt("action"@, "tool"@));
        assert(sorted_keys(es));
        assert(crate::json::wf_entry_list(es)) by {
            crate::json::lemma_wf_entry_list_all(es);
        }
    }
    r
}

/// Builds the three-field delegate record, in key order.
fn delegate_record_exec(tool: &str, to: &str) -> (r: Json)
    ensures
        r.deep_view() == delegate_record(tool@, to@),
        wf_value(r.deep_view()),
{
    let mut obj: Vec<(String, Json)> = Vec::new();
    obj.push(("action".to_owned(), Json::Str("delegate".to_owned())));
    obj.push(("to".to_owned(), Json::Str(to.to_owned())));
    obj.push(("tool".to_owned(), Json::Str(tool.to_owned())));
    let r = Json::Obj(obj);
    proof {
        reveal_strlit("action");
        reveal_strlit("to");
        reveal_strlit("tool");
        reveal_strlit("delegate");
        crate::json::lemma_view_of_entries_len(obj@);
        crate::json::lemma_view_of_entries_index(obj@, 0);
        crate::json::lemma_view_of_entries_index(obj@, 1);
        crate::json::lemma_view_of_entries_index(obj@, 2);
        let es = crate::json::view_of_entries(obj@);
        assert(es =~= seq![
            ("action"@, JsonV::Str("delegate"@)),
            ("to"@, JsonV::Str(to@)),
            ("tool"@, JsonV::Str(tool@)),
        ]);
        reveal_with_fuel(crate::text::str_lt, 5);
        assert(crate::text::str_lt("action"@, "to"@));
        assert(crate::text::str_lt("action"@, "tool"@));
        assert(crate::text::str_lt("to"@, "tool"@));
        assert(sorted_keys(es));
        assert(crate::json::wf_entry_list(es)) by {
            crate::json::lemma_wf_entry_list_all(es);
        }
    }
    r
}

/// Builds the MCP permission record, in key order.
fn mcp_permission_record_exec(field: &str, value: &str, action: &str) -> (r: Json)
    ensures
        r.deep_view() == mcp_permission_record(field@, value@, action@),
        wf_value(r.deep_view()),
{
    let mut inner: Vec<(String, Json)> = Vec::new();
    inner.push((field.to_owned(), Json::Str(value.to_owned())));
    let mut obj: Vec<(String, Json)> = Vec::new();
    obj.push(("action".to_owned(), Json::Str(action.to_owned())));
    obj.push(("matches".to_owned(), Json::Obj(inner)));
    let r = Json::Obj(obj);
    proof {
        reveal_strlit("action");
        reveal_strlit("matches");
        crate::json::lemma_view_of_entries_len(inner@);
        crate::json::lemma_view_of_entries_index(inner@, 0);
        let ies = crate::json::view_of_entries(inner@);
        assert(ies =~= seq![(field@, JsonV::Str(value@))]);
        assert(sorted_keys(ies));
        assert(crate::json::wf_entry_list(ies)) by {
            crate::json::lemma_wf_entry_list_all(ies);
        }
        crate::json::lemma_view_of_entries_len(obj@);
        crate::json::lemma_view_of_entries_index(obj@, 0);
        crate::json::lemma_view_of_entries_index(obj@, 1);
        let es = crate::json::view_of_entries(obj@);
        assert(es =~= seq![
            ("action"@, JsonV::Str(action@)),
            ("matches"@, JsonV::Obj(ies)),
        ]);
        assert(crate::text::str_lt("action"@, "matches"@));
        assert(sorted_keys(es));
        assert(crate::json::wf_entry_list(es)) by {
            crate::json::lemma_wf_entry_list_all(es);
        }
    }
    r
}

/// Appends one item to the array stored under a key, treating any
/// non-array or missing value as empty.
fn push_array_item(config: &mut Config, key: &str, item: Json)
    requires
        old(config).inv(),
    ensures
        final(config).entries() == entries_insert(
            old(config).entries(),
            key@,
            JsonV::Arr(
                arr_items_of(spec_get(old(config).entries(), key@)).push(item.deep_view()),
            ),
        ),
        final(config).inv(),
        final(config).spec_dirty(),
        old(config).wf() && wf_value(item.deep_view()) ==> final(config).wf(),
{
    let ghost before = arr_items_of(spec_get(old(config).entries(), key@));
    let v = config.get(key);
    let mut items = match v {
        Json::Arr(a) => a,
        _ => Vec::new(),
    };
    let ghost pre = items@;
    proof {
        crate::json::lemma_view_of_list_len(pre);
        assert forall|t: int| 0 <= t < pre.len() implies #[trigger] crate::json::view_of_list(
            pre,
        )[t] == pre[t].deep_view() by {
            crate::json::lemma_view_of_list_index(pre, t);
        }
        assert(crate::json::view_of_list(pre) =~= before);
    }
    items.push(item);
    proof {
        crate::json::lemma_view_of_list_len(items@);
        assert forall|t: int| 0 <= t < items@.len() implies #[trigger] crate::json::view_of_list(
            items@,
        )[t] == before.push(item.deep_view())[t] by {
            crate::json::lemma_view_of_list_index(items@, t);
            if t < pre.len() {
                crate::json::lemma_view_of_list_index(pre, t);
            }
        }
        assert(crate::json::view_of_list(items@) =~= before.push(item.deep_view()));
        if old(config).wf() && wf_value(item.deep_view()) {
            crate::config::lemma_get_wf(old(config).entries(), key@);
            let s = before.push(item.deep_view());
            assert(s.drop_last() =~= before);
            assert(s.last() == item.deep_view());
            assert(crate::json::wf_list(before));
            assert(crate::json::wf_list(s));
        }
    }
    config.set(key, Json::Arr(items));
}

/// Joins three texts.
fn concat3(a: &str, b: &str, c: &str) -> (r: String)
    ensures
        r@ == a@ + b@ + c@,
{
    let mut m = a.to_owned();
    m.append(b);
    m.append(c);
    m
}

/// Joins five texts.
fn concat5(a: &str, b: &str, c: &str, d: &str, e: &str) -> (r: String)
    ensures
        r@ == a@ + b@ + c@ + d@ + e@,
{
    let mut m = a.to_owned();
    m.append(b);
    m.append(c);
    m.append(d);
    m.append(e);
    m
}

} // verus!

verus! {

/// What a committed number entry denotes: an `i64` if the text parses as
/// one, else the scanner's normalized form of the text if it is exactly
/// a JSON number token, else nothing.
pub open spec fn spec_number_value(s: Seq<char>) -> Option<JsonV> {
    if crate::text::spec_parse_i64(s) is Some {
        Some(JsonV::Int(crate::text::spec_parse_i64(s)->0 as int))
    } else if crate::json::json_num_token(crate::text::trim_spec(s)) && crate::text::trim_spec(s)
        == s {
        Some(JsonV::Num(crate::codec::norm_token_of(s)))
    } else {
        None
    }
}

impl App {
    /// Cancels any wizard flow: returns to idle and discards all pending
    /// fields and the buffer, from whatever step the flow was on.
    pub fn cancel_edit(&mut self)
        ensures
            final(self).wizard_cleared(),
            *final(self) == (App {
                input_mode: InputMode::Normal,
                edit_buffer: final(self).edit_buffer,
                pending_custom_key: None,
                selected_type: 0,
                pending_permission_tool: None,
                selected_permission_level: 0,
                pending_mcp_match_field: None,
                pending_mcp_match_value: None,
                selected_mcp_permission_level: 0,
                ..*old(self)
            }),
    {
        self.input_mode = InputMode::Normal;
        self.edit_buffer = String::new();
        self.pending_custom_key = None;
        self.selected_type = 0;
        self.pending_permission_tool = None;
        self.selected_permission_level = 0;
        self.pending_mcp_match_field = None;
        self.pending_mcp_match_value = None;
        self.selected_mcp_permission_level = 0;
    }

    /// Moves the type selection cursor up, clamped at the first entry.
    pub fn type_select_up(&mut self)
        ensures
            *final(self) == (if old(self).selected_type > 0 {
                (App { selected_type: (old(self).selected_type - 1) as usize, ..*old(self) })
            } else {
                *old(self)
            }),
    {
        if self.selected_type > 0 {
            self.selected_type = self.selected_type - 1;
        }
    }

    /// Moves the type selection cursor down, clamped at the last entry.
    pub fn type_select_down(&mut self)
        ensures
            *final(self) == (if old(self).selected_type < CUSTOM_KEY_TYPE_COUNT - 1 {
                (App { selected_type: (old(self).selected_type + 1) as usize, ..*old(self) })
            } else {
                *old(self)
            }),
    {
        if self.selected_type < CUSTOM_KEY_TYPE_COUNT - 1 {
            self.selected_type = self.selected_type + 1;
        }
    }

    /// Moves the permission level cursor up, clamped at the first entry.
    pub fn permission_level_up(&mut self)
        ensures
            *final(self) == (if old(self).selected_permission_level > 0 {
                (App {
                    selected_permission_level: (old(self).selected_permission_level - 1) as usize,
                    ..*old(self)
                })
            } else {
                *old(self)
            }),
    {
        if self.selected_permission_level > 0 {
            self.selected_permission_level = self.selected_permission_level - 1;
        }
    }

    /// Moves the permission level cursor down, clamped at the last entry.
    pub fn permission_level_down(&mut self)
        ensures
            *final(self) == (if old(self).selected_permission_level < PERMISSION_LEVEL_COUNT - 1 {
                (App {
                    selected_permission_level: (old(self).selected_permission_level + 1) as usize,
                    ..*old(self)
                })
            } else {
                *old(self)
            }),
    {
        if self.selected_permission_level < PERMISSION_LEVEL_COUNT - 1 {
            self.selected_permission_level = self.selected_permission_level + 1;
        }
    }

    /// Moves the MCP permission level cursor up, clamped at the first entry.
    pub fn mcp_permission_level_up(&mut self)
        ensures
            *final(self) == (if old(self).selected_mcp_permission_level > 0 {
                (App {
                    selected_mcp_permission_level: (old(self).selected_mcp_permission_level
                        - 1) as usize,
                    ..*old(self)
                })
            } else {
                *old(self)
            }),
    {
        if self.selected_mcp_permission_level > 0 {
            self.selected_mcp_permission_level = self.selected_mcp_permission_level - 1;
        }
    }

    /// Moves the MCP permission level cursor down, clamped at the last entry.
    pub fn mcp_permission_level_down(&mut self)
        ensures
            *final(self) == (if old(self).selected_mcp_permission_level
                < MCP_PERMISSION_LEVEL_COUNT - 1 {
                (App {
                    selected_mcp_permission_level: (old(self).selected_mcp_permission_level
                        + 1) as usize,
                    ..*old(self)
                })
            } else {
                *old(self)
            }),
    {
        if self.selected_mcp_permission_level < MCP_PERMISSION_LEVEL_COUNT - 1 {
            self.selected_mcp_permission_level = self.selected_mcp_permission_level + 1;
        }
    }

    /// Starts the add-custom-key flow; only the catch-all section has it.
    pub fn start_add_custom_key(&mut self)
        requires
            old(self).selected_section < SECTION_COUNT,
        ensures
            !(old(self).spec_section() is Advanced) ==> *final(self) == *old(self),
            old(self).spec_section() is Advanced ==> *final(self) == (App {
                input_mode: InputMode::EnteringKeyName,
                edit_buffer: final(self).edit_buffer,
                ..*old(self)
            }) && final(self).edit_buffer@ == Seq::<char>::empty(),
    {
        if !matches!(self.current_section(), Section::Advanced) {
            return;
        }
        self.input_mode = InputMode::EnteringKeyName;
        self.edit_buffer = String::new();
    }

    /// Commits the key name entry: rejects an empty or already-set key,
    /// otherwise remembers it and moves to type selection.
    pub fn commit_key_name(&mut self)
        ensures
            crate::text::trim_spec(old(self).edit_buffer@).len() == 0 ==> *final(self) == (App {
                status_message: final(self).status_message,
                ..*old(self)
            }) && (final(self).status_message matches Some(m) && m@
                == "Key name cannot be empty."@),
            crate::text::trim_spec(old(self).edit_buffer@).len() > 0 && has_key(
                old(self).config.entries(),
                crate::text::trim_spec(old(self).edit_buffer@),
            ) ==> *final(self) == (App { status_message: final(self).status_message, ..*old(self) })
                && (final(self).status_message matches Some(m) && m@ == "Key '"@
                + crate::text::trim_spec(old(self).edit_buffer@) + "' already exists."@),
            crate::text::trim_spec(old(self).edit_buffer@).len() > 0 && !has_key(
                old(self).config.entries(),
                crate::text::trim_spec(old(self).edit_buffer@),
            ) ==> *final(self) == (App {
                pending_custom_key: final(self).pending_custom_key,
                edit_buffer: final(self).edit_buffer,
                selected_type: 0,
                input_mode: InputMode::SelectingType,
                ..*old(self)
            }) && (final(self).pending_custom_key matches Some(k) && k@
                == crate::text::trim_spec(old(self).edit_buffer@)) && final(self).edit_buffer@
                == Seq::<char>::empty(),
    {
        let trimmed: String = crate::text::trim(self.edit_buffer.as_str()).to_owned();
        if trimmed.as_str().unicode_len() == 0 {
            self.status_message = Some("Key name cannot be empty.".to_owned());
            return;
        }
        if self.config.get_raw(trimmed.as_str()).is_some() {
            self.status_message = Some(
                concat3("Key '", trimmed.as_str(), "' already exists."),
            );
            return;
        }
        self.pending_custom_key = Some(trimmed);
        self.edit_buffer = String::new();
        self.selected_type = 0;
        self.input_mode = InputMode::SelectingType;
    }

    /// Commits the permission tool name: rejects empty, otherwise moves
    /// to level selection.
    pub fn commit_permission_tool(&mut self)
        ensures
            crate::text::trim_spec(old(self).edit_buffer@).len() == 0 ==> *final(self) == (App {
                status_message: final(self).status_message,
                ..*old(self)
            }) && (final(self).status_message matches Some(m) && m@
                == "Tool name cannot be empty."@),
            crate::text::trim_spec(old(self).edit_buffer@).len() > 0 ==> *final(self) == (App {
                pending_permission_tool: final(self).pending_permission_tool,
                edit_buffer: final(self).edit_buffer,
                selected_permission_level: 0,
                input_mode: InputMode::SelectingPermissionLevel,
                ..*old(self)
            }) && (final(self).pending_permission_tool matches Some(t) && t@
                == crate::text::trim_spec(old(self).edit_buffer@)) && final(self).edit_buffer@
                == Seq::<char>::empty(),
    {
        let trimmed: String = crate::text::trim(self.edit_buffer.as_str()).to_owned();
        if trimmed.as_str().unicode_len() == 0 {
            self.status_message = Some("Tool name cannot be empty.".to_owned());
            return;
        }
        self.pending_permission_tool = Some(trimmed);
        self.edit_buffer = String::new();
        self.selected_permission_level = 0;
        self.input_mode = InputMode::SelectingPermissionLevel;
    }

    /// Commits the MCP match field name: rejects empty, otherwise moves
    /// to the match value entry.
    pub fn commit_mcp_match_field(&mut self)
        ensures
            crate::text::trim_spec(old(self).edit_buffer@).len() == 0 ==> *final(self) == (App {
                status_message: final(self).status_message,
                ..*old(self)
            }) && (final(self).status_message matches Some(m) && m@
                == "Match field cannot be empty."@),
            crate::text::trim_spec(old(self).edit_buffer@).len() > 0 ==> *final(self) == (App {
                pending_mcp_match_field: final(self).pending_mcp_match_field,
                edit_buffer: final(self).edit_buffer,
                input_mode: InputMode::EnteringMcpMatchValue,
                ..*old(self)
            }) && (final(self).pending_mcp_match_field matches Some(f) && f@
                == crate::text::trim_spec(old(self).edit_buffer@)) && final(self).edit_buffer@
                == Seq::<char>::empty(),
    {
        let trimmed: String = crate::text::trim(self.edit_buffer.as_str()).to_owned();
        if trimmed.as_str().unicode_len() == 0 {
            self.status_message = Some("Match field cannot be empty.".to_owned());
            return;
        }
        self.pending_mcp_match_field = Some(trimmed);
        self.edit_buffer = String::new();
        self.input_mode = InputMode::EnteringMcpMatchValue;
    }

    /// Commits the MCP match value: rejects empty, otherwise moves to
    /// level selection.
    pub fn commit_mcp_match_value(&mut self)
        ensures
            crate::text::trim_spec(old(self).edit_buffer@).len() == 0 ==> *final(self) == (App {
                status_message: final(self).status_message,
                ..*old(self)
            }) && (final(self).status_message matches Some(m) && m@
                == "Match value cannot be empty."@),
            crate::text::trim_spec(old(self).edit_buffer@).len() > 0 ==> *final(self) == (App {
                pending_mcp_match_value: final(self).pending_mcp_match_value,
                edit_buffer: final(self).edit_buffer,
                selected_mcp_permission_level: 0,
                input_mode: InputMode::SelectingMcpPermissionLevel,
                ..*old(self)
            }) && (final(self).pending_mcp_match_value matches Some(v) && v@
                == crate::text::trim_spec(old(self).edit_buffer@)) && final(self).edit_buffer@
                == Seq::<char>::empty(),
    {
        let trimmed: String = crate::text::trim(self.edit_buffer.as_str()).to_owned();
        if trimmed.as_str().unicode_len() == 0 {
            self.status_message = Some("Match value cannot be empty.".to_owned());
            return;
        }
        self.pending_mcp_match_value = Some(trimmed);
        self.edit_buffer = String::new();
        self.selected_mcp_permission_level = 0;
        self.input_mode = InputMode::SelectingMcpPermissionLevel;
    }
}

} // verus!

verus! {

impl App {
    /// Commits the permission level selection: delegate asks for its
    /// target first; any other level appends the two-field record and
    /// moves to the confirm step.
    pub fn commit_permission_level(&mut self)
        requires
            old(self).inv(),
            old(self).selected_permission_level < PERMISSION_LEVEL_COUNT,
        ensures
            spec_permission_level_at(
                old(self).selected_permission_level as int,
            ) is Delegate ==> *final(self) == (App {
                input_mode: InputMode::EnteringDelegateTo,
                edit_buffer: final(self).edit_buffer,
                ..*old(self)
            }) && final(self).edit_buffer@ == Seq::<char>::empty(),
            !(spec_permission_level_at(old(self).selected_permission_level as int) is Delegate)
                && old(self).pending_permission_tool is None ==> *final(self) == (App {
                input_mode: InputMode::Normal,
                ..*old(self)
            }),
            old(self).pending_permission_tool matches Some(t) ==> !(spec_permission_level_at(
                old(self).selected_permission_level as int,
            ) is Delegate) ==> {
                let lvl = spec_permission_label(
                    spec_permission_level_at(old(self).selected_permission_level as int),
                );
                &&& *final(self) == (App {
                    config: final(self).config,
                    pending_permission_tool: None,
                    status_message: final(self).status_message,
                    input_mode: InputMode::ConfirmAdvancedEdit,
                    ..*old(self)
                })
                &&& final(self).config.entries() == entries_insert(
                    old(self).config.entries(),
                    "amp.permissions"@,
                    JsonV::Arr(
                        arr_items_of(
                            spec_get(old(self).config.entries(), "amp.permissions"@),
                        ).push(permission_record(t@, lvl)),
                    ),
                )
                &&& final(self).config.inv()
                &&& final(self).config.spec_dirty()
                &&& (old(self).config.wf() ==> final(self).config.wf())
                &&& (final(self).status_message matches Some(m) && m@ == "Added permission: "@
                    + t@ + " = "@ + lvl)
            },
    {
        let level = PermissionLevel::at(self.selected_permission_level);
        if matches!(level, PermissionLevel::Delegate) {
            self.input_mode = InputMode::EnteringDelegateTo;
            self.edit_buffer = String::new();
            return;
        }
        let taken = self.pending_permission_tool.take();
        let tool = match taken {
            Some(t) => t,
            None => {
                self.input_mode = InputMode::Normal;
                return;
            },
        };
        let record = permission_record_exec(tool.as_str(), level.label());
        push_array_item(&mut self.config, "amp.permissions", record);
        let mut msg = concat3("Added permission: ", tool.as_str(), " = ");
        msg.append(level.label());
        self.status_message = Some(msg);
        self.input_mode = InputMode::ConfirmAdvancedEdit;
    }

    /// Commits the delegate target: rejects empty, otherwise appends the
    /// three-field record and moves to the confirm step.
    pub fn commit_delegate_to(&mut self)
        requires
            old(self).inv(),
        ensures
            crate::text::trim_spec(old(self).edit_buffer@).len() == 0 ==> *final(self) == (App {
                status_message: final(self).status_message,
                ..*old(self)
            }) && (final(self).status_message matches Some(m) && m@
                == "Program name cannot be empty."@),
            crate::text::trim_spec(old(self).edit_buffer@).len() > 0 && old(self).pending_permission_tool is None ==> *final(self) == (App {
                input_mode: InputMode::Normal,
                ..*old(self)
            }),
            old(self).pending_permission_tool matches Some(t) ==> crate::text::trim_spec(
                old(self).edit_buffer@,
            ).len() > 0 ==> {
                let to = crate::text::trim_spec(old(self).edit_buffer@);
                &&& *final(self) == (App {
                    config: final(self).config,
                    pending_permission_tool: None,
                    status_message: final(self).status_message,
                    edit_buffer: final(self).edit_buffer,
                    input_mode: InputMode::ConfirmAdvancedEdit,
                    ..*old(self)
                })
                &&& final(self).edit_buffer@ == Seq::<char>::empty()
                &&& final(self).config.entries() == entries_insert(
                    old(self).config.entries(),
                    "amp.permissions"@,
                    JsonV::Arr(
                        arr_items_of(
                            spec_get(old(self).config.entries(), "amp.permissions"@),
                        ).push(delegate_record(t@, to)),
                    ),
                )
                &&& final(self).config.inv()
                &&& final(self).config.spec_dirty()
                &&& (old(self).config.wf() ==> final(self).config.wf())
                &&& (final(self).status_message matches Some(m) && m@ == "Added permission: "@
                    + t@ + " = delegate to "@ + to)
            },
    {
        let to: String = crate::text::trim(self.edit_buffer.as_str()).to_owned();
        if to.as_str().unicode_len() == 0 {
            self.status_message = Some("Program name cannot be empty.".to_owned());
            return;
        }
        let taken = self.pending_permission_tool.take();
        let tool = match taken {
            Some(t) => t,
            None => {
                self.input_mode = InputMode::Normal;
                return;
            },
        };
        let record = delegate_record_exec(tool.as_str(), to.as_str());
        push_array_item(&mut self.config, "amp.permissions", record);
        let mut msg = concat3("Added permission: ", tool.as_str(), " = delegate to ");
        msg.append(to.as_str());
        self.status_message = Some(msg);
        self.edit_buffer = String::new();
        self.input_mode = InputMode::ConfirmAdvancedEdit;
    }

    /// Commits the MCP permission level: appends the match record and
    /// moves to the confirm step.
    pub fn commit_mcp_permission_level(&mut self)
        requires
            old(self).inv(),
            old(self).selected_mcp_permission_level < MCP_PERMISSION_LEVEL_COUNT,
        ensures
            old(self).pending_mcp_match_field is None ==> *final(self) == (App {
                input_mode: InputMode::Normal,
                ..*old(self)
            }),
            old(self).pending_mcp_match_field is Some && old(self).pending_mcp_match_value is None ==> *final(self) == (App {
                input_mode: InputMode::Normal,
                pending_mcp_match_field: None,
                ..*old(self)
            }),
            old(self).pending_mcp_match_field matches Some(f) ==> old(self).pending_mcp_match_value matches Some(v) ==> {
                let lvl = spec_mcp_permission_label(
                    spec_mcp_permission_level_at(old(self).selected_mcp_permission_level as int),
                );
                &&& *final(self) == (App {
                    config: final(self).config,
                    pending_mcp_match_field: None,
                    pending_mcp_match_value: None,
                    status_message: final(self).status_message,
                    input_mode: InputMode::ConfirmMcpEdit,
                    ..*old(self)
                })
                &&& final(self).config.entries() == entries_insert(
                    old(self).config.entries(),
                    "amp.mcpPermissions"@,
                    JsonV::Arr(
                        arr_items_of(
                            spec_get(old(self).config.entries(), "amp.mcpPermissions"@),
                        ).push(mcp_permission_record(f@, v@, lvl)),
                    ),
                )
                &&& final(self).config.inv()
                &&& final(self).config.spec_dirty()
                &&& (old(self).config.wf() ==> final(self).config.wf())
                &&& (final(self).status_message matches Some(m) && m@
                    == "Added MCP permission: "@ + f@ + "="@ + v@ + " = "@ + lvl)
            },
    {
        let level = McpPermissionLevel::at(self.selected_mcp_permission_level);
        let taken_field = self.pending_mcp_match_field.take();
        let field = match taken_field {
            Some(f) => f,
            None => {
                self.input_mode = InputMode::Normal;
                return;
            },
        };
        let taken_value = self.pending_mcp_match_value.take();
        let value = match taken_value {
            Some(v) => v,
            None => {
                self.input_mode = InputMode::Normal;
                return;
            },
        };
        let record = mcp_permission_record_exec(field.as_str(), value.as_str(), level.label());
        push_array_item(&mut self.config, "amp.mcpPermissions", record);
        let mut msg = concat5("Added MCP permission: ", field.as_str(), "=", value.as_str(), " = ");
        msg.append(level.label());
        self.status_message = Some(msg);
        self.input_mode = InputMode::ConfirmMcpEdit;
    }

    /// Declines opening the editor after adding a permission rule.
    pub fn decline_advanced_edit(&mut self)
        ensures
            *final(self) == (App { input_mode: InputMode::Normal, ..*old(self) }),
    {
        self.input_mode = InputMode::Normal;
    }

    /// Declines opening the editor after adding an MCP permission rule.
    pub fn decline_mcp_edit(&mut self)
        ensures
            *final(self) == (App { input_mode: InputMode::Normal, ..*old(self) }),
    {
        self.input_mode = InputMode::Normal;
    }
}

} // verus!

verus! {

impl App {
    /// Confirms opening the editor for the last-added permission rule.
    pub fn confirm_advanced_edit(&mut self) -> (r: Option<EditorRequest>)
        ensures
            *final(self) == (App { input_mode: InputMode::Normal, ..*old(self) }),
            ({
                let items = arr_items_of(spec_get(old(self).config.entries(), "amp.permissions"@));
                match r {
                    None => items.len() == 0,
                    Some(req) => {
                        &&& items.len() > 0
                        &&& req.key@ == "amp.permissions"@
                        &&& req.value.deep_view() == items[items.len() - 1]
                        &&& req.array_index == Some((items.len() - 1) as usize)
                        &&& req.object_key is None
                    },
                }
            }),
    {
        self.input_mode = InputMode::Normal;
        let v = self.config.get("amp.permissions");
        match v {
            Json::Arr(items) => {
                proof {
                    crate::json::lemma_view_of_list_len(items@);
                }
                if items.len() == 0 {
                    None
                } else {
                    let idx = items.len() - 1;
                    proof {
                        crate::json::lemma_view_of_list_index(items@, idx as int);
                    }
                    Some(
                        EditorRequest {
                            key: "amp.permissions".to_owned(),
                            value: items[idx].clone(),
                            array_index: Some(idx),
                            object_key: None,
                        },
                    )
                }
            },
            _ => None,
        }
    }

    /// Confirms opening the editor for the last-added MCP permission rule.
    pub fn confirm_mcp_edit(&mut self) -> (r: Option<EditorRequest>)
        ensures
            *final(self) == (App { input_mode: InputMode::Normal, ..*old(self) }),
            ({
                let items = arr_items_of(
                    spec_get(old(self).config.entries(), "amp.mcpPermissions"@),
                );
                match r {
                    None => items.len() == 0,
                    Some(req) => {
                        &&& items.len() > 0
                        &&& req.key@ == "amp.mcpPermissions"@
                        &&& req.value.deep_view() == items[items.len() - 1]
                        &&& req.array_index == Some((items.len() - 1) as usize)
                        &&& req.object_key is None
                    },
                }
            }),
    {
        self.input_mode = InputMode::Normal;
        let v = self.config.get("amp.mcpPermissions");
        match v {
            Json::Arr(items) => {
                proof {
                    crate::json::lemma_view_of_list_len(items@);
                }
                if items.len() == 0 {
                    None
                } else {
                    let idx = items.len() - 1;
                    proof {
                        crate::json::lemma_view_of_list_index(items@, idx as int);
                    }
                    Some(
                        EditorRequest {
                            key: "amp.mcpPermissions".to_owned(),
                            value: items[idx].clone(),
                            array_index: Some(idx),
                            object_key: None,
                        },
                    )
                }
            },
            _ => None,
        }
    }

    /// Commits the type selection for a new custom key: booleans and
    /// arrays get a canonical empty value at once; strings and numbers
    /// move on to value entry; objects hand an empty object to the editor.
    pub fn commit_type_selection(&mut self) -> (r: Option<EditorRequest>)
        requires
            old(self).inv(),
            old(self).selected_type < CUSTOM_KEY_TYPE_COUNT,
        ensures
            old(self).pending_custom_key is None ==> *final(self) == *old(self) && r is None,
            old(self).pending_custom_key matches Some(k) ==> {
                let ty = spec_custom_key_type_at(old(self).selected_type as int);
                &&& (ty is Boolean ==> {
                    &&& *final(self) == (App {
                        config: final(self).config,
                        status_message: final(self).status_message,
                        pending_custom_key: None,
                        input_mode: InputMode::Normal,
                        ..*old(self)
                    })
                    &&& final(self).config.entries() == entries_insert(
                        old(self).config.entries(),
                        k@,
                        JsonV::Bool(false),
                    )
                    &&& final(self).config.inv()
                    &&& final(self).config.spec_dirty()
                    &&& (old(self).config.wf() ==> final(self).config.wf())
                    &&& (final(self).status_message matches Some(m) && m@ == "Added '"@ + k@
                        + "' = false"@)
                    &&& r is None
                })
                &&& (ty is String || ty is Number ==> *final(self) == (App {
                    input_mode: InputMode::EnteringCustomValue,
                    edit_buffer: final(self).edit_buffer,
                    ..*old(self)
                }) && final(self).edit_buffer@ == Seq::<char>::empty() && r is None)
                &&& (ty is Array ==> {
                    &&& *final(self) == (App {
                        config: final(self).config,
                        status_message: final(self).status_message,
                        pending_custom_key: None,
                        input_mode: InputMode::Normal,
                        ..*old(self)
                    })
                    &&& final(self).config.entries() == entries_insert(
                        old(self).config.entries(),
                        k@,
                        JsonV::Arr(Seq::empty()),
                    )
                    &&& final(self).config.inv()
                    &&& final(self).config.spec_dirty()
                    &&& (old(self).config.wf() ==> final(self).config.wf())
                    &&& (final(self).status_message matches Some(m) && m@ == "Added '"@ + k@
                        + "' = []"@)
                    &&& r is None
                })
                &&& (ty is Object ==> *final(self) == (App {
                    pending_custom_key: None,
                    input_mode: InputMode::Normal,
                    ..*old(self)
                }) && (r matches Some(req) && req.key@ == k@ && req.value.deep_view()
                    == JsonV::Obj(Seq::empty()) && req.array_index is None
                    && req.object_key is None))
            },
    {
        let taken = self.pending_custom_key.take();
        let key = match taken {
            Some(k) => k,
            None => {
                return None;
            },
        };
        let chosen = CustomKeyType::at(self.selected_type);
        match chosen {
            CustomKeyType::Boolean => {
                self.config.set(key.as_str(), Json::Bool(false));
                self.status_message = Some(concat3("Added '", key.as_str(), "' = false"));
                self.input_mode = InputMode::Normal;
                None
            },
            CustomKeyType::String => {
                self.pending_custom_key = Some(key);
                self.input_mode = InputMode::EnteringCustomValue;
                self.edit_buffer = String::new();
                None
            },
            CustomKeyType::Number => {
                self.pending_custom_key = Some(key);
                self.input_mode = InputMode::EnteringCustomValue;
                self.edit_buffer = String::new();
                None
            },
            CustomKeyType::Array => {
                self.config.set(key.as_str(), Json::Arr(Vec::new()));
                self.status_message = Some(concat3("Added '", key.as_str(), "' = []"));
                self.input_mode = InputMode::Normal;
                None
            },
            CustomKeyType::Object => {
                self.input_mode = InputMode::Normal;
                Some(
                    EditorRequest {
                        key,
                        value: Json::Obj(Vec::new()),
                        array_index: None,
                        object_key: None,
                    },
                )
            },
        }
    }

    /// Commits the value entry for a pending custom key: strings commit
    /// as typed; numbers re-prompt on parse failure without losing the
    /// pending key.
    pub fn commit_custom_value(&mut self)
        requires
            old(self).inv(),
            old(self).selected_type < CUSTOM_KEY_TYPE_COUNT,
        ensures
            old(self).pending_custom_key is None ==> *final(self) == (App {
                input_mode: InputMode::Normal,
                ..*old(self)
            }),
            old(self).pending_custom_key matches Some(k) ==> {
                let ty = spec_custom_key_type_at(old(self).selected_type as int);
                &&& (ty is String ==> {
                    &&& *final(self) == (App {
                        config: final(self).config,
                        status_message: final(self).status_message,
                        pending_custom_key: None,
                        edit_buffer: final(self).edit_buffer,
                        input_mode: InputMode::Normal,
                        ..*old(self)
                    })
                    &&& final(self).config.entries() == entries_insert(
                        old(self).config.entries(),
                        k@,
                        JsonV::Str(old(self).edit_buffer@),
                    )
                    &&& final(self).config.inv()
                    &&& final(self).config.spec_dirty()
                    &&& (old(self).config.wf() ==> final(self).config.wf())
                    &&& (final(self).status_message matches Some(m) && m@ == "Added '"@ + k@
                        + "'"@)
                    &&& final(self).edit_buffer@ == Seq::<char>::empty()
                })
                &&& (ty is Number ==> match spec_number_value(old(self).edit_buffer@) {
                    Some(v) => {
                        &&& *final(self) == (App {
                            config: final(self).config,
                            status_message: final(self).status_message,
                            pending_custom_key: None,
                            edit_buffer: final(self).edit_buffer,
                            input_mode: InputMode::Normal,
                            ..*old(self)
                        })
                        &&& final(self).config.entries() == entries_insert(
                            old(self).config.entries(),
                            k@,
                            v,
                        )
                        &&& final(self).config.inv()
                        &&& final(self).config.spec_dirty()
                        &&& (old(self).config.wf() ==> final(self).config.wf())
                        &&& (final(self).status_message matches Some(m) && m@ == "Added '"@ + k@
                            + "'"@)
                        &&& final(self).edit_buffer@ == Seq::<char>::empty()
                    },
                    None => *final(self) == (App {
                        status_message: final(self).status_message,
                        ..*old(self)
                    }) && (final(self).status_message matches Some(m) && m@
                        == "Invalid number."@),
                })
                &&& (!(ty is String) && !(ty is Number) ==> *final(self) == (App {
                    pending_custom_key: None,
                    edit_buffer: final(self).edit_buffer,
                    input_mode: InputMode::Normal,
                    ..*old(self)
                }) && final(self).edit_buffer@ == Seq::<char>::empty())
            },
    {
        let taken = self.pending_custom_key.take();
        let key = match taken {
            Some(k) => k,
            None => {
                self.input_mode = InputMode::Normal;
                return;
            },
        };
        let chosen = CustomKeyType::at(self.selected_type);
        match chosen {
            CustomKeyType::String => {
                self.config.set(key.as_str(), Json::Str(self.edit_buffer.clone()));
                self.status_message = Some(concat3("Added '", key.as_str(), "'"));
            },
            CustomKeyType::Number => {
                match crate::text::parse_i64(self.edit_buffer.as_str()) {
                    Some(n) => {
                        self.config.set(key.as_str(), Json::Int(n));
                        self.status_message = Some(concat3("Added '", key.as_str(), "'"));
                    },
                    None => {
                        let untrimmed = crate::text::str_eq(
                            crate::text::trim(self.edit_buffer.as_str()),
                            self.edit_buffer.as_str(),
                        );
                        let tok = if untrimmed {
                            crate::codec::num_token(self.edit_buffer.as_str())
                        } else {
                            None
                        };
                        match tok {
                            Some(t) => {
                                proof {
                                    assert(crate::json::wf_num_token(t@));
                                }
                                self.config.set(key.as_str(), Json::Num(t));
                                self.status_message = Some(
                                    concat3("Added '", key.as_str(), "'"),
                                );
                            },
                            None => {
                                self.status_message = Some("Invalid number.".to_owned());
                                self.pending_custom_key = Some(key);
                                return;
                            },
                        }
                    },
                }
            },
            _ => {},
        }
        self.edit_buffer = String::new();
        self.input_mode = InputMode::Normal;
    }

    /// Commits the server name for a new MCP server: rejects an empty or
    /// already-used name, otherwise hands an empty object keyed by the
    /// name to the editor and returns to idle.
    pub fn commit_mcp_server_name(&mut self) -> (r: Option<EditorRequest>)
        ensures
            crate::text::trim_spec(old(self).edit_buffer@).len() == 0 ==> *final(self) == (App {
                status_message: final(self).status_message,
                ..*old(self)
            }) && (final(self).status_message matches Some(m) && m@
                == "Server name cannot be empty."@) && r is None,
            crate::text::trim_spec(old(self).edit_buffer@).len() > 0 && lookup(
                obj_entries_of(spec_get(old(self).config.entries(), "amp.mcpServers"@)),
                crate::text::trim_spec(old(self).edit_buffer@),
            ) is Some ==> *final(self) == (App {
                status_message: final(self).status_message,
                ..*old(self)
            }) && (final(self).status_message matches Some(m) && m@ == "Server '"@
                + crate::text::trim_spec(old(self).edit_buffer@) + "' already exists."@)
                && r is None,
            crate::text::trim_spec(old(self).edit_buffer@).len() > 0 && lookup(
                obj_entries_of(spec_get(old(self).config.entries(), "amp.mcpServers"@)),
                crate::text::trim_spec(old(self).edit_buffer@),
            ) is None ==> *final(self) == (App {
                edit_buffer: final(self).edit_buffer,
                input_mode: InputMode::Normal,
                ..*old(self)
            }) && final(self).edit_buffer@ == Seq::<char>::empty() && (r matches Some(req)
                && req.key@ == "amp.mcpServers"@ && req.value.deep_view() == JsonV::Obj(
                Seq::empty(),
            ) && req.array_index is None && (req.object_key matches Some(n) && n@
                == crate::text::trim_spec(old(self).edit_buffer@))),
    {
        let name: String = crate::text::trim(self.edit_buffer.as_str()).to_owned();
        if name.as_str().unicode_len() == 0 {
            self.status_message = Some("Server name cannot be empty.".to_owned());
            return None;
        }
        let servers = self.config.get("amp.mcpServers");
        if servers.get(name.as_str()).is_some() {
            self.status_message = Some(concat3("Server '", name.as_str(), "' already exists."));
            return None;
        }
        self.edit_buffer = String::new();
        self.input_mode = InputMode::Normal;
        Some(
            EditorRequest {
                key: "amp.mcpServers".to_owned(),
                value: Json::Obj(Vec::new()),
                array_index: None,
                object_key: Some(name),
            },
        )
    }
}

} // verus!

verus! {

/// The first position of `x` in the option list, if any.
pub open spec fn spec_position(opts: Seq<Seq<char>>, x: Seq<char>) -> Option<int>
    decreases opts.len(),
{
    if opts.len() == 0 {
        None
    } else if opts[0] == x {
        Some(0int)
    } else {
        match spec_position(opts.drop_first(), x) {
            Some(i) => Some(i + 1),
            None => None,
        }
    }
}

/// A found position is the first occurrence.
proof fn lemma_position_at(opts: Seq<Seq<char>>, x: Seq<char>, p: int)
    requires
        0 <= p < opts.len(),
        opts[p] == x,
        forall|j: int| 0 <= j < p ==> opts[j] != x,
    ensures
        spec_position(opts, x) == Some(p),
    decreases p,
{
    if p > 0 {
        let tail = opts.drop_first();
        assert forall|j: int| 0 <= j < p - 1 implies tail[j] != x by {
            assert(tail[j] == opts[j + 1]);
        }
        assert(tail[p - 1] == opts[p]);
        lemma_position_at(tail, x, p - 1);
    }
}

/// With no occurrence there is no position.
proof fn lemma_position_absent(opts: Seq<Seq<char>>, x: Seq<char>)
    requires
        forall|j: int| 0 <= j < opts.len() ==> opts[j] != x,
    ensures
        spec_position(opts, x) is None,
    decreases opts.len(),
{
    if opts.len() > 0 {
        let tail = opts.drop_first();
        assert forall|j: int| 0 <= j < tail.len() implies tail[j] != x by {
            assert(tail[j] == opts[j + 1]);
        }
        lemma_position_absent(tail, x);
    }
}

/// The string content of a value; empty for non-strings.
pub open spec fn spec_str_of(v: JsonV) -> Seq<char> {
    match v {
        JsonV::Str(s) => s,
        _ => Seq::empty(),
    }
}

/// The boolean content of a value; false for non-booleans.
pub open spec fn spec_bool_of(v: JsonV) -> bool {
    match v {
        JsonV::Bool(b) => b,
        _ => false,
    }
}

impl App {
    /// The key of the array setting the cursor addresses: the single-key
    /// section's sole setting, else the selected entry if it is an array.
    pub open spec fn spec_selected_array_key(&self) -> Option<Seq<char>> {
        let sec = self.spec_section();
        if sec is Advanced {
            None
        } else {
            let ks = spec_section_keys(sec);
            let i = if sec is Permissions {
                0int
            } else {
                self.selected_setting as int
            };
            if 0 <= i < ks.len() && (spec_type_of(ks[i]) is ArrayString || spec_type_of(
                ks[i],
            ) is ArrayObject) {
                Some(ks[i])
            } else {
                None
            }
        }
    }

    /// The definition of the array setting the cursor addresses.
    fn selected_array_def(&self) -> (r: Option<SettingDef>)
        requires
            self.selected_section < SECTION_COUNT,
        ensures
            match r {
                Some(d) => self.spec_selected_array_key() == Some(d.key@) && d.wf(),
                None => self.spec_selected_array_key() is None,
            },
    {
        let mut entries = self.current_settings();
        let idx: usize = if self.current_section().is_single_key() {
            0
        } else {
            self.selected_setting
        };
        if idx >= entries.len() {
            return None;
        }
        let e = entries.remove(idx);
        match e {
            SettingEntry::Known(d) => {
                if matches!(d.setting_type, SettingType::ArrayString | SettingType::ArrayObject) {
                    Some(d)
                } else {
                    None
                }
            },
            SettingEntry::Unknown(_) => None,
        }
    }

    /// Starts the add flow for the current section: the custom-key wizard
    /// in the catch-all section, the server or match wizards in the split
    /// section, and inline entry for array settings elsewhere.
    pub fn add_array_item(&mut self)
        requires
            old(self).inv(),
        ensures
            old(self).spec_section() is Advanced ==> *final(self) == (App {
                input_mode: InputMode::EnteringKeyName,
                edit_buffer: final(self).edit_buffer,
                ..*old(self)
            }) && final(self).edit_buffer@ == Seq::<char>::empty(),
            old(self).spec_section() is Mcps && old(self).mcp_focus is Configs ==> *final(self)
                == (App {
                input_mode: InputMode::EnteringMcpServerName,
                edit_buffer: final(self).edit_buffer,
                ..*old(self)
            }) && final(self).edit_buffer@ == Seq::<char>::empty(),
            old(self).spec_section() is Mcps && old(self).mcp_focus is Permissions ==> *final(self) == (App {
                input_mode: InputMode::EnteringMcpMatchField,
                edit_buffer: final(self).edit_buffer,
                ..*old(self)
            }) && final(self).edit_buffer@ == Seq::<char>::empty(),
            !(old(self).spec_section() is Advanced) && !(old(self).spec_section() is Mcps) ==> ({
                let sel = old(self).spec_selected_array_key();
                &&& (sel is None ==> *final(self) == *old(self))
                &&& (sel matches Some(k) ==> {
                    &&& (spec_type_of(k) is ArrayString || k != "amp.permissions"@ ==> *final(self) == (App {
                        input_mode: InputMode::EditingValue,
                        edit_buffer: final(self).edit_buffer,
                        ..*old(self)
                    }) && final(self).edit_buffer@ == Seq::<char>::empty())
                    &&& (spec_type_of(k) is ArrayObject && k == "amp.permissions"@ ==> *final(self) == (App {
                        input_mode: InputMode::EnteringPermissionTool,
                        edit_buffer: final(self).edit_buffer,
                        ..*old(self)
                    }) && final(self).edit_buffer@ == Seq::<char>::empty())
                })
            }),
    {
        if matches!(self.current_section(), Section::Advanced) {
            self.input_mode = InputMode::EnteringKeyName;
            self.edit_buffer = String::new();
            return;
        }
        if self.current_section().is_split_panel() {
            match self.mcp_focus {
                McpFocus::Configs => {
                    self.input_mode = InputMode::EnteringMcpServerName;
                    self.edit_buffer = String::new();
                },
                McpFocus::Permissions => {
                    self.input_mode = InputMode::EnteringMcpMatchField;
                    self.edit_buffer = String::new();
                },
            }
            return;
        }
        let def = match self.selected_array_def() {
            Some(d) => d,
            None => {
                return;
            },
        };
        match def.setting_type {
            SettingType::ArrayString => {
                self.input_mode = InputMode::EditingValue;
                self.edit_buffer = String::new();
            },
            SettingType::ArrayObject => {
                if crate::text::str_eq(def.key, "amp.permissions") {
                    self.input_mode = InputMode::EnteringPermissionTool;
                    self.edit_buffer = String::new();
                } else {
                    self.input_mode = InputMode::EditingValue;
                    self.edit_buffer = String::new();
                }
            },
            _ => {},
        }
    }
}

} // verus!

verus! {

impl App {
    /// Deletes the selected MCP server config.
    fn delete_mcp_config_item(&mut self)
        requires
            old(self).inv(),
        ensures
            ({
                let es = obj_entries_of(spec_get(old(self).config.entries(), "amp.mcpServers"@));
                &&& (es.len() == 0 ==> *final(self) == (App {
                    status_message: final(self).status_message,
                    ..*old(self)
                }) && (final(self).status_message matches Some(m) && m@
                    == "No servers to delete."@))
                &&& (es.len() > 0 ==> {
                    let idx = if old(self).selected_setting < es.len() {
                        old(self).selected_setting as int
                    } else {
                        es.len() - 1
                    };
                    let name = es[idx].0;
                    let rest = entries_remove(es, name);
                    &&& *final(self) == (App {
                        config: final(self).config,
                        status_message: final(self).status_message,
                        selected_setting: final(self).selected_setting,
                        ..*old(self)
                    })
                    &&& final(self).config.entries() == entries_insert(
                        old(self).config.entries(),
                        "amp.mcpServers"@,
                        JsonV::Obj(rest),
                    )
                    &&& final(self).config.inv()
                    &&& final(self).config.spec_dirty()
                    &&& (old(self).config.wf() ==> final(self).config.wf())
                    &&& (final(self).status_message matches Some(m) && m@ == "Removed server '"@
                        + name + "'"@)
                    &&& final(self).selected_setting == (if rest.len() > 0 && old(self).selected_setting >= rest.len() {
                        (rest.len() - 1) as usize
                    } else {
                        old(self).selected_setting
                    })
                })
            }),
    {
        let names = self.mcp_server_names();
        if names.len() == 0 {
            self.status_message = Some("No servers to delete.".to_owned());
            return;
        }
        let idx: usize = if self.selected_setting < names.len() {
            self.selected_setting
        } else {
            names.len() - 1
        };
        let v = self.config.get("amp.mcpServers");
        let mut es = match v {
            Json::Obj(es) => es,
            _ => vstd::pervasive::unreached(),
        };
        let ghost before = crate::json::view_of_entries(es@);
        self.status_message = Some(concat3("Removed server '", names[idx].as_str(), "'"));
        crate::json::entries_delete(&mut es, names[idx].as_str());
        proof {
            if old(self).config.wf() {
                crate::config::lemma_get_wf(old(self).config.entries(), "amp.mcpServers"@);
                crate::json::lemma_remove_props(before, before[idx as int].0);
                crate::json::lemma_remove_wf(before, before[idx as int].0);
            }
        }
        self.config.set("amp.mcpServers", Json::Obj(es));
        let count = self.mcp_config_count();
        proof {
            crate::json::lemma_key_present(before, idx as int);
            crate::json::lemma_remove_len(before, before[idx as int].0);
        }
        if count > 0 && self.selected_setting >= count {
            self.selected_setting = count - 1;
        }
    }

    /// Deletes the selected MCP permission item.
    fn delete_mcp_permission_item(&mut self)
        requires
            old(self).inv(),
        ensures
            ({
                let items = arr_items_of(
                    spec_get(old(self).config.entries(), "amp.mcpPermissions"@),
                );
                &&& (items.len() == 0 ==> *final(self) == (App {
                    status_message: final(self).status_message,
                    ..*old(self)
                }) && (final(self).status_message matches Some(m) && m@
                    == "Array is already empty."@))
                &&& (items.len() > 0 ==> {
                    let idx = if old(self).selected_mcp_permission < items.len() {
                        old(self).selected_mcp_permission as int
                    } else {
                        items.len() - 1
                    };
                    let rest = items.remove(idx);
                    &&& *final(self) == (App {
                        config: final(self).config,
                        status_message: final(self).status_message,
                        selected_mcp_permission: final(self).selected_mcp_permission,
                        ..*old(self)
                    })
                    &&& final(self).config.entries() == entries_insert(
                        old(self).config.entries(),
                        "amp.mcpPermissions"@,
                        JsonV::Arr(rest),
                    )
                    &&& final(self).config.inv()
                    &&& final(self).config.spec_dirty()
                    &&& (old(self).config.wf() ==> final(self).config.wf())
                    &&& (final(self).status_message matches Some(m) && m@
                        == "Removed MCP permission item "@ + crate::text::dec_str(idx))
                    &&& final(self).selected_mcp_permission == (if rest.len() > 0 && old(self).selected_mcp_permission >= rest.len() {
                        (rest.len() - 1) as usize
                    } else {
                        old(self).selected_mcp_permission
                    })
                })
            }),
    {
        let v = self.config.get("amp.mcpPermissions");
        let mut items = match v {
            Json::Arr(a) => a,
            _ => Vec::new(),
        };
        let ghost before = crate::json::view_of_list(items@);
        proof {
            crate::json::lemma_view_of_list_len(items@);
        }
        if items.len() == 0 {
            self.status_message = Some("Array is already empty.".to_owned());
            return;
        }
        let idx: usize = if self.selected_mcp_permission < items.len() {
            self.selected_mcp_permission
        } else {
            items.len() - 1
        };
        proof {
            crate::json::lemma_view_list_remove(items@, idx as int);
            if old(self).config.wf() {
                crate::config::lemma_get_wf(old(self).config.entries(), "amp.mcpPermissions"@);
                crate::json::lemma_wf_list_remove(before, idx as int);
            }
        }
        items.remove(idx);
        let new_len = items.len();
        self.config.set("amp.mcpPermissions", Json::Arr(items));
        let mut msg = "Removed MCP permission item ".to_owned();
        msg.append(crate::codec::usize_token(idx).as_str());
        self.status_message = Some(msg);
        if new_len > 0 && self.selected_mcp_permission >= new_len {
            self.selected_mcp_permission = new_len - 1;
        }
    }

    /// Deletes an item from an array setting: by cursor position in the
    /// single-key section, always the last element elsewhere; deleting
    /// from an empty array only reports that it is already empty.
    pub fn delete_array_item(&mut self)
        requires
            old(self).inv(),
        ensures
            old(self).spec_section() is Mcps && old(self).mcp_focus is Configs ==> ({
                let es = obj_entries_of(spec_get(old(self).config.entries(), "amp.mcpServers"@));
                &&& (es.len() == 0 ==> *final(self) == (App {
                    status_message: final(self).status_message,
                    ..*old(self)
                }) && (final(self).status_message matches Some(m) && m@
                    == "No servers to delete."@))
                &&& (es.len() > 0 ==> {
                    let idx = if old(self).selected_setting < es.len() {
                        old(self).selected_setting as int
                    } else {
                        es.len() - 1
                    };
                    let name = es[idx].0;
                    let rest = entries_remove(es, name);
                    &&& *final(self) == (App {
                        config: final(self).config,
                        status_message: final(self).status_message,
                        selected_setting: final(self).selected_setting,
                        ..*old(self)
                    })
                    &&& final(self).config.entries() == entries_insert(
                        old(self).config.entries(),
                        "amp.mcpServers"@,
                        JsonV::Obj(rest),
                    )
                    &&& final(self).config.inv()
                    &&& final(self).config.spec_dirty()
                    &&& (old(self).config.wf() ==> final(self).config.wf())
                    &&& (final(self).status_message matches Some(m) && m@ == "Removed server '"@
                        + name + "'"@)
                    &&& final(self).selected_setting == (if rest.len() > 0 && old(self).selected_setting >= rest.len() {
                        (rest.len() - 1) as usize
                    } else {
                        old(self).selected_setting
                    })
                })
            }),
            old(self).spec_section() is Mcps && old(self).mcp_focus is Permissions ==> ({
                let items = arr_items_of(
                    spec_get(old(self).config.entries(), "amp.mcpPermissions"@),
                );
                &&& (items.len() == 0 ==> *final(self) == (App {
                    status_message: final(self).status_message,
                    ..*old(self)
                }) && (final(self).status_message matches Some(m) && m@
                    == "Array is already empty."@))
                &&& (items.len() > 0 ==> final(self).config.entries() == entries_insert(
                    old(self).config.entries(),
                    "amp.mcpPermissions"@,
                    JsonV::Arr(
                        items.remove(
                            if old(self).selected_mcp_permission < items.len() {
                                old(self).selected_mcp_permission as int
                            } else {
                                items.len() - 1
                            },
                        ),
                    ),
                ))
            }),
            !(old(self).spec_section() is Mcps) ==> ({
                let sel = old(self).spec_selected_array_key();
                &&& (sel is None ==> *final(self) == *old(self))
                &&& (sel matches Some(k) ==> {
                    let items = arr_items_of(spec_get(old(self).config.entries(), k));
                    &&& (items.len() == 0 ==> *final(self) == (App {
                        status_message: final(self).status_message,
                        ..*old(self)
                    }) && (final(self).status_message matches Some(m) && m@
                        == "Array is already empty."@))
                    &&& (items.len() > 0 && old(self).spec_section() is Permissions ==> {
                        let idx = if old(self).selected_setting < items.len() {
                            old(self).selected_setting as int
                        } else {
                            items.len() - 1
                        };
                        let rest = items.remove(idx);
                        &&& *final(self) == (App {
                            config: final(self).config,
                            status_message: final(self).status_message,
                            selected_setting: final(self).selected_setting,
                            ..*old(self)
                        })
                        &&& final(self).config.entries() == entries_insert(
                            old(self).config.entries(),
                            k,
                            JsonV::Arr(rest),
                        )
                        &&& final(self).config.inv()
                        &&& final(self).config.spec_dirty()
                        &&& (old(self).config.wf() ==> final(self).config.wf())
                        &&& (final(self).status_message matches Some(m) && m@
                            == "Removed item "@ + crate::text::dec_str(idx) + " from "@ + k)
                        &&& final(self).selected_setting == (if rest.len() > 0 && old(self).selected_setting >= rest.len() {
                            (rest.len() - 1) as usize
                        } else {
                            old(self).selected_setting
                        })
                    })
                    &&& (items.len() > 0 && !(old(self).spec_section() is Permissions) ==> {
                        &&& *final(self) == (App {
                            config: final(self).config,
                            status_message: final(self).status_message,
                            ..*old(self)
                        })
                        &&& final(self).config.entries() == entries_insert(
                            old(self).config.entries(),
                            k,
                            JsonV::Arr(items.drop_last()),
                        )
                        &&& final(self).config.inv()
                        &&& final(self).config.spec_dirty()
                        &&& (old(self).config.wf() ==> final(self).config.wf())
                        &&& (final(self).status_message matches Some(m) && m@
                            == "Removed last item from "@ + k)
                    })
                })
            }),
    {
        if self.current_section().is_split_panel() {
            match self.mcp_focus {
                McpFocus::Configs => {
                    self.delete_mcp_config_item();
                },
                McpFocus::Permissions => {
                    self.delete_mcp_permission_item();
                },
            }
            return;
        }
        let single = self.current_section().is_single_key();
        let def = match self.selected_array_def() {
            Some(d) => d,
            None => {
                return;
            },
        };
        let v = self.config.get(def.key);
        let mut items = match v {
            Json::Arr(a) => a,
            _ => Vec::new(),
        };
        let ghost before = crate::json::view_of_list(items@);
        proof {
            crate::json::lemma_view_of_list_len(items@);
        }
        if items.len() == 0 {
            self.status_message = Some("Array is already empty.".to_owned());
            return;
        }
        if single {
            let idx: usize = if self.selected_setting < items.len() {
                self.selected_setting
            } else {
                items.len() - 1
            };
            proof {
                crate::json::lemma_view_list_remove(items@, idx as int);
                if old(self).config.wf() {
                    crate::config::lemma_get_wf(old(self).config.entries(), def.key@);
                    crate::json::lemma_wf_list_remove(before, idx as int);
                }
            }
            items.remove(idx);
            let new_len = items.len();
            self.config.set(def.key, Json::Arr(items));
            let mut msg = "Removed item ".to_owned();
            msg.append(crate::codec::usize_token(idx).as_str());
            msg.append(" from ");
            msg.append(def.key);
            self.status_message = Some(msg);
            if new_len > 0 && self.selected_setting >= new_len {
                self.selected_setting = new_len - 1;
            }
        } else {
            proof {
                crate::json::lemma_view_list_drop_last(items@);
                if old(self).config.wf() {
                    crate::config::lemma_get_wf(old(self).config.entries(), def.key@);
                    crate::json::lemma_wf_list_drop_last(before);
                }
            }
            items.pop();
            self.config.set(def.key, Json::Arr(items));
            let mut msg = "Removed last item from ".to_owned();
            msg.append(def.key);
            self.status_message = Some(msg);
        }
    }
}

} // verus!

verus! {

/// The first position of a text among the options.
fn option_position(options: &Vec<&'static str>, cur: &str, Ghost(opts): Ghost<Seq<Seq<char>>>) -> (r:
    Option<usize>)
    requires
        options@.len() == opts.len(),
        forall|t: int| 0 <= t < options@.len() ==> (#[trigger] options@[t])@ == opts[t],
    ensures
        match r {
            Some(p) => p < options@.len() && spec_position(opts, cur@) == Some(p as int),
            None => spec_position(opts, cur@) is None,
        },
{
    let mut i: usize = 0;
    while i < options.len()
        invariant
            options@.len() == opts.len(),
            forall|t: int| 0 <= t < options@.len() ==> (#[trigger] options@[t])@ == opts[t],
            i <= options@.len(),
            forall|t: int| 0 <= t < i ==> opts[t] != cur@,
        decreases options@.len() - i,
    {
        if crate::text::str_eq(options[i], cur) {
            proof {
                lemma_position_at(opts, cur@, i as int);
            }
            return Some(i);
        }
        i = i + 1;
    }
    proof {
        lemma_position_absent(opts, cur@);
    }
    None
}

/// The position the enum cycle moves to: one past the current value's
/// first occurrence, wrapping, or the first option when the current
/// value is not an option.
pub open spec fn spec_cycle_index(opts: Seq<Seq<char>>, cur: Seq<char>) -> int {
    match spec_position(opts, cur) {
        Some(i) => (i + 1) % (opts.len() as int),
        None => 0,
    }
}

/// The enum-cycle transition for the setting under `k`: landing on the
/// synthetic "Custom" option of a custom-allowing setting opens inline
/// editing instead of writing the literal option.
pub open spec fn spec_cycle_result(a: App, b: App, k: Seq<char>) -> bool {
    let opts = spec_options(k)->0;
    let cur = spec_str_of(spec_get(a.config.entries(), k));
    let next = opts[spec_cycle_index(opts, cur)];
    if next == "Custom"@ && spec_allows_custom(k) {
        b == (App { input_mode: InputMode::EditingValue, edit_buffer: b.edit_buffer, ..a })
            && b.edit_buffer@ == Seq::<char>::empty()
    } else {
        &&& b == (App { config: b.config, ..a })
        &&& b.config.entries() == entries_insert(a.config.entries(), k, JsonV::Str(next))
        &&& b.config.inv()
        &&& b.config.spec_dirty()
        &&& (a.config.wf() ==> b.config.wf())
    }
}

impl App {
    /// Cycles a string-enum setting to its next option.
    fn cycle_enum(&mut self, def: &SettingDef)
        requires
            old(self).inv(),
            def.wf(),
        ensures
            def.enum_options is None ==> *final(self) == *old(self),
            def.enum_options is Some ==> spec_cycle_result(*old(self), *final(self), def.key@),
    {
        let options = match &def.enum_options {
            Some(o) => o,
            None => {
                return;
            },
        };
        let ghost opts = spec_options(def.key@)->0;
        proof {
            assert(opts.len() > 0);
        }
        let current = self.config.get(def.key);
        let cur: String = match current {
            Json::Str(s) => s,
            _ => String::new(),
        };
        let ghost curv = spec_str_of(spec_get(self.config.entries(), def.key@));
        proof {
            assert(cur@ == curv);
        }
        let found = option_position(options, cur.as_str(), Ghost(opts));
        let next_idx: usize = match found {
            Some(p) => (p + 1) % options.len(),
            None => 0,
        };
        proof {
            assert(next_idx as int == spec_cycle_index(opts, curv));
        }
        let next = options[next_idx];
        if crate::text::str_eq(next, "Custom") && def.allows_custom {
            self.input_mode = InputMode::EditingValue;
            self.edit_buffer = String::new();
        } else {
            self.config.set(def.key, Json::Str(next.to_owned()));
        }
    }
}

} // verus!

verus! {

impl App {
    /// Opens the selected array item of the single-key section in the
    /// editor, if the cursor is on one.
    fn activate_single_key_item(&self) -> (r: Option<EditorRequest>)
        ensures
            ({
                let items = arr_items_of(spec_get(self.config.entries(), "amp.permissions"@));
                match r {
                    None => self.selected_setting >= items.len(),
                    Some(req) => {
                        &&& self.selected_setting < items.len()
                        &&& req.key@ == "amp.permissions"@
                        &&& req.value.deep_view() == items[self.selected_setting as int]
                        &&& req.array_index == Some(self.selected_setting)
                        &&& req.object_key is None
                    },
                }
            }),
    {
        let v = self.config.get("amp.permissions");
        let items = match v {
            Json::Arr(a) => a,
            _ => Vec::new(),
        };
        proof {
            crate::json::lemma_view_of_list_len(items@);
        }
        if self.selected_setting >= items.len() {
            return None;
        }
        proof {
            crate::json::lemma_view_of_list_index(items@, self.selected_setting as int);
        }
        Some(
            EditorRequest {
                key: "amp.permissions".to_owned(),
                value: items[self.selected_setting].clone(),
                array_index: Some(self.selected_setting),
                object_key: None,
            },
        )
    }

    /// Opens the selected entry of the split section in the editor.
    fn activate_mcp_setting(&self) -> (r: Option<EditorRequest>)
        ensures
            self.mcp_focus is Configs ==> ({
                let es = obj_entries_of(spec_get(self.config.entries(), "amp.mcpServers"@));
                match r {
                    None => self.selected_setting >= es.len(),
                    Some(req) => {
                        &&& self.selected_setting < es.len()
                        &&& req.key@ == "amp.mcpServers"@
                        &&& req.value.deep_view() == es[self.selected_setting as int].1
                        &&& req.array_index is None
                        &&& (req.object_key matches Some(n) && n@ == es[
                            self.selected_setting as int
                        ].0)
                    },
                }
            }),
            self.mcp_focus is Permissions ==> ({
                let items = arr_items_of(spec_get(self.config.entries(), "amp.mcpPermissions"@));
                match r {
                    None => self.selected_mcp_permission >= items.len(),
                    Some(req) => {
                        &&& self.selected_mcp_permission < items.len()
                        &&& req.key@ == "amp.mcpPermissions"@
                        &&& req.value.deep_view() == items[self.selected_mcp_permission as int]
                        &&& req.array_index == Some(self.selected_mcp_permission)
                        &&& req.object_key is None
                    },
                }
            }),
    {
        match self.mcp_focus {
            McpFocus::Configs => {
                let v = self.config.get("amp.mcpServers");
                let es = match v {
                    Json::Obj(es) => es,
                    _ => Vec::new(),
                };
                proof {
                    crate::json::lemma_view_of_entries_len(es@);
                }
                if self.selected_setting >= es.len() {
                    return None;
                }
                proof {
                    crate::json::lemma_view_of_entries_index(es@, self.selected_setting as int);
                }
                let pair = &es[self.selected_setting];
                Some(
                    EditorRequest {
                        key: "amp.mcpServers".to_owned(),
                        value: pair.1.clone(),
                        array_index: None,
                        object_key: Some(pair.0.clone()),
                    },
                )
            },
            McpFocus::Permissions => {
                let v = self.config.get("amp.mcpPermissions");
                let items = match v {
                    Json::Arr(a) => a,
                    _ => Vec::new(),
                };
                proof {
                    crate::json::lemma_view_of_list_len(items@);
                }
                if self.selected_mcp_permission >= items.len() {
                    return None;
                }
                proof {
                    crate::json::lemma_view_of_list_index(
                        items@,
                        self.selected_mcp_permission as int,
                    );
                }
                Some(
                    EditorRequest {
                        key: "amp.mcpPermissions".to_owned(),
                        value: items[self.selected_mcp_permission].clone(),
                        array_index: Some(self.selected_mcp_permission),
                        object_key: None,
                    },
                )
            },
        }
    }

    /// Acts on the selected setting: toggles booleans, opens inline
    /// editing for strings and numbers, cycles enums, and hands objects
    /// and object-array items to the editor.
    pub fn activate_setting(&mut self) -> (r: Option<EditorRequest>)
        requires
            old(self).inv(),
        ensures
            old(self).spec_section() is Permissions ==> *final(self) == *old(self) && ({
                let items = arr_items_of(spec_get(old(self).config.entries(), "amp.permissions"@));
                match r {
                    None => old(self).selected_setting >= items.len(),
                    Some(req) => {
                        &&& old(self).selected_setting < items.len()
                        &&& req.key@ == "amp.permissions"@
                        &&& req.value.deep_view() == items[old(self).selected_setting as int]
                        &&& req.array_index == Some(old(self).selected_setting)
                        &&& req.object_key is None
                    },
                }
            }),
            old(self).spec_section() is Mcps ==> *final(self) == *old(self),
            old(self).spec_section() is Advanced ==> *final(self) == *old(self) && ({
                let ks = crate::config::spec_unknown_keys(old(self).config.entries());
                match r {
                    None => old(self).selected_setting >= ks.len(),
                    Some(req) => {
                        &&& old(self).selected_setting < ks.len()
                        &&& req.key@ == ks[old(self).selected_setting as int]
                        &&& req.value.deep_view() == spec_get(
                            old(self).config.entries(),
                            req.key@,
                        )
                        &&& req.array_index is None
                        &&& req.object_key is None
                    },
                }
            }),
            old(self).spec_section() is General || old(self).spec_section() is Tools ==> ({
                let ks = spec_section_keys(old(self).spec_section());
                &&& (old(self).selected_setting >= ks.len() ==> *final(self) == *old(self)
                    && r is None)
                &&& (old(self).selected_setting < ks.len() ==> {
                    let k = ks[old(self).selected_setting as int];
                    let cur = spec_get(old(self).config.entries(), k);
                    &&& (spec_type_of(k) is Boolean ==> {
                        &&& r is None
                        &&& *final(self) == (App { config: final(self).config, ..*old(self) })
                        &&& final(self).config.entries() == entries_insert(
                            old(self).config.entries(),
                            k,
                            JsonV::Bool(!spec_bool_of(cur)),
                        )
                        &&& final(self).config.inv()
                        &&& final(self).config.spec_dirty()
                        &&& (old(self).config.wf() ==> final(self).config.wf())
                    })
                    &&& (spec_type_of(k) is String || spec_type_of(k) is Number ==> {
                        &&& r is None
                        &&& *final(self) == (App {
                            input_mode: InputMode::EditingValue,
                            edit_buffer: final(self).edit_buffer,
                            ..*old(self)
                        })
                        &&& final(self).edit_buffer@ == (match cur {
                            JsonV::Str(s) => s,
                            JsonV::Int(n) => crate::text::dec_str(n),
                            JsonV::Num(t) => t,
                            _ => Seq::<char>::empty(),
                        })
                    })
                    &&& (spec_type_of(k) is StringEnum ==> r is None && spec_cycle_result(
                        *old(self),
                        *final(self),
                        k,
                    ))
                    &&& (spec_type_of(k) is Object ==> *final(self) == *old(self) && (
                    r matches Some(req) && req.key@ == k && req.value.deep_view() == cur
                        && req.array_index is None && req.object_key is None))
                    &&& (spec_type_of(k) is ArrayObject ==> ({
                        let items = arr_items_of(cur);
                        &&& (items.len() == 0 ==> r is None && *final(self) == (App {
                            status_message: final(self).status_message,
                            ..*old(self)
                        }) && (final(self).status_message matches Some(m) && m@
                            == "Empty array. Press 'a' to add an item."@))
                        &&& (items.len() > 0 ==> *final(self) == *old(self) && (r matches Some(
                            req,
                        ) && req.key@ == k && req.value.deep_view() == items[0]
                            && req.array_index == Some(0usize) && req.object_key is None))
                    }))
                    &&& (spec_type_of(k) is ArrayString ==> r is None && *final(self) == (App {
                        status_message: final(self).status_message,
                        ..*old(self)
                    }) && (final(self).status_message matches Some(m) && m@
                        == "Press 'a' to add, 'd' to delete items."@))
                })
            }),
    {
        if self.current_section().is_single_key() {
            return self.activate_single_key_item();
        }
        if self.current_section().is_split_panel() {
            return self.activate_mcp_setting();
        }
        let mut entries = self.current_settings();
        if self.selected_setting >= entries.len() {
            return None;
        }
        let e = entries.remove(self.selected_setting);
        let def = match e {
            SettingEntry::Known(d) => d,
            SettingEntry::Unknown(key) => {
                let value = self.config.get(key.as_str());
                return Some(
                    EditorRequest { key, value, array_index: None, object_key: None },
                );
            },
        };
        match def.setting_type {
            SettingType::Boolean => {
                let current = self.config.get(def.key);
                let toggled = match current {
                    Json::Bool(b) => !b,
                    _ => true,
                };
                self.config.set(def.key, Json::Bool(toggled));
                None
            },
            SettingType::String | SettingType::Number => {
                self.input_mode = InputMode::EditingValue;
                let current = self.config.get(def.key);
                self.edit_buffer = match current {
                    Json::Str(s) => s,
                    Json::Int(n) => crate::codec::i64_token(n),
                    Json::Num(t) => t,
                    _ => String::new(),
                };
                None
            },
            SettingType::StringEnum => {
                self.cycle_enum(&def);
                None
            },
            SettingType::Object => {
                Some(
                    EditorRequest {
                        key: def.key.to_owned(),
                        value: self.config.get(def.key),
                        array_index: None,
                        object_key: None,
                    },
                )
            },
            SettingType::ArrayObject => {
                let v = self.config.get(def.key);
                let items = match v {
                    Json::Arr(a) => a,
                    _ => Vec::new(),
                };
                proof {
                    crate::json::lemma_view_of_list_len(items@);
                }
                if items.len() == 0 {
                    self.status_message = Some(
                        "Empty array. Press 'a' to add an item.".to_owned(),
                    );
                    None
                } else {
                    proof {
                        crate::json::lemma_view_of_list_index(items@, 0);
                    }
                    Some(
                        EditorRequest {
                            key: def.key.to_owned(),
                            value: items[0].clone(),
                            array_index: Some(0),
                            object_key: None,
                        },
                    )
                }
            },
            SettingType::ArrayString => {
                self.status_message = Some("Press 'a' to add, 'd' to delete items.".to_owned());
                None
            },
        }
    }
}

} // verus!

verus! {

impl App {
    /// Forces opening the editor on the whole selected setting, or on the
    /// selected entry of the split section.
    pub fn force_editor(&self) -> (r: Option<EditorRequest>)
        requires
            self.inv(),
        ensures
            self.spec_section() is Mcps && self.mcp_focus is Configs ==> ({
                let es = obj_entries_of(spec_get(self.config.entries(), "amp.mcpServers"@));
                match r {
                    None => self.selected_setting >= es.len(),
                    Some(req) => {
                        &&& self.selected_setting < es.len()
                        &&& req.key@ == "amp.mcpServers"@
                        &&& req.value.deep_view() == es[self.selected_setting as int].1
                        &&& req.array_index is None
                        &&& (req.object_key matches Some(n) && n@ == es[
                            self.selected_setting as int
                        ].0)
                    },
                }
            }),
            self.spec_section() is Mcps && self.mcp_focus is Permissions ==> ({
                let items = arr_items_of(spec_get(self.config.entries(), "amp.mcpPermissions"@));
                match r {
                    None => self.selected_mcp_permission >= items.len(),
                    Some(req) => {
                        &&& self.selected_mcp_permission < items.len()
                        &&& req.key@ == "amp.mcpPermissions"@
                        &&& req.value.deep_view() == items[self.selected_mcp_permission as int]
                        &&& req.array_index == Some(self.selected_mcp_permission)
                        &&& req.object_key is None
                    },
                }
            }),
            self.spec_section() is Permissions ==> (r matches Some(req) && req.key@
                == "amp.permissions"@ && req.value.deep_view() == spec_get(
                self.config.entries(),
                "amp.permissions"@,
            ) && req.array_index is None && req.object_key is None),
            self.spec_section() is General || self.spec_section() is Tools ==> ({
                let ks = spec_section_keys(self.spec_section());
                match r {
                    None => self.selected_setting >= ks.len(),
                    Some(req) => {
                        &&& self.selected_setting < ks.len()
                        &&& req.key@ == ks[self.selected_setting as int]
                        &&& req.value.deep_view() == spec_get(self.config.entries(), req.key@)
                        &&& req.array_index is None
                        &&& req.object_key is None
                    },
                }
            }),
            self.spec_section() is Advanced ==> ({
                let ks = crate::config::spec_unknown_keys(self.config.entries());
                match r {
                    None => self.selected_setting >= ks.len(),
                    Some(req) => {
                        &&& self.selected_setting < ks.len()
                        &&& req.key@ == ks[self.selected_setting as int]
                        &&& req.value.deep_view() == spec_get(self.config.entries(), req.key@)
                        &&& req.array_index is None
                        &&& req.object_key is None
                    },
                }
            }),
    {
        if self.current_section().is_split_panel() {
            return self.activate_mcp_setting();
        }
        let single = self.current_section().is_single_key();
        let mut entries = self.current_settings();
        let idx: usize = if single {
            0
        } else {
            self.selected_setting
        };
        if idx >= entries.len() {
            return None;
        }
        let e = entries.remove(idx);
        let (key, value) = match e {
            SettingEntry::Known(d) => (d.key.to_owned(), self.config.get(d.key)),
            SettingEntry::Unknown(k) => {
                let v = self.config.get(k.as_str());
                (k, v)
            },
        };
        Some(EditorRequest { key, value, array_index: None, object_key: None })
    }

    /// Applies a value edited outside back into the document: into the
    /// named member of an object setting, onto the indexed element of an
    /// array setting (dropped if the index is out of bounds), or over the
    /// whole setting.
    pub fn apply_editor_result(&mut self, request: &EditorRequest, edited: Json)
        requires
            old(self).inv(),
        ensures
            request.object_key matches Some(ok) ==> ({
                let obj = obj_entries_of(spec_get(old(self).config.entries(), request.key@));
                &&& *final(self) == (App {
                    config: final(self).config,
                    status_message: final(self).status_message,
                    ..*old(self)
                })
                &&& (sorted_keys(obj) ==> final(self).config.entries() == entries_insert(
                    old(self).config.entries(),
                    request.key@,
                    JsonV::Obj(entries_insert(obj, ok@, edited.deep_view())),
                ))
                &&& final(self).config.inv()
                &&& final(self).config.spec_dirty()
                &&& (old(self).config.wf() && wf_value(edited.deep_view()) ==> final(self).config.wf())
                &&& (final(self).status_message matches Some(m) && m@ == "Updated "@ + ok@
                    + " in "@ + request.key@)
            }),
            request.array_index matches Some(idx) ==> request.object_key is None ==> ({
                let items = arr_items_of(spec_get(old(self).config.entries(), request.key@));
                &&& *final(self) == (App {
                    config: final(self).config,
                    status_message: final(self).status_message,
                    ..*old(self)
                })
                &&& final(self).config.entries() == entries_insert(
                    old(self).config.entries(),
                    request.key@,
                    JsonV::Arr(
                        if idx < items.len() {
                            items.update(idx as int, edited.deep_view())
                        } else {
                            items
                        },
                    ),
                )
                &&& final(self).config.inv()
                &&& final(self).config.spec_dirty()
                &&& (old(self).config.wf() && wf_value(edited.deep_view()) ==> final(self).config.wf())
                &&& (final(self).status_message matches Some(m) && m@ == "Updated "@
                    + request.key@)
            }),
            request.object_key is None && request.array_index is None ==> {
                &&& *final(self) == (App {
                    config: final(self).config,
                    status_message: final(self).status_message,
                    ..*old(self)
                })
                &&& final(self).config.entries() == entries_insert(
                    old(self).config.entries(),
                    request.key@,
                    edited.deep_view(),
                )
                &&& final(self).config.inv()
                &&& final(self).config.spec_dirty()
                &&& (old(self).config.wf() && wf_value(edited.deep_view()) ==> final(self).config.wf())
                &&& (final(self).status_message matches Some(m) && m@ == "Updated "@
                    + request.key@)
            },
    {
        if let Some(ok) = &request.object_key {
            let v = self.config.get(request.key.as_str());
            let mut es = match v {
                Json::Obj(es) => es,
                _ => Vec::new(),
            };
            let ghost obj = crate::json::view_of_entries(es@);
            proof {
                if old(self).config.wf() && wf_value(edited.deep_view()) {
                    crate::config::lemma_get_wf(old(self).config.entries(), request.key@);
                    crate::json::lemma_insert_props(obj, ok@, edited.deep_view());
                    crate::json::lemma_insert_wf(obj, ok@, edited.deep_view());
                }
            }
            crate::json::entries_set(&mut es, ok.as_str(), edited);
            self.config.set(request.key.as_str(), Json::Obj(es));
            let mut msg = "Updated ".to_owned();
            msg.append(ok.as_str());
            msg.append(" in ");
            msg.append(request.key.as_str());
            self.status_message = Some(msg);
        } else if let Some(idx) = request.array_index {
            let v = self.config.get(request.key.as_str());
            let mut items = match v {
                Json::Arr(a) => a,
                _ => Vec::new(),
            };
            let ghost before = crate::json::view_of_list(items@);
            proof {
                crate::json::lemma_view_of_list_len(items@);
            }
            if idx < items.len() {
                proof {
                    crate::json::lemma_view_list_remove(items@, idx as int);
                    if old(self).config.wf() && wf_value(edited.deep_view()) {
                        crate::config::lemma_get_wf(old(self).config.entries(), request.key@);
                        crate::json::lemma_wf_list_update(before, idx as int, edited.deep_view());
                    }
                }
                let ghost mid = items@;
                items.remove(idx);
                proof {
                    crate::json::lemma_view_list_update(mid, idx as int, edited);
                }
                items.insert(idx, edited);
                proof {
                    assert(items@ =~= mid.update(idx as int, edited));
                }
            } else {
                proof {
                    if old(self).config.wf() && wf_value(edited.deep_view()) {
                        crate::config::lemma_get_wf(old(self).config.entries(), request.key@);
                    }
                }
            }
            self.config.set(request.key.as_str(), Json::Arr(items));
            let mut msg = "Updated ".to_owned();
            msg.append(request.key.as_str());
            self.status_message = Some(msg);
        } else {
            self.config.set(request.key.as_str(), edited);
            let mut msg = "Updated ".to_owned();
            msg.append(request.key.as_str());
            self.status_message = Some(msg);
        }
    }
}

} // verus!

verus! {

impl App {
    /// Resets the selected setting: clears a known setting's override
    /// (reverting to its default), deletes an unknown key outright, and
    /// in the split section removes the selected server or resets the
    /// rule array.
    pub fn reset_setting(&mut self)
        requires
            old(self).inv(),
        ensures
            old(self).spec_section() is Mcps && old(self).mcp_focus is Configs ==> ({
                let es = obj_entries_of(spec_get(old(self).config.entries(), "amp.mcpServers"@));
                &&& (old(self).selected_setting >= es.len() ==> *final(self) == *old(self))
                &&& (old(self).selected_setting < es.len() ==> {
                    let name = es[old(self).selected_setting as int].0;
                    let rest = entries_remove(es, name);
                    &&& *final(self) == (App {
                        config: final(self).config,
                        status_message: final(self).status_message,
                        selected_setting: final(self).selected_setting,
                        ..*old(self)
                    })
                    &&& final(self).config.entries() == entries_insert(
                        old(self).config.entries(),
                        "amp.mcpServers"@,
                        JsonV::Obj(rest),
                    )
                    &&& final(self).config.inv()
                    &&& final(self).config.spec_dirty()
                    &&& (old(self).config.wf() ==> final(self).config.wf())
                    &&& (final(self).status_message matches Some(m) && m@ == "Removed server '"@
                        + name + "'"@)
                    &&& final(self).selected_setting == (if rest.len() > 0 && old(self).selected_setting >= rest.len() {
                        (rest.len() - 1) as usize
                    } else {
                        old(self).selected_setting
                    })
                })
            }),
            old(self).spec_section() is Mcps && old(self).mcp_focus is Permissions ==> {
                &&& *final(self) == (App {
                    config: final(self).config,
                    status_message: final(self).status_message,
                    selected_mcp_permission: 0,
                    ..*old(self)
                })
                &&& final(self).config.entries() == entries_remove(
                    old(self).config.entries(),
                    "amp.mcpPermissions"@,
                )
                &&& final(self).config.inv()
                &&& (old(self).config.wf() ==> final(self).config.wf())
                &&& (final(self).status_message matches Some(m) && m@
                    == "Reset amp.mcpPermissions to default"@)
            },
            old(self).spec_section() is Permissions ==> {
                &&& *final(self) == (App {
                    config: final(self).config,
                    status_message: final(self).status_message,
                    selected_setting: 0,
                    ..*old(self)
                })
                &&& final(self).config.entries() == entries_remove(
                    old(self).config.entries(),
                    "amp.permissions"@,
                )
                &&& final(self).config.inv()
                &&& (old(self).config.wf() ==> final(self).config.wf())
                &&& (final(self).status_message matches Some(m) && m@ == "Reset "@
                    + "amp.permissions"@ + " to default"@)
            },
            old(self).spec_section() is General || old(self).spec_section() is Tools ==> ({
                let ks = spec_section_keys(old(self).spec_section());
                &&& (old(self).selected_setting >= ks.len() ==> *final(self) == *old(self))
                &&& (old(self).selected_setting < ks.len() ==> {
                    let k = ks[old(self).selected_setting as int];
                    &&& *final(self) == (App {
                        config: final(self).config,
                        status_message: final(self).status_message,
                        ..*old(self)
                    })
                    &&& final(self).config.entries() == entries_remove(
                        old(self).config.entries(),
                        k,
                    )
                    &&& final(self).config.inv()
                    &&& (old(self).config.wf() ==> final(self).config.wf())
                    &&& (final(self).status_message matches Some(m) && m@ == "Reset "@ + k
                        + " to default"@)
                })
            }),
            old(self).spec_section() is Advanced ==> ({
                let ks = crate::config::spec_unknown_keys(old(self).config.entries());
                &&& (old(self).selected_setting >= ks.len() ==> *final(self) == *old(self))
                &&& (old(self).selected_setting < ks.len() ==> {
                    let k = ks[old(self).selected_setting as int];
                    let rest = entries_remove(old(self).config.entries(), k);
                    let cnt = crate::config::spec_unknown_keys(rest).len();
                    &&& *final(self) == (App {
                        config: final(self).config,
                        status_message: final(self).status_message,
                        selected_setting: final(self).selected_setting,
                        ..*old(self)
                    })
                    &&& final(self).config.entries() == rest
                    &&& final(self).config.inv()
                    &&& (old(self).config.wf() ==> final(self).config.wf())
                    &&& (final(self).status_message matches Some(m) && m@ == "Removed "@ + k)
                    &&& final(self).selected_setting == (if cnt > 0 && old(self).selected_setting
                        >= cnt {
                        (cnt - 1) as usize
                    } else {
                        old(self).selected_setting
                    })
                })
            }),
    {
        if self.current_section().is_split_panel() {
            match self.mcp_focus {
                McpFocus::Configs => {
                    let names = self.mcp_server_names();
                    if self.selected_setting >= names.len() {
                        return;
                    }
                    let idx = self.selected_setting;
                    let v = self.config.get("amp.mcpServers");
                    let mut es = match v {
                        Json::Obj(es) => es,
                        _ => vstd::pervasive::unreached(),
                    };
                    let ghost before = crate::json::view_of_entries(es@);
                    crate::json::entries_delete(&mut es, names[idx].as_str());
                    proof {
                        if old(self).config.wf() {
                            crate::config::lemma_get_wf(
                                old(self).config.entries(),
                                "amp.mcpServers"@,
                            );
                            crate::json::lemma_remove_props(before, before[idx as int].0);
                            crate::json::lemma_remove_wf(before, before[idx as int].0);
                        }
                        crate::json::lemma_key_present(before, idx as int);
                        crate::json::lemma_remove_len(before, before[idx as int].0);
                    }
                    self.config.set("amp.mcpServers", Json::Obj(es));
                    self.status_message = Some(
                        concat3("Removed server '", names[idx].as_str(), "'"),
                    );
                    let count = self.mcp_config_count();
                    if count > 0 && self.selected_setting >= count {
                        self.selected_setting = count - 1;
                    }
                },
                McpFocus::Permissions => {
                    self.config.remove("amp.mcpPermissions");
                    self.status_message = Some("Reset amp.mcpPermissions to default".to_owned());
                    self.selected_mcp_permission = 0;
                },
            }
            return;
        }
        let single = self.current_section().is_single_key();
        let mut entries = self.current_settings();
        let idx: usize = if single {
            0
        } else {
            self.selected_setting
        };
        if idx >= entries.len() {
            return;
        }
        let e = entries.remove(idx);
        match e {
            SettingEntry::Known(d) => {
                self.config.remove(d.key);
                self.status_message = Some(concat3("Reset ", d.key, " to default"));
                if single {
                    self.selected_setting = 0;
                }
            },
            SettingEntry::Unknown(key) => {
                self.config.remove(key.as_str());
                let mut msg = "Removed ".to_owned();
                msg.append(key.as_str());
                self.status_message = Some(msg);
                let count = self.current_item_count();
                if count > 0 && self.selected_setting >= count {
                    self.selected_setting = count - 1;
                }
            },
        }
    }
}

} // verus!

verus! {

/// What an inline edit commit accepts: for an enum that allows a custom
/// value the membership check is bypassed by design (only the kind must
/// fit); everything else goes through validation.
pub open spec fn spec_edit_accepts(k: Seq<char>, v: JsonV) -> bool {
    if spec_type_of(k) is StringEnum && spec_allows_custom(k) {
        crate::config::spec_type_ok(SettingType::StringEnum, v)
    } else {
        spec_validate(k, v)
    }
}

impl App {
    /// The key of the setting an inline edit commits to: the single-key
    /// section's sole setting, else the selected schema entry.
    pub open spec fn spec_commit_target(&self) -> Option<Seq<char>> {
        let sec = self.spec_section();
        if sec is Advanced {
            None
        } else {
            let ks = spec_section_keys(sec);
            let i = if sec is Permissions {
                0int
            } else {
                self.selected_setting as int
            };
            if 0 <= i < ks.len() {
                Some(ks[i])
            } else {
                None
            }
        }
    }

    /// Commits the current inline edit: appends to array settings
    /// (parsing object items as JSON), parses numbers, validates, and
    /// writes the value; a failed parse or validation keeps the buffer
    /// and surfaces a message.
    pub fn commit_edit(&mut self)
        requires
            old(self).inv(),
        ensures
            !(old(self).input_mode is EditingValue) ==> *final(self) == *old(self),
            old(self).input_mode is EditingValue ==> ({
                let tgt = old(self).spec_commit_target();
                &&& (tgt is None ==> *final(self) == (App {
                    input_mode: InputMode::Normal,
                    ..*old(self)
                }))
                &&& (tgt matches Some(k) ==> {
                    let ty = spec_type_of(k);
                    let buf = old(self).edit_buffer@;
                    let items = arr_items_of(spec_get(old(self).config.entries(), k));
                    &&& (ty is ArrayString ==> {
                        &&& (buf.len() == 0 ==> *final(self) == (App {
                            input_mode: InputMode::Normal,
                            edit_buffer: final(self).edit_buffer,
                            ..*old(self)
                        }) && final(self).edit_buffer@ == Seq::<char>::empty())
                        &&& (buf.len() > 0 ==> {
                            &&& *final(self) == (App {
                                config: final(self).config,
                                status_message: final(self).status_message,
                                edit_buffer: final(self).edit_buffer,
                                input_mode: InputMode::Normal,
                                ..*old(self)
                            })
                            &&& final(self).config.entries() == entries_insert(
                                old(self).config.entries(),
                                k,
                                JsonV::Arr(items.push(JsonV::Str(buf))),
                            )
                            &&& final(self).config.inv()
                            &&& final(self).config.spec_dirty()
                            &&& (old(self).config.wf() ==> final(self).config.wf())
                            &&& (final(self).status_message matches Some(m) && m@
                                == "Added item to "@ + k)
                            &&& final(self).edit_buffer@ == Seq::<char>::empty()
                        })
                    })
                    &&& (ty is ArrayObject ==> {
                        &&& (buf.len() == 0 ==> *final(self) == (App {
                            input_mode: InputMode::Normal,
                            edit_buffer: final(self).edit_buffer,
                            ..*old(self)
                        }) && final(self).edit_buffer@ == Seq::<char>::empty())
                        &&& (buf.len() > 0 ==> match crate::codec::parsed_value_of(buf) {
                            Some(v) => {
                                &&& (v is Obj ==> {
                                    &&& *final(self) == (App {
                                        config: final(self).config,
                                        status_message: final(self).status_message,
                                        edit_buffer: final(self).edit_buffer,
                                        input_mode: InputMode::Normal,
                                        ..*old(self)
                                    })
                                    &&& final(self).config.entries() == entries_insert(
                                        old(self).config.entries(),
                                        k,
                                        JsonV::Arr(items.push(v)),
                                    )
                                    &&& final(self).config.inv()
                                    &&& final(self).config.spec_dirty()
                                    &&& (old(self).config.wf() ==> final(self).config.wf())
                                    &&& (final(self).status_message matches Some(m) && m@
                                        == "Added item to "@ + k)
                                    &&& final(self).edit_buffer@ == Seq::<char>::empty()
                                })
                                &&& (!(v is Obj) ==> *final(self) == (App {
                                    status_message: final(self).status_message,
                                    ..*old(self)
                                }) && (final(self).status_message matches Some(m) && m@
                                    == "Value must be a JSON object"@))
                            },
                            None => *final(self) == (App {
                                status_message: final(self).status_message,
                                ..*old(self)
                            }) && final(self).status_message is Some,
                        })
                    })
                    &&& (!(ty is ArrayString) && !(ty is ArrayObject) ==> {
                        let val = if ty is Number {
                            spec_number_value(buf)
                        } else {
                            Some(JsonV::Str(buf))
                        };
                        &&& (val is None ==> *final(self) == (App {
                            status_message: final(self).status_message,
                            ..*old(self)
                        }) && (final(self).status_message matches Some(m) && m@
                            == "Invalid number."@))
                        &&& (val matches Some(v) ==> {
                            &&& (spec_edit_accepts(k, v) ==> {
                                &&& *final(self) == (App {
                                    config: final(self).config,
                                    edit_buffer: final(self).edit_buffer,
                                    input_mode: InputMode::Normal,
                                    ..*old(self)
                                })
                                &&& final(self).config.entries() == entries_insert(
                                    old(self).config.entries(),
                                    k,
                                    v,
                                )
                                &&& final(self).config.inv()
                                &&& final(self).config.spec_dirty()
                                &&& (old(self).config.wf() ==> final(self).config.wf())
                                &&& final(self).edit_buffer@ == Seq::<char>::empty()
                            })
                            &&& (!spec_edit_accepts(k, v) ==> *final(self) == (App {
                                status_message: final(self).status_message,
                                ..*old(self)
                            }) && (final(self).status_message matches Some(m) && m@
                                == crate::config::spec_validate_message(k, v)))
                        })
                    })
                })
            }),
    {
        if !matches!(self.input_mode, InputMode::EditingValue) {
            return;
        }
        let single = self.current_section().is_single_key();
        let mut entries = self.current_settings();
        let idx: usize = if single {
            0
        } else {
            self.selected_setting
        };
        if idx >= entries.len() {
            self.input_mode = InputMode::Normal;
            return;
        }
        let e = entries.remove(idx);
        let def = match e {
            SettingEntry::Known(d) => d,
            SettingEntry::Unknown(_) => {
                self.input_mode = InputMode::Normal;
                return;
            },
        };
        match def.setting_type {
            SettingType::ArrayString => {
                if self.edit_buffer.as_str().unicode_len() > 0 {
                    let item = Json::Str(self.edit_buffer.clone());
                    push_array_item(&mut self.config, def.key, item);
                    let mut msg = "Added item to ".to_owned();
                    msg.append(def.key);
                    self.status_message = Some(msg);
                }
                self.edit_buffer = String::new();
                self.input_mode = InputMode::Normal;
                return;
            },
            SettingType::ArrayObject => {
                if self.edit_buffer.as_str().unicode_len() > 0 {
                    match crate::codec::value_from_text(self.edit_buffer.as_str()) {
                        Ok(val) => {
                            if matches!(val, Json::Obj(_)) {
                                push_array_item(&mut self.config, def.key, val);
                                let mut msg = "Added item to ".to_owned();
                                msg.append(def.key);
                                self.status_message = Some(msg);
                            } else {
                                self.status_message = Some(
                                    "Value must be a JSON object".to_owned(),
                                );
                                return;
                            }
                        },
                        Err(e) => {
                            let mut msg = "Invalid JSON: ".to_owned();
                            msg.append(e.as_str());
                            self.status_message = Some(msg);
                            return;
                        },
                    }
                }
                self.edit_buffer = String::new();
                self.input_mode = InputMode::Normal;
                return;
            },
            _ => {},
        }
        let value = match def.setting_type {
            SettingType::Number => {
                match crate::text::parse_i64(self.edit_buffer.as_str()) {
                    Some(n) => Json::Int(n),
                    None => {
                        let untrimmed = crate::text::str_eq(
                            crate::text::trim(self.edit_buffer.as_str()),
                            self.edit_buffer.as_str(),
                        );
                        let tok = if untrimmed {
                            crate::codec::num_token(self.edit_buffer.as_str())
                        } else {
                            None
                        };
                        match tok {
                            Some(t) => {
                                proof {
                                    assert(crate::json::wf_num_token(t@));
                                }
                                Json::Num(t)
                            },
                            None => {
                                self.status_message = Some("Invalid number.".to_owned());
                                return;
                            },
                        }
                    },
                }
            },
            _ => Json::Str(self.edit_buffer.clone()),
        };
        let bypass_enum_check = matches!(def.setting_type, SettingType::StringEnum)
            && def.allows_custom;
        if !bypass_enum_check {
            match Config::validate_value(def.key, &value) {
                Err(e) => {
                    self.status_message = Some(e);
                    return;
                },
                Ok(()) => {},
            }
        }
        self.config.set(def.key, value);
        self.edit_buffer = String::new();
        self.input_mode = InputMode::Normal;
    }
}

} // verus!
