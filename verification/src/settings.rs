//! The schema of known settings: their keys, types, defaults, enum
//! options, and the section each one belongs to.

use vstd::prelude::*;

use crate::json::{Json, JsonV};
use crate::text::str_eq;

verus! {

/// The type of a setting value.
#[derive(Debug, Clone, Copy, PartialEq, Eq, Structural)]
pub enum SettingType {
    Boolean,
    String,
    Number,
    StringEnum,
    ArrayString,
    ArrayObject,
    Object,
}

/// Which section a setting belongs to.
#[derive(Debug, Clone, Copy, PartialEq, Eq, Hash, Structural)]
pub enum Section {
    General,
    Permissions,
    Tools,
    Mcps,
    Advanced,
}

/// How many sections there are.
pub const SECTION_COUNT: usize = 5;

/// The section at a position of the fixed section order.
pub open spec fn spec_section_at(i: int) -> Section {
    if i == 0 {
        Section::General
    } else if i == 1 {
        Section::Permissions
    } else if i == 2 {
        Section::Tools
    } else if i == 3 {
        Section::Mcps
    } else {
        Section::Advanced
    }
}

impl Section {
    /// The section at a position of the fixed section order.
    pub fn at(i: usize) -> (r: Section)
        requires
            i < SECTION_COUNT,
        ensures
            r == spec_section_at(i as int),
    {
        if i == 0 {
            Section::General
        } else if i == 1 {
            Section::Permissions
        } else if i == 2 {
            Section::Tools
        } else if i == 3 {
            Section::Mcps
        } else {
            Section::Advanced
        }
    }

    /// All sections, in their fixed order.
    pub fn all() -> (r: Vec<Section>)
        ensures
            r@.len() == SECTION_COUNT,
            forall|i: int| 0 <= i < r@.len() ==> #[trigger] r@[i] == spec_section_at(i),
    {
        let mut v: Vec<Section> = Vec::new();
        v.push(Section::General);
        v.push(Section::Permissions);
        v.push(Section::Tools);
        v.push(Section::Mcps);
        v.push(Section::Advanced);
        v
    }

    /// The display label of the section.
    pub fn label(self) -> (r: &'static str)
        ensures
            self is General ==> r@ == "General"@,
            self is Permissions ==> r@ == "Permissions"@,
            self is Tools ==> r@ == "Tools"@,
            self is Mcps ==> r@ == "MCPs"@,
            self is Advanced ==> r@ == "Advanced"@,
    {
        match self {
            Section::General => "General",
            Section::Permissions => "Permissions",
            Section::Tools => "Tools",
            Section::Mcps => "MCPs",
            Section::Advanced => "Advanced",
        }
    }

    /// Whether this section has exactly one array setting whose items are
    /// the navigable entries.
    pub fn is_single_key(self) -> (r: bool)
        ensures
            r == (self is Permissions),
    {
        matches!(self, Section::Permissions)
    }

    /// Whether this section renders as two sub-panels.
    pub fn is_split_panel(self) -> (r: bool)
        ensures
            r == (self is Mcps),
    {
        matches!(self, Section::Mcps)
    }
}

/// Definition of a known setting.
#[derive(Debug, Clone)]
pub struct SettingDef {
    pub key: &'static str,
    pub setting_type: SettingType,
    pub default: Json,
    /// For enum types, the list of valid options.
    pub enum_options: Option<Vec<&'static str>>,
    /// Whether the user may enter a custom value beyond the enum options.
    pub allows_custom: bool,
}

/// Whether the schema knows this key.
pub open spec fn known_key(k: Seq<char>) -> bool {
    ||| k == "amp.anthropic.thinking.enabled"@
    ||| k == "amp.showCosts"@
    ||| k == "amp.notifications.enabled"@
    ||| k == "amp.git.commit.ampThread.enabled"@
    ||| k == "amp.git.commit.coauthor.enabled"@
    ||| k == "amp.tab.clipboard.enabled"@
    ||| k == "amp.bitbucketToken"@
    ||| k == "amp.skills.path"@
    ||| k == "amp.terminal.theme"@
    ||| k == "amp.terminal.commands.nodeSpawn.loadProfile"@
    ||| k == "amp.updates.mode"@
    ||| k == "amp.internal.deepReasoningEffort"@
    ||| k == "amp.defaultVisibility"@
    ||| k == "amp.fuzzy.alwaysIncludePaths"@
    ||| k == "amp.permissions"@
    ||| k == "amp.tools.disable"@
    ||| k == "amp.tools.stopTimeout"@
    ||| k == "amp.mcpServers"@
    ||| k == "amp.mcpPermissions"@
}

/// The declared type of a known key.
pub open spec fn spec_type_of(k: Seq<char>) -> SettingType {
    if k == "amp.anthropic.thinking.enabled"@ {
        SettingType::Boolean
    } else if k == "amp.showCosts"@ {
        SettingType::Boolean
    } else if k == "amp.notifications.enabled"@ {
        SettingType::Boolean
    } else if k == "amp.git.commit.ampThread.enabled"@ {
        SettingType::Boolean
    } else if k == "amp.git.commit.coauthor.enabled"@ {
        SettingType::Boolean
    } else if k == "amp.tab.clipboard.enabled"@ {
        SettingType::Boolean
    } else if k == "amp.bitbucketToken"@ {
        SettingType::String
    } else if k == "amp.skills.path"@ {
        SettingType::String
    } else if k == "amp.terminal.theme"@ {
        SettingType::StringEnum
    } else if k == "amp.terminal.commands.nodeSpawn.loadProfile"@ {
        SettingType::StringEnum
    } else if k == "amp.updates.mode"@ {
        SettingType::StringEnum
    } else if k == "amp.internal.deepReasoningEffort"@ {
        SettingType::StringEnum
    } else if k == "amp.defaultVisibility"@ {
        SettingType::Object
    } else if k == "amp.fuzzy.alwaysIncludePaths"@ {
        SettingType::ArrayString
    } else if k == "amp.permissions"@ {
        SettingType::ArrayObject
    } else if k == "amp.tools.disable"@ {
        SettingType::ArrayString
    } else if k == "amp.tools.stopTimeout"@ {
        SettingType::Number
    } else if k == "amp.mcpServers"@ {
        SettingType::Object
    } else if k == "amp.mcpPermissions"@ {
        SettingType::ArrayObject
    } else {
        SettingType::Object
    }
}

/// The schema default of a known key.
pub open spec fn spec_default(k: Seq<char>) -> JsonV {
    if k == "amp.anthropic.thinking.enabled"@ {
        JsonV::Bool(true)
    } else if k == "amp.showCosts"@ {
        JsonV::Bool(true)
    } else if k == "amp.notifications.enabled"@ {
        JsonV::Bool(true)
    } else if k == "amp.git.commit.ampThread.enabled"@ {
        JsonV::Bool(true)
    } else if k == "amp.git.commit.coauthor.enabled"@ {
        JsonV::Bool(true)
    } else if k == "amp.tab.clipboard.enabled"@ {
        JsonV::Bool(true)
    } else if k == "amp.bitbucketToken"@ {
        JsonV::Str(Seq::empty())
    } else if k == "amp.skills.path"@ {
        JsonV::Str(Seq::empty())
    } else if k == "amp.terminal.theme"@ {
        JsonV::Str(Seq::empty())
    } else if k == "amp.terminal.commands.nodeSpawn.loadProfile"@ {
        JsonV::Str(Seq::empty())
    } else if k == "amp.updates.mode"@ {
        JsonV::Str(Seq::empty())
    } else if k == "amp.internal.deepReasoningEffort"@ {
        JsonV::Str(Seq::empty())
    } else if k == "amp.defaultVisibility"@ {
        JsonV::Obj(Seq::empty())
    } else if k == "amp.fuzzy.alwaysIncludePaths"@ {
        JsonV::Arr(Seq::empty())
    } else if k == "amp.permissions"@ {
        JsonV::Arr(Seq::empty())
    } else if k == "amp.tools.disable"@ {
        JsonV::Arr(Seq::empty())
    } else if k == "amp.tools.stopTimeout"@ {
        JsonV::Int(300)
    } else if k == "amp.mcpServers"@ {
        JsonV::Obj(Seq::empty())
    } else if k == "amp.mcpPermissions"@ {
        JsonV::Arr(Seq::empty())
    } else {
        JsonV::Null
    }
}

/// The enum options of a known key, where it has them.
pub open spec fn spec_options(k: Seq<char>) -> Option<Seq<Seq<char>>> {
    if k == "amp.anthropic.thinking.enabled"@ {
        None
    } else if k == "amp.showCosts"@ {
        None
    } else if k == "amp.notifications.enabled"@ {
        None
    } else if k == "amp.git.commit.ampThread.enabled"@ {
        None
    } else if k == "amp.git.commit.coauthor.enabled"@ {
        None
    } else if k == "amp.tab.clipboard.enabled"@ {
        None
    } else if k == "amp.bitbucketToken"@ {
        None
    } else if k == "amp.skills.path"@ {
        None
    } else if k == "amp.terminal.theme"@ {
        Some(seq!["terminal"@, "dark"@, "light"@, "catppuccin-mocha"@, "solarized-dark"@, "solarized-light"@, "gruvbox-dark-hard"@, "nord"@, "Custom"@])
    } else if k == "amp.terminal.commands.nodeSpawn.loadProfile"@ {
        Some(seq!["always"@, "never"@, "daily"@])
    } else if k == "amp.updates.mode"@ {
        Some(seq!["auto"@, "warn"@, "disabled"@])
    } else if k == "amp.internal.deepReasoningEffort"@ {
        Some(seq!["medium"@, "high"@, "xhigh"@])
    } else if k == "amp.defaultVisibility"@ {
        None
    } else if k == "amp.fuzzy.alwaysIncludePaths"@ {
        None
    } else if k == "amp.permissions"@ {
        None
    } else if k == "amp.tools.disable"@ {
        None
    } else if k == "amp.tools.stopTimeout"@ {
        None
    } else if k == "amp.mcpServers"@ {
        None
    } else if k == "amp.mcpPermissions"@ {
        None
    } else {
        None
    }
}

/// Whether a free-form value is permitted beyond the enum options.
pub open spec fn spec_allows_custom(k: Seq<char>) -> bool {
    if k == "amp.anthropic.thinking.enabled"@ {
        false
    } else if k == "amp.showCosts"@ {
        false
    } else if k == "amp.notifications.enabled"@ {
        false
    } else if k == "amp.git.commit.ampThread.enabled"@ {
        false
    } else if k == "amp.git.commit.coauthor.enabled"@ {
        false
    } else if k == "amp.tab.clipboard.enabled"@ {
        false
    } else if k == "amp.bitbucketToken"@ {
        false
    } else if k == "amp.skills.path"@ {
        false
    } else if k == "amp.terminal.theme"@ {
        true
    } else if k == "amp.terminal.commands.nodeSpawn.loadProfile"@ {
        false
    } else if k == "amp.updates.mode"@ {
        false
    } else if k == "amp.internal.deepReasoningEffort"@ {
        false
    } else if k == "amp.defaultVisibility"@ {
        false
    } else if k == "amp.fuzzy.alwaysIncludePaths"@ {
        false
    } else if k == "amp.permissions"@ {
        false
    } else if k == "amp.tools.disable"@ {
        false
    } else if k == "amp.tools.stopTimeout"@ {
        false
    } else if k == "amp.mcpServers"@ {
        false
    } else if k == "amp.mcpPermissions"@ {
        false
    } else {
        false
    }
}

/// The key at a position of the schema order.
pub open spec fn schema_key_at(i: int) -> Seq<char> {
    if i == 0 {
        "amp.anthropic.thinking.enabled"@
    } else if i == 1 {
        "amp.showCosts"@
    } else if i == 2 {
        "amp.notifications.enabled"@
    } else if i == 3 {
        "amp.git.commit.ampThread.enabled"@
    } else if i == 4 {
        "amp.git.commit.coauthor.enabled"@
    } else if i == 5 {
        "amp.tab.clipboard.enabled"@
    } else if i == 6 {
        "amp.bitbucketToken"@
    } else if i == 7 {
        "amp.skills.path"@
    } else if i == 8 {
        "amp.terminal.theme"@
    } else if i == 9 {
        "amp.terminal.commands.nodeSpawn.loadProfile"@
    } else if i == 10 {
        "amp.updates.mode"@
    } else if i == 11 {
        "amp.internal.deepReasoningEffort"@
    } else if i == 12 {
        "amp.defaultVisibility"@
    } else if i == 13 {
        "amp.fuzzy.alwaysIncludePaths"@
    } else if i == 14 {
        "amp.permissions"@
    } else if i == 15 {
        "amp.tools.disable"@
    } else if i == 16 {
        "amp.tools.stopTimeout"@
    } else if i == 17 {
        "amp.mcpServers"@
    } else if i == 18 {
        "amp.mcpPermissions"@
    } else {
        Seq::empty()
    }
}

/// How many settings the schema holds.
pub const SCHEMA_COUNT: usize = 19;

/// The section of a key, if the schema knows it.
pub open spec fn spec_section_of(k: Seq<char>) -> Option<Section> {
    if k == "amp.permissions"@ {
        Some(Section::Permissions)
    } else if k == "amp.tools.disable"@ || k == "amp.tools.stopTimeout"@ {
        Some(Section::Tools)
    } else if k == "amp.mcpServers"@ || k == "amp.mcpPermissions"@ {
        Some(Section::Mcps)
    } else if known_key(k) {
        Some(Section::General)
    } else {
        None
    }
}

impl SettingDef {
    /// This definition agrees with the schema at its key.
    pub open spec fn wf(&self) -> bool {
        &&& known_key(self.key@)
        &&& self.setting_type == spec_type_of(self.key@)
        &&& self.default.deep_view() == spec_default(self.key@)
        &&& match self.enum_options {
            Some(v) => {
                &&& spec_options(self.key@) is Some
                &&& v@.len() == spec_options(self.key@)->0.len()
                &&& forall|i: int|
                    0 <= i < v@.len() ==> (#[trigger] v@[i])@ == spec_options(self.key@)->0[i]
            },
            None => spec_options(self.key@) is None,
        }
        &&& self.allows_custom == spec_allows_custom(self.key@)
    }
}

/// The setting definition for a known key.
pub fn get_setting_def(key: &str) -> (r: Option<SettingDef>)
    ensures
        match r {
            Some(d) => known_key(key@) && d.wf() && d.key@ == key@,
            None => !known_key(key@),
        },
{
    if str_eq(key, "amp.anthropic.thinking.enabled") {
        Some(SettingDef {
            key: "amp.anthropic.thinking.enabled",
            setting_type: SettingType::Boolean,
            default: Json::Bool(true),
            enum_options: None,
            allows_custom: false,
        })
    } else if str_eq(key, "amp.showCosts") {
        Some(SettingDef {
            key: "amp.showCosts",
            setting_type: SettingType::Boolean,
            default: Json::Bool(true),
            enum_options: None,
            allows_custom: false,
        })
    } else if str_eq(key, "amp.notifications.enabled") {
        Some(SettingDef {
            key: "amp.notifications.enabled",
            setting_type: SettingType::Boolean,
            default: Json::Bool(true),
            enum_options: None,
            allows_custom: false,
        })
    } else if str_eq(key, "amp.git.commit.ampThread.enabled") {
        Some(SettingDef {
            key: "amp.git.commit.ampThread.enabled",
            setting_type: SettingType::Boolean,
            default: Json::Bool(true),
            enum_options: None,
            allows_custom: false,
        })
    } else if str_eq(key, "amp.git.commit.coauthor.enabled") {
        Some(SettingDef {
            key: "amp.git.commit.coauthor.enabled",
            setting_type: SettingType::Boolean,
            default: Json::Bool(true),
            enum_options: None,
            allows_custom: false,
        })
    } else if str_eq(key, "amp.tab.clipboard.enabled") {
        Some(SettingDef {
            key: "amp.tab.clipboard.enabled",
            setting_type: SettingType::Boolean,
            default: Json::Bool(true),
            enum_options: None,
            allows_custom: false,
        })
    } else if str_eq(key, "amp.bitbucketToken") {
        Some(SettingDef {
            key: "amp.bitbucketToken",
            setting_type: SettingType::String,
            default: Json::Str(String::new()),
            enum_options: None,
            allows_custom: false,
        })
    } else if str_eq(key, "amp.skills.path") {
        Some(SettingDef {
            key: "amp.skills.path",
            setting_type: SettingType::String,
            default: Json::Str(String::new()),
            enum_options: None,
            allows_custom: false,
        })
    } else if str_eq(key, "amp.terminal.theme") {
        let mut v: Vec<&'static str> = Vec::new();
        v.push("terminal");
        v.push("dark");
        v.push("light");
        v.push("catppuccin-mocha");
        v.push("solarized-dark");
        v.push("solarized-light");
        v.push("gruvbox-dark-hard");
        v.push("nord");
        v.push("Custom");
        let r = SettingDef {
            key: "amp.terminal.theme",
            setting_type: SettingType::StringEnum,
            default: Json::Str(String::new()),
            enum_options: Some(v),
            allows_custom: true,
        };
        proof {
            let s = spec_options(r.key@)->0;
            assert(r.enum_options->0@[0]@ == s[0]);
            assert(r.enum_options->0@[1]@ == s[1]);
            assert(r.enum_options->0@[2]@ == s[2]);
            assert(r.enum_options->0@[3]@ == s[3]);
            assert(r.enum_options->0@[4]@ == s[4]);
            assert(r.enum_options->0@[5]@ == s[5]);
            assert(r.enum_options->0@[6]@ == s[6]);
            assert(r.enum_options->0@[7]@ == s[7]);
            assert(r.enum_options->0@[8]@ == s[8]);
            assert(r.wf());
        }
        Some(r)
    } else if str_eq(key, "amp.terminal.commands.nodeSpawn.loadProfile") {
        let mut v: Vec<&'static str> = Vec::new();
        v.push("always");
        v.push("never");
        v.push("daily");
        let r = SettingDef {
            key: "amp.terminal.commands.nodeSpawn.loadProfile",
            setting_type: SettingType::StringEnum,
            default: Json::Str(String::new()),
            enum_options: Some(v),
            allows_custom: false,
        };
        proof {
            let s = spec_options(r.key@)->0;
            assert(r.enum_options->0@[0]@ == s[0]);
            assert(r.enum_options->0@[1]@ == s[1]);
            assert(r.enum_options->0@[2]@ == s[2]);
            assert(r.wf());
        }
        Some(r)
    } else if str_eq(key, "amp.updates.mode") {
        let mut v: Vec<&'static str> = Vec::new();
        v.push("auto");
        v.push("warn");
        v.push("disabled");
        let r = SettingDef {
            key: "amp.updates.mode",
            setting_type: SettingType::StringEnum,
            default: Json::Str(String::new()),
            enum_options: Some(v),
            allows_custom: false,
        };
        proof {
            let s = spec_options(r.key@)->0;
            assert(r.enum_options->0@[0]@ == s[0]);
            assert(r.enum_options->0@[1]@ == s[1]);
            assert(r.enum_options->0@[2]@ == s[2]);
            assert(r.wf());
        }
        Some(r)
    } else if str_eq(key, "amp.internal.deepReasoningEffort") {
        let mut v: Vec<&'static str> = Vec::new();
        v.push("medium");
        v.push("high");
        v.push("xhigh");
        let r = SettingDef {
            key: "amp.internal.deepReasoningEffort",
            setting_type: SettingType::StringEnum,
            default: Json::Str(String::new()),
            enum_options: Some(v),
            allows_custom: false,
        };
        proof {
            let s = spec_options(r.key@)->0;
            assert(r.enum_options->0@[0]@ == s[0]);
            assert(r.enum_options->0@[1]@ == s[1]);
            assert(r.enum_options->0@[2]@ == s[2]);
            assert(r.wf());
        }
        Some(r)
    } else if str_eq(key, "amp.defaultVisibility") {
        Some(SettingDef {
            key: "amp.defaultVisibility",
            setting_type: SettingType::Object,
            default: Json::Obj(Vec::new()),
            enum_options: None,
            allows_custom: false,
        })
    } else if str_eq(key, "amp.fuzzy.alwaysIncludePaths") {
        Some(SettingDef {
            key: "amp.fuzzy.alwaysIncludePaths",
            setting_type: SettingType::ArrayString,
            default: Json::Arr(Vec::new()),
            enum_options: None,
            allows_custom: false,
        })
    } else if str_eq(key, "amp.permissions") {
        Some(SettingDef {
            key: "amp.permissions",
            setting_type: SettingType::ArrayObject,
            default: Json::Arr(Vec::new()),
            enum_options: None,
            allows_custom: false,
        })
    } else if str_eq(key, "amp.tools.disable") {
        Some(SettingDef {
            key: "amp.tools.disable",
            setting_type: SettingType::ArrayString,
            default: Json::Arr(Vec::new()),
            enum_options: None,
            allows_custom: false,
        })
    } else if str_eq(key, "amp.tools.stopTimeout") {
        Some(SettingDef {
            key: "amp.tools.stopTimeout",
            setting_type: SettingType::Number,
            default: Json::Int(300),
            enum_options: None,
            allows_custom: false,
        })
    } else if str_eq(key, "amp.mcpServers") {
        Some(SettingDef {
            key: "amp.mcpServers",
            setting_type: SettingType::Object,
            default: Json::Obj(Vec::new()),
            enum_options: None,
            allows_custom: false,
        })
    } else if str_eq(key, "amp.mcpPermissions") {
        Some(SettingDef {
            key: "amp.mcpPermissions",
            setting_type: SettingType::ArrayObject,
            default: Json::Arr(Vec::new()),
            enum_options: None,
            allows_custom: false,
        })
    } else {
        None
    }
}

/// The definition of a key the schema is known to hold.
fn known_def(key: &str) -> (r: SettingDef)
    requires
        known_key(key@),
    ensures
        r.wf(),
        r.key@ == key@,
{
    match get_setting_def(key) {
        Some(d) => d,
        None => vstd::pervasive::unreached(),
    }
}

/// Whether the schema knows this key.
pub fn is_known_key(key: &str) -> (r: bool)
    ensures
        r == known_key(key@),
{
    str_eq(key, "amp.anthropic.thinking.enabled")
        || str_eq(key, "amp.showCosts")
        || str_eq(key, "amp.notifications.enabled")
        || str_eq(key, "amp.git.commit.ampThread.enabled")
        || str_eq(key, "amp.git.commit.coauthor.enabled")
        || str_eq(key, "amp.tab.clipboard.enabled")
        || str_eq(key, "amp.bitbucketToken")
        || str_eq(key, "amp.skills.path")
        || str_eq(key, "amp.terminal.theme")
        || str_eq(key, "amp.terminal.commands.nodeSpawn.loadProfile")
        || str_eq(key, "amp.updates.mode")
        || str_eq(key, "amp.internal.deepReasoningEffort")
        || str_eq(key, "amp.defaultVisibility")
        || str_eq(key, "amp.fuzzy.alwaysIncludePaths")
        || str_eq(key, "amp.permissions")
        || str_eq(key, "amp.tools.disable")
        || str_eq(key, "amp.tools.stopTimeout")
        || str_eq(key, "amp.mcpServers")
        || str_eq(key, "amp.mcpPermissions")
}

/// All known settings, in schema order.
#[verifier::rlimit(100)]
pub fn known_settings() -> (r: Vec<SettingDef>)
    ensures
        r@.len() == SCHEMA_COUNT,
        forall|i: int|
            0 <= i < r@.len() ==> (#[trigger] r@[i]).wf() && r@[i].key@ == schema_key_at(i),
{
    let mut r: Vec<SettingDef> = Vec::new();
    r.push(known_def("amp.anthropic.thinking.enabled"));
    let ghost snap0 = r@;
    r.push(known_def("amp.showCosts"));
    let ghost snap1 = r@;
    r.push(known_def("amp.notifications.enabled"));
    let ghost snap2 = r@;
    r.push(known_def("amp.git.commit.ampThread.enabled"));
    let ghost snap3 = r@;
    r.push(known_def("amp.git.commit.coauthor.enabled"));
    let ghost snap4 = r@;
    r.push(known_def("amp.tab.clipboard.enabled"));
    let ghost snap5 = r@;
    r.push(known_def("amp.bitbucketToken"));
    let ghost snap6 = r@;
    r.push(known_def("amp.skills.path"));
    let ghost snap7 = r@;
    r.push(known_def("amp.terminal.theme"));
    let ghost snap8 = r@;
    r.push(known_def("amp.terminal.commands.nodeSpawn.loadProfile"));
    let ghost snap9 = r@;
    r.push(known_def("amp.updates.mode"));
    let ghost snap10 = r@;
    r.push(known_def("amp.internal.deepReasoningEffort"));
    let ghost snap11 = r@;
    r.push(known_def("amp.defaultVisibility"));
    let ghost snap12 = r@;
    r.push(known_def("amp.fuzzy.alwaysIncludePaths"));
    let ghost snap13 = r@;
    r.push(known_def("amp.permissions"));
    let ghost snap14 = r@;
    r.push(known_def("amp.tools.disable"));
    let ghost snap15 = r@;
    r.push(known_def("amp.tools.stopTimeout"));
    let ghost snap16 = r@;
    r.push(known_def("amp.mcpServers"));
    let ghost snap17 = r@;
    r.push(known_def("amp.mcpPermissions"));
    let ghost snap18 = r@;
    proof {
        assert(r@[0] == snap0[0]);
        assert(r@[0].wf() && r@[0].key@ == schema_key_at(0));
        assert(r@[1] == snap1[1]);
        assert(r@[1].wf() && r@[1].key@ == schema_key_at(1));
        assert(r@[2] == snap2[2]);
        assert(r@[2].wf() && r@[2].key@ == schema_key_at(2));
        assert(r@[3] == snap3[3]);
        assert(r@[3].wf() && r@[3].key@ == schema_key_at(3));
        assert(r@[4] == snap4[4]);
        assert(r@[4].wf() && r@[4].key@ == schema_key_at(4));
        assert(r@[5] == snap5[5]);
        assert(r@[5].wf() && r@[5].key@ == schema_key_at(5));
        assert(r@[6] == snap6[6]);
        assert(r@[6].wf() && r@[6].key@ == schema_key_at(6));
        assert(r@[7] == snap7[7]);
        assert(r@[7].wf() && r@[7].key@ == schema_key_at(7));
        assert(r@[8] == snap8[8]);
        assert(r@[8].wf() && r@[8].key@ == schema_key_at(8));
        assert(r@[9] == snap9[9]);
        assert(r@[9].wf() && r@[9].key@ == schema_key_at(9));
        assert(r@[10] == snap10[10]);
        assert(r@[10].wf() && r@[10].key@ == schema_key_at(10));
        assert(r@[11] == snap11[11]);
        assert(r@[11].wf() && r@[11].key@ == schema_key_at(11));
        assert(r@[12] == snap12[12]);
        assert(r@[12].wf() && r@[12].key@ == schema_key_at(12));
        assert(r@[13] == snap13[13]);
        assert(r@[13].wf() && r@[13].key@ == schema_key_at(13));
        assert(r@[14] == snap14[14]);
        assert(r@[14].wf() && r@[14].key@ == schema_key_at(14));
        assert(r@[15] == snap15[15]);
        assert(r@[15].wf() && r@[15].key@ == schema_key_at(15));
        assert(r@[16] == snap16[16]);
        assert(r@[16].wf() && r@[16].key@ == schema_key_at(16));
        assert(r@[17] == snap17[17]);
        assert(r@[17].wf() && r@[17].key@ == schema_key_at(17));
        assert(r@[18] == snap18[18]);
        assert(r@[18].wf() && r@[18].key@ == schema_key_at(18));
    }
    r
}

/// The section for a key, where the schema knows it.
pub fn section_for_key(key: &str) -> (r: Option<Section>)
    ensures
        r == spec_section_of(key@),
{
    if str_eq(key, "amp.permissions") {
        Some(Section::Permissions)
    } else if str_eq(key, "amp.tools.disable") || str_eq(key, "amp.tools.stopTimeout") {
        Some(Section::Tools)
    } else if str_eq(key, "amp.mcpServers") || str_eq(key, "amp.mcpPermissions") {
        Some(Section::Mcps)
    } else if is_known_key(key) {
        Some(Section::General)
    } else {
        None
    }
}

/// The schema keys of a section, in schema order.
pub open spec fn spec_section_keys(sec: Section) -> Seq<Seq<char>> {
    match sec {
        Section::General => seq!["amp.anthropic.thinking.enabled"@, "amp.showCosts"@, "amp.notifications.enabled"@, "amp.git.commit.ampThread.enabled"@, "amp.git.commit.coauthor.enabled"@, "amp.tab.clipboard.enabled"@, "amp.bitbucketToken"@, "amp.skills.path"@, "amp.terminal.theme"@, "amp.terminal.commands.nodeSpawn.loadProfile"@, "amp.updates.mode"@, "amp.internal.deepReasoningEffort"@, "amp.defaultVisibility"@, "amp.fuzzy.alwaysIncludePaths"@],
        Section::Permissions => seq!["amp.permissions"@],
        Section::Tools => seq!["amp.tools.disable"@, "amp.tools.stopTimeout"@],
        Section::Mcps => seq!["amp.mcpServers"@, "amp.mcpPermissions"@],
        Section::Advanced => Seq::empty(),
    }
}

/// All known settings of a section, in schema order.
#[verifier::rlimit(100)]
pub fn settings_for_section(section: Section) -> (r: Vec<SettingDef>)
    ensures
        r@.len() == spec_section_keys(section).len(),
        forall|i: int|
            0 <= i < r@.len() ==> (#[trigger] r@[i]).wf() && r@[i].key@ == spec_section_keys(
                section,
            )[i],
{
    let mut r: Vec<SettingDef> = Vec::new();
    match section {
        Section::General => {
            r.push(known_def("amp.anthropic.thinking.enabled"));
            r.push(known_def("amp.showCosts"));
            r.push(known_def("amp.notifications.enabled"));
            r.push(known_def("amp.git.commit.ampThread.enabled"));
            r.push(known_def("amp.git.commit.coauthor.enabled"));
            r.push(known_def("amp.tab.clipboard.enabled"));
            r.push(known_def("amp.bitbucketToken"));
            r.push(known_def("amp.skills.path"));
            r.push(known_def("amp.terminal.theme"));
            r.push(known_def("amp.terminal.commands.nodeSpawn.loadProfile"));
            r.push(known_def("amp.updates.mode"));
            r.push(known_def("amp.internal.deepReasoningEffort"));
            r.push(known_def("amp.defaultVisibility"));
            r.push(known_def("amp.fuzzy.alwaysIncludePaths"));
        },
        Section::Permissions => {
            r.push(known_def("amp.permissions"));
        },
        Section::Tools => {
            r.push(known_def("amp.tools.disable"));
            r.push(known_def("amp.tools.stopTimeout"));
        },
        Section::Mcps => {
            r.push(known_def("amp.mcpServers"));
            r.push(known_def("amp.mcpPermissions"));
        },
        Section::Advanced => {},
    }
    r
}

} // verus!
