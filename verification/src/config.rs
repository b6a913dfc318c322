//! The configuration of a store: which fields are managed, and under which
//! reserved keys the marker and its companions live.

use vstd::prelude::*;
use crate::text::{same_text, texts};

verus! {

/// The flag that a field without definition gets when a snapshot records
/// none for it.
pub const UNLISTED_DEFAULT_FLAG: i64 = 1;

/// One managed field: the key of its row, and the flag it gets in the
/// marker when a snapshot records none for it.
#[derive(Debug, Clone, PartialEq, Eq)]
pub struct ManagedField {
    pub name: String,
    pub default_flag: i64,
}

/// A managed field as a mathematical value.
pub struct ManagedFieldView {
    pub name: Seq<char>,
    pub default_flag: i64,
}

impl View for ManagedField {
    type V = ManagedFieldView;

    open spec fn view(&self) -> ManagedFieldView {
        ManagedFieldView { name: self.name@, default_flag: self.default_flag }
    }
}

/// The definitions of a list of managed fields.
pub open spec fn field_views(fields: Seq<ManagedField>) -> Seq<ManagedFieldView> {
    fields.map_values(|f: ManagedField| f@)
}

/// A configuration as a mathematical value.
pub struct FieldConfigView {
    pub fields: Seq<ManagedFieldView>,
    pub marker_key: Seq<char>,
    pub new_storage_key: Seq<char>,
    pub timestamp_key: Seq<char>,
}

impl FieldConfigView {
    /// The keys of the managed fields, in order.
    pub open spec fn names(self) -> Seq<Seq<char>> {
        self.fields.map_values(|f: ManagedFieldView| f.name)
    }

    /// Whether `key` is the key of a managed field.
    pub open spec fn is_managed(self, key: Seq<char>) -> bool {
        exists|i: int| 0 <= i < self.fields.len() && #[trigger] self.fields[i].name == key
    }

    /// The flag that `key` gets when a snapshot records none for it: that of
    /// its definition, and 1 for a key without definition.
    pub open spec fn default_flag(self, key: Seq<char>) -> i64 {
        if self.is_managed(key) {
            let i = choose|i: int| 0 <= i < self.fields.len() && #[trigger] self.fields[i].name == key;
            self.fields[i].default_flag
        } else {
            UNLISTED_DEFAULT_FLAG
        }
    }

    /// Whether `key` is entered into the marker when it is restored: every
    /// key but the reserved one that announces a new storage.
    pub open spec fn registers(self, key: Seq<char>) -> bool {
        key != self.new_storage_key
    }

    /// What every configuration satisfies: no field is defined twice, each
    /// default flag is 0 or 1, and the rows of the marker and of the
    /// timestamp are distinct and are no managed fields.
    pub open spec fn valid(self) -> bool {
        &&& forall|i: int, j: int|
            0 <= i < j < self.fields.len() ==> #[trigger] self.fields[i].name != #[trigger] self.fields[j].name
        &&& forall|i: int|
            0 <= i < self.fields.len() ==> {
                ||| (#[trigger] self.fields[i]).default_flag == 0
                ||| self.fields[i].default_flag == 1
            }
        &&& !self.is_managed(self.marker_key)
        &&& !self.is_managed(self.timestamp_key)
        &&& self.marker_key != self.timestamp_key
    }
}

/// The configuration made of these parts.
pub open spec fn config_view(fields: Seq<ManagedField>, marker_key: Seq<char>, new_storage_key: Seq<char>, timestamp_key: Seq<char>) -> FieldConfigView {
    FieldConfigView { fields: field_views(fields), marker_key, new_storage_key, timestamp_key }
}

/// A key is a managed field exactly if it is among the names.
pub proof fn lemma_managed_names(config: FieldConfigView, key: Seq<char>)
    ensures
        config.is_managed(key) == config.names().contains(key),
{
    let names = config.names();
    if config.is_managed(key) {
        let i = choose|i: int| 0 <= i < config.fields.len() && #[trigger] config.fields[i].name == key;
        assert(names[i] == key);
    }
    if names.contains(key) {
        let i = choose|i: int| 0 <= i < names.len() && names[i] == key;
        assert(config.fields[i].name == key);
    }
}

/// Why a configuration was refused.
#[derive(Debug, Clone, Copy, PartialEq, Eq, Structural)]
pub enum ConfigError {
    /// Two definitions have the same key.
    DuplicateField,
    /// A default flag is neither 0 nor 1.
    InvalidFlag,
    /// The marker's key or the timestamp's key is also a managed field, or
    /// the two are the same key.
    ReservedKeyClash,
}

/// The managed fields of a store and its reserved keys.
#[derive(Debug)]
pub struct FieldConfig {
    fields: Vec<ManagedField>,
    marker_key: String,
    new_storage_key: String,
    timestamp_key: String,
}

/// The first reason, in the order of `ConfigError`, for which a
/// configuration is refused.
pub open spec fn config_fault(c: FieldConfigView) -> Option<ConfigError> {
    if exists|i: int, j: int| 0 <= i < j < c.fields.len() && #[trigger] c.fields[i].name == #[trigger] c.fields[j].name {
        Some(ConfigError::DuplicateField)
    } else if exists|i: int| 0 <= i < c.fields.len() && (#[trigger] c.fields[i]).default_flag != 0 && c.fields[i].default_flag != 1 {
        Some(ConfigError::InvalidFlag)
    } else if c.is_managed(c.marker_key) || c.is_managed(c.timestamp_key) || c.marker_key == c.timestamp_key {
        Some(ConfigError::ReservedKeyClash)
    } else {
        None
    }
}

/// The configuration of the application's own store.
pub open spec fn standard_config() -> FieldConfigView {
    FieldConfigView {
        fields: seq![
            ManagedFieldView { name: "antigravityAuthStatus"@, default_flag: 0 },
            ManagedFieldView { name: "antigravity.profileUrl"@, default_flag: 0 },
            ManagedFieldView { name: "antigravityOnboarding"@, default_flag: 0 },
            ManagedFieldView { name: "antigravity_allowed_command_model_configs"@, default_flag: 0 },
            ManagedFieldView { name: "antigravityUserSettings.allUserSettings"@, default_flag: 1 },
            ManagedFieldView { name: "jetskiStateSync.agentManagerInitState"@, default_flag: 1 },
            ManagedFieldView { name: "google.antigravity"@, default_flag: 1 },
            ManagedFieldView { name: "__$__isNewStorageMarker"@, default_flag: 1 },
        ],
        marker_key: "__$__targetStorageMarker"@,
        new_storage_key: "__$__isNewStorageMarker"@,
        timestamp_key: "antigravityAnalytics.lastUploadTime"@,
    }
}

/// The standard configuration is a configuration.
pub proof fn lemma_standard_config_valid()
    ensures
        standard_config().valid(),
{
    reveal_strlit("antigravityAuthStatus");
    reveal_strlit("antigravity.profileUrl");
    reveal_strlit("antigravityOnboarding");
    reveal_strlit("antigravity_allowed_command_model_configs");
    reveal_strlit("antigravityUserSettings.allUserSettings");
    reveal_strlit("jetskiStateSync.agentManagerInitState");
    reveal_strlit("google.antigravity");
    reveal_strlit("__$__isNewStorageMarker");
    reveal_strlit("__$__targetStorageMarker");
    reveal_strlit("antigravityAnalytics.lastUploadTime");
    let c = standard_config();
    assert(c.fields.len() == 8);
    assert(c.fields[0].name.len() == 21);
    assert(c.fields[1].name.len() == 22);
    assert(c.fields[2].name.len() == 21);
    assert(c.fields[3].name.len() == 41);
    assert(c.fields[4].name.len() == 39);
    assert(c.fields[5].name.len() == 37);
    assert(c.fields[6].name.len() == 18);
    assert(c.fields[7].name.len() == 23);
    assert(c.marker_key.len() == 24);
    assert(c.timestamp_key.len() == 35);
    assert(c.fields[0].name[11] != c.fields[2].name[11]);
    assert forall|i: int, j: int| 0 <= i < j < c.fields.len() implies #[trigger] c.fields[i].name != #[trigger] c.fields[j].name by {
        if i == 0 && j == 2 {
        } else {
            assert(c.fields[i].name.len() != c.fields[j].name.len());
        }
    }
    assert forall|i: int| 0 <= i < c.fields.len() implies (#[trigger] c.fields[i]).name.len() != 24 && c.fields[i].name.len() != 35 by {
    }
}

/// The parts that make a configuration are those without fault.
pub proof fn lemma_config_fault(c: FieldConfigView)
    ensures
        config_fault(c) is None <==> c.valid(),
{
}

impl View for FieldConfig {
    type V = FieldConfigView;

    closed spec fn view(&self) -> FieldConfigView {
        FieldConfigView {
            fields: field_views(self.fields@),
            marker_key: self.marker_key@,
            new_storage_key: self.new_storage_key@,
            timestamp_key: self.timestamp_key@,
        }
    }
}

/// Whether one of `fields` has the key `key`.
fn names_contain(fields: &Vec<ManagedField>, key: &str) -> (found: Option<usize>)
    ensures
        match found {
            Some(i) => i < fields.len() && fields[i as int].name@ == key@,
            None => forall|i: int| 0 <= i < fields.len() ==> fields[i].name@ != key@,
        },
{
    let mut i: usize = 0;
    while i < fields.len()
        invariant
            i <= fields.len(),
            forall|j: int| 0 <= j < i ==> fields[j].name@ != key@,
        decreases fields.len() - i,
    {
        if same_text(fields[i].name.as_str(), key) {
            return Some(i);
        }
        i += 1;
    }
    None
}

impl FieldConfig {
    #[verifier::type_invariant]
    spec fn well_formed(self) -> bool {
        self@.valid()
    }

    /// Makes a configuration, or says why the parts make none.
    pub fn new(fields: Vec<ManagedField>, marker_key: String, new_storage_key: String, timestamp_key: String) -> (r: Result<FieldConfig, ConfigError>)
        ensures
            match r {
                Ok(config) => {
                    &&& config@ == config_view(fields@, marker_key@, new_storage_key@, timestamp_key@)
                    &&& config_fault(config@) is None
                    &&& config@.valid()
                },
                Err(e) => config_fault(config_view(fields@, marker_key@, new_storage_key@, timestamp_key@)) == Some(e),
            },
    {
        let ghost view = config_view(fields@, marker_key@, new_storage_key@, timestamp_key@);
        let mut i: usize = 0;
        while i < fields.len()
            invariant
                i <= fields.len(),
                view == config_view(fields@, marker_key@, new_storage_key@, timestamp_key@),
                forall|a: int, b: int| 0 <= a < b < i ==> #[trigger] view.fields[a].name != #[trigger] view.fields[b].name,
            decreases fields.len() - i,
        {
            let mut j: usize = 0;
            while j < i
                invariant
                    j <= i < fields.len(),
                    view == config_view(fields@, marker_key@, new_storage_key@, timestamp_key@),
                    forall|a: int| 0 <= a < j ==> #[trigger] view.fields[a].name != view.fields[i as int].name,
                decreases i - j,
            {
                if same_text(fields[j].name.as_str(), fields[i].name.as_str()) {
                    assert(view.fields[j as int].name == view.fields[i as int].name);
                    assert(config_fault(view) == Some(ConfigError::DuplicateField));
                    return Err(ConfigError::DuplicateField);
                }
                j += 1;
            }
            i += 1;
        }
        let mut k: usize = 0;
        while k < fields.len()
            invariant
                k <= fields.len(),
                view == config_view(fields@, marker_key@, new_storage_key@, timestamp_key@),
                forall|a: int, b: int| 0 <= a < b < fields.len() ==> #[trigger] view.fields[a].name != #[trigger] view.fields[b].name,
                forall|a: int| 0 <= a < k ==> (#[trigger] view.fields[a]).default_flag == 0 || view.fields[a].default_flag == 1,
            decreases fields.len() - k,
        {
            if fields[k].default_flag != 0 && fields[k].default_flag != 1 {
                assert(view.fields[k as int].default_flag == fields[k as int].default_flag);
                return Err(ConfigError::InvalidFlag);
            }
            k += 1;
        }
        let marker_clash = names_contain(&fields, marker_key.as_str());
        let timestamp_clash = names_contain(&fields, timestamp_key.as_str());
        proof {
            if let Some(m) = marker_clash {
                assert(view.fields[m as int].name == view.marker_key);
            }
            if let Some(t) = timestamp_clash {
                assert(view.fields[t as int].name == view.timestamp_key);
            }
        }
        if marker_clash.is_some() || timestamp_clash.is_some() || same_text(marker_key.as_str(), timestamp_key.as_str()) {
            return Err(ConfigError::ReservedKeyClash);
        }
        Ok(FieldConfig { fields, marker_key, new_storage_key, timestamp_key })
    }

    /// The configuration of the application's own store: its eight managed
    /// fields, of which the first four default to flag 0, and its three
    /// reserved keys.
    pub fn standard() -> (config: FieldConfig)
        ensures
            config@ == standard_config(),
            config@.valid(),
    {
        let mut fields: Vec<ManagedField> = Vec::new();
        fields.push(ManagedField { name: "antigravityAuthStatus".to_owned(), default_flag: 0 });
        fields.push(ManagedField { name: "antigravity.profileUrl".to_owned(), default_flag: 0 });
        fields.push(ManagedField { name: "antigravityOnboarding".to_owned(), default_flag: 0 });
        fields.push(ManagedField { name: "antigravity_allowed_command_model_configs".to_owned(), default_flag: 0 });
        fields.push(ManagedField { name: "antigravityUserSettings.allUserSettings".to_owned(), default_flag: 1 });
        fields.push(ManagedField { name: "jetskiStateSync.agentManagerInitState".to_owned(), default_flag: 1 });
        fields.push(ManagedField { name: "google.antigravity".to_owned(), default_flag: 1 });
        fields.push(ManagedField { name: "__$__isNewStorageMarker".to_owned(), default_flag: 1 });
        let marker_key = "__$__targetStorageMarker".to_owned();
        let new_storage_key = "__$__isNewStorageMarker".to_owned();
        let timestamp_key = "antigravityAnalytics.lastUploadTime".to_owned();
        proof {
            lemma_standard_config_valid();
            assert(field_views(fields@) =~= standard_config().fields);
        }
        FieldConfig { fields, marker_key, new_storage_key, timestamp_key }
    }

    /// States what every configuration satisfies.
    pub(crate) fn validity(&self)
        ensures
            self@.valid(),
    {
        proof {
            use_type_invariant(self);
        }
    }

    /// The number of managed fields.
    pub fn len(&self) -> (n: usize)
        ensures
            n == self@.fields.len(),
    {
        self.fields.len()
    }

    /// The keys of the managed fields, in order.
    pub fn names(&self) -> (names: Vec<String>)
        ensures
            texts(names@) == self@.names(),
    {
        let mut names: Vec<String> = Vec::new();
        let mut i: usize = 0;
        while i < self.fields.len()
            invariant
                i <= self.fields.len(),
                names.len() == i,
                forall|j: int| 0 <= j < i ==> names[j]@ == self.fields[j].name@,
            decreases self.fields.len() - i,
        {
            names.push(self.fields[i].name.clone());
            i += 1;
        }
        assert(texts(names@) =~= self@.names());
        names
    }

    /// The key of the managed field at `index`.
    pub fn field_name(&self, index: usize) -> (name: &str)
        requires
            index < self@.fields.len(),
        ensures
            name@ == self@.fields[index as int].name,
    {
        self.fields[index].name.as_str()
    }

    /// The key of the row that holds the marker.
    pub fn marker_key(&self) -> (key: &str)
        ensures
            key@ == self@.marker_key,
    {
        self.marker_key.as_str()
    }

    /// The reserved key that is restored but never entered into the marker.
    pub fn new_storage_key(&self) -> (key: &str)
        ensures
            key@ == self@.new_storage_key,
    {
        self.new_storage_key.as_str()
    }

    /// The key of the row that holds the time of the last upload.
    pub fn timestamp_key(&self) -> (key: &str)
        ensures
            key@ == self@.timestamp_key,
    {
        self.timestamp_key.as_str()
    }

    /// Whether `key` is the key of a managed field.
    pub fn is_managed(&self, key: &str) -> (managed: bool)
        ensures
            managed == self@.is_managed(key@),
    {
        let found = names_contain(&self.fields, key);
        proof {
            if let Some(i) = found {
                assert(self@.fields[i as int].name == key@);
            }
        }
        found.is_some()
    }

    /// The flag that `key` gets when a snapshot records none for it.
    pub fn default_flag(&self, key: &str) -> (flag: i64)
        ensures
            flag == self@.default_flag(key@),
    {
        proof {
            use_type_invariant(self);
        }
        match names_contain(&self.fields, key) {
            Some(i) => {
                assert(self@.fields[i as int].name == key@);
                self.fields[i].default_flag
            },
            None => UNLISTED_DEFAULT_FLAG,
        }
    }

    /// Whether `key` is entered into the marker when it is restored.
    pub fn registers(&self, key: &str) -> (registered: bool)
        ensures
            registered == self@.registers(key@),
    {
        !same_text(key, self.new_storage_key.as_str())
    }
}

} // verus!
