//! The manifest an extension declares, and its validation.
use vstd::prelude::*;
use vstd::string::*;
use std::collections::HashMap;
use crate::error::ValidationError;
use crate::text::{str_equals, contains_char, contains_double_dot, has_char, has_double_dot, copy_opt_string};

verus! {

/// What an extension provides.
#[derive(Debug, Clone, Copy, PartialEq, Eq, Structural)]
pub enum ExtensionType {
    Theme,
    DataSource,
    GameLibrary,
}

/// The kind that a manifest's `type` field names; any other text is a theme.
pub open spec fn type_from_name(s: Seq<char>) -> ExtensionType {
    if s == "data_source"@ {
        ExtensionType::DataSource
    } else if s == "game_library"@ {
        ExtensionType::GameLibrary
    } else {
        ExtensionType::Theme
    }
}

/// The name under which a kind is written.
pub open spec fn type_name_spec(t: ExtensionType) -> Seq<char> {
    match t {
        ExtensionType::Theme => "theme"@,
        ExtensionType::DataSource => "data_source"@,
        ExtensionType::GameLibrary => "game_library"@,
    }
}

impl ExtensionType {
    /// Reads a kind from its name; unknown names fall back to `Theme`.
    pub fn from_name(s: &str) -> (r: ExtensionType)
        ensures
            r == type_from_name(s@),
    {
        if str_equals(s, "data_source") {
            ExtensionType::DataSource
        } else if str_equals(s, "game_library") {
            ExtensionType::GameLibrary
        } else {
            ExtensionType::Theme
        }
    }

    /// The name under which the kind is written.
    pub fn name(&self) -> (r: &'static str)
        ensures
            r@ == type_name_spec(*self),
    {
        match self {
            ExtensionType::Theme => "theme",
            ExtensionType::DataSource => "data_source",
            ExtensionType::GameLibrary => "game_library",
        }
    }
}

impl From<String> for ExtensionType {
    fn from(s: String) -> (r: ExtensionType) {
        ExtensionType::from_name(s.as_str())
    }
}

impl vstd::std_specs::convert::FromSpecImpl<String> for ExtensionType {
    open spec fn obeys_from_spec() -> bool {
        true
    }

    open spec fn from_spec(s: String) -> ExtensionType {
        type_from_name(s@)
    }
}

/// Capabilities an extension offers to, and needs from, others.
#[derive(Debug, Clone)]
pub struct ExtensionApis {
    pub provided: Option<Vec<String>>,
    pub required: Option<Vec<String>>,
}

/// One entry an extension contributes to the host's menu.
#[derive(Debug, Clone)]
pub struct MenuItem {
    pub id: String,
    pub label: String,
    pub action: String,
    pub icon: Option<String>,
}

impl MenuItem {
    /// A field-by-field copy.
    pub fn duplicate(&self) -> (r: MenuItem)
        ensures
            r == *self,
    {
        MenuItem {
            id: self.id.clone(),
            label: self.label.clone(),
            action: self.action.clone(),
            icon: copy_opt_string(&self.icon),
        }
    }
}

/// Declared identity and capabilities of an extension.
#[derive(Debug, Clone)]
pub struct ExtensionManifest {
    pub name: String,
    pub version: String,
    pub author: Option<String>,
    pub description: Option<String>,
    pub extension_type: ExtensionType,
    pub entry_point: String,
    pub permissions: Vec<String>,
    pub dependencies: Option<HashMap<String, String>>,
    pub hooks: Option<Vec<String>>,
    pub apis: Option<ExtensionApis>,
    pub menu_items: Option<Vec<MenuItem>>,
}

/// The fixed vocabulary of permissions.
pub open spec fn known_permission(p: Seq<char>) -> bool {
    p == "filesystem"@ || p == "network"@ || p == "database"@ || p == "ui"@ || p == "native"@
}

/// Permissions that an extension fetched from a store may never declare.
pub open spec fn remote_forbidden_permission(p: Seq<char>) -> bool {
    p == "filesystem"@ || p == "native"@
}

pub open spec fn required_fields_present(m: ExtensionManifest) -> bool {
    m.name@.len() > 0 && m.version@.len() > 0 && m.entry_point@.len() > 0
}

pub open spec fn permissions_known(m: ExtensionManifest) -> bool {
    forall|i: int| 0 <= i < m.permissions@.len() ==> known_permission(#[trigger] m.permissions@[i]@)
}

/// A manifest passes structural validation.
pub open spec fn manifest_valid(m: ExtensionManifest) -> bool {
    required_fields_present(m) && permissions_known(m)
}

/// A name or path that climbs to a parent directory or holds a separator.
pub open spec fn unsafe_path_text(s: Seq<char>) -> bool {
    has_double_dot(s) || has_char(s, '/') || has_char(s, '\\')
}

/// A manifest passes the security pass applied to what comes from a store.
pub open spec fn manifest_secure(m: ExtensionManifest) -> bool {
    &&& !unsafe_path_text(m.name@)
    &&& !unsafe_path_text(m.entry_point@)
    &&& forall|i: int|
        0 <= i < m.permissions@.len() ==> !remote_forbidden_permission(
            #[trigger] m.permissions@[i]@,
        )
}

/// Whether `p` belongs to the fixed vocabulary of permissions.
pub fn is_known_permission(p: &str) -> (r: bool)
    ensures
        r == known_permission(p@),
{
    str_equals(p, "filesystem") || str_equals(p, "network") || str_equals(p, "database")
        || str_equals(p, "ui") || str_equals(p, "native")
}

fn field_required(field: &str) -> (r: Result<(), ValidationError>)
    ensures
        r matches Err(ValidationError::FieldRequired(f)) && f@ == field@,
{
    Err(ValidationError::FieldRequired(String::from_str(field)))
}

/// Structural validation: the required fields are present and every
/// permission belongs to the vocabulary.
pub fn validate_manifest(m: &ExtensionManifest) -> (r: Result<(), ValidationError>)
    ensures
        r is Ok <==> manifest_valid(*m),
        m.name@.len() == 0 ==> (r matches Err(ValidationError::FieldRequired(f)) && f@
            == "name"@),
        m.name@.len() > 0 && m.version@.len() == 0 ==> (r matches Err(
            ValidationError::FieldRequired(f),
        ) && f@ == "version"@),
        m.name@.len() > 0 && m.version@.len() > 0 && m.entry_point@.len() == 0 ==> (r matches Err(
            ValidationError::FieldRequired(f),
        ) && f@ == "entry_point"@),
        required_fields_present(*m) && !permissions_known(*m) ==> (r matches Err(
            ValidationError::InvalidPermission(p),
        ) && !known_permission(p@) && exists|i: int|
            0 <= i < m.permissions@.len() && m.permissions@[i]@ == p@),
{
    if m.name.as_str().is_empty() {
        return field_required("name");
    }
    if m.version.as_str().is_empty() {
        return field_required("version");
    }
    if m.entry_point.as_str().is_empty() {
        return field_required("entry_point");
    }
    let mut i: usize = 0;
    while i < m.permissions.len()
        invariant
            required_fields_present(*m),
            i <= m.permissions@.len(),
            forall|j: int| 0 <= j < i ==> known_permission(#[trigger] m.permissions@[j]@),
        decreases m.permissions@.len() - i,
    {
        let p = &m.permissions[i];
        if !is_known_permission(p.as_str()) {
            return Err(ValidationError::InvalidPermission(p.clone()));
        }
        i += 1;
    }
    Ok(())
}

/// Whether a name or path climbs to a parent directory or holds a separator.
pub fn is_unsafe_path_text(s: &str) -> (r: bool)
    ensures
        r == unsafe_path_text(s@),
{
    contains_double_dot(s) || contains_char(s, '/') || contains_char(s, '\\')
}

fn security_violation(what: &str) -> (r: Result<(), ValidationError>)
    ensures
        r matches Err(ValidationError::SecurityViolation(w)) && w@ == what@,
{
    Err(ValidationError::SecurityViolation(String::from_str(what)))
}

/// The security pass for manifests fetched from a store: no path traversal
/// or separator in the name or the entry point, and neither `filesystem`
/// nor `native` among the permissions.
pub fn check_manifest_security(m: &ExtensionManifest) -> (r: Result<(), ValidationError>)
    ensures
        r is Ok <==> manifest_secure(*m),
        r is Err ==> r matches Err(ValidationError::SecurityViolation(_)),
{
    if is_unsafe_path_text(m.name.as_str()) {
        return security_violation("unsafe extension name");
    }
    if is_unsafe_path_text(m.entry_point.as_str()) {
        return security_violation("unsafe entry point");
    }
    let mut i: usize = 0;
    while i < m.permissions.len()
        invariant
            i <= m.permissions@.len(),
            forall|j: int| 0 <= j < i ==> !remote_forbidden_permission(#[trigger] m.permissions@[j]@),
        decreases m.permissions@.len() - i,
    {
        let p = m.permissions[i].as_str();
        if str_equals(p, "filesystem") || str_equals(p, "native") {
            return security_violation("permission not allowed for store extensions");
        }
        i += 1;
    }
    Ok(())
}

/// A manifest that leaves its name, version or entry point empty never
/// passes validation.
pub proof fn lemma_missing_field_invalid(m: ExtensionManifest)
    requires
        m.name@.len() == 0 || m.version@.len() == 0 || m.entry_point@.len() == 0,
    ensures
        !manifest_valid(m),
{
}

/// A manifest that declares a permission outside the vocabulary never
/// passes validation.
pub proof fn lemma_unknown_permission_invalid(m: ExtensionManifest, i: int)
    requires
        0 <= i < m.permissions@.len(),
        !known_permission(m.permissions@[i]@),
    ensures
        !manifest_valid(m),
{
}

/// A manifest that asks for `filesystem` or `native` never passes the
/// security pass for store downloads, whatever else it holds.
pub proof fn lemma_forbidden_permission_refused(m: ExtensionManifest, i: int)
    requires
        0 <= i < m.permissions@.len(),
        remote_forbidden_permission(m.permissions@[i]@),
    ensures
        !manifest_secure(m),
{
}

} // verus!
