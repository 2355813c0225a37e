//! The manifest: a stack's providers, global variables and resources.

use vstd::prelude::*;
use crate::text::{chars_of, owned, push_str};
use crate::exports::mixed;

verus! {

/// A value written in the manifest: a scalar, a list or a nested mapping.
#[derive(Debug, PartialEq, Eq)]
pub enum ManifestValue {
    Null,
    Bool(bool),
    /// A number, as written.
    Number(String),
    /// Text, possibly holding `{{ name }}` placeholders.
    Str(String),
    List(Vec<ManifestValue>),
    Mapping(Vec<(String, ManifestValue)>),
}

/// A global variable of the stack.
#[derive(Debug)]
pub struct GlobalVar {
    pub name: String,
    pub value: ManifestValue,
    pub description: String,
}

/// The value of a property in one environment.
#[derive(Debug, PartialEq, Eq)]
pub struct PropertyValue {
    pub value: ManifestValue,
}

/// A property of a resource.
#[derive(Debug)]
pub struct Property {
    pub name: String,
    /// One value for every environment.
    pub value: Option<ManifestValue>,
    /// Values by environment name.
    pub values: Option<Vec<(String, PropertyValue)>>,
    pub description: String,
    /// Names of variables whose JSON values are merged into this one.
    pub merge: Option<Vec<String>>,
}

/// How a resource exports a value.
#[derive(Debug, Clone, PartialEq, Eq)]
pub enum ExportDecl {
    /// The column of this name, stored under the same name.
    Name(String),
    /// Source columns and the names they are stored under.
    Rename(Vec<(String, String)>),
}

/// A resource of the stack.
#[derive(Debug)]
pub struct Resource {
    pub name: String,
    /// One of `resource`, `query`, `script`, `multi`, `command`.
    pub resource_type: String,
    /// Query file name; `<name>.iql` when absent.
    pub file: Option<String>,
    /// Inline statement of a `query` or `command` resource.
    pub sql: Option<String>,
    /// Shell command template of a `script` resource.
    pub run: Option<String>,
    pub props: Vec<Property>,
    pub exports: Vec<ExportDecl>,
    /// Export names whose values are masked when shown.
    pub protected: Vec<String>,
    pub description: String,
    /// Condition under which the resource is processed.
    pub condition: Option<String>,
    pub skip_validation: bool,
    /// Credentials passed through to the engine.
    pub auth: Option<String>,
}

/// A stack manifest.
#[derive(Debug)]
pub struct Manifest {
    pub version: u32,
    pub name: String,
    pub description: String,
    pub providers: Vec<String>,
    pub globals: Vec<GlobalVar>,
    pub resources: Vec<Resource>,
    /// Names of variables written to the stack's export file.
    pub exports: Vec<String>,
}

/// Error of manifest handling.
#[derive(Debug, PartialEq, Eq)]
pub enum ManifestError {
    FileReadError(String),
    ParseError(String),
    MissingField(String),
    InvalidField(String),
}

/// The value of `p` in environment `env`: its single value, else its value
/// for `env` (the first entry of that name).
pub open spec fn property_value_of(p: &Property, env: Seq<char>) -> Option<&ManifestValue> {
    match &p.value {
        Some(v) => Some(v),
        None => match &p.values {
            Some(vs) => match env_index(vs@, env, 0) {
                Some(i) => Some(&vs@[i].1.value),
                None => None,
            },
            None => None,
        },
    }
}

/// Position of the first entry named `env` in `vs[j..]`.
pub open spec fn env_index(vs: Seq<(String, PropertyValue)>, env: Seq<char>, j: int) -> Option<int>
    decreases vs.len() - j,
{
    if j < 0 || j >= vs.len() {
        None
    } else if vs[j].0@ == env {
        Some(j)
    } else {
        env_index(vs, env, j + 1)
    }
}

/// Position of the first resource named `name` in `rs[j..]`.
pub open spec fn resource_index(rs: Seq<Resource>, name: Seq<char>, j: int) -> Option<int>
    decreases rs.len() - j,
{
    if j < 0 || j >= rs.len() {
        None
    } else if rs[j].name@ == name {
        Some(j)
    } else {
        resource_index(rs, name, j + 1)
    }
}

/// The names a resource exports under.
pub open spec fn exported_names(decls: Seq<ExportDecl>) -> Set<Seq<char>> {
    Set::new(|n: Seq<char>| exists|i: int| 0 <= i < decls.len() && exports_name(#[trigger] decls[i], n))
}

impl Manifest {
    /// The value of a property in an environment.
    pub fn get_property_value<'a>(property: &'a Property, env: &str) -> (r: Option<&'a ManifestValue>)
        ensures
            r == property_value_of(property, env@),
    {
        match &property.value {
            Some(v) => Some(v),
            None => match &property.values {
                Some(vs) => {
                    let key = owned(env);
                    let mut i: usize = 0;
                    while i < vs.len()
                        invariant
                            property.value is None,
                            property.values == Some(*vs),
                            i <= vs@.len(),
                            key@ == env@,
                            env_index(vs@, env@, 0) == env_index(vs@, env@, i as int),
                        decreases vs@.len() - i,
                    {
                        if vs[i].0 == key {
                            assert(env_index(vs@, env@, i as int) == Some(i as int));
                            return Some(&vs[i].1.value);
                        }
                        i = i + 1;
                    }
                    None
                },
                None => None,
            },
        }
    }

    /// The first resource of a name.
    pub fn find_resource(&self, name: &str) -> (r: Option<&Resource>)
        ensures
            match resource_index(self.resources@, name@, 0) {
                Some(i) => r == Some(&self.resources@[i]),
                None => r is None,
            },
    {
        let key = owned(name);
        let mut i: usize = 0;
        while i < self.resources.len()
            invariant
                i <= self.resources@.len(),
                key@ == name@,
                resource_index(self.resources@, name@, 0) == resource_index(
                    self.resources@,
                    name@,
                    i as int,
                ),
            decreases self.resources@.len() - i,
        {
            if self.resources[i].name == key {
                return Some(&self.resources[i]);
            }
            i = i + 1;
        }
        None
    }

    /// Path of a resource's query file: `resources/<file>` (by default
    /// `<name>.iql`) under the stack directory; an absolute file name stands
    /// for itself.
    pub fn get_resource_query_path(&self, stack_dir: &str, resource: &Resource) -> (r: String)
        ensures
            r@ == query_path(stack_dir@, match &resource.file {
                Some(f) => f@,
                None => resource.name@ + ".iql"@,
            }),
    {
        let file = match &resource.file {
            Some(f) => owned(f.as_str()),
            None => {
                let mut f = owned(resource.name.as_str());
                push_str(&mut f, ".iql");
                f
            },
        };
        let fv = chars_of(file.as_str());
        if fv.len() > 0 && fv[0] == '/' {
            return file;
        }
        let mut p = owned(stack_dir);
        let dv = chars_of(stack_dir);
        if !(dv.len() > 0 && dv[dv.len() - 1] == '/') {
            crate::text::push_char(&mut p, '/');
        }
        push_str(&mut p, "resources/");
        push_str(&mut p, file.as_str());
        p
    }
}

/// `dir` joined with `resources` and then `file`, as a path join does: an
/// absolute `file` replaces the rest, and no separator is doubled after `dir`.
pub open spec fn query_path(dir: Seq<char>, file: Seq<char>) -> Seq<char> {
    if file.len() > 0 && file[0] == '/' {
        file
    } else if dir.len() > 0 && dir.last() == '/' {
        dir + "resources/"@ + file
    } else {
        dir + seq!['/'] + "resources/"@ + file
    }
}

/// Whether a property is complete: a name, and a value or values.
pub open spec fn property_ok(p: Property) -> bool {
    p.name@.len() > 0 && (p.value is Some || p.values is Some)
}

/// Whether a declaration names only non-empty exports.
pub open spec fn decl_ok(d: ExportDecl) -> bool {
    match d {
        ExportDecl::Name(n) => n@.len() > 0,
        ExportDecl::Rename(ps) => forall|j: int| 0 <= j < ps@.len() ==> (#[trigger] ps@[j]).1@.len() > 0,
    }
}

/// Whether a resource is well formed: named, complete properties, exports of
/// one style with names, protected names among the exports.
pub open spec fn resource_ok(r: Resource) -> bool {
    &&& r.name@.len() > 0
    &&& forall|i: int| 0 <= i < r.props@.len() ==> property_ok(#[trigger] r.props@[i])
    &&& !mixed(r.exports@)
    &&& forall|i: int| 0 <= i < r.exports@.len() ==> decl_ok(#[trigger] r.exports@[i])
    &&& forall|i: int| 0 <= i < r.protected@.len() ==> exported_names(r.exports@).contains(#[trigger] r.protected@[i]@)
}

/// Whether a manifest is well formed.
pub open spec fn manifest_ok(m: &Manifest) -> bool {
    &&& m.name@.len() > 0
    &&& m.providers@.len() > 0
    &&& forall|i: int| 0 <= i < m.resources@.len() ==> resource_ok(#[trigger] m.resources@[i])
}

fn text_len(s: &String) -> (r: usize)
    ensures
        r == s@.len(),
{
    chars_of(s.as_str()).len()
}

fn property_valid(p: &Property) -> (r: bool)
    ensures
        r == property_ok(*p),
{
    text_len(&p.name) > 0 && (p.value.is_some() || p.values.is_some())
}

fn targets_named(ps: &Vec<(String, String)>) -> (r: bool)
    ensures
        r == forall|j: int| 0 <= j < ps@.len() ==> (#[trigger] ps@[j]).1@.len() > 0,
{
    let mut i: usize = 0;
    while i < ps.len()
        invariant
            i <= ps@.len(),
            forall|j: int| 0 <= j < i ==> (#[trigger] ps@[j]).1@.len() > 0,
        decreases ps@.len() - i,
    {
        if text_len(&ps[i].1) == 0 {
            assert(!((ps@[i as int]).1@.len() > 0));
            return false;
        }
        i = i + 1;
    }
    true
}

fn decl_valid(d: &ExportDecl) -> (r: bool)
    ensures
        r == decl_ok(*d),
{
    match d {
        ExportDecl::Name(n) => text_len(n) > 0,
        ExportDecl::Rename(ps) => targets_named(ps),
    }
}

fn has_target(ps: &Vec<(String, String)>, name: &String) -> (r: bool)
    ensures
        r == exists|j: int| 0 <= j < ps@.len() && ps@[j].1@ == name@,
{
    let mut j: usize = 0;
    while j < ps.len()
        invariant
            j <= ps@.len(),
            forall|k: int| 0 <= k < j ==> ps@[k].1@ != name@,
        decreases ps@.len() - j,
    {
        if ps[j].1 == *name {
            assert(ps@[j as int].1@ == name@);
            return true;
        }
        j = j + 1;
    }
    false
}

/// Whether a declaration exports under `name`.
pub open spec fn exports_name(d: ExportDecl, name: Seq<char>) -> bool {
    match d {
        ExportDecl::Name(s) => s@ == name,
        ExportDecl::Rename(pairs) => exists|j: int| 0 <= j < pairs@.len() && pairs@[j].1@ == name,
    }
}

fn decl_exports(d: &ExportDecl, name: &String) -> (r: bool)
    ensures
        r == exports_name(*d, name@),
{
    match d {
        ExportDecl::Name(n) => *n == *name,
        ExportDecl::Rename(ps) => has_target(ps, name),
    }
}

fn is_exported(decls: &Vec<ExportDecl>, name: &String) -> (r: bool)
    ensures
        r == exported_names(decls@).contains(name@),
{
    let mut i: usize = 0;
    while i < decls.len()
        invariant
            i <= decls@.len(),
            forall|k: int| 0 <= k < i ==> !exports_name(#[trigger] decls@[k], name@),
        decreases decls@.len() - i,
    {
        if decl_exports(&decls[i], name) {
            assert(exports_name(decls@[i as int], name@));
            return true;
        }
        i = i + 1;
    }
    assert forall|k: int| 0 <= k < decls@.len() implies !exports_name(#[trigger] decls@[k], name@) by {}
    false
}

fn resource_valid(r: &Resource) -> (ok: bool)
    ensures
        ok == resource_ok(*r),
{
    if text_len(&r.name) == 0 {
        return false;
    }
    let mut i: usize = 0;
    while i < r.props.len()
        invariant
            i <= r.props@.len(),
            forall|k: int| 0 <= k < i ==> property_ok(#[trigger] r.props@[k]),
        decreases r.props@.len() - i,
    {
        if !property_valid(&r.props[i]) {
            return false;
        }
        i = i + 1;
    }
    let mut names = false;
    let mut renames = false;
    let mut i: usize = 0;
    while i < r.exports.len()
        invariant
            i <= r.exports@.len(),
            names == exists|k: int| 0 <= k < i && r.exports@[k] is Name,
            renames == exists|k: int| 0 <= k < i && r.exports@[k] is Rename,
            forall|k: int| 0 <= k < i ==> decl_ok(#[trigger] r.exports@[k]),
        decreases r.exports@.len() - i,
    {
        if !decl_valid(&r.exports[i]) {
            return false;
        }
        match &r.exports[i] {
            ExportDecl::Name(_) => {
                names = true;
            },
            ExportDecl::Rename(_) => {
                renames = true;
            },
        }
        i = i + 1;
    }
    if names && renames {
        return false;
    }
    let mut i: usize = 0;
    while i < r.protected.len()
        invariant
            i <= r.protected@.len(),
            forall|k: int| 0 <= k < i ==> exported_names(r.exports@).contains(#[trigger] r.protected@[k]@),
        decreases r.protected@.len() - i,
    {
        if !is_exported(&r.exports, &r.protected[i]) {
            return false;
        }
        i = i + 1;
    }
    true
}

impl Manifest {
    /// Checks the manifest: a name, providers, and well-formed resources.
    pub fn validate(&self) -> (r: Result<(), ManifestError>)
        ensures
            r is Ok <==> manifest_ok(self),
            self.name@.len() == 0 ==> (r matches Err(ManifestError::MissingField(f)) && f@ == "name"@),
            self.name@.len() > 0 && self.providers@.len() == 0 ==> (r matches Err(ManifestError::MissingField(f)) && f@ == "providers"@),
    {
        if text_len(&self.name) == 0 {
            return Err(ManifestError::MissingField(owned("name")));
        }
        if self.providers.len() == 0 {
            return Err(ManifestError::MissingField(owned("providers")));
        }
        let mut i: usize = 0;
        while i < self.resources.len()
            invariant
                self.name@.len() > 0,
                self.providers@.len() > 0,
                i <= self.resources@.len(),
                forall|k: int| 0 <= k < i ==> resource_ok(#[trigger] self.resources@[k]),
            decreases self.resources@.len() - i,
        {
            if !resource_valid(&self.resources[i]) {
                let mut m = owned("invalid resource: ");
                push_str(&mut m, self.resources[i].name.as_str());
                return Err(ManifestError::InvalidField(m));
            }
            i = i + 1;
        }
        Ok(())
    }
}

} // verus!
