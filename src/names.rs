//! Names of message types and of the log representations converters produce.
use vstd::prelude::*;
use vstd::string::{StrSliceExecFns, StringExecFns};

verus! {

/// The namespace that every Rerun archetype name lives in.
pub open spec fn archetype_prefix() -> Seq<char> {
    seq!['r', 'e', 'r', 'u', 'n', '.', 'a', 'r', 'c', 'h', 'e', 't', 'y', 'p', 'e', 's', '.']
}

/// Whether `p` is a prefix of `s`.
pub open spec fn has_prefix(s: Seq<char>, p: Seq<char>) -> bool {
    p.len() <= s.len() && s.subrange(0, p.len() as int) == p
}

/// A structured archetype name with the namespace prefix put in front when it is missing.
pub open spec fn qualify_name(n: Seq<char>) -> Seq<char> {
    if has_prefix(n, archetype_prefix()) {
        n
    } else {
        archetype_prefix() + n
    }
}

/// The textual form of a message type: `<package>/msg/<name>`.
pub open spec fn type_path(package: Seq<char>, name: Seq<char>) -> Seq<char> {
    package + seq!['/', 'm', 's', 'g', '/'] + name
}

/// Whether `p` is a prefix of `s`, compared character by character.
fn str_starts_with(s: &str, p: &str) -> (r: bool)
    ensures
        r == has_prefix(s@, p@),
{
    let n = p.unicode_len();
    let m = s.unicode_len();
    if n > m {
        return false;
    }
    let mut i: usize = 0;
    while i < n
        invariant
            0 <= i <= n,
            n == p@.len(),
            n <= m,
            m == s@.len(),
            forall|k: int| 0 <= k < i ==> s@[k] == p@[k],
        decreases n - i,
    {
        if s.get_char(i) != p.get_char(i) {
            assert(s@.subrange(0, n as int)[i as int] != p@[i as int]);
            return false;
        }
        i = i + 1;
    }
    assert(s@.subrange(0, n as int) =~= p@);
    true
}

/// A message type whose definition was found in the live schema catalog.
///
/// Values are made only from the package and type name that a successful
/// lookup returned; the registry never builds one from unchecked text.
#[derive(Debug)]
pub struct ROSTypeName {
    pub package_name: String,
    pub message_name: String,
}

impl View for ROSTypeName {
    type V = (Seq<char>, Seq<char>);

    open spec fn view(&self) -> (Seq<char>, Seq<char>) {
        (self.package_name@, self.message_name@)
    }
}

impl ROSTypeName {
    pub fn new(package_name: &str, message_name: &str) -> (r: Self)
        ensures
            r@ == (package_name@, message_name@),
    {
        ROSTypeName { package_name: String::from_str(package_name), message_name: String::from_str(message_name) }
    }

    /// A copy of this name.
    pub fn duplicate(&self) -> (r: Self)
        ensures
            r == *self,
    {
        ROSTypeName { package_name: self.package_name.clone(), message_name: self.message_name.clone() }
    }

    /// Whether two names denote the same message type.
    pub fn same_as(&self, other: &ROSTypeName) -> (r: bool)
        ensures
            r == (self@ == other@),
    {
        self.package_name == other.package_name && self.message_name == other.message_name
    }

    /// Whether this validated name denotes the unchecked type `other`.
    pub fn matches(&self, other: &ROSTypeString) -> (r: bool)
        ensures
            r == (self@ == other@),
    {
        let p = self.package_name.as_str();
        let t = self.message_name.as_str();
        str_eq(p, other.package) && str_eq(t, other.name)
    }

    /// The textual form `<package>/msg/<name>`.
    pub fn path(&self) -> (r: String)
        ensures
            r@ == type_path(self@.0, self@.1),
    {
        join_path(self.package_name.as_str(), self.message_name.as_str())
    }
}

/// Whether two strings hold the same characters.
pub fn str_eq(a: &str, b: &str) -> (r: bool)
    ensures
        r == (a@ == b@),
{
    let x = String::from_str(a);
    let y = String::from_str(b);
    x == y
}

fn join_path(package: &str, name: &str) -> (r: String)
    ensures
        r@ == type_path(package@, name@),
{
    let mut s = String::from_str(package);
    let sep = "/msg/";
    proof {
        reveal_strlit("/msg/");
    }
    assert(sep@ =~= seq!['/', 'm', 's', 'g', '/']);
    s.append(sep);
    s.append(name);
    s
}

/// An unchecked message type, for names written into the library's own tables.
///
/// Whether a definition exists is only known at run time: a `ROSTypeName` is
/// what a successful lookup of this name yields.
#[derive(Debug, Clone, Copy)]
pub struct ROSTypeString<'a> {
    pub package: &'a str,
    pub name: &'a str,
}

impl<'a> View for ROSTypeString<'a> {
    type V = (Seq<char>, Seq<char>);

    open spec fn view(&self) -> (Seq<char>, Seq<char>) {
        (self.package@, self.name@)
    }
}

impl<'a> ROSTypeString<'a> {
    pub fn new(package: &'a str, name: &'a str) -> (r: Self)
        ensures
            r@ == (package@, name@),
    {
        ROSTypeString { package, name }
    }

    /// The textual form `<package>/msg/<name>`, the key under which failed lookups are kept.
    pub fn path(&self) -> (r: String)
        ensures
            r@ == type_path(self@.0, self@.1),
    {
        join_path(self.package, self.name)
    }
}

/// The abstract value of a `RerunName`.
pub enum TargetView {
    RerunArchetype(Seq<char>),
    ROSArchetype(Seq<char>),
    Components,
}

/// A target name with the namespace prefix applied to structured archetype names.
pub open spec fn qualify(t: TargetView) -> TargetView {
    match t {
        TargetView::RerunArchetype(n) => TargetView::RerunArchetype(qualify_name(n)),
        _ => t,
    }
}

/// The log representation that a converter produces.
#[derive(Debug)]
pub enum RerunName {
    /// A structured archetype of the backend, such as `rerun.archetypes.TextDocument`.
    RerunArchetype(String),
    /// The default archetype for a message type.
    ROSArchetype(String),
    /// Loose components without an archetype.
    Components,
}

impl View for RerunName {
    type V = TargetView;

    open spec fn view(&self) -> TargetView {
        match self {
            RerunName::RerunArchetype(n) => TargetView::RerunArchetype(n@),
            RerunName::ROSArchetype(n) => TargetView::ROSArchetype(n@),
            RerunName::Components => TargetView::Components,
        }
    }
}

impl RerunName {
    /// A copy of this name.
    pub fn duplicate(&self) -> (r: Self)
        ensures
            r == *self,
    {
        match self {
            RerunName::RerunArchetype(n) => RerunName::RerunArchetype(n.clone()),
            RerunName::ROSArchetype(n) => RerunName::ROSArchetype(n.clone()),
            RerunName::Components => RerunName::Components,
        }
    }

    /// Whether two names denote the same target.
    pub fn same_as(&self, other: &RerunName) -> (r: bool)
        ensures
            r == (self@ == other@),
    {
        match self {
            RerunName::RerunArchetype(a) => match other {
                RerunName::RerunArchetype(b) => *a == *b,
                _ => false,
            },
            RerunName::ROSArchetype(a) => match other {
                RerunName::ROSArchetype(b) => *a == *b,
                _ => false,
            },
            RerunName::Components => match other {
                RerunName::Components => true,
                _ => false,
            },
        }
    }

    /// The name of a structured archetype of the backend, with the namespace prefix.
    pub fn archetype(name: &str) -> (r: Self)
        ensures
            r@ == TargetView::RerunArchetype(qualify_name(name@)),
    {
        fully_qualified_name(&RerunName::RerunArchetype(String::from_str(name)))
    }

    /// The textual form of the name.
    pub fn describe(&self) -> (r: String)
        ensures
            self is RerunArchetype ==> r@ == self->RerunArchetype_0@,
            self is ROSArchetype ==> r@ == self->ROSArchetype_0@,
            self is Components ==> r@ == seq!['<', 'R', 'e', 'r', 'u', 'n', ' ', 'c', 'o', 'm', 'p', 'o', 'n', 'e', 'n', 't', 's', '>'],
    {
        match self {
            RerunName::RerunArchetype(n) => n.clone(),
            RerunName::ROSArchetype(n) => n.clone(),
            RerunName::Components => {
                let s = "<Rerun components>";
                proof {
                    reveal_strlit("<Rerun components>");
                }
                assert(s@ =~= seq!['<', 'R', 'e', 'r', 'u', 'n', ' ', 'c', 'o', 'm', 'p', 'o', 'n', 'e', 'n', 't', 's', '>']);
                String::from_str(s)
            },
        }
    }
}

/// The name with the archetype namespace put in front of a structured archetype
/// name that lacks it; other names are returned unchanged.
pub fn fully_qualified_name(name: &RerunName) -> (r: RerunName)
    ensures
        r@ == qualify(name@),
{
    match name {
        RerunName::RerunArchetype(n) => {
            let prefix = "rerun.archetypes.";
            proof {
                reveal_strlit("rerun.archetypes.");
            }
            assert(prefix@ =~= archetype_prefix());
            if str_starts_with(n.as_str(), prefix) {
                RerunName::RerunArchetype(n.clone())
            } else {
                let s = String::from_str(prefix);
                RerunName::RerunArchetype(s.concat(n.as_str()))
            }
        },
        _ => name.duplicate(),
    }
}

/// Qualifying a target name twice gives the same name as qualifying it once.
pub proof fn lemma_qualify_idempotent(t: TargetView)
    ensures
        qualify(qualify(t)) == qualify(t),
{
    if let TargetView::RerunArchetype(n) = t {
        if !has_prefix(n, archetype_prefix()) {
            let q = archetype_prefix() + n;
            assert(q.subrange(0, archetype_prefix().len() as int) =~= archetype_prefix());
        }
    }
}

/// A bare archetype name and the same name written with the namespace prefix
/// qualify to the same target name.
pub proof fn lemma_qualify_bare_and_prefixed(n: Seq<char>)
    requires
        !has_prefix(n, archetype_prefix()),
    ensures
        qualify(TargetView::RerunArchetype(n)) == qualify(
            TargetView::RerunArchetype(archetype_prefix() + n),
        ),
{
    let q = archetype_prefix() + n;
    assert(q.subrange(0, archetype_prefix().len() as int) =~= archetype_prefix());
}

} // verus!
