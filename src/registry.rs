//! The converter registry: registration, priority-ordered resolution, and the builder.
use vstd::prelude::*;
use vstd::string::StringExecFns;

use crate::converter::{
    configured, converter_source, converter_target, is_invalid_config_for, AnyToTextDocument, Converter,
    ConverterError, ConverterSettings, StdStringToTextDocument, TextDocumentConfig,
};
use crate::names::{fully_qualified_name, qualify, type_path, ROSTypeName, ROSTypeString, RerunName, TargetView};

verus! {

/// A message type as a (package, name) pair of texts.
pub type TypeKey = (Seq<char>, Seq<char>);

/// The abstract state of a registry: its indexes as lists, newest entry last.
pub struct RegistryView {
    /// Converters for one message type and one target.
    pub specific: Seq<(TypeKey, TargetView, Converter)>,
    /// The default converter of each message type.
    pub defaults: Seq<(TypeKey, Converter)>,
    /// Converters that accept any message type, by target.
    pub generic: Seq<(TargetView, Converter)>,
    /// Message types whose lookup failed, by textual form, with the reason.
    pub failed: Seq<(Seq<char>, Seq<char>)>,
}

/// The newest converter for message type `t` and target `n`.
pub open spec fn find_specific(s: Seq<(TypeKey, TargetView, Converter)>, t: TypeKey, n: TargetView) -> Option<Converter>
    decreases s.len(),
{
    if s.len() == 0 {
        None
    } else if s.last().0 == t && s.last().1 == n {
        Some(s.last().2)
    } else {
        find_specific(s.drop_last(), t, n)
    }
}

/// The newest default converter for message type `t`.
pub open spec fn find_default(s: Seq<(TypeKey, Converter)>, t: TypeKey) -> Option<Converter>
    decreases s.len(),
{
    if s.len() == 0 {
        None
    } else if s.last().0 == t {
        Some(s.last().1)
    } else {
        find_default(s.drop_last(), t)
    }
}

/// The newest converter for target `n` that accepts any message type.
pub open spec fn find_generic(s: Seq<(TargetView, Converter)>, n: TargetView) -> Option<Converter>
    decreases s.len(),
{
    if s.len() == 0 {
        None
    } else if s.last().0 == n {
        Some(s.last().1)
    } else {
        find_generic(s.drop_last(), n)
    }
}

/// Whether a lookup of the message type with textual form `key` has failed before.
pub open spec fn has_failed(s: Seq<(Seq<char>, Seq<char>)>, key: Seq<char>) -> bool {
    exists|i: int| 0 <= i < s.len() && #[trigger] s[i].0 == key
}

/// The message type whose lookup registering `c` still needs, if any.
pub open spec fn pending_lookup(v: RegistryView, c: Converter) -> Option<TypeKey> {
    match converter_source(c) {
        Some(t) => if has_failed(v.failed, type_path(t.0, t.1)) { None } else { Some(t) },
        None => None,
    }
}

/// The registry after registering the prototype `c`, given the outcome of
/// looking up its message type (`None`: no lookup was made).
pub open spec fn registered(v: RegistryView, c: Converter, lookup: Option<Result<ROSTypeName, String>>) -> RegistryView {
    let target = qualify(converter_target(c));
    match converter_source(c) {
        None => RegistryView { generic: v.generic.push((target, c)), ..v },
        Some(t) => {
            if has_failed(v.failed, type_path(t.0, t.1)) {
                v
            } else {
                match lookup {
                    Some(Ok(found)) => RegistryView {
                        specific: v.specific.push((found@, target, c)),
                        defaults: if find_default(v.defaults, found@) is Some {
                            v.defaults
                        } else {
                            v.defaults.push((found@, c))
                        },
                        ..v
                    },
                    Some(Err(e)) => RegistryView { failed: v.failed.push((type_path(t.0, t.1), e@)), ..v },
                    None => v,
                }
            }
        },
    }
}

/// The registry's invariant: converters indexed by message type accept one
/// message type, and generic converters accept any.
pub open spec fn registry_wf(v: RegistryView) -> bool {
    &&& forall|i: int| 0 <= i < v.specific.len() ==> (#[trigger] converter_source(v.specific[i].2)) is Some
    &&& forall|i: int| 0 <= i < v.defaults.len() ==> (#[trigger] converter_source(v.defaults[i].1)) is Some
    &&& forall|i: int| 0 <= i < v.generic.len() ==> (#[trigger] converter_source(v.generic[i].1)) is None
}

/// Registering a prototype keeps the registry's invariant.
pub proof fn lemma_registered_wf(v: RegistryView, c: Converter, lookup: Option<Result<ROSTypeName, String>>)
    requires
        registry_wf(v),
    ensures
        registry_wf(registered(v, c, lookup)),
{
    let w = registered(v, c, lookup);
    assert forall|i: int| 0 <= i < w.specific.len() implies (#[trigger] converter_source(w.specific[i].2)) is Some by {
        if i < v.specific.len() {
            assert(w.specific[i] == v.specific[i]);
        }
    }
    assert forall|i: int| 0 <= i < w.defaults.len() implies (#[trigger] converter_source(w.defaults[i].1)) is Some by {
        if i < v.defaults.len() {
            assert(w.defaults[i] == v.defaults[i]);
        }
    }
    assert forall|i: int| 0 <= i < w.generic.len() implies (#[trigger] converter_source(w.generic[i].1)) is None by {
        if i < v.generic.len() {
            assert(w.generic[i] == v.generic[i]);
        }
    }
}

proof fn lemma_default_is_specific(s: Seq<(TypeKey, Converter)>, t: TypeKey)
    requires
        forall|i: int| 0 <= i < s.len() ==> (#[trigger] converter_source(s[i].1)) is Some,
    ensures
        find_default(s, t) is Some ==> converter_source(find_default(s, t)->Some_0) is Some,
    decreases s.len(),
{
    if s.len() > 0 {
        let p = s.drop_last();
        assert forall|i: int| 0 <= i < p.len() implies (#[trigger] converter_source(p[i].1)) is Some by {
            assert(p[i] == s[i]);
        }
        lemma_default_is_specific(p, t);
        assert(converter_source(s[s.len() - 1].1) is Some);
    }
}

/// The converter that resolution picks, in priority order: the converter for
/// the message type and target, else the generic converter for the target;
/// with only a message type, its default converter; with only a target, the
/// generic converter for it.
pub open spec fn resolved(v: RegistryView, t: Option<TypeKey>, n: Option<TargetView>) -> Option<Converter> {
    match (t, n) {
        (Some(t), Some(n)) => match find_specific(v.specific, t, qualify(n)) {
            Some(c) => Some(c),
            None => find_generic(v.generic, qualify(n)),
        },
        (Some(t), None) => find_default(v.defaults, t),
        (None, Some(n)) => find_generic(v.generic, qualify(n)),
        (None, None) => None,
    }
}

/// `<ANY>` as an archetype name, for reports on a resolution without a target.
pub open spec fn any_target() -> TargetView {
    TargetView::RerunArchetype(seq!['<', 'A', 'N', 'Y', '>'])
}

/// The error that a failed resolution reports.
pub open spec fn unsupported_matches(e: ConverterError, t: Option<TypeKey>, n: Option<TargetView>) -> bool {
    &&& e is UnsupportedConversion
    &&& e->name@ == match n {
        Some(n) => qualify(n),
        None => any_target(),
    }
    &&& match t {
        Some(t) => e->ros_type is Some && e->ros_type->Some_0@ == type_path(t.0, t.1),
        None => e->ros_type is None,
    }
}

pub open spec fn opt_type_view(t: Option<&ROSTypeName>) -> Option<TypeKey> {
    match t {
        Some(t) => Some(t@),
        None => None,
    }
}

pub open spec fn opt_target_view(n: Option<&RerunName>) -> Option<TargetView> {
    match n {
        Some(n) => Some(n@),
        None => None,
    }
}

pub open spec fn owned_type_view(t: Option<ROSTypeName>) -> Option<TypeKey> {
    match t {
        Some(t) => Some(t@),
        None => None,
    }
}

pub open spec fn owned_target_view(n: Option<RerunName>) -> Option<TargetView> {
    match n {
        Some(n) => Some(n@),
        None => None,
    }
}

/// The catalog of converters, indexed by message type and target.
///
/// Built once at start-up from a fixed list of prototypes and read-only after
/// that. Message types are checked against the live schema catalog by the
/// caller; the registry remembers failed lookups so that they are not retried.
pub struct ConverterRegistry {
    converters: Vec<(ROSTypeName, RerunName, Converter)>,
    converters_by_ros_type: Vec<(ROSTypeName, Converter)>,
    generic_converters: Vec<(RerunName, Converter)>,
    error_types: Vec<(String, String)>,
}

impl View for ConverterRegistry {
    type V = RegistryView;

    closed spec fn view(&self) -> RegistryView {
        RegistryView {
            specific: self.converters@.map_values(|e: (ROSTypeName, RerunName, Converter)| (e.0@, e.1@, e.2)),
            defaults: self.converters_by_ros_type@.map_values(|e: (ROSTypeName, Converter)| (e.0@, e.1)),
            generic: self.generic_converters@.map_values(|e: (RerunName, Converter)| (e.0@, e.1)),
            failed: self.error_types@.map_values(|e: (String, String)| (e.0@, e.1@)),
        }
    }
}

/// The prototypes that every registry is built from, in registration order.
pub fn registration_list() -> (r: Vec<Converter>)
    ensures
        r@ == seq![
            Converter::StdStringToTextDocument(StdStringToTextDocument {}),
            Converter::AnyToTextDocument(AnyToTextDocument { config: TextDocumentConfig { field: None } }),
        ],
{
    let mut v = Vec::new();
    v.push(Converter::StdStringToTextDocument(StdStringToTextDocument {}));
    v.push(Converter::AnyToTextDocument(AnyToTextDocument { config: TextDocumentConfig::new() }));
    assert(v@ =~= seq![
        Converter::StdStringToTextDocument(StdStringToTextDocument {}),
        Converter::AnyToTextDocument(AnyToTextDocument { config: TextDocumentConfig { field: None } }),
    ]);
    v
}

impl ConverterRegistry {
    /// A registry with no converters.
    pub fn init() -> (r: Self)
        ensures
            r@.specific.len() == 0,
            r@.defaults.len() == 0,
            r@.generic.len() == 0,
            r@.failed.len() == 0,
            registry_wf(r@),
    {
        let r = ConverterRegistry {
            converters: Vec::new(),
            converters_by_ros_type: Vec::new(),
            generic_converters: Vec::new(),
            error_types: Vec::new(),
        };
        assert(r@.specific =~= Seq::empty());
        r
    }

    fn has_failed_lookup(&self, key: &String) -> (r: bool)
        ensures
            r == has_failed(self@.failed, key@),
    {
        let mut i: usize = 0;
        while i < self.error_types.len()
            invariant
                0 <= i <= self.error_types@.len(),
                forall|j: int| 0 <= j < i ==> self@.failed[j].0 != key@,
            decreases self.error_types@.len() - i,
        {
            if self.error_types[i].0 == *key {
                assert(self@.failed[i as int].0 == key@);
                return true;
            }
            i = i + 1;
        }
        false
    }

    /// The message type that must be looked up in the schema catalog before
    /// `converter` can be registered; `None` when the converter accepts any
    /// type or an earlier lookup of its type already failed.
    pub fn lookup_needed(&self, converter: &Converter) -> (r: Option<ROSTypeString<'static>>)
        ensures
            match r {
                Some(t) => pending_lookup(self@, *converter) == Some(t@),
                None => pending_lookup(self@, *converter) is None,
            },
    {
        match converter.ros_type() {
            Some(t) => {
                let key = t.path();
                if self.has_failed_lookup(&key) {
                    None
                } else {
                    Some(t)
                }
            },
            None => None,
        }
    }

    /// Registers a prototype.
    ///
    /// A converter that accepts any message type is indexed by its target
    /// alone. Otherwise `lookup` is the outcome of looking up its message type:
    /// on success the converter is indexed under the validated type and its
    /// qualified target, and becomes the type's default unless the type has
    /// one; a failure is remembered and never retried.
    pub fn register(&mut self, converter: &Converter, lookup: Option<Result<ROSTypeName, String>>)
        ensures
            final(self)@ == registered(old(self)@, *converter, lookup),
            registry_wf(old(self)@) ==> registry_wf(final(self)@),
    {
        proof {
            if registry_wf(old(self)@) {
                lemma_registered_wf(old(self)@, *converter, lookup);
            }
        }
        let target = fully_qualified_name(&converter.rerun_name());
        match converter.ros_type() {
            None => {
                self.generic_converters.push((target, converter.duplicate()));
                assert(self@.generic =~= old(self)@.generic.push((target@, *converter)));
                assert(self@ =~= registered(old(self)@, *converter, lookup));
            },
            Some(t) => {
                let key = t.path();
                if self.has_failed_lookup(&key) {
                    return;
                }
                match lookup {
                    Some(Ok(found)) => {
                        if self.default_for(&found).is_none() {
                            self.converters_by_ros_type.push((found.duplicate(), converter.duplicate()));
                            assert(self@.defaults =~= old(self)@.defaults.push((found@, *converter)));
                        }
                        self.converters.push((found, target, converter.duplicate()));
                        assert(self@.specific =~= old(self)@.specific.push((found@, target@, *converter)));
                        assert(self@ =~= registered(old(self)@, *converter, lookup));
                    },
                    Some(Err(e)) => {
                        let ghost ev = e@;
                        self.error_types.push((key, e));
                        assert(self@.failed =~= old(self)@.failed.push((type_path(t@.0, t@.1), ev)));
                        assert(self@ =~= registered(old(self)@, *converter, lookup));
                    },
                    None => {},
                }
            },
        }
    }

    fn default_for(&self, t: &ROSTypeName) -> (r: Option<Converter>)
        ensures
            r == find_default(self@.defaults, t@),
    {
        let ghost s = self@.defaults;
        let mut i: usize = self.converters_by_ros_type.len();
        assert(s.take(i as int) =~= s);
        while i > 0
            invariant
                0 <= i <= s.len(),
                s == self@.defaults,
                find_default(s, t@) == find_default(s.take(i as int), t@),
            decreases i,
        {
            assert(s.take(i as int).drop_last() =~= s.take(i - 1));
            let e = &self.converters_by_ros_type[i - 1];
            if e.0.same_as(t) {
                return Some(e.1.duplicate());
            }
            i = i - 1;
        }
        None
    }

    fn specific_for(&self, t: &ROSTypeName, n: &RerunName) -> (r: Option<Converter>)
        ensures
            r == find_specific(self@.specific, t@, n@),
    {
        let ghost s = self@.specific;
        let mut i: usize = self.converters.len();
        assert(s.take(i as int) =~= s);
        while i > 0
            invariant
                0 <= i <= s.len(),
                s == self@.specific,
                find_specific(s, t@, n@) == find_specific(s.take(i as int), t@, n@),
            decreases i,
        {
            assert(s.take(i as int).drop_last() =~= s.take(i - 1));
            let e = &self.converters[i - 1];
            if e.0.same_as(t) && e.1.same_as(n) {
                return Some(e.2.duplicate());
            }
            i = i - 1;
        }
        None
    }

    fn generic_for(&self, n: &RerunName) -> (r: Option<Converter>)
        ensures
            r == find_generic(self@.generic, n@),
    {
        let ghost s = self@.generic;
        let mut i: usize = self.generic_converters.len();
        assert(s.take(i as int) =~= s);
        while i > 0
            invariant
                0 <= i <= s.len(),
                s == self@.generic,
                find_generic(s, n@) == find_generic(s.take(i as int), n@),
            decreases i,
        {
            assert(s.take(i as int).drop_last() =~= s.take(i - 1));
            let e = &self.generic_converters[i - 1];
            if e.0.same_as(n) {
                return Some(e.1.duplicate());
            }
            i = i - 1;
        }
        None
    }

    /// Resolves a converter for a message type and a target; the result is a
    /// fresh copy of the registered prototype.
    pub fn find_converter(&self, ros_type: Option<&ROSTypeName>, rerun_name: Option<&RerunName>) -> (r: Result<Converter, ConverterError>)
        ensures
            match resolved(self@, opt_type_view(ros_type), opt_target_view(rerun_name)) {
                Some(c) => r == Ok::<Converter, ConverterError>(c),
                None => r is Err && unsupported_matches(r->Err_0, opt_type_view(ros_type), opt_target_view(rerun_name)),
            },
            registry_wf(self@) && ros_type is Some && rerun_name is None && r is Ok ==> converter_source(r->Ok_0) is Some,
    {
        proof {
            if registry_wf(self@) {
                if let Some(t) = ros_type {
                    lemma_default_is_specific(self@.defaults, t@);
                }
            }
        }
        match (ros_type, rerun_name) {
            (Some(t), Some(n)) => {
                let q = fully_qualified_name(n);
                match self.specific_for(t, &q) {
                    Some(c) => Ok(c),
                    None => match self.generic_for(&q) {
                        Some(c) => Ok(c),
                        None => Err(ConverterError::UnsupportedConversion { name: q, ros_type: Some(t.path()) }),
                    },
                }
            },
            (Some(t), None) => match self.default_for(t) {
                Some(c) => Ok(c),
                None => Err(ConverterError::UnsupportedConversion { name: any_archetype(), ros_type: Some(t.path()) }),
            },
            (None, Some(n)) => {
                let q = fully_qualified_name(n);
                match self.generic_for(&q) {
                    Some(c) => Ok(c),
                    None => Err(ConverterError::UnsupportedConversion { name: q, ros_type: None }),
                }
            },
            (None, None) => Err(ConverterError::UnsupportedConversion { name: any_archetype(), ros_type: None }),
        }
    }
}

fn any_archetype() -> (r: RerunName)
    ensures
        r@ == any_target(),
{
    let s = "<ANY>";
    proof {
        reveal_strlit("<ANY>");
    }
    assert(s@ =~= seq!['<', 'A', 'N', 'Y', '>']);
    RerunName::RerunArchetype(String::from_str(s))
}

/// What building yields: the resolved converter, configured when settings were given.
pub open spec fn built(v: RegistryView, t: Option<TypeKey>, n: Option<TargetView>, config: Option<ConverterSettings>) -> Option<Converter> {
    match resolved(v, t, n) {
        Some(c) => match config {
            Some(cfg) => configured(c, cfg),
            None => Some(c),
        },
        None => None,
    }
}

/// Collects what a converter needs and builds a configured converter from a registry.
pub struct ConverterBuilder<'a> {
    pub registry: &'a ConverterRegistry,
    pub topic: String,
    pub ros_type: Option<ROSTypeName>,
    pub rerun_name: Option<RerunName>,
    pub config: Option<ConverterSettings>,
}

impl<'a> ConverterBuilder<'a> {
    pub fn new_with_registry(registry: &'a ConverterRegistry) -> (r: Self)
        ensures
            r.registry == registry,
            r.topic@.len() == 0,
            r.ros_type is None,
            r.rerun_name is None,
            r.config is None,
    {
        ConverterBuilder { registry, topic: String::new(), ros_type: None, rerun_name: None, config: None }
    }

    pub fn topic(self, topic: &str) -> (r: Self)
        ensures
            r == (ConverterBuilder { topic: r.topic, ..self }),
            r.topic@ == topic@,
    {
        ConverterBuilder { topic: String::from_str(topic), ..self }
    }

    pub fn ros_type(self, ros_type: ROSTypeName) -> (r: Self)
        ensures
            r == (ConverterBuilder { ros_type: Some(ros_type), ..self }),
    {
        ConverterBuilder { ros_type: Some(ros_type), ..self }
    }

    pub fn rerun_name(self, rerun_name: RerunName) -> (r: Self)
        ensures
            r == (ConverterBuilder { rerun_name: Some(rerun_name), ..self }),
    {
        ConverterBuilder { rerun_name: Some(rerun_name), ..self }
    }

    pub fn config(self, config: ConverterSettings) -> (r: Self)
        ensures
            r == (ConverterBuilder { config: Some(config), ..self }),
    {
        ConverterBuilder { config: Some(config), ..self }
    }

    /// Resolves a converter and configures it with the collected settings.
    ///
    /// Settings are checked here: a converter that rejects them is never returned.
    pub fn build(self) -> (r: Result<Converter, ConverterError>)
        ensures
            match built(self.registry@, owned_type_view(self.ros_type), owned_target_view(self.rerun_name), self.config) {
                Some(c) => r == Ok::<Converter, ConverterError>(c),
                None => r is Err,
            },
            resolved(self.registry@, owned_type_view(self.ros_type), owned_target_view(self.rerun_name)) is None ==>
                r is Err && unsupported_matches(r->Err_0, owned_type_view(self.ros_type), owned_target_view(self.rerun_name)),
            ({
                let c = resolved(self.registry@, owned_type_view(self.ros_type), owned_target_view(self.rerun_name));
                c is Some && self.config is Some && configured(c->Some_0, self.config->Some_0) is None ==>
                    r is Err && is_invalid_config_for(r->Err_0, converter_target(c->Some_0))
            }),
    {
        let mut converter = match self.registry.find_converter(self.ros_type.as_ref(), self.rerun_name.as_ref()) {
            Ok(c) => c,
            Err(e) => return Err(e),
        };
        match self.config {
            Some(cfg) => match converter.set_config(cfg) {
                Ok(()) => Ok(converter),
                Err(e) => Err(e),
            },
            None => Ok(converter),
        }
    }
}

/// Registering a converter for message type `t` and target `n` makes resolution
/// of `t` and `n` pick it over a generic converter for `n`, whichever of the
/// two was registered first.
pub proof fn lemma_specific_before_generic(
    v: RegistryView,
    specific: Converter,
    generic: Converter,
    found: ROSTypeName,
    n: TargetView,
)
    requires
        converter_source(specific) is Some,
        !has_failed(v.failed, type_path(converter_source(specific)->Some_0.0, converter_source(specific)->Some_0.1)),
        converter_source(generic) is None,
        qualify(converter_target(specific)) == qualify(n),
        qualify(converter_target(generic)) == qualify(n),
    ensures
        resolved(
            registered(registered(v, generic, None), specific, Some(Ok(found))),
            Some(found@),
            Some(n),
        ) == Some(specific),
        resolved(
            registered(registered(v, specific, Some(Ok(found))), generic, None),
            Some(found@),
            Some(n),
        ) == Some(specific),
{
    let v1 = registered(v, generic, None);
    let v2 = registered(v1, specific, Some(Ok(found)));
    assert(v2.specific.last() == (found@, qualify(converter_target(specific)), specific));
    let w1 = registered(v, specific, Some(Ok(found)));
    let w2 = registered(w1, generic, None);
    assert(w2.specific == w1.specific);
    assert(w1.specific.last() == (found@, qualify(converter_target(specific)), specific));
}

/// Once the lookup of a converter's message type has failed, the registry asks
/// for no further lookup of it, and registering the converter again changes nothing.
pub proof fn lemma_failed_lookup_not_retried(v: RegistryView, c: Converter, reason: String, later: Option<Result<ROSTypeName, String>>)
    requires
        converter_source(c) is Some,
        pending_lookup(v, c) is Some,
    ensures
        ({
            let after = registered(v, c, Some(Err(reason)));
            &&& pending_lookup(after, c) is None
            &&& registered(after, c, later) == after
            &&& after.specific == v.specific
            &&& after.defaults == v.defaults
            &&& after.generic == v.generic
        }),
{
    let t = converter_source(c)->Some_0;
    let after = registered(v, c, Some(Err(reason)));
    let key = type_path(t.0, t.1);
    assert(after.failed[after.failed.len() - 1].0 == key);
    assert(has_failed(after.failed, key));
}

} // verus!
