//! The typed model of one loaded schema bundle, and the resolvers that
//! turn fully-qualified dotted names into target namespace paths.

use vstd::prelude::*;
use vstd::std_specs::iter::IteratorSpec;
use vstd::string::{StringExecFns, StringSliceAdditionalSpecFns};
use vstd::utf8::encode_utf8;
use crate::casing::{snake_case, snake_of};

verus! {

/// Why generation failed; every case carries the context needed to
/// diagnose it without rerunning.
#[derive(Debug, Clone)]
pub enum GenerationError {
    /// The bundle carries no supported payload version.
    UnsupportedBundleVersion,
    /// No dependency key is a prefix of the entity's qualified name.
    UnresolvedDependency { qualified_name: String },
    /// A referenced type or enum definition is missing from the bundle.
    MissingDefinition { qualified_name: String },
    /// A field uses the reserved invalid primitive kind.
    InvalidPrimitiveType,
}

pub enum GenerationErrorView {
    UnsupportedBundleVersion,
    UnresolvedDependency(Seq<char>),
    MissingDefinition(Seq<char>),
    InvalidPrimitiveType,
}

impl View for GenerationError {
    type V = GenerationErrorView;

    open spec fn view(&self) -> GenerationErrorView {
        match self {
            GenerationError::UnsupportedBundleVersion => {
                GenerationErrorView::UnsupportedBundleVersion
            },
            GenerationError::UnresolvedDependency { qualified_name } => {
                GenerationErrorView::UnresolvedDependency(qualified_name@)
            },
            GenerationError::MissingDefinition { qualified_name } => {
                GenerationErrorView::MissingDefinition(qualified_name@)
            },
            GenerationError::InvalidPrimitiveType => GenerationErrorView::InvalidPrimitiveType,
        }
    }
}

impl GenerationError {
    pub fn message(&self) -> (s: String)
        ensures
            s@ == (match *self {
                GenerationError::UnsupportedBundleVersion => {
                    "only the v1 bundle payload is supported"@
                },
                GenerationError::UnresolvedDependency { ref qualified_name } => {
                    "no dependency declares a package of "@ + qualified_name@
                },
                GenerationError::MissingDefinition { ref qualified_name } => {
                    "no definition found for reference "@ + qualified_name@
                },
                GenerationError::InvalidPrimitiveType => {
                    "a field uses the invalid primitive kind"@
                },
            }),
    {
        match self {
            GenerationError::UnsupportedBundleVersion => {
                String::from_str("only the v1 bundle payload is supported")
            },
            GenerationError::UnresolvedDependency { qualified_name } => {
                let mut s = String::from_str("no dependency declares a package of ");
                s.append(qualified_name.as_str());
                s
            },
            GenerationError::MissingDefinition { qualified_name } => {
                let mut s = String::from_str("no definition found for reference ");
                s.append(qualified_name.as_str());
                s
            },
            GenerationError::InvalidPrimitiveType => {
                String::from_str("a field uses the invalid primitive kind")
            },
        }
    }
}

/// The fully-qualified name of one schema entity, its simple name, and
/// the name split into its dotted segments; the last segment equals the
/// simple name, the leading segments form the namespace.
#[derive(Debug, Clone)]
pub struct Identifier {
    pub qualified_name: String,
    pub name: String,
    pub path: Vec<String>,
}

pub struct IdentifierView {
    pub qualified_name: Seq<char>,
    pub name: Seq<char>,
    pub path: Seq<Seq<char>>,
}

impl View for Identifier {
    type V = IdentifierView;

    open spec fn view(&self) -> IdentifierView {
        IdentifierView {
            qualified_name: self.qualified_name@,
            name: self.name@,
            path: Seq::new(self.path@.len(), |i: int| self.path@[i]@),
        }
    }
}

/// The view of a dependency table: declared package-name prefixes and the
/// import roots they map to.
pub open spec fn deps_view(deps: Seq<(String, String)>) -> Seq<(Seq<char>, Seq<char>)> {
    Seq::new(deps.len(), |i: int| (deps[i].0@, deps[i].1@))
}

/// An ASCII lowercase letter starts a package segment; a type-scoping
/// segment starts otherwise.  Schema identifiers are ASCII by the schema
/// grammar, so the ASCII test is the whole case split.
pub open spec fn is_lower_initial(seg: Seq<char>) -> bool {
    seg.len() > 0 && 'a' <= seg[0] && seg[0] <= 'z'
}

/// How many leading segments of `path` are package segments.
pub open spec fn package_len(path: Seq<Seq<char>>) -> int
    decreases path.len(),
{
    if path.len() == 0 {
        0
    } else if !is_lower_initial(path[0]) {
        0
    } else {
        1 + package_len(path.skip(1))
    }
}

/// The package run ends at the first segment that is not
/// lowercase-initial, or at the end of the path.
pub proof fn lemma_package_len_stop(path: Seq<Seq<char>>, i: int)
    requires
        0 <= i <= path.len(),
        forall|k: int| 0 <= k < i ==> is_lower_initial(#[trigger] path[k]),
        i == path.len() || !is_lower_initial(path[i]),
    ensures
        package_len(path) == i,
    decreases i,
{
    if i == 0 {
    } else {
        assert(is_lower_initial(path[0]));
        assert(forall|k: int| 0 <= k < i - 1 ==> is_lower_initial(#[trigger] path.skip(1)[k]));
        if i < path.len() {
            assert(path.skip(1)[i - 1] == path[i]);
        }
        lemma_package_len_stop(path.skip(1), i - 1);
    }
}

/// The first character of a name.
fn first_char(s: &str) -> (r: Option<char>)
    ensures
        r == (if s@.len() > 0 {
            Some(s@[0])
        } else {
            None::<char>
        }),
{
    broadcast use vstd::string::next_postcondition, vstd::string::axiom_spec_iter;

    let mut it = s.chars();
    it.next()
}

/// `p` is a leading run of `s`.
pub open spec fn is_prefix(p: Seq<char>, s: Seq<char>) -> bool {
    p.len() <= s.len() && s.take(p.len() as int) == p
}

pub fn str_is_prefix(p: &str, s: &str) -> (r: bool)
    ensures
        r == is_prefix(p@, s@),
{
    broadcast use vstd::string::next_postcondition, vstd::string::axiom_spec_iter;

    let mut pi = p.chars();
    let mut si = s.chars();
    let ghost mut k: int = 0;
    loop
        invariant
            pi.obeys_prophetic_iter_laws(),
            si.obeys_prophetic_iter_laws(),
            0 <= k <= p@.len(),
            k <= s@.len(),
            pi.remaining() == p@.skip(k),
            si.remaining() == s@.skip(k),
            p@.take(k) == s@.take(k),
        decreases p@.len() - k,
    {
        let pn = pi.next();
        match pn {
            None => {
                proof {
                    assert(p@.len() == k);
                    assert(s@.take(k) =~= p@.take(k));
                    assert(p@.take(k) =~= p@);
                }
                return true;
            },
            Some(a) => {
                proof {
                    assert(p@.skip(k)[0] == p@[k]);
                }
                let sn = si.next();
                match sn {
                    None => {
                        proof {
                            assert(s@.len() == k);
                        }
                        return false;
                    },
                    Some(b) => {
                        proof {
                            assert(s@.skip(k)[0] == s@[k]);
                        }
                        if a != b {
                            proof {
                                assert(p@[k] != s@[k]);
                                if is_prefix(p@, s@) {
                                    assert(s@.take(p@.len() as int)[k] == p@[k]);
                                }
                            }
                            return false;
                        }
                        proof {
                            assert(p@.take(k + 1) =~= s@.take(k + 1));
                            assert(p@.skip(k).skip(1) =~= p@.skip(k + 1));
                            assert(s@.skip(k).skip(1) =~= s@.skip(k + 1));
                            k = k + 1;
                        }
                    },
                }
            },
        }
    }
}

/// The winner of a left-to-right scan for the longest dependency key that
/// is a prefix of `q`: a strictly longer key (in its serialized length)
/// displaces an earlier winner.
pub open spec fn longest_match(keys: Seq<Seq<char>>, q: Seq<char>) -> Option<int>
    decreases keys.len(),
{
    if keys.len() == 0 {
        None
    } else {
        let rest = longest_match(keys.drop_last(), q);
        if is_prefix(keys.last(), q) {
            match rest {
                Some(i) => if encode_utf8(keys.last()).len() > encode_utf8(keys[i]).len() {
                    Some(keys.len() - 1)
                } else {
                    Some(i)
                },
                None => Some(keys.len() - 1),
            }
        } else {
            rest
        }
    }
}

/// What the scan's winner means: it is a matching key, and no matching
/// key is longer.  This is the tie-break that resolves overlapping
/// packages.
pub proof fn lemma_longest_match_correct(keys: Seq<Seq<char>>, q: Seq<char>)
    ensures
        match longest_match(keys, q) {
            Some(i) => 0 <= i < keys.len() && is_prefix(keys[i], q) && forall|j: int|
                0 <= j < keys.len() && is_prefix(#[trigger] keys[j], q) ==> encode_utf8(
                    keys[j],
                ).len() <= encode_utf8(keys[i]).len(),
            None => forall|j: int| 0 <= j < keys.len() ==> !is_prefix(#[trigger] keys[j], q),
        },
    decreases keys.len(),
{
    if keys.len() > 0 {
        lemma_longest_match_correct(keys.drop_last(), q);
        assert forall|j: int| 0 <= j < keys.len() - 1 implies keys.drop_last()[j] == keys[j] by {}
    }
}

/// Each namespace segment of a reference, rendered with its separator.
pub open spec fn sep_segs(segs: Seq<Seq<char>>) -> Seq<char>
    decreases segs.len(),
{
    if segs.len() == 0 {
        Seq::empty()
    } else {
        sep_segs(segs.drop_last()) + "::"@ + segs.last()
    }
}

/// The tail a resolved reference appends to the import root: the
/// identifier's namespace path in the module-naming convention, then its
/// name.
pub open spec fn spec_reference_suffix(id: IdentifierView) -> Seq<char> {
    sep_segs(Seq::new((id.path.len() - 1) as nat, |i: int| snake_of(id.path[i]))) + "::"@ + id.name
}

/// What resolving a reference returns: the import root of the longest
/// matching dependency key followed by the identifier's own path, or an
/// unresolved-dependency error when no key matches.
pub open spec fn spec_reference_path(id: IdentifierView, deps: Seq<(Seq<char>, Seq<char>)>) -> Result<
    Seq<char>,
    GenerationErrorView,
> {
    let keys = Seq::new(deps.len(), |i: int| deps[i].0);
    match longest_match(keys, id.qualified_name) {
        Some(i) => Ok(deps[i].1 + spec_reference_suffix(id)),
        None => Err(GenerationErrorView::UnresolvedDependency(id.qualified_name)),
    }
}

impl Identifier {
    /// The subset of `path` that names the package of the identifier: its
    /// longest leading run of lowercase-initial segments, which
    /// distinguishes the package from nested type scoping.
    pub fn package_path(&self) -> (r: Vec<String>)
        ensures
            r@.len() == package_len(self@.path),
            forall|i: int| 0 <= i < r@.len() ==> (#[trigger] r@[i])@ == self@.path[i],
    {
        let mut r: Vec<String> = Vec::new();
        let mut i: usize = 0;
        while i < self.path.len()
            invariant
                i <= self.path@.len(),
                self@.path.len() == self.path@.len(),
                r@.len() == i,
                forall|k: int| 0 <= k < i ==> is_lower_initial(#[trigger] self@.path[k]),
                forall|k: int| 0 <= k < i ==> (#[trigger] r@[k])@ == self@.path[k],
            decreases self.path@.len() - i,
        {
            let lower = match first_char(self.path[i].as_str()) {
                Some(c) => 'a' <= c && c <= 'z',
                None => false,
            };
            proof {
                assert(self@.path[i as int] == self.path@[i as int]@);
            }
            if !lower {
                proof {
                    lemma_package_len_stop(self@.path, i as int);
                }
                return r;
            }
            r.push(self.path[i].clone());
            i = i + 1;
        }
        proof {
            lemma_package_len_stop(self@.path, i as int);
        }
        r
    }

    /// The namespace segments of the identifier (all but the simple
    /// name), each rendered in the target module-naming convention.
    pub fn namespace_path(&self) -> (r: Vec<String>)
        requires
            self@.path.len() >= 1,
        ensures
            r@.len() == self@.path.len() - 1,
            forall|i: int| 0 <= i < r@.len() ==> (#[trigger] r@[i])@ == snake_of(self@.path[i]),
    {
        let mut r: Vec<String> = Vec::new();
        let mut i: usize = 0;
        let len = self.path.len() - 1;
        while i < len
            invariant
                len == self.path@.len() - 1,
                self@.path.len() == self.path@.len(),
                i <= len,
                r@.len() == i,
                forall|k: int| 0 <= k < i ==> (#[trigger] r@[k])@ == snake_of(self@.path[k]),
            decreases len - i,
        {
            r.push(snake_case(self.path[i].as_str()));
            proof {
                assert(self@.path[i as int] == self.path@[i as int]@);
            }
            i = i + 1;
        }
        r
    }

    /// The path that references the identifier from generated code: the
    /// import root of the dependency whose package-name key is the
    /// longest prefix of the qualified name, followed by the identifier's
    /// own namespace path and name.  With no matching key the dependency
    /// is unresolved and generation fails.
    pub fn reference_path(&self, dependencies: &Vec<(String, String)>) -> (r: Result<
        String,
        GenerationError,
    >)
        requires
            self@.path.len() >= 1,
        ensures
            (match spec_reference_path(self@, deps_view(dependencies@)) {
                Ok(s) => r matches Ok(x) && x@ == s,
                Err(e) => r matches Err(x) && x@ == e,
            }),
    {
        let ghost deps = deps_view(dependencies@);
        let ghost keys = Seq::new(deps.len(), |i: int| deps[i].0);
        let mut best: usize = 0;
        let mut found = false;
        let mut j: usize = 0;
        proof {
            assert(keys.take(0) =~= Seq::<Seq<char>>::empty());
        }
        while j < dependencies.len()
            invariant
                j <= dependencies@.len(),
                deps == deps_view(dependencies@),
                keys == Seq::new(deps.len(), |i: int| deps[i].0),
                keys.len() == dependencies@.len(),
                found ==> best < j,
                (if found {
                    Some(best as int)
                } else {
                    None::<int>
                }) == longest_match(keys.take(j as int), self@.qualified_name),
            decreases dependencies@.len() - j,
        {
            let matches_here = str_is_prefix(
                dependencies[j].0.as_str(),
                self.qualified_name.as_str(),
            );
            proof {
                assert(keys.take(j + 1).drop_last() =~= keys.take(j as int));
                assert(keys.take(j + 1).last() == keys[j as int]);
                assert(keys[j as int] == dependencies@[j as int].0@);
            }
            if matches_here {
                if !found {
                    best = j;
                    found = true;
                } else {
                    broadcast use vstd::slice::axiom_spec_len;

                    let cur = dependencies[best].0.as_str().as_bytes();
                    let cur_len = cur.len();
                    let new_key = dependencies[j].0.as_str().as_bytes();
                    let new_len = new_key.len();
                    proof {
                        assert(cur@ == encode_utf8(keys[best as int]));
                        assert(new_key@ == encode_utf8(keys[j as int]));
                        assert(cur_len == encode_utf8(keys[best as int]).len());
                        assert(new_len == encode_utf8(keys[j as int]).len());
                    }
                    if new_len > cur_len {
                        best = j;
                    }
                }
            }
            proof {
                assert((if found {
                    Some(best as int)
                } else {
                    None::<int>
                }) == longest_match(keys.take(j + 1), self@.qualified_name));
            }
            j = j + 1;
        }
        proof {
            assert(keys.take(keys.len() as int) =~= keys);
        }
        if !found {
            return Err(
                GenerationError::UnresolvedDependency {
                    qualified_name: self.qualified_name.clone(),
                },
            );
        }
        let mut out = dependencies[best].1.clone();
        let module_segments = self.namespace_path();
        let ghost snakes = Seq::new(
            (self@.path.len() - 1) as nat,
            |i: int| snake_of(self@.path[i]),
        );
        let mut i: usize = 0;
        proof {
            assert(snakes.take(0) =~= Seq::<Seq<char>>::empty());
            assert(out@ =~= deps[best as int].1 + sep_segs(snakes.take(0)));
        }
        while i < module_segments.len()
            invariant
                module_segments@.len() == snakes.len(),
                i <= snakes.len(),
                deps == deps_view(dependencies@),
                best < deps.len(),
                forall|k: int|
                    0 <= k < module_segments@.len() ==> (#[trigger] module_segments@[k])@
                        == snakes[k],
                out@ == deps[best as int].1 + sep_segs(snakes.take(i as int)),
            decreases snakes.len() - i,
        {
            out.append("::");
            out.append(module_segments[i].as_str());
            proof {
                assert(snakes.take(i + 1).drop_last() =~= snakes.take(i as int));
                assert(snakes.take(i + 1).last() == snakes[i as int]);
                assert(out@ =~= deps[best as int].1 + sep_segs(snakes.take(i + 1)));
            }
            i = i + 1;
        }
        out.append("::");
        out.append(self.name.as_str());
        proof {
            assert(snakes.take(snakes.len() as int) =~= snakes);
            assert(out@ =~= deps[best as int].1 + spec_reference_suffix(self@));
        }
        Ok(out)
    }
}

/// The closed set of wire-level scalar kinds.
#[derive(Debug, Clone, Copy, PartialEq, Eq, Structural)]
pub enum PrimitiveType {
    Invalid,
    Int32,
    Int64,
    Uint32,
    Uint64,
    Sint32,
    Sint64,
    Fixed32,
    Fixed64,
    Sfixed32,
    Sfixed64,
    Bool,
    Float,
    Double,
    String,
    EntityId,
    Bytes,
}

impl PrimitiveType {
    /// The native scalar a primitive kind maps to in generated code.  The
    /// reserved invalid kind maps to nothing: a bundle using it is
    /// malformed.
    pub open spec fn spec_scalar_name(self) -> Result<Seq<char>, GenerationErrorView> {
        match self {
            PrimitiveType::Invalid => Err(GenerationErrorView::InvalidPrimitiveType),
            PrimitiveType::Int32 => Ok("i32"@),
            PrimitiveType::Sint32 => Ok("i32"@),
            PrimitiveType::Sfixed32 => Ok("i32"@),
            PrimitiveType::Int64 => Ok("i64"@),
            PrimitiveType::Sint64 => Ok("i64"@),
            PrimitiveType::Sfixed64 => Ok("i64"@),
            PrimitiveType::Uint32 => Ok("u32"@),
            PrimitiveType::Fixed32 => Ok("u32"@),
            PrimitiveType::Uint64 => Ok("u64"@),
            PrimitiveType::Fixed64 => Ok("u64"@),
            PrimitiveType::Bool => Ok("bool"@),
            PrimitiveType::Float => Ok("f32"@),
            PrimitiveType::Double => Ok("f64"@),
            PrimitiveType::String => Ok("String"@),
            PrimitiveType::Bytes => Ok("Vec<u8>"@),
            PrimitiveType::EntityId => Ok("spatialos_sdk::worker::EntityId"@),
        }
    }

    pub fn scalar_name(self) -> (r: Result<String, GenerationError>)
        ensures
            (match (r, self.spec_scalar_name()) {
                (Ok(s), Ok(t)) => s@ == t,
                (Err(e), Err(t)) => e@ == t,
                _ => false,
            }),
    {
        let text = match self {
            PrimitiveType::Invalid => {
                return Err(GenerationError::InvalidPrimitiveType);
            },
            PrimitiveType::Int32 => "i32",
            PrimitiveType::Sint32 => "i32",
            PrimitiveType::Sfixed32 => "i32",
            PrimitiveType::Int64 => "i64",
            PrimitiveType::Sint64 => "i64",
            PrimitiveType::Sfixed64 => "i64",
            PrimitiveType::Uint32 => "u32",
            PrimitiveType::Fixed32 => "u32",
            PrimitiveType::Uint64 => "u64",
            PrimitiveType::Fixed64 => "u64",
            PrimitiveType::Bool => "bool",
            PrimitiveType::Float => "f32",
            PrimitiveType::Double => "f64",
            PrimitiveType::String => "String",
            PrimitiveType::Bytes => "Vec<u8>",
            PrimitiveType::EntityId => "spatialos_sdk::worker::EntityId",
        };
        Ok(String::from_str(text))
    }
}

/// A reference to a structured type, by qualified name.
#[derive(Debug, Clone)]
pub struct TypeReference {
    pub qualified_name: String,
}

/// A reference to an enum, by qualified name.
#[derive(Debug, Clone)]
pub struct EnumReference {
    pub qualified_name: String,
}

/// A reference to one enum value, by qualified name.
#[derive(Debug, Clone)]
pub struct EnumValueReference {
    pub qualified_name: String,
}

/// A reference to one field, by qualified name.
#[derive(Debug, Clone)]
pub struct FieldReference {
    pub qualified_name: String,
}

/// The type of one schema value: a wire scalar, or a reference to a
/// declared enum or structured type.
#[derive(Debug, Clone)]
pub enum ValueTypeReference {
    Primitive(PrimitiveType),
    Enum(EnumReference),
    Type(TypeReference),
}

pub enum ValueTypeReferenceView {
    Primitive(PrimitiveType),
    Enum(Seq<char>),
    Type(Seq<char>),
}

impl View for ValueTypeReference {
    type V = ValueTypeReferenceView;

    open spec fn view(&self) -> ValueTypeReferenceView {
        match self {
            ValueTypeReference::Primitive(p) => ValueTypeReferenceView::Primitive(*p),
            ValueTypeReference::Enum(e) => ValueTypeReferenceView::Enum(e.qualified_name@),
            ValueTypeReference::Type(t) => ValueTypeReferenceView::Type(t.qualified_name@),
        }
    }
}

/// The shape of one field: singular, optional, list, or map.
#[derive(Debug, Clone)]
pub enum FieldTypeDefinition {
    Singular { ty: ValueTypeReference },
    Optional { inner_type: ValueTypeReference },
    List { inner_type: ValueTypeReference },
    Mapping { key_type: ValueTypeReference, value_type: ValueTypeReference },
}

pub enum FieldTypeDefinitionView {
    Singular { ty: ValueTypeReferenceView },
    Optional { inner_type: ValueTypeReferenceView },
    List { inner_type: ValueTypeReferenceView },
    Mapping { key_type: ValueTypeReferenceView, value_type: ValueTypeReferenceView },
}

impl View for FieldTypeDefinition {
    type V = FieldTypeDefinitionView;

    open spec fn view(&self) -> FieldTypeDefinitionView {
        match self {
            FieldTypeDefinition::Singular { ty } => {
                FieldTypeDefinitionView::Singular { ty: ty@ }
            },
            FieldTypeDefinition::Optional { inner_type } => {
                FieldTypeDefinitionView::Optional { inner_type: inner_type@ }
            },
            FieldTypeDefinition::List { inner_type } => {
                FieldTypeDefinitionView::List { inner_type: inner_type@ }
            },
            FieldTypeDefinition::Mapping { key_type, value_type } => {
                FieldTypeDefinitionView::Mapping { key_type: key_type@, value_type: value_type@ }
            },
        }
    }
}

/// One field of a structured type or component.
#[derive(Debug, Clone)]
pub struct FieldDefinition {
    pub identifier: Identifier,
    pub field_id: u32,
    pub transient: bool,
    pub ty: FieldTypeDefinition,
}

pub struct FieldDefinitionView {
    pub identifier: IdentifierView,
    pub field_id: u32,
    pub transient: bool,
    pub ty: FieldTypeDefinitionView,
}

impl View for FieldDefinition {
    type V = FieldDefinitionView;

    open spec fn view(&self) -> FieldDefinitionView {
        FieldDefinitionView {
            identifier: self.identifier@,
            field_id: self.field_id,
            transient: self.transient,
            ty: self.ty@,
        }
    }
}

/// One declared value of an enum.
#[derive(Debug, Clone)]
pub struct EnumValueDefinition {
    pub identifier: Identifier,
    pub value: u32,
}

pub struct EnumValueDefinitionView {
    pub identifier: IdentifierView,
    pub value: u32,
}

impl View for EnumValueDefinition {
    type V = EnumValueDefinitionView;

    open spec fn view(&self) -> EnumValueDefinitionView {
        EnumValueDefinitionView { identifier: self.identifier@, value: self.value }
    }
}

/// One declared enum.
#[derive(Debug, Clone)]
pub struct EnumDefinition {
    pub identifier: Identifier,
    pub value_definitions: Vec<EnumValueDefinition>,
}

pub struct EnumDefinitionView {
    pub identifier: IdentifierView,
    pub value_definitions: Seq<EnumValueDefinitionView>,
}

impl View for EnumDefinition {
    type V = EnumDefinitionView;

    open spec fn view(&self) -> EnumDefinitionView {
        EnumDefinitionView {
            identifier: self.identifier@,
            value_definitions: Seq::new(
                self.value_definitions@.len(),
                |i: int| self.value_definitions@[i]@,
            ),
        }
    }
}

/// One declared structured type.
#[derive(Debug, Clone)]
pub struct TypeDefinition {
    pub identifier: Identifier,
    pub field_definitions: Vec<FieldDefinition>,
}

pub struct TypeDefinitionView {
    pub identifier: IdentifierView,
    pub field_definitions: Seq<FieldDefinitionView>,
}

impl View for TypeDefinition {
    type V = TypeDefinitionView;

    open spec fn view(&self) -> TypeDefinitionView {
        TypeDefinitionView {
            identifier: self.identifier@,
            field_definitions: Seq::new(
                self.field_definitions@.len(),
                |i: int| self.field_definitions@[i]@,
            ),
        }
    }
}

/// One declared event of a component.
#[derive(Debug, Clone)]
#[allow(non_camel_case_types)]
pub struct ComponentDefinition_EventDefinition {
    pub identifier: Identifier,
    pub event_index: u32,
    pub type_reference: ValueTypeReference,
}

pub struct EventDefinitionView {
    pub identifier: IdentifierView,
    pub event_index: u32,
    pub type_reference: ValueTypeReferenceView,
}

impl View for ComponentDefinition_EventDefinition {
    type V = EventDefinitionView;

    open spec fn view(&self) -> EventDefinitionView {
        EventDefinitionView {
            identifier: self.identifier@,
            event_index: self.event_index,
            type_reference: self.type_reference@,
        }
    }
}

/// One declared command of a component: its index is unique within the
/// component and serves serialization and dispatch alike.
#[derive(Debug, Clone)]
#[allow(non_camel_case_types)]
pub struct ComponentDefinition_CommandDefinition {
    pub identifier: Identifier,
    pub command_index: u32,
    pub request_type: ValueTypeReference,
    pub response_type: ValueTypeReference,
}

pub struct CommandDefinitionView {
    pub identifier: IdentifierView,
    pub command_index: u32,
    pub request_type: ValueTypeReferenceView,
    pub response_type: ValueTypeReferenceView,
}

impl View for ComponentDefinition_CommandDefinition {
    type V = CommandDefinitionView;

    open spec fn view(&self) -> CommandDefinitionView {
        CommandDefinitionView {
            identifier: self.identifier@,
            command_index: self.command_index,
            request_type: self.request_type@,
            response_type: self.response_type@,
        }
    }
}

/// The data of a component: inline fields, or a named structured type.
#[derive(Debug, Clone)]
pub enum ComponentDataDefinition {
    Inline(Vec<FieldDefinition>),
    TypeReference(TypeReference),
}

pub enum ComponentDataDefinitionView {
    Inline(Seq<FieldDefinitionView>),
    TypeReference(Seq<char>),
}

impl View for ComponentDataDefinition {
    type V = ComponentDataDefinitionView;

    open spec fn view(&self) -> ComponentDataDefinitionView {
        match self {
            ComponentDataDefinition::Inline(fields) => {
                ComponentDataDefinitionView::Inline(
                    Seq::new(fields@.len(), |i: int| fields@[i]@),
                )
            },
            ComponentDataDefinition::TypeReference(t) => {
                ComponentDataDefinitionView::TypeReference(t.qualified_name@)
            },
        }
    }
}

/// One declared component.
#[derive(Debug, Clone)]
pub struct ComponentDefinition {
    pub identifier: Identifier,
    pub component_id: u32,
    pub data_definition: ComponentDataDefinition,
    pub event_definitions: Vec<ComponentDefinition_EventDefinition>,
    pub command_definitions: Vec<ComponentDefinition_CommandDefinition>,
}

pub struct ComponentDefinitionView {
    pub identifier: IdentifierView,
    pub component_id: u32,
    pub data_definition: ComponentDataDefinitionView,
    pub event_definitions: Seq<EventDefinitionView>,
    pub command_definitions: Seq<CommandDefinitionView>,
}

impl View for ComponentDefinition {
    type V = ComponentDefinitionView;

    open spec fn view(&self) -> ComponentDefinitionView {
        ComponentDefinitionView {
            identifier: self.identifier@,
            component_id: self.component_id,
            data_definition: self.data_definition@,
            event_definitions: Seq::new(
                self.event_definitions@.len(),
                |i: int| self.event_definitions@[i]@,
            ),
            command_definitions: Seq::new(
                self.command_definitions@.len(),
                |i: int| self.command_definitions@[i]@,
            ),
        }
    }
}

/// The one supported payload version of a schema bundle.
#[derive(Debug, Clone)]
pub struct SchemaBundleV1 {
    pub enum_definitions: Vec<EnumDefinition>,
    pub type_definitions: Vec<TypeDefinition>,
    pub component_definitions: Vec<ComponentDefinition>,
}

pub struct SchemaBundleV1View {
    pub enum_definitions: Seq<EnumDefinitionView>,
    pub type_definitions: Seq<TypeDefinitionView>,
    pub component_definitions: Seq<ComponentDefinitionView>,
}

impl View for SchemaBundleV1 {
    type V = SchemaBundleV1View;

    open spec fn view(&self) -> SchemaBundleV1View {
        SchemaBundleV1View {
            enum_definitions: Seq::new(
                self.enum_definitions@.len(),
                |i: int| self.enum_definitions@[i]@,
            ),
            type_definitions: Seq::new(
                self.type_definitions@.len(),
                |i: int| self.type_definitions@[i]@,
            ),
            component_definitions: Seq::new(
                self.component_definitions@.len(),
                |i: int| self.component_definitions@[i]@,
            ),
        }
    }
}

/// The first type definition a qualified name refers to.
pub open spec fn find_type(defs: Seq<TypeDefinitionView>, q: Seq<char>) -> Option<int>
    decreases defs.len(),
{
    if defs.len() == 0 {
        None
    } else if defs[0].identifier.qualified_name == q {
        Some(0)
    } else {
        match find_type(defs.skip(1), q) {
            Some(i) => Some(i + 1),
            None => None,
        }
    }
}

impl SchemaBundleV1 {
    /// Resolves a type reference against the bundle's declarations.  A
    /// missing definition means the bundle is malformed.
    pub fn get_referenced_type(&self, type_ref: &TypeReference) -> (r: Result<
        &TypeDefinition,
        GenerationError,
    >)
        ensures
            ({
                let defs = self@.type_definitions;
                match find_type(defs, type_ref.qualified_name@) {
                    Some(i) => r matches Ok(td) && td@ == defs[i],
                    None => r matches Err(e) && e@ == GenerationErrorView::MissingDefinition(
                        type_ref.qualified_name@,
                    ),
                }
            }),
    {
        let mut j: usize = 0;
        while j < self.type_definitions.len()
            invariant
                j <= self.type_definitions@.len(),
                self@.type_definitions.len() == self.type_definitions@.len(),
                forall|k: int|
                    0 <= k < j ==> (#[trigger] self@.type_definitions[k]).identifier.qualified_name
                        != type_ref.qualified_name@,
            decreases self.type_definitions@.len() - j,
        {
            if self.type_definitions[j].identifier.qualified_name.eq(&type_ref.qualified_name) {
                proof {
                    lemma_find_type_at(self@.type_definitions, type_ref.qualified_name@, j as int);
                }
                return Ok(&self.type_definitions[j]);
            }
            j = j + 1;
        }
        proof {
            lemma_find_type_none(self@.type_definitions, type_ref.qualified_name@);
        }
        Err(GenerationError::MissingDefinition { qualified_name: type_ref.qualified_name.clone() })
    }
}

/// When the first `j` definitions do not carry the name and the `j`-th
/// does, the scan finds index `j`.
proof fn lemma_find_type_at(defs: Seq<TypeDefinitionView>, q: Seq<char>, j: int)
    requires
        0 <= j < defs.len(),
        forall|k: int| 0 <= k < j ==> (#[trigger] defs[k]).identifier.qualified_name != q,
        defs[j].identifier.qualified_name == q,
    ensures
        find_type(defs, q) == Some(j),
    decreases j,
{
    if j == 0 {
    } else {
        assert(forall|k: int|
            0 <= k < j - 1 ==> (#[trigger] defs.skip(1)[k]).identifier.qualified_name != q);
        assert(defs.skip(1)[j - 1] == defs[j]);
        lemma_find_type_at(defs.skip(1), q, j - 1);
    }
}

/// When no definition carries the name, the scan finds nothing.
proof fn lemma_find_type_none(defs: Seq<TypeDefinitionView>, q: Seq<char>)
    requires
        forall|k: int| 0 <= k < defs.len() ==> (#[trigger] defs[k]).identifier.qualified_name != q,
    ensures
        find_type(defs, q) is None,
    decreases defs.len(),
{
    if defs.len() > 0 {
        assert(forall|k: int|
            0 <= k < defs.skip(1).len() ==> (#[trigger] defs.skip(1)[k]).identifier.qualified_name
                != q);
        lemma_find_type_none(defs.skip(1), q);
    }
}

/// The first enum definition a qualified name refers to.
pub open spec fn find_enum(defs: Seq<EnumDefinitionView>, q: Seq<char>) -> Option<int>
    decreases defs.len(),
{
    if defs.len() == 0 {
        None
    } else if defs[0].identifier.qualified_name == q {
        Some(0)
    } else {
        match find_enum(defs.skip(1), q) {
            Some(i) => Some(i + 1),
            None => None,
        }
    }
}

impl SchemaBundleV1 {
    /// Resolves an enum reference against the bundle's declarations.  A
    /// missing definition means the bundle is malformed.
    pub fn get_referenced_enum(&self, enum_ref: &EnumReference) -> (r: Result<
        &EnumDefinition,
        GenerationError,
    >)
        ensures
            ({
                let defs = self@.enum_definitions;
                match find_enum(defs, enum_ref.qualified_name@) {
                    Some(i) => r matches Ok(ed) && ed@ == defs[i],
                    None => r matches Err(e) && e@ == GenerationErrorView::MissingDefinition(
                        enum_ref.qualified_name@,
                    ),
                }
            }),
    {
        let mut j: usize = 0;
        while j < self.enum_definitions.len()
            invariant
                j <= self.enum_definitions@.len(),
                self@.enum_definitions.len() == self.enum_definitions@.len(),
                forall|k: int|
                    0 <= k < j ==> (#[trigger] self@.enum_definitions[k]).identifier.qualified_name
                        != enum_ref.qualified_name@,
            decreases self.enum_definitions@.len() - j,
        {
            if self.enum_definitions[j].identifier.qualified_name.eq(&enum_ref.qualified_name) {
                proof {
                    lemma_find_enum_at(self@.enum_definitions, enum_ref.qualified_name@, j as int);
                }
                return Ok(&self.enum_definitions[j]);
            }
            j = j + 1;
        }
        proof {
            lemma_find_enum_none(self@.enum_definitions, enum_ref.qualified_name@);
        }
        Err(GenerationError::MissingDefinition { qualified_name: enum_ref.qualified_name.clone() })
    }
}

proof fn lemma_find_enum_at(defs: Seq<EnumDefinitionView>, q: Seq<char>, j: int)
    requires
        0 <= j < defs.len(),
        forall|k: int| 0 <= k < j ==> (#[trigger] defs[k]).identifier.qualified_name != q,
        defs[j].identifier.qualified_name == q,
    ensures
        find_enum(defs, q) == Some(j),
    decreases j,
{
    if j == 0 {
    } else {
        assert(forall|k: int|
            0 <= k < j - 1 ==> (#[trigger] defs.skip(1)[k]).identifier.qualified_name != q);
        assert(defs.skip(1)[j - 1] == defs[j]);
        lemma_find_enum_at(defs.skip(1), q, j - 1);
    }
}

proof fn lemma_find_enum_none(defs: Seq<EnumDefinitionView>, q: Seq<char>)
    requires
        forall|k: int| 0 <= k < defs.len() ==> (#[trigger] defs[k]).identifier.qualified_name != q,
    ensures
        find_enum(defs, q) is None,
    decreases defs.len(),
{
    if defs.len() > 0 {
        assert(forall|k: int|
            0 <= k < defs.skip(1).len() ==> (#[trigger] defs.skip(1)[k]).identifier.qualified_name
                != q);
        lemma_find_enum_none(defs.skip(1), q);
    }
}

/// A found definition index lies within the definitions.
pub proof fn lemma_find_enum_bounds(defs: Seq<EnumDefinitionView>, q: Seq<char>)
    ensures
        find_enum(defs, q) matches Some(i) ==> 0 <= i < defs.len(),
    decreases defs.len(),
{
    if defs.len() > 0 {
        lemma_find_enum_bounds(defs.skip(1), q);
    }
}

/// A found definition index lies within the definitions.
pub proof fn lemma_find_type_bounds(defs: Seq<TypeDefinitionView>, q: Seq<char>)
    ensures
        find_type(defs, q) matches Some(i) ==> 0 <= i < defs.len(),
    decreases defs.len(),
{
    if defs.len() > 0 {
        lemma_find_type_bounds(defs.skip(1), q);
    }
}

/// Where one schema entity was declared.
#[derive(Debug, Clone)]
pub struct SourceReference {
    pub file_path: String,
    pub line: u32,
    pub column: u32,
}

/// The source map of a bundle: where each qualified name was declared.
#[derive(Debug, Clone)]
pub struct SchemaSourceMapV1 {
    pub source_references: Vec<(String, SourceReference)>,
}

/// One loaded schema bundle; only the `v1` payload is supported.
#[derive(Debug, Clone)]
pub struct SchemaBundle {
    pub v1: Option<SchemaBundleV1>,
    pub source_map_v1: Option<SchemaSourceMapV1>,
}

} // verus!
