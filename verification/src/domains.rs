//! Domains and cross-reference validation: registries of documented
//! objects, reference resolution and dangling-reference detection.

pub mod python;
pub mod rst;

use vstd::prelude::*;

use crate::error::BuildError;
use crate::strmap::StrMap;
use crate::text::{
    append_chars, append_str, chars_eq, contains_sub, from_chars, lex_le, opt_view, slice_range,
    spec_lex_le, str_eq, to_chars,
};

use python::PythonDomain;
use rst::RstDomain;

verus! {

/// The kind of a cross-reference.
#[derive(Debug)]
pub enum ReferenceType {
    Document,
    Section,
    Function,
    Class,
    Module,
    Method,
    Attribute,
    Data,
    Exception,
    Custom(String),
}

/// The view of a reference type.
pub enum RefTypeView {
    Document,
    Section,
    Function,
    Class,
    Module,
    Method,
    Attribute,
    Data,
    Exception,
    Custom(Seq<char>),
}

impl View for ReferenceType {
    type V = RefTypeView;

    open spec fn view(&self) -> RefTypeView {
        match self {
            ReferenceType::Document => RefTypeView::Document,
            ReferenceType::Section => RefTypeView::Section,
            ReferenceType::Function => RefTypeView::Function,
            ReferenceType::Class => RefTypeView::Class,
            ReferenceType::Module => RefTypeView::Module,
            ReferenceType::Method => RefTypeView::Method,
            ReferenceType::Attribute => RefTypeView::Attribute,
            ReferenceType::Data => RefTypeView::Data,
            ReferenceType::Exception => RefTypeView::Exception,
            ReferenceType::Custom(s) => RefTypeView::Custom(s@),
        }
    }
}

impl PartialEq for ReferenceType {
    /// Two reference types are equal when their views are.
    fn eq(&self, other: &ReferenceType) -> (r: bool) {
        match (self, other) {
            (ReferenceType::Document, ReferenceType::Document) => true,
            (ReferenceType::Section, ReferenceType::Section) => true,
            (ReferenceType::Function, ReferenceType::Function) => true,
            (ReferenceType::Class, ReferenceType::Class) => true,
            (ReferenceType::Module, ReferenceType::Module) => true,
            (ReferenceType::Method, ReferenceType::Method) => true,
            (ReferenceType::Attribute, ReferenceType::Attribute) => true,
            (ReferenceType::Data, ReferenceType::Data) => true,
            (ReferenceType::Exception, ReferenceType::Exception) => true,
            (ReferenceType::Custom(a), ReferenceType::Custom(b)) => str_eq(a.as_str(), b.as_str()),
            _ => false,
        }
    }
}

impl vstd::std_specs::cmp::PartialEqSpecImpl for ReferenceType {
    open spec fn obeys_eq_spec() -> bool {
        true
    }

    open spec fn eq_spec(&self, other: &ReferenceType) -> bool {
        self@ == other@
    }
}

/// Copy a reference type.
pub fn copy_ref_type(t: &ReferenceType) -> (r: ReferenceType)
    ensures
        r@ == t@,
{
    match t {
        ReferenceType::Document => ReferenceType::Document,
        ReferenceType::Section => ReferenceType::Section,
        ReferenceType::Function => ReferenceType::Function,
        ReferenceType::Class => ReferenceType::Class,
        ReferenceType::Module => ReferenceType::Module,
        ReferenceType::Method => ReferenceType::Method,
        ReferenceType::Attribute => ReferenceType::Attribute,
        ReferenceType::Data => ReferenceType::Data,
        ReferenceType::Exception => ReferenceType::Exception,
        ReferenceType::Custom(s) => ReferenceType::Custom(s.clone()),
    }
}

/// Where a reference or definition stands.
pub struct ReferenceLocation {
    pub docname: String,
    pub lineno: Option<usize>,
    pub column: Option<usize>,
    pub source_path: Option<String>,
}

/// Copy a location.
pub fn copy_location(l: &ReferenceLocation) -> (r: ReferenceLocation)
    ensures
        r.docname@ == l.docname@,
        r.lineno == l.lineno,
        r.column == l.column,
        opt_view(r.source_path) == opt_view(l.source_path),
{
    ReferenceLocation {
        docname: l.docname.clone(),
        lineno: match l.lineno {
            Some(x) => Some(x),
            None => None,
        },
        column: match l.column {
            Some(x) => Some(x),
            None => None,
        },
        source_path: match &l.source_path {
            Some(s) => Some(s.clone()),
            None => None,
        },
    }
}

/// A cross-reference found in documentation.
pub struct CrossReference {
    pub ref_type: ReferenceType,
    pub target: String,
    pub display_text: Option<String>,
    pub source_location: ReferenceLocation,
    pub is_external: bool,
}

/// Copy a cross-reference.
pub fn copy_cross_reference(c: &CrossReference) -> (r: CrossReference)
    ensures
        r.ref_type@ == c.ref_type@,
        r.target@ == c.target@,
        opt_view(r.display_text) == opt_view(c.display_text),
        r.is_external == c.is_external,
{
    CrossReference {
        ref_type: copy_ref_type(&c.ref_type),
        target: c.target.clone(),
        display_text: match &c.display_text {
            Some(s) => Some(s.clone()),
            None => None,
        },
        source_location: copy_location(&c.source_location),
        is_external: c.is_external,
    }
}

/// An object within a domain: a function, class, module, document, section
/// or label.
pub struct DomainObject {
    pub id: String,
    pub name: String,
    pub object_type: String,
    pub domain: String,
    pub definition_location: ReferenceLocation,
    pub qualified_name: String,
    pub metadata: StrMap<String>,
    pub signature: Option<String>,
    pub docstring: Option<String>,
}

/// An object's scalar fields, as the specifications see them.
pub open spec fn obj_scalars(o: DomainObject) -> (Seq<char>, Seq<char>, Seq<char>, Seq<char>) {
    (o.id@, o.name@, o.object_type@, o.qualified_name@)
}

/// Copy a domain object, entry by entry.
pub fn copy_object(o: &DomainObject) -> (r: DomainObject)
    requires
        o.metadata.wf(),
    ensures
        obj_scalars(r) == obj_scalars(*o),
        r.domain@ == o.domain@,
        r.metadata.wf(),
        forall|k: Seq<char>| #![auto] opt_view(r.metadata.spec_get(k)) == opt_view(
            o.metadata.spec_get(k),
        ),
        opt_view(r.signature) == opt_view(o.signature),
        opt_view(r.docstring) == opt_view(o.docstring),
{
    DomainObject {
        id: o.id.clone(),
        name: o.name.clone(),
        object_type: o.object_type.clone(),
        domain: o.domain.clone(),
        definition_location: copy_location(&o.definition_location),
        qualified_name: o.qualified_name.clone(),
        metadata: o.metadata.duplicate(),
        signature: match &o.signature {
            Some(s) => Some(s.clone()),
            None => None,
        },
        docstring: match &o.docstring {
            Some(s) => Some(s.clone()),
            None => None,
        },
    }
}

/// The result of validating one cross-reference.
pub struct ReferenceValidationResult {
    pub reference: CrossReference,
    pub is_valid: bool,
    pub target_object: Option<DomainObject>,
    pub error_message: Option<String>,
    pub suggestions: Vec<String>,
}

// ---------------------------------------------------------------------------
// Sorting, deduplication and truncation for suggestion lists.
// ---------------------------------------------------------------------------

/// `x` inserted before the first element that is not below it.
pub open spec fn spec_insert_sorted(x: Seq<char>, s: Seq<Seq<char>>) -> Seq<Seq<char>>
    decreases s.len(),
{
    if s.len() == 0 {
        seq![x]
    } else if spec_lex_le(x, s[0]) {
        seq![x] + s
    } else {
        seq![s[0]] + spec_insert_sorted(x, s.drop_first())
    }
}

/// The elements of `s`, sorted by the lexicographic order.
pub open spec fn spec_sort(s: Seq<Seq<char>>) -> Seq<Seq<char>>
    decreases s.len(),
{
    if s.len() == 0 {
        Seq::empty()
    } else {
        spec_insert_sorted(s[0], spec_sort(s.drop_first()))
    }
}

/// Consecutive duplicates removed.
pub open spec fn spec_dedup(s: Seq<Seq<char>>) -> Seq<Seq<char>>
    decreases s.len(),
{
    if s.len() <= 1 {
        s
    } else if s[0] == s[1] {
        spec_dedup(s.drop_first())
    } else {
        seq![s[0]] + spec_dedup(s.drop_first())
    }
}

/// At most the first five entries.
pub open spec fn spec_take5(s: Seq<Seq<char>>) -> Seq<Seq<char>> {
    if s.len() <= 5 {
        s
    } else {
        s.subrange(0, 5)
    }
}

/// Insert one name into a sorted list.
fn insert_sorted(x: Vec<char>, s: Vec<Vec<char>>) -> (r: Vec<Vec<char>>)
    ensures
        r.deep_view() == spec_insert_sorted(x@, s.deep_view()),
    decreases s@.len(),
{
    let ghost sv = s.deep_view();
    let ghost xv = x@;
    if s.len() == 0 {
        let mut out: Vec<Vec<char>> = Vec::new();
        out.push(x);
        proof {
            assert(out.deep_view() =~~= seq![xv]);
        }
        return out;
    }
    proof {
        assert(sv[0] == s@[0]@);
    }
    if lex_le(x.as_slice(), s[0].as_slice()) {
        let mut out = s;
        out.insert(0, x);
        proof {
            assert(out.deep_view() =~~= seq![xv] + sv);
        }
        out
    } else {
        let mut rest = s;
        let head = rest.remove(0);
        proof {
            assert(rest.deep_view() =~~= sv.drop_first());
        }
        let ghost hv = head@;
        let more = insert_sorted(x, rest);
        let ghost mv = more.deep_view();
        let mut out = more;
        out.insert(0, head);
        proof {
            assert(out.deep_view() =~~= seq![hv] + mv);
            assert(seq![hv] + mv =~~= spec_insert_sorted(xv, sv));
        }
        out
    }
}

/// Sort names by the lexicographic order.
fn sort_names(s: Vec<Vec<char>>) -> (r: Vec<Vec<char>>)
    ensures
        r.deep_view() == spec_sort(s.deep_view()),
    decreases s@.len(),
{
    let ghost sv = s.deep_view();
    if s.len() == 0 {
        let out: Vec<Vec<char>> = Vec::new();
        proof {
            assert(out.deep_view() =~~= spec_sort(sv));
        }
        return out;
    }
    let mut rest = s;
    let head = rest.remove(0);
    proof {
        assert(rest.deep_view() =~~= sv.drop_first());
        assert(head@ == sv[0]);
    }
    let sorted = sort_names(rest);
    insert_sorted(head, sorted)
}

/// Remove consecutive duplicates.
fn dedup_names(s: Vec<Vec<char>>) -> (r: Vec<Vec<char>>)
    ensures
        r.deep_view() == spec_dedup(s.deep_view()),
    decreases s@.len(),
{
    let ghost sv = s.deep_view();
    if s.len() <= 1 {
        proof {
            assert(s.deep_view() =~~= spec_dedup(sv));
        }
        return s;
    }
    proof {
        assert(sv[0] == s@[0]@);
        assert(sv[1] == s@[1]@);
    }
    let mut rest = s;
    let head = rest.remove(0);
    proof {
        assert(rest.deep_view() =~~= sv.drop_first());
        assert(head@ == sv[0]);
        assert(rest.deep_view()[0] == sv[1]);
    }
    let dup = chars_eq(head.as_slice(), rest[0].as_slice());
    let more = dedup_names(rest);
    if dup {
        more
    } else {
        let ghost hv = head@;
        let ghost mv = more.deep_view();
        let mut out = more;
        out.insert(0, head);
        proof {
            assert(out.deep_view() =~~= seq![hv] + mv);
            assert(seq![hv] + mv =~~= spec_dedup(sv));
        }
        out
    }
}

/// Sort, deduplicate and truncate a suggestion list to five entries.
pub fn finish_suggestions(s: Vec<Vec<char>>) -> (r: Vec<String>)
    ensures
        r.deep_view() == spec_take5(spec_dedup(spec_sort(s.deep_view()))),
{
    let sorted = sort_names(s);
    let mut deduped = dedup_names(sorted);
    let ghost dv = deduped.deep_view();
    if deduped.len() > 5 {
        deduped.truncate(5);
        proof {
            assert(deduped.deep_view() =~~= dv.subrange(0, 5));
        }
    }
    let n = deduped.len();
    let mut out: Vec<String> = Vec::new();
    let mut i: usize = 0;
    let ghost fv = deduped.deep_view();
    proof {
        assert(out.deep_view() =~~= fv.subrange(0, 0));
    }
    while i < n
        invariant
            n == deduped@.len(),
            fv == deduped.deep_view(),
            fv.len() == n,
            i <= n,
            out.deep_view() == fv.subrange(0, i as int),
        decreases n - i,
    {
        proof {
            assert(fv[i as int] == deduped@[i as int]@);
        }
        let piece = from_chars(deduped[i].as_slice());
        let ghost pv = piece@;
        let ghost before = out.deep_view();
        out.push(piece);
        i += 1;
        proof {
            assert(out.deep_view() =~~= before.push(pv));
            assert(before.push(pv) =~~= fv.subrange(0, i as int));
        }
    }
    proof {
        assert(fv.subrange(0, n as int) =~= fv);
        assert(out.deep_view() =~~= spec_take5(spec_dedup(spec_sort(s.deep_view()))));
    }
    out
}

// ---------------------------------------------------------------------------
// The domain interface and the registry.
// ---------------------------------------------------------------------------

/// A domain: a registry of documented objects that can resolve and validate
/// cross-references of its own reference types.
pub trait DomainValidator: Sized {
    /// The domain's registries are well-formed.
    spec fn wf(&self) -> bool;

    /// Whether a reference resolves in this domain.
    spec fn spec_is_valid(&self, reference: &CrossReference) -> bool;

    /// The domain's name.
    fn domain_name(&self) -> (r: &'static str);

    /// The reference types this domain handles.
    fn supported_reference_types(&self) -> (r: Vec<ReferenceType>);

    /// Register a domain object.
    fn register_object(&mut self, object: DomainObject) -> (r: Result<(), BuildError>)
        requires
            old(self).wf(),
            object.metadata.wf(),
        ensures
            final(self).wf(),
    ;

    /// Resolve a reference to a copy of its object.
    fn resolve_reference(&self, reference: &CrossReference) -> (r: Option<DomainObject>)
        requires
            self.wf(),
        ensures
            (r is Some) == self.spec_is_valid(reference),
    ;

    /// Validate a reference: valid exactly when it resolves, with an error
    /// message and suggestions otherwise; the result carries the reference.
    fn validate_reference(&self, reference: &CrossReference) -> (r: ReferenceValidationResult)
        requires
            self.wf(),
        ensures
            r.is_valid == self.spec_is_valid(reference),
            r.reference.target@ == reference.target@,
            r.reference.is_external == reference.is_external,
            r.is_valid ==> r.target_object is Some,
            !r.is_valid ==> r.target_object is None && r.error_message is Some,
    ;

    /// Every registered object.
    fn get_all_objects(&self) -> (r: Vec<&DomainObject>)
        requires
            self.wf(),
    ;

    /// Remove every registered object.
    fn clear_objects(&mut self)
        ensures
            final(self).wf(),
    ;
}

/// The domains the registry can hold, as one closed kind.
pub enum DomainKind {
    Python(PythonDomain),
    Rst(RstDomain),
}

impl DomainKind {
    /// The wrapped domain is well-formed.
    pub open spec fn kind_wf(&self) -> bool {
        match self {
            DomainKind::Python(d) => d.wf(),
            DomainKind::Rst(d) => d.wf(),
        }
    }

    /// The wrapped domain's name.
    pub fn kind_name(&self) -> (r: &'static str)
        ensures
            r@ == self.kind_name_spec(),
    {
        match self {
            DomainKind::Python(_) => "python",
            DomainKind::Rst(_) => "rst",
        }
    }

    /// The wrapped domain's name, as the specification sees it.
    pub open spec fn kind_name_spec(&self) -> Seq<char> {
        match self {
            DomainKind::Python(_) => "python"@,
            DomainKind::Rst(_) => "rst"@,
        }
    }
}

/// Whether a reference type belongs to the Python domain.
pub open spec fn spec_is_python_type(rt: RefTypeView) -> bool {
    rt is Function || rt is Class || rt is Module || rt is Method || rt is Attribute
        || rt is Data || rt is Exception
}

/// Whether a reference type belongs to the RST domain.
pub open spec fn spec_is_rst_type(rt: RefTypeView) -> bool {
    rt is Document || rt is Section || (match rt {
        RefTypeView::Custom(n) => n == "numref"@,
        _ => false,
    })
}

/// A registry over the known domains, the collected cross-references, and
/// a global object registry.
pub struct DomainRegistry {
    python: Option<PythonDomain>,
    rst: Option<RstDomain>,
    cross_references: Vec<CrossReference>,
    global_objects: StrMap<DomainObject>,
}

impl DomainRegistry {
    /// The registry is well-formed.
    pub open spec fn wf(self) -> bool {
        (match self.spec_python() {
            Some(d) => d.wf(),
            None => true,
        }) && (match self.spec_rst() {
            Some(d) => d.wf(),
            None => true,
        }) && self.spec_globals().wf()
    }

    /// The registered Python domain, if any.
    pub closed spec fn spec_python(self) -> Option<PythonDomain> {
        self.python
    }

    /// The registered RST domain, if any.
    pub closed spec fn spec_rst(self) -> Option<RstDomain> {
        self.rst
    }

    /// The collected cross-references.
    pub closed spec fn spec_refs(self) -> Seq<CrossReference> {
        self.cross_references@
    }

    /// The global object registry.
    pub closed spec fn spec_globals(self) -> StrMap<DomainObject> {
        self.global_objects
    }

    /// Create an empty registry.
    pub fn new() -> (r: DomainRegistry)
        ensures
            r.wf(),
            r.spec_python() is None,
            r.spec_rst() is None,
            r.spec_refs() == Seq::<CrossReference>::empty(),
    {
        DomainRegistry {
            python: None,
            rst: None,
            cross_references: Vec::new(),
            global_objects: StrMap::new(),
        }
    }

    /// Register a domain: this succeeds exactly when no domain of that
    /// name is held yet, and then stores the given domain and nothing else;
    /// a refusal leaves the registry untouched.
    pub fn register_domain(&mut self, validator: DomainKind) -> (r: Result<(), BuildError>)
        requires
            old(self).wf(),
            validator.kind_wf(),
        ensures
            final(self).wf(),
            (r is Ok) == match validator {
                DomainKind::Python(_) => old(self).spec_python() is None,
                DomainKind::Rst(_) => old(self).spec_rst() is None,
            },
            r is Ok ==> match validator {
                DomainKind::Python(d) => final(self).spec_python() == Some(d)
                    && final(self).spec_rst() == old(self).spec_rst(),
                DomainKind::Rst(d) => final(self).spec_rst() == Some(d)
                    && final(self).spec_python() == old(self).spec_python(),
            },
            r is Ok ==> final(self).spec_refs() == old(self).spec_refs()
                && final(self).spec_globals() == old(self).spec_globals(),
            r is Err ==> *final(self) == *old(self),
    {
        match validator {
            DomainKind::Python(d) => {
                if self.python.is_some() {
                    return Err(
                        BuildError::ValidationError(
                            String::from_str("Domain 'python' is already registered"),
                        ),
                    );
                }
                self.python = Some(d);
                Ok(())
            },
            DomainKind::Rst(d) => {
                if self.rst.is_some() {
                    return Err(
                        BuildError::ValidationError(
                            String::from_str("Domain 'rst' is already registered"),
                        ),
                    );
                }
                self.rst = Some(d);
                Ok(())
            },
        }
    }

    /// Record a cross-reference for later validation.
    pub fn add_cross_reference(&mut self, reference: CrossReference)
        requires
            old(self).wf(),
        ensures
            final(self).wf(),
            final(self).spec_refs() == old(self).spec_refs().push(reference),
            final(self).spec_python() == old(self).spec_python(),
            final(self).spec_rst() == old(self).spec_rst(),
    {
        self.cross_references.push(reference);
    }

    /// Register an object globally and in its own domain; an object of an
    /// unregistered domain is refused.
    pub fn register_object(&mut self, object: DomainObject) -> (r: Result<(), BuildError>)
        requires
            old(self).wf(),
            object.metadata.wf(),
        ensures
            final(self).wf(),
            r is Ok ==> (object.domain@ == "python"@ && old(self).spec_python() is Some) || (
            object.domain@ == "rst"@ && old(self).spec_rst() is Some),
    {
        let key = py_key(object.domain.as_str(), object.qualified_name.as_str());
        let copy = copy_object(&object);
        self.global_objects.insert(key.as_str(), copy);
        if str_eq(object.domain.as_str(), "python") {
            match &mut self.python {
                Some(d) => {
                    let rr = d.register_object(object);
                    return Ok(());
                },
                None => {
                    return Err(domain_not_found(object));
                },
            }
        }
        if str_eq(object.domain.as_str(), "rst") {
            match &mut self.rst {
                Some(d) => {
                    let rr = d.register_object(object);
                    return Ok(());
                },
                None => {
                    return Err(domain_not_found(object));
                },
            }
        }
        Err(domain_not_found(object))
    }

    /// Validate one cross-reference: an external reference passes as is;
    /// a Python-typed reference goes to the Python domain and an RST-typed
    /// one to the RST domain, each valid exactly when it resolves there; a
    /// reference whose domain is absent, or of a type no domain handles,
    /// fails with a message.
    pub fn validate_reference(&self, reference: &CrossReference) -> (r: ReferenceValidationResult)
        requires
            self.wf(),
        ensures
            r.reference.target@ == reference.target@,
            r.reference.is_external == reference.is_external,
            reference.is_external ==> r.is_valid && r.target_object is None && r.error_message
                is None && r.suggestions@.len() == 0,
            !reference.is_external ==> r.is_valid == !self.spec_is_broken(*reference),
            !reference.is_external && !r.is_valid ==> r.target_object is None && r.error_message
                is Some,
            !reference.is_external && r.is_valid ==> r.target_object is Some,
    {
        if reference.is_external {
            return ReferenceValidationResult {
                reference: copy_cross_reference(reference),
                is_valid: true,
                target_object: None,
                error_message: None,
                suggestions: Vec::new(),
            };
        }
        let python_type: bool = match reference.ref_type {
            ReferenceType::Function
            | ReferenceType::Class
            | ReferenceType::Module
            | ReferenceType::Method
            | ReferenceType::Attribute
            | ReferenceType::Data
            | ReferenceType::Exception => true,
            _ => false,
        };
        if python_type {
            match &self.python {
                Some(d) => {
                    return d.validate_reference(reference);
                },
                None => {},
            }
        } else {
            let rst_type: bool = match &reference.ref_type {
                ReferenceType::Document | ReferenceType::Section => true,
                ReferenceType::Custom(name) => str_eq(name.as_str(), "numref"),
                _ => false,
            };
            if rst_type {
                match &self.rst {
                    Some(d) => {
                        return d.validate_reference(reference);
                    },
                    None => {},
                }
            }
        }
        ReferenceValidationResult {
            reference: copy_cross_reference(reference),
            is_valid: false,
            target_object: None,
            error_message: Some(
                String::from_str("No domain validator found for this reference type"),
            ),
            suggestions: Vec::new(),
        }
    }

    /// Whether a collected reference fails validation: not external, and
    /// either its domain does not resolve it or no domain handles its type.
    pub open spec fn spec_is_broken(self, c: CrossReference) -> bool {
        !c.is_external && (if spec_is_python_type(c.ref_type@) {
            match self.spec_python() {
                Some(d) => !d.spec_is_valid(&c),
                None => true,
            }
        } else if spec_is_rst_type(c.ref_type@) {
            match self.spec_rst() {
                Some(d) => !d.spec_is_valid(&c),
                None => true,
            }
        } else {
            true
        })
    }

    /// The targets of the broken references from position `i` on, in order.
    pub open spec fn spec_broken_targets(self, i: int) -> Seq<Seq<char>>
        decreases self.spec_refs().len() - i,
    {
        if i < 0 || i >= self.spec_refs().len() {
            Seq::empty()
        } else {
            (if self.spec_is_broken(self.spec_refs()[i]) {
                seq![self.spec_refs()[i].target@]
            } else {
                Seq::<Seq<char>>::empty()
            }) + self.spec_broken_targets(i + 1)
        }
    }

    /// Validate every collected cross-reference, in order.
    pub fn validate_all_references(&self) -> (r: Vec<ReferenceValidationResult>)
        requires
            self.wf(),
        ensures
            r@.len() == self.spec_refs().len(),
            forall|i: int|
                0 <= i < r@.len() ==> (#[trigger] r@[i].is_valid
                    || !self.spec_refs()[i].is_external),
    {
        let n = self.cross_references.len();
        let mut out: Vec<ReferenceValidationResult> = Vec::new();
        let mut i: usize = 0;
        while i < n
            invariant
                self.wf(),
                n == self.spec_refs().len(),
                i <= n,
                out@.len() == i,
                forall|j: int|
                    0 <= j < i ==> (#[trigger] out@[j].is_valid
                        || !self.spec_refs()[j].is_external),
            decreases n - i,
        {
            let res = self.validate_reference(&self.cross_references[i]);
            out.push(res);
            i += 1;
        }
        out
    }

    /// The failed validations of the collected references, in order,
    /// external references excluded: one result per broken reference,
    /// carrying its target and an error message.
    pub fn get_broken_references(&self) -> (r: Vec<ReferenceValidationResult>)
        requires
            self.wf(),
        ensures
            spec_result_targets(r@) == self.spec_broken_targets(0),
            forall|i: int|
                0 <= i < r@.len() ==> !(#[trigger] r@[i]).is_valid
                    && !r@[i].reference.is_external && r@[i].error_message is Some
                    && r@[i].target_object is None,
    {
        let n = self.cross_references.len();
        let mut out: Vec<ReferenceValidationResult> = Vec::new();
        let mut i: usize = 0;
        proof {
            assert(spec_result_targets(out@) =~= Seq::<Seq<char>>::empty());
            assert(spec_result_targets(out@) + self.spec_broken_targets(0)
                =~= self.spec_broken_targets(0));
        }
        while i < n
            invariant
                self.wf(),
                n == self.spec_refs().len(),
                i <= n,
                self.spec_broken_targets(0) == spec_result_targets(out@)
                    + self.spec_broken_targets(i as int),
                forall|j: int|
                    0 <= j < out@.len() ==> !(#[trigger] out@[j]).is_valid
                        && !out@[j].reference.is_external && out@[j].error_message is Some
                        && out@[j].target_object is None,
            decreases n - i,
        {
            let ghost before = out@;
            let res = self.validate_reference(&self.cross_references[i]);
            proof {
                assert(self.spec_refs()[i as int] == self.cross_references@[i as int]);
            }
            let broken = !res.is_valid && !res.reference.is_external;
            if broken {
                let ghost resg = res;
                out.push(res);
                proof {
                    assert(out@ =~= before.push(resg));
                    assert(spec_result_targets(out@) =~= spec_result_targets(before).push(
                        resg.reference.target@,
                    ));
                    assert(spec_result_targets(before).push(resg.reference.target@)
                        + self.spec_broken_targets(i + 1) =~= spec_result_targets(before)
                        + self.spec_broken_targets(i as int));
                }
            } else {
                proof {
                    assert(spec_result_targets(before) + self.spec_broken_targets(i + 1)
                        =~= spec_result_targets(before) + self.spec_broken_targets(i as int));
                }
            }
            i += 1;
        }
        proof {
            assert(self.spec_broken_targets(n as int).len() == 0);
            assert(spec_result_targets(out@) =~= self.spec_broken_targets(0));
        }
        out
    }

    /// Forget every collected reference and registered object.
    pub fn clear(&mut self)
        requires
            old(self).wf(),
        ensures
            final(self).wf(),
            final(self).spec_refs() == Seq::<CrossReference>::empty(),
    {
        self.cross_references.clear();
        self.global_objects.clear();
        match &mut self.python {
            Some(d) => {
                d.clear_objects();
            },
            None => {},
        }
        match &mut self.rst {
            Some(d) => {
                d.clear_objects();
            },
            None => {},
        }
    }

    /// Find an object by its qualified name, or failing that by its name.
    pub fn get_object(&self, qualified_name: &str) -> (r: Option<&DomainObject>)
        requires
            self.wf(),
    {
        let n = self.global_objects.len();
        let mut i: usize = 0;
        while i < n
            invariant
                self.wf(),
                n == self.spec_globals().key_seq().len(),
                i <= n,
            decreases n - i,
        {
            let obj = self.global_objects.val_at(i);
            if str_eq(obj.qualified_name.as_str(), qualified_name) {
                return Some(obj);
            }
            i += 1;
        }
        let mut k: usize = 0;
        while k < n
            invariant
                self.wf(),
                n == self.spec_globals().key_seq().len(),
                k <= n,
            decreases n - k,
        {
            let obj = self.global_objects.val_at(k);
            if str_eq(obj.name.as_str(), qualified_name) {
                return Some(obj);
            }
            k += 1;
        }
        None
    }

    /// The objects whose name or qualified name contains the pattern.
    pub fn search_objects(&self, pattern: &str) -> (r: Vec<&DomainObject>)
        requires
            self.wf(),
    {
        let p = to_chars(pattern);
        let n = self.global_objects.len();
        let mut out: Vec<&DomainObject> = Vec::new();
        let mut i: usize = 0;
        while i < n
            invariant
                self.wf(),
                n == self.spec_globals().key_seq().len(),
                i <= n,
            decreases n - i,
        {
            let obj = self.global_objects.val_at(i);
            let name = to_chars(obj.name.as_str());
            let qn = to_chars(obj.qualified_name.as_str());
            if contains_sub(name.as_slice(), p.as_slice()) || contains_sub(
                qn.as_slice(),
                p.as_slice(),
            ) {
                out.push(obj);
            }
            i += 1;
        }
        out
    }
}

/// After an insert of an object with a well-formed metadata map, every
/// stored object's metadata map stays well-formed.
pub proof fn lemma_vals_wf_after_insert(
    oldkeys: Seq<Seq<char>>,
    oldvals: Seq<DomainObject>,
    newvals: Seq<DomainObject>,
    k: Seq<char>,
    v: DomainObject,
)
    requires
        forall|i: int| 0 <= i < oldvals.len() ==> (#[trigger] oldvals[i]).metadata.wf(),
        v.metadata.wf(),
        oldkeys.len() == oldvals.len(),
        newvals == oldvals.push(v) || (crate::strmap::seq_index_of(oldkeys, k) >= 0 && newvals
            == oldvals.update(crate::strmap::seq_index_of(oldkeys, k), v)),
    ensures
        forall|i: int| 0 <= i < newvals.len() ==> (#[trigger] newvals[i]).metadata.wf(),
{
    assert forall|i: int| 0 <= i < newvals.len() implies (
    #[trigger] newvals[i]).metadata.wf() by {
        if newvals == oldvals.push(v) {
            if i < oldvals.len() {
                assert(newvals[i] == oldvals[i]);
            } else {
                assert(newvals[i] == v);
            }
        } else {
            let idx = crate::strmap::seq_index_of(oldkeys, k);
            crate::strmap::lemma_seq_index_of_props(oldkeys, k);
            if i == idx {
                assert(newvals[i] == v);
            } else {
                assert(newvals[i] == oldvals[i]);
            }
        }
    }
}

/// The reference targets of a result list, in order.
pub open spec fn spec_result_targets(rs: Seq<ReferenceValidationResult>) -> Seq<Seq<char>> {
    Seq::new(rs.len(), |i: int| rs[i].reference.target@)
}

/// Copy a list of strings.
fn copy_strings(v: &Vec<String>) -> (r: Vec<String>)
    ensures
        r.deep_view() == v.deep_view(),
{
    let n = v.len();
    let mut out: Vec<String> = Vec::new();
    let mut i: usize = 0;
    proof {
        assert(out.deep_view() =~~= v.deep_view().subrange(0, 0));
    }
    while i < n
        invariant
            n == v@.len(),
            i <= n,
            out.deep_view() == v.deep_view().subrange(0, i as int),
        decreases n - i,
    {
        let c = v[i].clone();
        let ghost cv = c@;
        let ghost before = out.deep_view();
        proof {
            assert(cv == v.deep_view()[i as int]);
        }
        out.push(c);
        i += 1;
        proof {
            assert(out.deep_view() =~~= before.push(cv));
            assert(before.push(cv) =~~= v.deep_view().subrange(0, i as int));
        }
    }
    proof {
        assert(v.deep_view().subrange(0, n as int) =~= v.deep_view());
    }
    out
}

/// The key of an object in the global registry: domain, a colon, qualified
/// name.
fn py_key(domain: &str, qn: &str) -> (r: String)
    ensures
        r@ == domain@ + ":"@ + qn@,
{
    let mut out: Vec<char> = Vec::new();
    append_str(&mut out, domain);
    append_str(&mut out, ":");
    append_str(&mut out, qn);
    proof {
        assert(out@ =~= domain@ + ":"@ + qn@);
    }
    from_chars(out.as_slice())
}

/// The error for an object of an unregistered domain.
fn domain_not_found(object: DomainObject) -> (r: BuildError) {
    let mut out: Vec<char> = Vec::new();
    append_str(&mut out, "Domain '");
    append_str(&mut out, object.domain.as_str());
    append_str(&mut out, "' not found for object '");
    append_str(&mut out, object.name.as_str());
    append_str(&mut out, "'");
    BuildError::ValidationError(from_chars(out.as_slice()))
}

} // verus!
