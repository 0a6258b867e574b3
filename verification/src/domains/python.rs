//! The Python domain: functions, classes and modules, with reference
//! resolution by qualified or simple name.

use vstd::prelude::*;

use crate::domains::{
    copy_cross_reference, copy_object, finish_suggestions, obj_scalars, CrossReference,
    DomainObject, DomainValidator, ReferenceLocation, ReferenceType, ReferenceValidationResult,
};
use crate::error::BuildError;
use crate::strmap::StrMap;
use crate::text::{append_str, contains_sub, from_chars, str_eq, to_chars};

verus! {

/// The Python domain: its registered objects by qualified name.
pub struct PythonDomain {
    objects: StrMap<DomainObject>,
}

impl PythonDomain {
    /// The registered objects.
    pub closed spec fn spec_objects(self) -> StrMap<DomainObject> {
        self.objects
    }

    /// Create an empty Python domain.
    pub fn new() -> (r: PythonDomain)
        ensures
            r.wf(),
            r.spec_objects().key_seq() == Seq::<Seq<char>>::empty(),
    {
        PythonDomain { objects: StrMap::new() }
    }

    /// Register a Python function under its qualified name.
    pub fn register_function(
        &mut self,
        name: String,
        qualified_name: String,
        signature: Option<String>,
        docstring: Option<String>,
        location: ReferenceLocation,
    ) -> (r: Result<(), BuildError>)
        requires
            old(self).wf(),
        ensures
            final(self).wf(),
            r is Ok,
            final(self).spec_objects().spec_contains_key(qualified_name@),
            match final(self).spec_objects().spec_get(qualified_name@) {
                Some(o) => o.name@ == name@ && o.object_type@ == "function"@ && o.domain@
                    == "python"@ && o.qualified_name@ == qualified_name@ && o.id@ == "py:func:"@
                    + qualified_name@ && crate::text::opt_view(o.signature)
                    == crate::text::opt_view(signature) && crate::text::opt_view(o.docstring)
                    == crate::text::opt_view(docstring),
                None => false,
            },
            forall|k2: Seq<char>| #![auto] k2 != qualified_name@ ==> final(self).spec_objects().spec_get(k2) == old(self).spec_objects().spec_get(k2),
    {
        let qn = qualified_name.clone();
        let object = DomainObject {
            id: py_id("py:func:", qualified_name.as_str()),
            name,
            object_type: String::from_str("function"),
            domain: String::from_str("python"),
            definition_location: location,
            qualified_name,
            metadata: StrMap::new(),
            signature,
            docstring,
        };
        let ghost oldvals = self.objects.val_seq();
        let ghost oldkeys = self.objects.key_seq();
        let ghost og = object;
        self.objects.insert(qn.as_str(), object);
        proof {
            crate::domains::lemma_vals_wf_after_insert(
                oldkeys,
                oldvals,
                self.spec_objects().val_seq(),
                qn@,
                og,
            );
        }
        Ok(())
    }

    /// Register a Python class under its qualified name.
    pub fn register_class(
        &mut self,
        name: String,
        qualified_name: String,
        docstring: Option<String>,
        location: ReferenceLocation,
    ) -> (r: Result<(), BuildError>)
        requires
            old(self).wf(),
        ensures
            final(self).wf(),
            r is Ok,
            final(self).spec_objects().spec_contains_key(qualified_name@),
            match final(self).spec_objects().spec_get(qualified_name@) {
                Some(o) => o.name@ == name@ && o.object_type@ == "class"@ && o.domain@
                    == "python"@ && o.qualified_name@ == qualified_name@ && o.id@ == "py:class:"@
                    + qualified_name@ && o.signature is None && crate::text::opt_view(o.docstring)
                    == crate::text::opt_view(docstring),
                None => false,
            },
            forall|k2: Seq<char>| #![auto] k2 != qualified_name@ ==> final(self).spec_objects().spec_get(k2) == old(self).spec_objects().spec_get(k2),
    {
        let qn = qualified_name.clone();
        let object = DomainObject {
            id: py_id("py:class:", qualified_name.as_str()),
            name,
            object_type: String::from_str("class"),
            domain: String::from_str("python"),
            definition_location: location,
            qualified_name,
            metadata: StrMap::new(),
            signature: None,
            docstring,
        };
        let ghost oldvals = self.objects.val_seq();
        let ghost oldkeys = self.objects.key_seq();
        let ghost og = object;
        self.objects.insert(qn.as_str(), object);
        proof {
            crate::domains::lemma_vals_wf_after_insert(
                oldkeys,
                oldvals,
                self.spec_objects().val_seq(),
                qn@,
                og,
            );
        }
        Ok(())
    }

    /// Register a Python module under its qualified name.
    pub fn register_module(
        &mut self,
        name: String,
        qualified_name: String,
        docstring: Option<String>,
        location: ReferenceLocation,
    ) -> (r: Result<(), BuildError>)
        requires
            old(self).wf(),
        ensures
            final(self).wf(),
            r is Ok,
            final(self).spec_objects().spec_contains_key(qualified_name@),
            match final(self).spec_objects().spec_get(qualified_name@) {
                Some(o) => o.name@ == name@ && o.object_type@ == "module"@ && o.domain@
                    == "python"@ && o.qualified_name@ == qualified_name@ && o.id@ == "py:mod:"@
                    + qualified_name@ && o.signature is None && crate::text::opt_view(o.docstring)
                    == crate::text::opt_view(docstring),
                None => false,
            },
            forall|k2: Seq<char>| #![auto] k2 != qualified_name@ ==> final(self).spec_objects().spec_get(k2) == old(self).spec_objects().spec_get(k2),
    {
        let qn = qualified_name.clone();
        let object = DomainObject {
            id: py_id("py:mod:", qualified_name.as_str()),
            name,
            object_type: String::from_str("module"),
            domain: String::from_str("python"),
            definition_location: location,
            qualified_name,
            metadata: StrMap::new(),
            signature: None,
            docstring,
        };
        let ghost oldvals = self.objects.val_seq();
        let ghost oldkeys = self.objects.key_seq();
        let ghost og = object;
        self.objects.insert(qn.as_str(), object);
        proof {
            crate::domains::lemma_vals_wf_after_insert(
                oldkeys,
                oldvals,
                self.spec_objects().val_seq(),
                qn@,
                og,
            );
        }
        Ok(())
    }

    /// Qualified names of objects whose names relate to the target, sorted,
    /// without duplicates and capped at five.
    fn find_suggestions(&self, target: &str) -> (r: Vec<String>)
        requires
            self.wf(),
    {
        let t = to_chars(target);
        let n = self.objects.len();
        let mut found: Vec<Vec<char>> = Vec::new();
        let mut i: usize = 0;
        while i < n
            invariant
                self.wf(),
                n == self.spec_objects().key_seq().len(),
                i <= n,
            decreases n - i,
        {
            let obj = self.objects.val_at(i);
            let name = to_chars(obj.name.as_str());
            let qn = to_chars(obj.qualified_name.as_str());
            if str_eq(obj.name.as_str(), target) || contains_sub(name.as_slice(), t.as_slice())
                || contains_sub(t.as_slice(), name.as_slice()) || contains_sub(
                qn.as_slice(),
                t.as_slice(),
            ) {
                found.push(qn);
            }
            i += 1;
        }
        finish_suggestions(found)
    }
}

/// Build an identifier of the form prefix + qualified name.
fn py_id(prefix: &str, qn: &str) -> (r: String)
    ensures
        r@ == prefix@ + qn@,
{
    let mut out: Vec<char> = Vec::new();
    append_str(&mut out, prefix);
    append_str(&mut out, qn);
    proof {
        assert(out@ =~= prefix@ + qn@);
    }
    from_chars(out.as_slice())
}

impl DomainValidator for PythonDomain {
    open spec fn wf(&self) -> bool {
        self.spec_objects().wf() && forall|i: int|
            0 <= i < self.spec_objects().val_seq().len() ==> (
            #[trigger] self.spec_objects().val_seq()[i]).metadata.wf()
    }

    open spec fn spec_is_valid(&self, reference: &CrossReference) -> bool {
        self.spec_objects().spec_contains_key(reference.target@) || exists|i: int|
            0 <= i < self.spec_objects().val_seq().len() && (
            #[trigger] self.spec_objects().val_seq()[i]).name@ == reference.target@
    }

    fn domain_name(&self) -> (r: &'static str) {
        "python"
    }

    fn supported_reference_types(&self) -> (r: Vec<ReferenceType>) {
        let mut v: Vec<ReferenceType> = Vec::new();
        v.push(ReferenceType::Function);
        v.push(ReferenceType::Class);
        v.push(ReferenceType::Module);
        v.push(ReferenceType::Method);
        v.push(ReferenceType::Attribute);
        v.push(ReferenceType::Data);
        v.push(ReferenceType::Exception);
        v
    }

    fn register_object(&mut self, object: DomainObject) -> (r: Result<(), BuildError>) {
        let key = object.qualified_name.clone();
        let ghost oldvals = self.objects.val_seq();
        let ghost oldkeys = self.objects.key_seq();
        let ghost og = object;
        self.objects.insert(key.as_str(), object);
        proof {
            crate::domains::lemma_vals_wf_after_insert(
                oldkeys,
                oldvals,
                self.spec_objects().val_seq(),
                key@,
                og,
            );
        }
        Ok(())
    }

    fn resolve_reference(&self, reference: &CrossReference) -> (r: Option<DomainObject>) {
        match self.objects.get(reference.target.as_str()) {
            Some(o) => Some(copy_object(o)),
            None => {
                let n = self.objects.len();
                let mut i: usize = 0;
                while i < n
                    invariant
                        self.wf(),
                        n == self.spec_objects().key_seq().len(),
                        i <= n,
                        forall|j: int|
                            0 <= j < i ==> (#[trigger] self.spec_objects().val_seq()[j]).name@
                                != reference.target@,
                    decreases n - i,
                {
                    let obj = self.objects.val_at(i);
                    if str_eq(obj.name.as_str(), reference.target.as_str()) {
                        proof {
                            assert((self.spec_objects().val_seq()[i as int]).name@
                                == reference.target@);
                        }
                        return Some(copy_object(obj));
                    }
                    i += 1;
                }
                None
            },
        }
    }

    fn validate_reference(&self, reference: &CrossReference) -> (r: ReferenceValidationResult) {
        match self.resolve_reference(reference) {
            Some(target_object) => ReferenceValidationResult {
                reference: copy_cross_reference(reference),
                is_valid: true,
                target_object: Some(target_object),
                error_message: None,
                suggestions: Vec::new(),
            },
            None => {
                let suggestions = self.find_suggestions(reference.target.as_str());
                let mut msg: Vec<char> = Vec::new();
                append_str(&mut msg, "Python object '");
                append_str(&mut msg, reference.target.as_str());
                if suggestions.len() == 0 {
                    append_str(&mut msg, "' not found");
                } else {
                    append_str(&mut msg, "' not found. Did you mean: ");
                    let mut i: usize = 0;
                    while i < suggestions.len()
                        invariant
                            i <= suggestions@.len(),
                        decreases suggestions@.len() - i,
                    {
                        if i > 0 {
                            append_str(&mut msg, ", ");
                        }
                        append_str(&mut msg, suggestions[i].as_str());
                        i += 1;
                    }
                    append_str(&mut msg, "?");
                }
                ReferenceValidationResult {
                    reference: copy_cross_reference(reference),
                    is_valid: false,
                    target_object: None,
                    error_message: Some(from_chars(msg.as_slice())),
                    suggestions,
                }
            },
        }
    }

    fn get_all_objects(&self) -> (r: Vec<&DomainObject>) {
        let n = self.objects.len();
        let mut out: Vec<&DomainObject> = Vec::new();
        let mut i: usize = 0;
        while i < n
            invariant
                self.wf(),
                n == self.spec_objects().key_seq().len(),
                i <= n,
            decreases n - i,
        {
            out.push(self.objects.val_at(i));
            i += 1;
        }
        out
    }

    fn clear_objects(&mut self) {
        self.objects.clear();
    }
}

} // verus!
