//! The RST domain: documents, sections and labels, with reference
//! resolution by document name or label.

use vstd::prelude::*;

use crate::domains::{
    copy_cross_reference, copy_object, finish_suggestions, CrossReference, DomainObject,
    DomainValidator, ReferenceLocation, ReferenceType, ReferenceValidationResult,
};
use crate::error::BuildError;
use crate::strmap::StrMap;
use crate::text::{
    append_str, contains_sub, from_chars, lower_of, lowercase_str, slice_range, spec_contains,
    spec_ends_with, str_eq, to_chars, ends_with_str,
};

verus! {

/// The RST domain: its documents and its sections and labels.
pub struct RstDomain {
    documents: StrMap<DomainObject>,
    sections: StrMap<DomainObject>,
}

/// A target with every trailing `.rst` removed.
pub open spec fn spec_strip_rst(s: Seq<char>) -> Seq<char>
    decreases s.len(),
{
    if spec_ends_with(s, ".rst"@) && s.len() >= 4 {
        spec_strip_rst(s.subrange(0, s.len() - 4))
    } else {
        s
    }
}

/// Strip every trailing `.rst` from a target.
fn strip_rst(v: &[char]) -> (r: Vec<char>)
    ensures
        r@ == spec_strip_rst(v@),
    decreases v@.len(),
{
    let n = v.len();
    if n >= 4 && ends_with_str(v, ".rst") {
        let cut = slice_range(v, 0, n - 4);
        let inner = strip_rst(cut.as_slice());
        proof {
            assert(inner@ == spec_strip_rst(v@));
        }
        inner
    } else {
        let r = slice_range(v, 0, n);
        proof {
            assert(r@ =~= v@);
        }
        r
    }
}

impl RstDomain {
    /// The registered documents.
    pub closed spec fn spec_documents(self) -> StrMap<DomainObject> {
        self.documents
    }

    /// The registered sections and labels.
    pub closed spec fn spec_sections(self) -> StrMap<DomainObject> {
        self.sections
    }

    /// Create an empty RST domain.
    pub fn new() -> (r: RstDomain)
        ensures
            r.wf(),
            r.spec_documents().key_seq() == Seq::<Seq<char>>::empty(),
            r.spec_sections().key_seq() == Seq::<Seq<char>>::empty(),
    {
        RstDomain { documents: StrMap::new(), sections: StrMap::new() }
    }

    /// Register a document under its name, keeping its title.
    pub fn register_document(
        &mut self,
        docname: String,
        title: String,
        location: ReferenceLocation,
    ) -> (r: Result<(), BuildError>)
        requires
            old(self).wf(),
        ensures
            final(self).wf(),
            r is Ok,
            final(self).spec_documents().spec_contains_key(docname@),
            match final(self).spec_documents().spec_get(docname@) {
                Some(o) => o.name@ == docname@ && o.object_type@ == "document"@ && o.domain@
                    == "rst"@ && o.qualified_name@ == docname@ && o.id@ == "doc:"@ + docname@
                    && crate::text::opt_view(o.metadata.spec_get("title"@)) == Some(title@),
                None => false,
            },
            forall|k2: Seq<char>| #![auto] k2 != docname@ ==> final(self).spec_documents().spec_get(k2) == old(self).spec_documents().spec_get(k2),
            final(self).spec_sections() == old(self).spec_sections(),
    {
        let key = docname.clone();
        let mut meta: StrMap<String> = StrMap::new();
        meta.insert("title", title);
        let object = DomainObject {
            id: rst_id("doc:", docname.as_str()),
            name: docname.clone(),
            object_type: String::from_str("document"),
            domain: String::from_str("rst"),
            definition_location: location,
            qualified_name: docname,
            metadata: meta,
            signature: None,
            docstring: None,
        };
        let ghost oldvals = self.documents.val_seq();
        let ghost oldkeys = self.documents.key_seq();
        let ghost og = object;
        self.documents.insert(key.as_str(), object);
        proof {
            crate::domains::lemma_vals_wf_after_insert(
                oldkeys,
                oldvals,
                self.spec_documents().val_seq(),
                key@,
                og,
            );
        }
        Ok(())
    }

    /// Register a section label.
    pub fn register_section(
        &mut self,
        label: String,
        title: String,
        docname: String,
        location: ReferenceLocation,
    ) -> (r: Result<(), BuildError>)
        requires
            old(self).wf(),
        ensures
            final(self).wf(),
            r is Ok,
            final(self).spec_sections().spec_contains_key(label@),
            match final(self).spec_sections().spec_get(label@) {
                Some(o) => o.name@ == label@ && o.object_type@ == "section"@ && o.domain@
                    == "rst"@ && o.qualified_name@ == docname@ + "#"@ + label@ && o.id@
                    == "ref:"@ + label@ && crate::text::opt_view(o.metadata.spec_get("title"@))
                    == Some(title@) && crate::text::opt_view(o.metadata.spec_get("docname"@))
                    == Some(docname@),
                None => false,
            },
            forall|k2: Seq<char>| #![auto] k2 != label@ ==> final(self).spec_sections().spec_get(k2) == old(self).spec_sections().spec_get(k2),
            final(self).spec_documents() == old(self).spec_documents(),
    {
        let key = label.clone();
        let qualified_name = rst_qualified(docname.as_str(), label.as_str());
        let mut meta: StrMap<String> = StrMap::new();
        meta.insert("title", title);
        meta.insert("docname", docname);
        proof {
            reveal_strlit("title");
            reveal_strlit("docname");
            assert("title"@.len() == 5);
            assert("docname"@.len() == 7);
            assert("title"@ != "docname"@);
        }
        let object = DomainObject {
            id: rst_id("ref:", label.as_str()),
            name: label,
            object_type: String::from_str("section"),
            domain: String::from_str("rst"),
            definition_location: location,
            qualified_name,
            metadata: meta,
            signature: None,
            docstring: None,
        };
        let ghost oldvals = self.sections.val_seq();
        let ghost oldkeys = self.sections.key_seq();
        let ghost og = object;
        self.sections.insert(key.as_str(), object);
        proof {
            crate::domains::lemma_vals_wf_after_insert(
                oldkeys,
                oldvals,
                self.spec_sections().val_seq(),
                key@,
                og,
            );
        }
        Ok(())
    }

    /// Register a figure, table or code label.
    pub fn register_label(
        &mut self,
        label: String,
        label_type: String,
        title: Option<String>,
        docname: String,
        location: ReferenceLocation,
    ) -> (r: Result<(), BuildError>)
        requires
            old(self).wf(),
        ensures
            final(self).wf(),
            r is Ok,
            final(self).spec_sections().spec_contains_key(label@),
            match final(self).spec_sections().spec_get(label@) {
                Some(o) => o.name@ == label@ && o.object_type@ == label_type@ && o.domain@
                    == "rst"@ && o.qualified_name@ == docname@ + "#"@ + label@ && o.id@
                    == label_type@ + ":"@ + label@ && crate::text::opt_view(
                    o.metadata.spec_get("docname"@),
                ) == Some(docname@),
                None => false,
            },
            forall|k2: Seq<char>| #![auto] k2 != label@ ==> final(self).spec_sections().spec_get(k2) == old(self).spec_sections().spec_get(k2),
            final(self).spec_documents() == old(self).spec_documents(),
    {
        let key = label.clone();
        let qualified_name = rst_qualified(docname.as_str(), label.as_str());
        let mut meta: StrMap<String> = StrMap::new();
        match title {
            Some(t) => {
                meta.insert("title", t);
            },
            None => {},
        }
        meta.insert("docname", docname);
        proof {
            reveal_strlit("title");
            reveal_strlit("docname");
            assert("title"@.len() == 5);
            assert("docname"@.len() == 7);
            assert("title"@ != "docname"@);
        }
        let object = DomainObject {
            id: rst_label_id(label_type.as_str(), label.as_str()),
            name: label,
            object_type: label_type,
            domain: String::from_str("rst"),
            definition_location: location,
            qualified_name,
            metadata: meta,
            signature: None,
            docstring: None,
        };
        let ghost oldvals = self.sections.val_seq();
        let ghost oldkeys = self.sections.key_seq();
        let ghost og = object;
        self.sections.insert(key.as_str(), object);
        proof {
            crate::domains::lemma_vals_wf_after_insert(
                oldkeys,
                oldvals,
                self.spec_sections().val_seq(),
                key@,
                og,
            );
        }
        Ok(())
    }

    /// Keys and titles that relate to the target, sorted and capped at
    /// five.
    fn find_suggestions(&self, target: &str, ref_type: &ReferenceType) -> (r: Vec<String>)
        requires
            self.wf(),
    {
        let t = to_chars(target);
        let lowered_t = lowercase_str(target);
        let lt = to_chars(lowered_t.as_str());
        let use_docs: bool = match ref_type {
            ReferenceType::Document => true,
            _ => false,
        };
        let m = if use_docs {
            &self.documents
        } else {
            &self.sections
        };
        let n = m.len();
        let mut found: Vec<Vec<char>> = Vec::new();
        let mut i: usize = 0;
        while i < n
            invariant
                m.wf(),
                n == m.key_seq().len(),
                forall|j: int|
                    0 <= j < m.val_seq().len() ==> (#[trigger] m.val_seq()[j]).metadata.wf(),
                i <= n,
            decreases n - i,
        {
            let key = m.key_at(i);
            let obj = m.val_at(i);
            proof {
                assert(obj.metadata.wf());
            }
            let kc = to_chars(key.as_str());
            let mut keep = contains_sub(kc.as_slice(), t.as_slice()) || contains_sub(
                t.as_slice(),
                kc.as_slice(),
            );
            if !keep {
                match obj.metadata.get("title") {
                    Some(title) => {
                        let lowered = lowercase_str(title.as_str());
                        let lc = to_chars(lowered.as_str());
                        if contains_sub(lc.as_slice(), lt.as_slice()) {
                            keep = true;
                        }
                    },
                    None => {},
                }
            }
            if keep {
                found.push(kc);
            }
            i += 1;
        }
        finish_suggestions(found)
    }
}

/// Build an identifier of the form prefix + name.
fn rst_id(prefix: &str, name: &str) -> (r: String)
    ensures
        r@ == prefix@ + name@,
{
    let mut out: Vec<char> = Vec::new();
    append_str(&mut out, prefix);
    append_str(&mut out, name);
    proof {
        assert(out@ =~= prefix@ + name@);
    }
    from_chars(out.as_slice())
}

/// Build a label identifier of the form kind, colon, label.
fn rst_label_id(kind: &str, label: &str) -> (r: String)
    ensures
        r@ == kind@ + ":"@ + label@,
{
    let mut out: Vec<char> = Vec::new();
    append_str(&mut out, kind);
    append_str(&mut out, ":");
    append_str(&mut out, label);
    proof {
        assert(out@ =~= kind@ + ":"@ + label@);
    }
    from_chars(out.as_slice())
}

/// Build a qualified name of the form docname, hash, label.
fn rst_qualified(docname: &str, label: &str) -> (r: String)
    ensures
        r@ == docname@ + "#"@ + label@,
{
    let mut out: Vec<char> = Vec::new();
    append_str(&mut out, docname);
    append_str(&mut out, "#");
    append_str(&mut out, label);
    proof {
        assert(out@ =~= docname@ + "#"@ + label@);
    }
    from_chars(out.as_slice())
}

impl DomainValidator for RstDomain {
    open spec fn wf(&self) -> bool {
        self.spec_documents().wf() && self.spec_sections().wf() && (forall|i: int|
            0 <= i < self.spec_documents().val_seq().len() ==> (
            #[trigger] self.spec_documents().val_seq()[i]).metadata.wf()) && (forall|i: int|
            0 <= i < self.spec_sections().val_seq().len() ==> (
            #[trigger] self.spec_sections().val_seq()[i]).metadata.wf())
    }

    open spec fn spec_is_valid(&self, reference: &CrossReference) -> bool {
        match reference.ref_type@ {
            crate::domains::RefTypeView::Document => self.spec_documents().spec_contains_key(
                spec_strip_rst(reference.target@),
            ) || self.spec_documents().spec_contains_key(reference.target@),
            crate::domains::RefTypeView::Section => self.spec_sections().spec_contains_key(
                reference.target@,
            ),
            _ => self.spec_sections().spec_contains_key(reference.target@)
                || self.spec_documents().spec_contains_key(reference.target@),
        }
    }

    fn domain_name(&self) -> (r: &'static str) {
        "rst"
    }

    fn supported_reference_types(&self) -> (r: Vec<ReferenceType>) {
        let mut v: Vec<ReferenceType> = Vec::new();
        v.push(ReferenceType::Document);
        v.push(ReferenceType::Section);
        v.push(ReferenceType::Custom(String::from_str("numref")));
        v
    }

    fn register_object(&mut self, object: DomainObject) -> (r: Result<(), BuildError>) {
        let is_doc = str_eq(object.object_type.as_str(), "document");
        let is_sec = str_eq(object.object_type.as_str(), "section") || str_eq(
            object.object_type.as_str(),
            "figure",
        ) || str_eq(object.object_type.as_str(), "table") || str_eq(
            object.object_type.as_str(),
            "code-block",
        );
        if is_doc {
            let key = object.name.clone();
            let ghost oldvals = self.documents.val_seq();
            let ghost oldkeys = self.documents.key_seq();
            let ghost og = object;
            self.documents.insert(key.as_str(), object);
            proof {
                crate::domains::lemma_vals_wf_after_insert(
                    oldkeys,
                    oldvals,
                    self.spec_documents().val_seq(),
                    key@,
                    og,
                );
            }
            Ok(())
        } else if is_sec {
            let key = object.name.clone();
            let ghost oldvals = self.sections.val_seq();
            let ghost oldkeys = self.sections.key_seq();
            let ghost og = object;
            self.sections.insert(key.as_str(), object);
            proof {
                crate::domains::lemma_vals_wf_after_insert(
                    oldkeys,
                    oldvals,
                    self.spec_sections().val_seq(),
                    key@,
                    og,
                );
            }
            Ok(())
        } else {
            let mut out: Vec<char> = Vec::new();
            append_str(&mut out, "Unknown RST object type: ");
            append_str(&mut out, object.object_type.as_str());
            Err(BuildError::ValidationError(from_chars(out.as_slice())))
        }
    }

    fn resolve_reference(&self, reference: &CrossReference) -> (r: Option<DomainObject>) {
        let is_doc: bool = match reference.ref_type {
            ReferenceType::Document => true,
            _ => false,
        };
        let is_sec: bool = match reference.ref_type {
            ReferenceType::Section => true,
            _ => false,
        };
        if is_doc {
            let t = to_chars(reference.target.as_str());
            let stripped = strip_rst(t.as_slice());
            match self.documents.get(from_chars(stripped.as_slice()).as_str()) {
                Some(o) => Some(copy_object(o)),
                None => {
                    match self.documents.get(reference.target.as_str()) {
                        Some(o) => Some(copy_object(o)),
                        None => None,
                    }
                },
            }
        } else if is_sec {
            match self.sections.get(reference.target.as_str()) {
                Some(o) => Some(copy_object(o)),
                None => None,
            }
        } else {
            match self.sections.get(reference.target.as_str()) {
                Some(o) => Some(copy_object(o)),
                None => {
                    match self.documents.get(reference.target.as_str()) {
                        Some(o) => Some(copy_object(o)),
                        None => None,
                    }
                },
            }
        }
    }

    fn validate_reference(&self, reference: &CrossReference) -> (r: ReferenceValidationResult) {
        match self.resolve_reference(reference) {
            Some(target_object) => ReferenceValidationResult {
                reference: copy_cross_reference(reference),
                is_valid: true,
                target_object: Some(target_object),
                error_message: None,
                suggestions: Vec::new(),
            },
            None => {
                let suggestions = self.find_suggestions(
                    reference.target.as_str(),
                    &reference.ref_type,
                );
                let head: &'static str = match reference.ref_type {
                    ReferenceType::Document => "Document '",
                    ReferenceType::Section => "Section label '",
                    _ => "Reference target '",
                };
                let mut msg: Vec<char> = Vec::new();
                append_str(&mut msg, head);
                append_str(&mut msg, reference.target.as_str());
                if suggestions.len() == 0 {
                    append_str(&mut msg, "' not found");
                } else {
                    append_str(&mut msg, "' not found. Did you mean: ");
                    let mut i: usize = 0;
                    while i < suggestions.len()
                        invariant
                            i <= suggestions@.len(),
                        decreases suggestions@.len() - i,
                    {
                        if i > 0 {
                            append_str(&mut msg, ", ");
                        }
                        append_str(&mut msg, suggestions[i].as_str());
                        i += 1;
                    }
                    append_str(&mut msg, "?");
                }
                ReferenceValidationResult {
                    reference: copy_cross_reference(reference),
                    is_valid: false,
                    target_object: None,
                    error_message: Some(from_chars(msg.as_slice())),
                    suggestions,
                }
            },
        }
    }

    fn get_all_objects(&self) -> (r: Vec<&DomainObject>) {
        let mut out: Vec<&DomainObject> = Vec::new();
        let nd = self.documents.len();
        let mut i: usize = 0;
        while i < nd
            invariant
                self.wf(),
                nd == self.spec_documents().key_seq().len(),
                i <= nd,
            decreases nd - i,
        {
            out.push(self.documents.val_at(i));
            i += 1;
        }
        let ns = self.sections.len();
        let mut k: usize = 0;
        while k < ns
            invariant
                self.wf(),
                ns == self.spec_sections().key_seq().len(),
                k <= ns,
            decreases ns - k,
        {
            out.push(self.sections.val_at(k));
            k += 1;
        }
        out
    }

    fn clear_objects(&mut self) {
        self.documents.clear();
        self.sections.clear();
    }
}

} // verus!
