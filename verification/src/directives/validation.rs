//! Validation for directives and roles: parsed forms, validation results,
//! validator traits, registries and statistics.

use vstd::prelude::*;

use crate::strmap::StrMap;

pub mod builtin;
pub mod roles;

use builtin::{
    AdmonitionValidator, CodeBlockValidator, FigureValidator, ImageValidator, IncludeValidator,
    LiteralIncludeValidator, MathValidator, NoteValidator, TocTreeValidator, WarningValidator,
};
use roles::{
    AbbreviationRoleValidator, CommandRoleValidator, DocRoleValidator, DownloadRoleValidator,
    FileRoleValidator, GuiLabelRoleValidator, KbdRoleValidator, MenuSelectionRoleValidator,
    MathRoleValidator, RefRoleValidator,
};

verus! {

/// Source location information for diagnostics.
pub struct SourceLocation {
    pub file: String,
    pub line: usize,
    pub column: usize,
}

/// A parsed directive with validation context.
pub struct ParsedDirective {
    pub name: String,
    pub arguments: Vec<String>,
    pub options: StrMap<String>,
    pub content: String,
    pub location: SourceLocation,
}

/// A parsed role with validation context.
pub struct ParsedRole {
    pub name: String,
    pub target: String,
    pub display_text: Option<String>,
    pub location: SourceLocation,
}

/// The result of validating a directive.
pub enum DirectiveValidationResult {
    Valid,
    Warning(String),
    Error(String),
    Unknown,
}

/// The result of validating a role.
pub enum RoleValidationResult {
    Valid,
    Warning(String),
    Error(String),
    Unknown,
}

/// The view of a validation result.
pub enum VRes {
    Valid,
    Warning(Seq<char>),
    Error(Seq<char>),
    Unknown,
}

impl View for DirectiveValidationResult {
    type V = VRes;

    open spec fn view(&self) -> VRes {
        match self {
            DirectiveValidationResult::Valid => VRes::Valid,
            DirectiveValidationResult::Warning(m) => VRes::Warning(m@),
            DirectiveValidationResult::Error(m) => VRes::Error(m@),
            DirectiveValidationResult::Unknown => VRes::Unknown,
        }
    }
}

impl View for RoleValidationResult {
    type V = VRes;

    open spec fn view(&self) -> VRes {
        match self {
            RoleValidationResult::Valid => VRes::Valid,
            RoleValidationResult::Warning(m) => VRes::Warning(m@),
            RoleValidationResult::Error(m) => VRes::Error(m@),
            RoleValidationResult::Unknown => VRes::Unknown,
        }
    }
}

/// A directive validator: a name, a validation function specified by its
/// own specification function, and its option and content expectations.
pub trait DirectiveValidator: Sized {
    /// What validate yields, as the specification sees it.
    spec fn spec_validate(&self, d: &ParsedDirective) -> VRes;

    /// The directive name this validator handles.
    fn name(&self) -> (r: &'static str);

    /// Validate a parsed directive.
    fn validate(&self, d: &ParsedDirective) -> (r: DirectiveValidationResult)
        requires
            d.options.wf(),
        ensures
            r@ == self.spec_validate(d),
    ;

    /// The expected arguments.
    fn expected_arguments(&self) -> (r: Vec<String>);

    /// The valid options.
    fn valid_options(&self) -> (r: Vec<String>);

    /// Whether content is required.
    fn requires_content(&self) -> (r: bool);

    /// Whether content is allowed.
    fn allows_content(&self) -> (r: bool);
}

/// A role validator: a name, a validation function specified by its own
/// specification function, and its target expectations.
pub trait RoleValidator: Sized {
    /// What validate yields, as the specification sees it.
    spec fn spec_validate(&self, role: &ParsedRole) -> VRes;

    /// The role name this validator handles.
    fn name(&self) -> (r: &'static str);

    /// Validate a parsed role.
    fn validate(&self, role: &ParsedRole) -> (r: RoleValidationResult)
        ensures
            r@ == self.spec_validate(role),
    ;

    /// Whether the role requires a target.
    fn requires_target(&self) -> (r: bool);

    /// Whether the role allows display text.
    fn allows_display_text(&self) -> (r: bool);
}

/// The built-in directive validators, as one closed kind.
pub enum DirectiveValidatorKind {
    CodeBlock(CodeBlockValidator),
    Note(NoteValidator),
    Warn(WarningValidator),
    Image(ImageValidator),
    Figure(FigureValidator),
    TocTree(TocTreeValidator),
    Include(IncludeValidator),
    LiteralInclude(LiteralIncludeValidator),
    Admonition(AdmonitionValidator),
    Math(MathValidator),
}

impl DirectiveValidatorKind {
    /// What the wrapped validator's validate yields.
    pub open spec fn spec_validate(&self, d: &ParsedDirective) -> VRes {
        match self {
            DirectiveValidatorKind::CodeBlock(v) => v.spec_validate(d),
            DirectiveValidatorKind::Note(v) => v.spec_validate(d),
            DirectiveValidatorKind::Warn(v) => v.spec_validate(d),
            DirectiveValidatorKind::Image(v) => v.spec_validate(d),
            DirectiveValidatorKind::Figure(v) => v.spec_validate(d),
            DirectiveValidatorKind::TocTree(v) => v.spec_validate(d),
            DirectiveValidatorKind::Include(v) => v.spec_validate(d),
            DirectiveValidatorKind::LiteralInclude(v) => v.spec_validate(d),
            DirectiveValidatorKind::Admonition(v) => v.spec_validate(d),
            DirectiveValidatorKind::Math(v) => v.spec_validate(d),
        }
    }

    /// The wrapped validator's directive name.
    pub fn kind_name(&self) -> (r: &'static str)
        ensures
            r@ == self.kind_name_spec(),
    {
        match self {
            DirectiveValidatorKind::CodeBlock(_) => "code-block",
            DirectiveValidatorKind::Note(_) => "note",
            DirectiveValidatorKind::Warn(_) => "warning",
            DirectiveValidatorKind::Image(_) => "image",
            DirectiveValidatorKind::Figure(_) => "figure",
            DirectiveValidatorKind::TocTree(_) => "toctree",
            DirectiveValidatorKind::Include(_) => "include",
            DirectiveValidatorKind::LiteralInclude(_) => "literalinclude",
            DirectiveValidatorKind::Admonition(_) => "admonition",
            DirectiveValidatorKind::Math(_) => "math",
        }
    }

    /// Validate through the wrapped validator.
    pub fn kind_validate(&self, d: &ParsedDirective) -> (r: DirectiveValidationResult)
        requires
            d.options.wf(),
        ensures
            r@ == self.spec_validate(d),
    {
        match self {
            DirectiveValidatorKind::CodeBlock(v) => v.validate(d),
            DirectiveValidatorKind::Note(v) => v.validate(d),
            DirectiveValidatorKind::Warn(v) => v.validate(d),
            DirectiveValidatorKind::Image(v) => v.validate(d),
            DirectiveValidatorKind::Figure(v) => v.validate(d),
            DirectiveValidatorKind::TocTree(v) => v.validate(d),
            DirectiveValidatorKind::Include(v) => v.validate(d),
            DirectiveValidatorKind::LiteralInclude(v) => v.validate(d),
            DirectiveValidatorKind::Admonition(v) => v.validate(d),
            DirectiveValidatorKind::Math(v) => v.validate(d),
        }
    }
}

/// The built-in role validators, as one closed kind.
pub enum RoleValidatorKind {
    Doc(DocRoleValidator),
    Reference(RefRoleValidator),
    Download(DownloadRoleValidator),
    Math(MathRoleValidator),
    Abbreviation(AbbreviationRoleValidator),
    Command(CommandRoleValidator),
    File(FileRoleValidator),
    Kbd(KbdRoleValidator),
    MenuSelection(MenuSelectionRoleValidator),
    GuiLabel(GuiLabelRoleValidator),
}

impl RoleValidatorKind {
    /// What the wrapped validator's validate yields.
    pub open spec fn spec_validate(&self, role: &ParsedRole) -> VRes {
        match self {
            RoleValidatorKind::Doc(v) => v.spec_validate(role),
            RoleValidatorKind::Reference(v) => v.spec_validate(role),
            RoleValidatorKind::Download(v) => v.spec_validate(role),
            RoleValidatorKind::Math(v) => v.spec_validate(role),
            RoleValidatorKind::Abbreviation(v) => v.spec_validate(role),
            RoleValidatorKind::Command(v) => v.spec_validate(role),
            RoleValidatorKind::File(v) => v.spec_validate(role),
            RoleValidatorKind::Kbd(v) => v.spec_validate(role),
            RoleValidatorKind::MenuSelection(v) => v.spec_validate(role),
            RoleValidatorKind::GuiLabel(v) => v.spec_validate(role),
        }
    }

    /// The wrapped validator's role name.
    pub fn kind_name(&self) -> (r: &'static str)
        ensures
            r@ == self.kind_name_spec(),
    {
        match self {
            RoleValidatorKind::Doc(_) => "doc",
            RoleValidatorKind::Reference(_) => "ref",
            RoleValidatorKind::Download(_) => "download",
            RoleValidatorKind::Math(_) => "math",
            RoleValidatorKind::Abbreviation(_) => "abbr",
            RoleValidatorKind::Command(_) => "command",
            RoleValidatorKind::File(_) => "file",
            RoleValidatorKind::Kbd(_) => "kbd",
            RoleValidatorKind::MenuSelection(_) => "menuselection",
            RoleValidatorKind::GuiLabel(_) => "guilabel",
        }
    }

    /// Validate through the wrapped validator.
    pub fn kind_validate(&self, role: &ParsedRole) -> (r: RoleValidationResult)
        ensures
            r@ == self.spec_validate(role),
    {
        match self {
            RoleValidatorKind::Doc(v) => v.validate(role),
            RoleValidatorKind::Reference(v) => v.validate(role),
            RoleValidatorKind::Download(v) => v.validate(role),
            RoleValidatorKind::Math(v) => v.validate(role),
            RoleValidatorKind::Abbreviation(v) => v.validate(role),
            RoleValidatorKind::Command(v) => v.validate(role),
            RoleValidatorKind::File(v) => v.validate(role),
            RoleValidatorKind::Kbd(v) => v.validate(role),
            RoleValidatorKind::MenuSelection(v) => v.validate(role),
            RoleValidatorKind::GuiLabel(v) => v.validate(role),
        }
    }
}


/// The names of the built-in directive validators, in registration order.
pub open spec fn spec_builtin_directive_names() -> Seq<Seq<char>> {
    seq!["code-block"@, "note"@, "warning"@, "image"@, "figure"@, "toctree"@, "include"@, "literalinclude"@, "admonition"@, "math"@]
}

/// Whether `v` is the built-in validator for the directive name `k`.
pub open spec fn spec_builtin_directive_bound(k: Seq<char>, v: DirectiveValidatorKind) -> bool {
    &&& (k == "code-block"@ ==> v is CodeBlock)
    &&& (k == "note"@ ==> v is Note)
    &&& (k == "warning"@ ==> v is Warn)
    &&& (k == "image"@ ==> v is Image)
    &&& (k == "figure"@ ==> v is Figure)
    &&& (k == "toctree"@ ==> v is TocTree)
    &&& (k == "include"@ ==> v is Include)
    &&& (k == "literalinclude"@ ==> v is LiteralInclude)
    &&& (k == "admonition"@ ==> v is Admonition)
    &&& (k == "math"@ ==> v is Math)
}

/// The names of the built-in role validators, in registration order.
pub open spec fn spec_builtin_role_names() -> Seq<Seq<char>> {
    seq!["doc"@, "ref"@, "download"@, "math"@, "abbr"@, "command"@, "file"@, "kbd"@, "menuselection"@, "guilabel"@]
}

/// Whether `v` is the built-in validator for the role name `k`.
pub open spec fn spec_builtin_role_bound(k: Seq<char>, v: RoleValidatorKind) -> bool {
    &&& (k == "doc"@ ==> v is Doc)
    &&& (k == "ref"@ ==> v is Reference)
    &&& (k == "download"@ ==> v is Download)
    &&& (k == "math"@ ==> v is Math)
    &&& (k == "abbr"@ ==> v is Abbreviation)
    &&& (k == "command"@ ==> v is Command)
    &&& (k == "file"@ ==> v is File)
    &&& (k == "kbd"@ ==> v is Kbd)
    &&& (k == "menuselection"@ ==> v is MenuSelection)
    &&& (k == "guilabel"@ ==> v is GuiLabel)
}

/// The ten built-in directive names are pairwise distinct.
pub proof fn lemma_builtin_directive_names_distinct()
    ensures
        forall|i: int, j: int|
            0 <= i < j < spec_builtin_directive_names().len()
                ==> spec_builtin_directive_names()[i] != spec_builtin_directive_names()[j],
{
    reveal_strlit("code-block");
    reveal_strlit("note");
    reveal_strlit("warning");
    reveal_strlit("image");
    reveal_strlit("figure");
    reveal_strlit("toctree");
    reveal_strlit("include");
    reveal_strlit("literalinclude");
    reveal_strlit("admonition");
    reveal_strlit("math");
    assert("code-block"@.len() == 10);
    assert("note"@.len() == 4);
    assert("warning"@.len() == 7);
    assert("image"@.len() == 5);
    assert("figure"@.len() == 6);
    assert("toctree"@.len() == 7);
    assert("include"@.len() == 7);
    assert("literalinclude"@.len() == 14);
    assert("admonition"@.len() == 10);
    assert("math"@.len() == 4);
    assert("warning"@[0] == 'w');
    assert("toctree"@[0] == 't');
    assert("include"@[0] == 'i');
    assert("note"@[0] == 'n');
    assert("math"@[0] == 'm');
    assert("code-block"@[0] == 'c');
    assert("admonition"@[0] == 'a');
}

/// The ten built-in role names are pairwise distinct.
pub proof fn lemma_builtin_role_names_distinct()
    ensures
        forall|i: int, j: int|
            0 <= i < j < spec_builtin_role_names().len() ==> spec_builtin_role_names()[i]
                != spec_builtin_role_names()[j],
{
    reveal_strlit("doc");
    reveal_strlit("ref");
    reveal_strlit("download");
    reveal_strlit("math");
    reveal_strlit("abbr");
    reveal_strlit("command");
    reveal_strlit("file");
    reveal_strlit("kbd");
    reveal_strlit("menuselection");
    reveal_strlit("guilabel");
    assert("doc"@.len() == 3);
    assert("ref"@.len() == 3);
    assert("download"@.len() == 8);
    assert("math"@.len() == 4);
    assert("abbr"@.len() == 4);
    assert("command"@.len() == 7);
    assert("file"@.len() == 4);
    assert("kbd"@.len() == 3);
    assert("menuselection"@.len() == 13);
    assert("guilabel"@.len() == 8);
    assert("doc"@[0] == 'd');
    assert("ref"@[0] == 'r');
    assert("kbd"@[0] == 'k');
    assert("math"@[0] == 'm');
    assert("abbr"@[0] == 'a');
    assert("file"@[0] == 'f');
    assert("download"@[0] == 'd');
    assert("download"@[1] == 'o');
    assert("guilabel"@[1] == 'u');
    assert("guilabel"@[0] == 'g');
}

/// A registered prefix of distinct names does not yet hold the next name.
proof fn lemma_prefix_absent(ks: Seq<Seq<char>>, names: Seq<Seq<char>>, j: int)
    requires
        0 <= j < names.len(),
        ks == names.subrange(0, j),
        forall|a: int, b: int| 0 <= a < b < names.len() ==> names[a] != names[b],
    ensures
        crate::strmap::seq_index_of(ks, names[j]) == -1,
{
    assert forall|x: int| 0 <= x < ks.len() implies ks[x] != names[j] by {
        assert(ks[x] == names[x]);
    }
    crate::strmap::lemma_seq_index_of_none(ks, names[j]);
}

/// A registry of directive validators, by directive name.
pub struct DirectiveRegistry {
    validators: StrMap<DirectiveValidatorKind>,
}

impl DirectiveRegistry {
    /// The registered validators.
    pub closed spec fn spec_map(self) -> StrMap<DirectiveValidatorKind> {
        self.validators
    }

    /// The registry is well-formed.
    pub open spec fn wf(self) -> bool {
        self.spec_map().wf()
    }

    /// Create an empty registry.
    pub fn new() -> (r: DirectiveRegistry)
        ensures
            r.wf(),
            r.spec_map().key_seq() == Seq::<Seq<char>>::empty(),
    {
        DirectiveRegistry { validators: StrMap::new() }
    }

    /// Create a registry holding exactly the ten built-in validators,
    /// each bound under its own name, in registration order.
    pub fn with_builtin_validators() -> (r: DirectiveRegistry)
        ensures
            r.wf(),
            r.spec_map().key_seq() == spec_builtin_directive_names(),
            forall|k: Seq<char>| #![auto] spec_builtin_directive_names().contains(k)
                ==> match r.spec_map().spec_get(k) {
                Some(v) => spec_builtin_directive_bound(k, v),
                None => false,
            },
            forall|k: Seq<char>| #![auto] r.spec_map().spec_contains_key(k)
                == spec_builtin_directive_names().contains(k),
    {
        let mut r = DirectiveRegistry::new();
        r.register_builtin_validators();
        r
    }

    /// Register one validator under its own name.
    pub fn register_validator(&mut self, v: DirectiveValidatorKind)
        requires
            old(self).wf(),
        ensures
            final(self).wf(),
            final(self).spec_map().spec_contains_key(v.kind_name_spec()),
            forall|k: Seq<char>| #![auto] final(self).spec_map().spec_contains_key(k) == (k
                == v.kind_name_spec() || old(self).spec_map().spec_contains_key(k)),
            forall|k: Seq<char>| #![auto] final(self).spec_map().spec_get(k) == if k
                == v.kind_name_spec() {
                Some(v)
            } else {
                old(self).spec_map().spec_get(k)
            },
            !old(self).spec_map().spec_contains_key(v.kind_name_spec()) ==> final(self).spec_map().key_seq() == old(self).spec_map().key_seq().push(v.kind_name_spec()),
            old(self).spec_map().spec_contains_key(v.kind_name_spec()) ==> final(self).spec_map().key_seq() == old(self).spec_map().key_seq(),
    {
        let name = v.kind_name();
        self.validators.insert(name, v);
    }

    /// Register every built-in validator: each of the ten names is bound
    /// to its own validator, nothing else changes, and on an empty registry
    /// the keys end up being exactly those ten, in order.
    #[verifier::rlimit(100)]
    #[verifier::spinoff_prover]
    pub fn register_builtin_validators(&mut self)
        requires
            old(self).wf(),
        ensures
            final(self).wf(),
            forall|k: Seq<char>| #![auto] spec_builtin_directive_names().contains(k) ==> match final(self).spec_map().spec_get(k) {
                Some(v) => spec_builtin_directive_bound(k, v),
                None => false,
            },
            forall|k: Seq<char>| #![auto] !spec_builtin_directive_names().contains(k) ==> final(self).spec_map().spec_get(k) == old(
                self,
            ).spec_map().spec_get(k),
            forall|k: Seq<char>| #![auto] final(self).spec_map().spec_contains_key(k) == (
            spec_builtin_directive_names().contains(k) || old(self).spec_map().spec_contains_key(k)),
            old(self).spec_map().key_seq() == Seq::<Seq<char>>::empty() ==> final(self).spec_map().key_seq() == spec_builtin_directive_names(),
    {
        proof {
            lemma_builtin_directive_names_distinct();
        }
        let ghost was_empty = old(self).spec_map().key_seq().len() == 0;
        let ghost names = spec_builtin_directive_names();
        proof {
            if was_empty {
                assert(self.spec_map().key_seq() =~= names.subrange(0, 0));
                lemma_prefix_absent(self.spec_map().key_seq(), names, 0);
            }
        }
        self.register_validator(DirectiveValidatorKind::CodeBlock(CodeBlockValidator::new()));
        proof {
            if was_empty {
                assert(self.spec_map().key_seq() =~= names.subrange(0, 1));
            }
        }
        proof {
            if was_empty {
                lemma_prefix_absent(self.spec_map().key_seq(), names, 1);
            }
        }
        self.register_validator(DirectiveValidatorKind::Note(NoteValidator::new()));
        proof {
            if was_empty {
                assert(self.spec_map().key_seq() =~= names.subrange(0, 2));
            }
        }
        proof {
            if was_empty {
                lemma_prefix_absent(self.spec_map().key_seq(), names, 2);
            }
        }
        self.register_validator(DirectiveValidatorKind::Warn(WarningValidator::new()));
        proof {
            if was_empty {
                assert(self.spec_map().key_seq() =~= names.subrange(0, 3));
            }
        }
        proof {
            if was_empty {
                lemma_prefix_absent(self.spec_map().key_seq(), names, 3);
            }
        }
        self.register_validator(DirectiveValidatorKind::Image(ImageValidator::new()));
        proof {
            if was_empty {
                assert(self.spec_map().key_seq() =~= names.subrange(0, 4));
            }
        }
        proof {
            if was_empty {
                lemma_prefix_absent(self.spec_map().key_seq(), names, 4);
            }
        }
        self.register_validator(DirectiveValidatorKind::Figure(FigureValidator::new()));
        proof {
            if was_empty {
                assert(self.spec_map().key_seq() =~= names.subrange(0, 5));
            }
        }
        proof {
            if was_empty {
                lemma_prefix_absent(self.spec_map().key_seq(), names, 5);
            }
        }
        self.register_validator(DirectiveValidatorKind::TocTree(TocTreeValidator::new()));
        proof {
            if was_empty {
                assert(self.spec_map().key_seq() =~= names.subrange(0, 6));
            }
        }
        proof {
            if was_empty {
                lemma_prefix_absent(self.spec_map().key_seq(), names, 6);
            }
        }
        self.register_validator(DirectiveValidatorKind::Include(IncludeValidator::new()));
        proof {
            if was_empty {
                assert(self.spec_map().key_seq() =~= names.subrange(0, 7));
            }
        }
        proof {
            if was_empty {
                lemma_prefix_absent(self.spec_map().key_seq(), names, 7);
            }
        }
        self.register_validator(DirectiveValidatorKind::LiteralInclude(LiteralIncludeValidator::new()));
        proof {
            if was_empty {
                assert(self.spec_map().key_seq() =~= names.subrange(0, 8));
            }
        }
        proof {
            if was_empty {
                lemma_prefix_absent(self.spec_map().key_seq(), names, 8);
            }
        }
        self.register_validator(DirectiveValidatorKind::Admonition(AdmonitionValidator::new()));
        proof {
            if was_empty {
                assert(self.spec_map().key_seq() =~= names.subrange(0, 9));
            }
        }
        proof {
            if was_empty {
                lemma_prefix_absent(self.spec_map().key_seq(), names, 9);
            }
        }
        self.register_validator(DirectiveValidatorKind::Math(MathValidator::new()));
        proof {
            if was_empty {
                assert(self.spec_map().key_seq() =~= names.subrange(0, 10));
            }
        }
        proof {
            assert(match self.spec_map().spec_get("code-block"@) {
                Some(v) => v is CodeBlock,
                None => false,
            });
            assert(match self.spec_map().spec_get("note"@) {
                Some(v) => v is Note,
                None => false,
            });
            assert(match self.spec_map().spec_get("warning"@) {
                Some(v) => v is Warn,
                None => false,
            });
            assert(match self.spec_map().spec_get("image"@) {
                Some(v) => v is Image,
                None => false,
            });
            assert(match self.spec_map().spec_get("figure"@) {
                Some(v) => v is Figure,
                None => false,
            });
            assert(match self.spec_map().spec_get("toctree"@) {
                Some(v) => v is TocTree,
                None => false,
            });
            assert(match self.spec_map().spec_get("include"@) {
                Some(v) => v is Include,
                None => false,
            });
            assert(match self.spec_map().spec_get("literalinclude"@) {
                Some(v) => v is LiteralInclude,
                None => false,
            });
            assert(match self.spec_map().spec_get("admonition"@) {
                Some(v) => v is Admonition,
                None => false,
            });
            assert(match self.spec_map().spec_get("math"@) {
                Some(v) => v is Math,
                None => false,
            });
            assert forall|k: Seq<char>| #![auto] spec_builtin_directive_names().contains(k) implies match self.spec_map().spec_get(k) {
                Some(v) => spec_builtin_directive_bound(k, v),
                None => false,
            } by {
                let i = choose|i: int| 0 <= i < names.len() && names[i] == k;
                if i == 0 {
                    assert(k == "code-block"@);
                }
                if i == 1 {
                    assert(k == "note"@);
                }
                if i == 2 {
                    assert(k == "warning"@);
                }
                if i == 3 {
                    assert(k == "image"@);
                }
                if i == 4 {
                    assert(k == "figure"@);
                }
                if i == 5 {
                    assert(k == "toctree"@);
                }
                if i == 6 {
                    assert(k == "include"@);
                }
                if i == 7 {
                    assert(k == "literalinclude"@);
                }
                if i == 8 {
                    assert(k == "admonition"@);
                }
                if i == 9 {
                    assert(k == "math"@);
                }
            }
            if was_empty {
                assert(names.subrange(0, 10) =~= names);
            }
        }
    }

    /// Validate a directive by its name; unregistered names are Unknown.
    pub fn validate_directive(&self, d: &ParsedDirective) -> (r: DirectiveValidationResult)
        requires
            self.wf(),
            d.options.wf(),
        ensures
            r@ == match self.spec_map().spec_get(d.name@) {
                Some(v) => v.spec_validate(d),
                None => VRes::Unknown,
            },
    {
        match self.validators.get(d.name.as_str()) {
            Some(v) => v.kind_validate(d),
            None => DirectiveValidationResult::Unknown,
        }
    }

    /// The registered directive names, in registration order.
    pub fn get_registered_directives(&self) -> (r: Vec<String>)
        ensures
            r.deep_view() == self.spec_map().key_seq(),
    {
        self.validators.keys_vec()
    }

    /// Whether a directive name is registered.
    pub fn is_directive_registered(&self, name: &str) -> (r: bool)
        ensures
            r == self.spec_map().spec_contains_key(name@),
    {
        self.validators.contains_key(name)
    }
}

impl DirectiveValidatorKind {
    /// The name of the wrapped validator, as the specification sees it.
    pub open spec fn kind_name_spec(&self) -> Seq<char> {
        match self {
            DirectiveValidatorKind::CodeBlock(_) => "code-block"@,
            DirectiveValidatorKind::Note(_) => "note"@,
            DirectiveValidatorKind::Warn(_) => "warning"@,
            DirectiveValidatorKind::Image(_) => "image"@,
            DirectiveValidatorKind::Figure(_) => "figure"@,
            DirectiveValidatorKind::TocTree(_) => "toctree"@,
            DirectiveValidatorKind::Include(_) => "include"@,
            DirectiveValidatorKind::LiteralInclude(_) => "literalinclude"@,
            DirectiveValidatorKind::Admonition(_) => "admonition"@,
            DirectiveValidatorKind::Math(_) => "math"@,
        }
    }
}

impl RoleValidatorKind {
    /// The name of the wrapped validator, as the specification sees it.
    pub open spec fn kind_name_spec(&self) -> Seq<char> {
        match self {
            RoleValidatorKind::Doc(_) => "doc"@,
            RoleValidatorKind::Reference(_) => "ref"@,
            RoleValidatorKind::Download(_) => "download"@,
            RoleValidatorKind::Math(_) => "math"@,
            RoleValidatorKind::Abbreviation(_) => "abbr"@,
            RoleValidatorKind::Command(_) => "command"@,
            RoleValidatorKind::File(_) => "file"@,
            RoleValidatorKind::Kbd(_) => "kbd"@,
            RoleValidatorKind::MenuSelection(_) => "menuselection"@,
            RoleValidatorKind::GuiLabel(_) => "guilabel"@,
        }
    }
}

/// A registry of role validators, by role name.
pub struct RoleRegistry {
    validators: StrMap<RoleValidatorKind>,
}

impl RoleRegistry {
    /// The registered validators.
    pub closed spec fn spec_map(self) -> StrMap<RoleValidatorKind> {
        self.validators
    }

    /// The registry is well-formed.
    pub open spec fn wf(self) -> bool {
        self.spec_map().wf()
    }

    /// Create an empty registry.
    pub fn new() -> (r: RoleRegistry)
        ensures
            r.wf(),
            r.spec_map().key_seq() == Seq::<Seq<char>>::empty(),
    {
        RoleRegistry { validators: StrMap::new() }
    }

    /// Create a registry holding exactly the ten built-in validators,
    /// each bound under its own name, in registration order.
    pub fn with_builtin_validators() -> (r: RoleRegistry)
        ensures
            r.wf(),
            r.spec_map().key_seq() == spec_builtin_role_names(),
            forall|k: Seq<char>| #![auto] spec_builtin_role_names().contains(k)
                ==> match r.spec_map().spec_get(k) {
                Some(v) => spec_builtin_role_bound(k, v),
                None => false,
            },
            forall|k: Seq<char>| #![auto] r.spec_map().spec_contains_key(k)
                == spec_builtin_role_names().contains(k),
    {
        let mut r = RoleRegistry::new();
        r.register_builtin_validators();
        r
    }

    /// Register one validator under its own name.
    pub fn register_validator(&mut self, v: RoleValidatorKind)
        requires
            old(self).wf(),
        ensures
            final(self).wf(),
            final(self).spec_map().spec_contains_key(v.kind_name_spec()),
            forall|k: Seq<char>| #![auto] final(self).spec_map().spec_contains_key(k) == (k
                == v.kind_name_spec() || old(self).spec_map().spec_contains_key(k)),
            forall|k: Seq<char>| #![auto] final(self).spec_map().spec_get(k) == if k
                == v.kind_name_spec() {
                Some(v)
            } else {
                old(self).spec_map().spec_get(k)
            },
            !old(self).spec_map().spec_contains_key(v.kind_name_spec()) ==> final(self).spec_map().key_seq() == old(self).spec_map().key_seq().push(v.kind_name_spec()),
            old(self).spec_map().spec_contains_key(v.kind_name_spec()) ==> final(self).spec_map().key_seq() == old(self).spec_map().key_seq(),
    {
        let name = v.kind_name();
        self.validators.insert(name, v);
    }

    /// Register every built-in validator: each of the ten names is bound
    /// to its own validator, nothing else changes, and on an empty registry
    /// the keys end up being exactly those ten, in order.
    #[verifier::rlimit(100)]
    #[verifier::spinoff_prover]
    pub fn register_builtin_validators(&mut self)
        requires
            old(self).wf(),
        ensures
            final(self).wf(),
            forall|k: Seq<char>| #![auto] spec_builtin_role_names().contains(k) ==> match final(self).spec_map().spec_get(k) {
                Some(v) => spec_builtin_role_bound(k, v),
                None => false,
            },
            forall|k: Seq<char>| #![auto] !spec_builtin_role_names().contains(k) ==> final(self).spec_map().spec_get(k) == old(
                self,
            ).spec_map().spec_get(k),
            forall|k: Seq<char>| #![auto] final(self).spec_map().spec_contains_key(k) == (
            spec_builtin_role_names().contains(k) || old(self).spec_map().spec_contains_key(k)),
            old(self).spec_map().key_seq() == Seq::<Seq<char>>::empty() ==> final(self).spec_map().key_seq() == spec_builtin_role_names(),
    {
        proof {
            lemma_builtin_role_names_distinct();
        }
        let ghost was_empty = old(self).spec_map().key_seq().len() == 0;
        let ghost names = spec_builtin_role_names();
        proof {
            if was_empty {
                assert(self.spec_map().key_seq() =~= names.subrange(0, 0));
                lemma_prefix_absent(self.spec_map().key_seq(), names, 0);
            }
        }
        self.register_validator(RoleValidatorKind::Doc(DocRoleValidator::new()));
        proof {
            if was_empty {
                assert(self.spec_map().key_seq() =~= names.subrange(0, 1));
            }
        }
        proof {
            if was_empty {
                lemma_prefix_absent(self.spec_map().key_seq(), names, 1);
            }
        }
        self.register_validator(RoleValidatorKind::Reference(RefRoleValidator::new()));
        proof {
            if was_empty {
                assert(self.spec_map().key_seq() =~= names.subrange(0, 2));
            }
        }
        proof {
            if was_empty {
                lemma_prefix_absent(self.spec_map().key_seq(), names, 2);
            }
        }
        self.register_validator(RoleValidatorKind::Download(DownloadRoleValidator::new()));
        proof {
            if was_empty {
                assert(self.spec_map().key_seq() =~= names.subrange(0, 3));
            }
        }
        proof {
            if was_empty {
                lemma_prefix_absent(self.spec_map().key_seq(), names, 3);
            }
        }
        self.register_validator(RoleValidatorKind::Math(MathRoleValidator::new()));
        proof {
            if was_empty {
                assert(self.spec_map().key_seq() =~= names.subrange(0, 4));
            }
        }
        proof {
            if was_empty {
                lemma_prefix_absent(self.spec_map().key_seq(), names, 4);
            }
        }
        self.register_validator(RoleValidatorKind::Abbreviation(AbbreviationRoleValidator::new()));
        proof {
            if was_empty {
                assert(self.spec_map().key_seq() =~= names.subrange(0, 5));
            }
        }
        proof {
            if was_empty {
                lemma_prefix_absent(self.spec_map().key_seq(), names, 5);
            }
        }
        self.register_validator(RoleValidatorKind::Command(CommandRoleValidator::new()));
        proof {
            if was_empty {
                assert(self.spec_map().key_seq() =~= names.subrange(0, 6));
            }
        }
        proof {
            if was_empty {
                lemma_prefix_absent(self.spec_map().key_seq(), names, 6);
            }
        }
        self.register_validator(RoleValidatorKind::File(FileRoleValidator::new()));
        proof {
            if was_empty {
                assert(self.spec_map().key_seq() =~= names.subrange(0, 7));
            }
        }
        proof {
            if was_empty {
                lemma_prefix_absent(self.spec_map().key_seq(), names, 7);
            }
        }
        self.register_validator(RoleValidatorKind::Kbd(KbdRoleValidator::new()));
        proof {
            if was_empty {
                assert(self.spec_map().key_seq() =~= names.subrange(0, 8));
            }
        }
        proof {
            if was_empty {
                lemma_prefix_absent(self.spec_map().key_seq(), names, 8);
            }
        }
        self.register_validator(RoleValidatorKind::MenuSelection(MenuSelectionRoleValidator::new()));
        proof {
            if was_empty {
                assert(self.spec_map().key_seq() =~= names.subrange(0, 9));
            }
        }
        proof {
            if was_empty {
                lemma_prefix_absent(self.spec_map().key_seq(), names, 9);
            }
        }
        self.register_validator(RoleValidatorKind::GuiLabel(GuiLabelRoleValidator::new()));
        proof {
            if was_empty {
                assert(self.spec_map().key_seq() =~= names.subrange(0, 10));
            }
        }
        proof {
            assert(match self.spec_map().spec_get("doc"@) {
                Some(v) => v is Doc,
                None => false,
            });
            assert(match self.spec_map().spec_get("ref"@) {
                Some(v) => v is Reference,
                None => false,
            });
            assert(match self.spec_map().spec_get("download"@) {
                Some(v) => v is Download,
                None => false,
            });
            assert(match self.spec_map().spec_get("math"@) {
                Some(v) => v is Math,
                None => false,
            });
            assert(match self.spec_map().spec_get("abbr"@) {
                Some(v) => v is Abbreviation,
                None => false,
            });
            assert(match self.spec_map().spec_get("command"@) {
                Some(v) => v is Command,
                None => false,
            });
            assert(match self.spec_map().spec_get("file"@) {
                Some(v) => v is File,
                None => false,
            });
            assert(match self.spec_map().spec_get("kbd"@) {
                Some(v) => v is Kbd,
                None => false,
            });
            assert(match self.spec_map().spec_get("menuselection"@) {
                Some(v) => v is MenuSelection,
                None => false,
            });
            assert(match self.spec_map().spec_get("guilabel"@) {
                Some(v) => v is GuiLabel,
                None => false,
            });
            assert forall|k: Seq<char>| #![auto] spec_builtin_role_names().contains(k) implies match self.spec_map().spec_get(k) {
                Some(v) => spec_builtin_role_bound(k, v),
                None => false,
            } by {
                let i = choose|i: int| 0 <= i < names.len() && names[i] == k;
                if i == 0 {
                    assert(k == "doc"@);
                }
                if i == 1 {
                    assert(k == "ref"@);
                }
                if i == 2 {
                    assert(k == "download"@);
                }
                if i == 3 {
                    assert(k == "math"@);
                }
                if i == 4 {
                    assert(k == "abbr"@);
                }
                if i == 5 {
                    assert(k == "command"@);
                }
                if i == 6 {
                    assert(k == "file"@);
                }
                if i == 7 {
                    assert(k == "kbd"@);
                }
                if i == 8 {
                    assert(k == "menuselection"@);
                }
                if i == 9 {
                    assert(k == "guilabel"@);
                }
            }
            if was_empty {
                assert(names.subrange(0, 10) =~= names);
            }
        }
    }

    /// Validate a role by its name; unregistered names are Unknown.
    pub fn validate_role(&self, role: &ParsedRole) -> (r: RoleValidationResult)
        requires
            self.wf(),
        ensures
            r@ == match self.spec_map().spec_get(role.name@) {
                Some(v) => v.spec_validate(role),
                None => VRes::Unknown,
            },
    {
        match self.validators.get(role.name.as_str()) {
            Some(v) => v.kind_validate(role),
            None => RoleValidationResult::Unknown,
        }
    }

    /// The registered role names, in registration order.
    pub fn get_registered_roles(&self) -> (r: Vec<String>)
        ensures
            r.deep_view() == self.spec_map().key_seq(),
    {
        self.validators.keys_vec()
    }

    /// Whether a role name is registered.
    pub fn is_role_registered(&self, name: &str) -> (r: bool)
        ensures
            r == self.spec_map().spec_contains_key(name@),
    {
        self.validators.contains_key(name)
    }
}

/// The next per-name count: one more than before, capped just under the
/// top of the range so that counting can never overflow.
pub open spec fn spec_bump_count(o: Option<usize>) -> int {
    match o {
        Some(c) => if c < usize::MAX - 1 {
            c + 1
        } else {
            c as int
        },
        None => 1,
    }
}

/// Counts of validation outcomes, by result and by name.
pub struct ValidationStatistics {
    pub total_directives: usize,
    pub valid_directives: usize,
    pub warning_directives: usize,
    pub error_directives: usize,
    pub unknown_directives: usize,
    pub total_roles: usize,
    pub valid_roles: usize,
    pub warning_roles: usize,
    pub error_roles: usize,
    pub unknown_roles: usize,
    pub directives_by_type: StrMap<usize>,
    pub roles_by_type: StrMap<usize>,
}

impl ValidationStatistics {
    /// The statistics are well-formed and cannot overflow on the next
    /// record.
    pub open spec fn wf(self) -> bool {
        self.directives_by_type.wf() && self.roles_by_type.wf() && self.total_directives
            < usize::MAX - 1 && self.total_roles < usize::MAX - 1 && self.valid_directives
            <= self.total_directives && self.warning_directives <= self.total_directives
            && self.error_directives <= self.total_directives && self.unknown_directives
            <= self.total_directives && self.valid_roles <= self.total_roles && self.warning_roles
            <= self.total_roles && self.error_roles <= self.total_roles && self.unknown_roles
            <= self.total_roles
    }

    /// Create empty statistics: every counter zero, both by-name maps
    /// empty.
    pub fn new() -> (r: ValidationStatistics)
        ensures
            r.wf(),
            r.total_directives == 0,
            r.valid_directives == 0,
            r.warning_directives == 0,
            r.error_directives == 0,
            r.unknown_directives == 0,
            r.total_roles == 0,
            r.valid_roles == 0,
            r.warning_roles == 0,
            r.error_roles == 0,
            r.unknown_roles == 0,
            r.directives_by_type.key_seq().len() == 0,
            r.roles_by_type.key_seq().len() == 0,
    {
        ValidationStatistics {
            total_directives: 0,
            valid_directives: 0,
            warning_directives: 0,
            error_directives: 0,
            unknown_directives: 0,
            total_roles: 0,
            valid_roles: 0,
            warning_roles: 0,
            error_roles: 0,
            unknown_roles: 0,
            directives_by_type: StrMap::new(),
            roles_by_type: StrMap::new(),
        }
    }

    /// Record one directive validation result: the total and the bucket of
    /// the result's variant go up by one, the directive's by-name count is
    /// bumped (capped just under the top of the range), and every role
    /// counter stays put.
    pub fn record_directive(&mut self, d: &ParsedDirective, result: &DirectiveValidationResult)
        requires
            old(self).wf(),
            old(self).total_directives < usize::MAX - 2,
        ensures
            final(self).wf(),
            final(self).total_directives == old(self).total_directives + 1,
            final(self).valid_directives == old(self).valid_directives + if result@ is Valid {
                1int
            } else {
                0int
            },
            final(self).warning_directives == old(self).warning_directives + if result@
                is Warning {
                1int
            } else {
                0int
            },
            final(self).error_directives == old(self).error_directives + if result@ is Error {
                1int
            } else {
                0int
            },
            final(self).unknown_directives == old(self).unknown_directives + if result@
                is Unknown {
                1int
            } else {
                0int
            },
            match final(self).directives_by_type.spec_get(d.name@) {
                Some(c) => c as int == spec_bump_count(
                    old(self).directives_by_type.spec_get(d.name@),
                ),
                None => false,
            },
            forall|k: Seq<char>| #![auto] k != d.name@ ==> final(self).directives_by_type.spec_get(k) == old(self).directives_by_type.spec_get(k),
            final(self).roles_by_type == old(self).roles_by_type,
            final(self).total_roles == old(self).total_roles,
            final(self).valid_roles == old(self).valid_roles,
            final(self).warning_roles == old(self).warning_roles,
            final(self).error_roles == old(self).error_roles,
            final(self).unknown_roles == old(self).unknown_roles,
    {
        self.total_directives = self.total_directives + 1;
        let count: usize = match self.directives_by_type.get(d.name.as_str()) {
            Some(c) => if *c < usize::MAX - 1 {
                *c + 1
            } else {
                *c
            },
            None => 1,
        };
        self.directives_by_type.insert(d.name.as_str(), count);
        match result {
            DirectiveValidationResult::Valid => {
                self.valid_directives = self.valid_directives + 1;
            },
            DirectiveValidationResult::Warning(_) => {
                self.warning_directives = self.warning_directives + 1;
            },
            DirectiveValidationResult::Error(_) => {
                self.error_directives = self.error_directives + 1;
            },
            DirectiveValidationResult::Unknown => {
                self.unknown_directives = self.unknown_directives + 1;
            },
        }
    }

    /// Record one role validation result: the total and the bucket of the
    /// result's variant go up by one, the role's by-name count is bumped
    /// (capped just under the top of the range), and every directive
    /// counter stays put.
    pub fn record_role(&mut self, role: &ParsedRole, result: &RoleValidationResult)
        requires
            old(self).wf(),
            old(self).total_roles < usize::MAX - 2,
        ensures
            final(self).wf(),
            final(self).total_roles == old(self).total_roles + 1,
            final(self).valid_roles == old(self).valid_roles + if result@ is Valid {
                1int
            } else {
                0int
            },
            final(self).warning_roles == old(self).warning_roles + if result@ is Warning {
                1int
            } else {
                0int
            },
            final(self).error_roles == old(self).error_roles + if result@ is Error {
                1int
            } else {
                0int
            },
            final(self).unknown_roles == old(self).unknown_roles + if result@ is Unknown {
                1int
            } else {
                0int
            },
            match final(self).roles_by_type.spec_get(role.name@) {
                Some(c) => c as int == spec_bump_count(
                    old(self).roles_by_type.spec_get(role.name@),
                ),
                None => false,
            },
            forall|k: Seq<char>| #![auto] k != role.name@ ==> final(self).roles_by_type.spec_get(k) == old(self).roles_by_type.spec_get(k),
            final(self).directives_by_type == old(self).directives_by_type,
            final(self).total_directives == old(self).total_directives,
            final(self).valid_directives == old(self).valid_directives,
            final(self).warning_directives == old(self).warning_directives,
            final(self).error_directives == old(self).error_directives,
            final(self).unknown_directives == old(self).unknown_directives,
    {
        self.total_roles = self.total_roles + 1;
        let count: usize = match self.roles_by_type.get(role.name.as_str()) {
            Some(c) => if *c < usize::MAX - 1 {
                *c + 1
            } else {
                *c
            },
            None => 1,
        };
        self.roles_by_type.insert(role.name.as_str(), count);
        match result {
            RoleValidationResult::Valid => {
                self.valid_roles = self.valid_roles + 1;
            },
            RoleValidationResult::Warning(_) => {
                self.warning_roles = self.warning_roles + 1;
            },
            RoleValidationResult::Error(_) => {
                self.error_roles = self.error_roles + 1;
            },
            RoleValidationResult::Unknown => {
                self.unknown_roles = self.unknown_roles + 1;
            },
        }
    }
}

/// The whole validation system: both registries and the statistics.
pub struct DirectiveValidationSystem {
    directive_registry: DirectiveRegistry,
    role_registry: RoleRegistry,
    statistics: ValidationStatistics,
}

impl DirectiveValidationSystem {
    /// The system is well-formed.
    pub open spec fn wf(self) -> bool {
        self.spec_directives().wf() && self.spec_roles().wf() && self.spec_stats().wf()
    }

    /// The directive registry.
    pub closed spec fn spec_directives(self) -> DirectiveRegistry {
        self.directive_registry
    }

    /// The role registry.
    pub closed spec fn spec_roles(self) -> RoleRegistry {
        self.role_registry
    }

    /// The statistics.
    pub closed spec fn spec_stats(self) -> ValidationStatistics {
        self.statistics
    }

    /// Create a system holding exactly the built-in validators on both
    /// sides, with fresh statistics.
    pub fn new() -> (r: DirectiveValidationSystem)
        ensures
            r.wf(),
            r.spec_directives().spec_map().key_seq() == spec_builtin_directive_names(),
            forall|k: Seq<char>| #![auto] spec_builtin_directive_names().contains(k)
                ==> match r.spec_directives().spec_map().spec_get(k) {
                Some(v) => spec_builtin_directive_bound(k, v),
                None => false,
            },
            r.spec_roles().spec_map().key_seq() == spec_builtin_role_names(),
            forall|k: Seq<char>| #![auto] spec_builtin_role_names().contains(k)
                ==> match r.spec_roles().spec_map().spec_get(k) {
                Some(v) => spec_builtin_role_bound(k, v),
                None => false,
            },
            r.spec_stats().total_directives == 0,
            r.spec_stats().valid_directives == 0,
            r.spec_stats().warning_directives == 0,
            r.spec_stats().error_directives == 0,
            r.spec_stats().unknown_directives == 0,
            r.spec_stats().total_roles == 0,
            r.spec_stats().valid_roles == 0,
            r.spec_stats().warning_roles == 0,
            r.spec_stats().error_roles == 0,
            r.spec_stats().unknown_roles == 0,
            r.spec_stats().directives_by_type.key_seq().len() == 0,
            r.spec_stats().roles_by_type.key_seq().len() == 0,
    {
        DirectiveValidationSystem {
            directive_registry: DirectiveRegistry::with_builtin_validators(),
            role_registry: RoleRegistry::with_builtin_validators(),
            statistics: ValidationStatistics::new(),
        }
    }

    /// The directive registry.
    pub fn directive_registry(&self) -> (r: &DirectiveRegistry)
        ensures
            *r == self.spec_directives(),
    {
        &self.directive_registry
    }

    /// The directive registry, for registration.
    pub fn directive_registry_mut(&mut self) -> (r: &mut DirectiveRegistry) {
        &mut self.directive_registry
    }

    /// The role registry.
    pub fn role_registry(&self) -> (r: &RoleRegistry)
        ensures
            *r == self.spec_roles(),
    {
        &self.role_registry
    }

    /// The role registry, for registration.
    pub fn role_registry_mut(&mut self) -> (r: &mut RoleRegistry) {
        &mut self.role_registry
    }

    /// Validate a directive and count the outcome: the result is the bound
    /// validator's, the total and the bucket of the result's variant go up
    /// by one, the directive's by-name count is bumped, and the registries
    /// and the role statistics stay put.
    pub fn validate_directive(&mut self, d: &ParsedDirective) -> (r: DirectiveValidationResult)
        requires
            old(self).wf(),
            d.options.wf(),
            old(self).spec_stats().total_directives < usize::MAX - 2,
        ensures
            final(self).wf(),
            r@ == match old(self).spec_directives().spec_map().spec_get(d.name@) {
                Some(v) => v.spec_validate(d),
                None => VRes::Unknown,
            },
            final(self).spec_stats().total_directives == old(
                self,
            ).spec_stats().total_directives + 1,
            final(self).spec_stats().valid_directives == old(self).spec_stats().valid_directives
                + if r@ is Valid {
                1int
            } else {
                0int
            },
            final(self).spec_stats().warning_directives == old(
                self,
            ).spec_stats().warning_directives + if r@ is Warning {
                1int
            } else {
                0int
            },
            final(self).spec_stats().error_directives == old(self).spec_stats().error_directives
                + if r@ is Error {
                1int
            } else {
                0int
            },
            final(self).spec_stats().unknown_directives == old(
                self,
            ).spec_stats().unknown_directives + if r@ is Unknown {
                1int
            } else {
                0int
            },
            match final(self).spec_stats().directives_by_type.spec_get(d.name@) {
                Some(c) => c as int == spec_bump_count(
                    old(self).spec_stats().directives_by_type.spec_get(d.name@),
                ),
                None => false,
            },
            forall|k: Seq<char>| #![auto] k != d.name@ ==> final(self).spec_stats().directives_by_type.spec_get(k) == old(self).spec_stats().directives_by_type.spec_get(k),
            final(self).spec_stats().roles_by_type == old(self).spec_stats().roles_by_type,
            final(self).spec_stats().total_roles == old(self).spec_stats().total_roles,
            final(self).spec_stats().valid_roles == old(self).spec_stats().valid_roles,
            final(self).spec_stats().warning_roles == old(self).spec_stats().warning_roles,
            final(self).spec_stats().error_roles == old(self).spec_stats().error_roles,
            final(self).spec_stats().unknown_roles == old(self).spec_stats().unknown_roles,
            final(self).spec_directives() == old(self).spec_directives(),
            final(self).spec_roles() == old(self).spec_roles(),
    {
        let r = self.directive_registry.validate_directive(d);
        self.statistics.record_directive(d, &r);
        r
    }

    /// Validate a role and count the outcome: the result is the bound
    /// validator's, the total and the bucket of the result's variant go up
    /// by one, the role's by-name count is bumped, and the registries and
    /// the directive statistics stay put.
    pub fn validate_role(&mut self, role: &ParsedRole) -> (r: RoleValidationResult)
        requires
            old(self).wf(),
            old(self).spec_stats().total_roles < usize::MAX - 2,
        ensures
            final(self).wf(),
            r@ == match old(self).spec_roles().spec_map().spec_get(role.name@) {
                Some(v) => v.spec_validate(role),
                None => VRes::Unknown,
            },
            final(self).spec_stats().total_roles == old(self).spec_stats().total_roles + 1,
            final(self).spec_stats().valid_roles == old(self).spec_stats().valid_roles + if r@
                is Valid {
                1int
            } else {
                0int
            },
            final(self).spec_stats().warning_roles == old(self).spec_stats().warning_roles
                + if r@ is Warning {
                1int
            } else {
                0int
            },
            final(self).spec_stats().error_roles == old(self).spec_stats().error_roles + if r@
                is Error {
                1int
            } else {
                0int
            },
            final(self).spec_stats().unknown_roles == old(self).spec_stats().unknown_roles
                + if r@ is Unknown {
                1int
            } else {
                0int
            },
            match final(self).spec_stats().roles_by_type.spec_get(role.name@) {
                Some(c) => c as int == spec_bump_count(
                    old(self).spec_stats().roles_by_type.spec_get(role.name@),
                ),
                None => false,
            },
            forall|k: Seq<char>| #![auto] k != role.name@ ==> final(self).spec_stats().roles_by_type.spec_get(k) == old(self).spec_stats().roles_by_type.spec_get(k),
            final(self).spec_stats().directives_by_type == old(
                self,
            ).spec_stats().directives_by_type,
            final(self).spec_stats().total_directives == old(self).spec_stats().total_directives,
            final(self).spec_stats().valid_directives == old(self).spec_stats().valid_directives,
            final(self).spec_stats().warning_directives == old(
                self,
            ).spec_stats().warning_directives,
            final(self).spec_stats().error_directives == old(self).spec_stats().error_directives,
            final(self).spec_stats().unknown_directives == old(
                self,
            ).spec_stats().unknown_directives,
            final(self).spec_directives() == old(self).spec_directives(),
            final(self).spec_roles() == old(self).spec_roles(),
    {
        let r = self.role_registry.validate_role(role);
        self.statistics.record_role(role, &r);
        r
    }

    /// The current statistics.
    pub fn statistics(&self) -> (r: &ValidationStatistics)
        ensures
            *r == self.spec_stats(),
    {
        &self.statistics
    }

    /// Reset the statistics.
    pub fn reset_statistics(&mut self)
        ensures
            final(self).spec_stats().wf(),
            final(self).spec_stats().total_directives == 0,
            final(self).spec_stats().valid_directives == 0,
            final(self).spec_stats().warning_directives == 0,
            final(self).spec_stats().error_directives == 0,
            final(self).spec_stats().unknown_directives == 0,
            final(self).spec_stats().total_roles == 0,
            final(self).spec_stats().valid_roles == 0,
            final(self).spec_stats().warning_roles == 0,
            final(self).spec_stats().error_roles == 0,
            final(self).spec_stats().unknown_roles == 0,
            final(self).spec_stats().directives_by_type.key_seq().len() == 0,
            final(self).spec_stats().roles_by_type.key_seq().len() == 0,
            final(self).spec_directives() == old(self).spec_directives(),
            final(self).spec_roles() == old(self).spec_roles(),
    {
        self.statistics = ValidationStatistics::new();
    }
}

} // verus!
