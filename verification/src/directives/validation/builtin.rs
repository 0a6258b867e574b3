//! Built-in directive validators.

use vstd::prelude::*;

use crate::directives::validation::{
    DirectiveValidationResult, DirectiveValidator, ParsedDirective, VRes,
};
use crate::document::{opts_view, lemma_view_entry};
use crate::strmap::StrMap;
use crate::text::{
    append_chars, append_str, chars_eq_str, ends_with_str, from_chars, is_float_literal,
    parse_u32, slice_range, spec_count_char, count_char, spec_ends_with, spec_float_literal,
    spec_is_blank, spec_parse_uint, spec_trim, to_chars, trim_chars, lower_of, lowercase_str,
};
use crate::parser::spec_rfind;

verus! {

/// The option rules of the validators that scan their options.
pub enum OptRule {
    CodeBlock,
    Note,
    Warn,
    Image,
    Toctree,
    LiteralInclude,
}

/// What one option contributes under a rule: a warning, an error, or
/// nothing.
pub open spec fn spec_opt_check(k: OptRule, name: Seq<char>, value: Seq<char>) -> Option<VRes> {
    match k {
        OptRule::CodeBlock => if name == "linenos"@ {
            if value.len() > 0 {
                Some(VRes::Error("linenos option should not have a value"@))
            } else {
                None
            }
        } else if name == "lineno-start"@ {
            if spec_parse_uint(value, u32::MAX as int) is None {
                Some(VRes::Error("lineno-start must be a positive integer"@))
            } else {
                None
            }
        } else if name == "emphasize-lines"@ || name == "caption"@ || name == "name"@ || name
            == "dedent"@ {
            None
        } else {
            Some(VRes::Warning("Unknown option '"@ + name + "' for code-block directive"@))
        },
        OptRule::Note => if name == "class"@ || name == "name"@ {
            None
        } else {
            Some(VRes::Warning("Unknown option '"@ + name + "' for note directive"@))
        },
        OptRule::Warn => if name == "class"@ || name == "name"@ {
            None
        } else {
            Some(VRes::Warning("Unknown option '"@ + name + "' for warning directive"@))
        },
        OptRule::Image => if name == "alt"@ || name == "target"@ || name == "class"@ || name
            == "name"@ {
            None
        } else if name == "width"@ || name == "height"@ {
            if !spec_ends_with(value, "px"@) && !spec_ends_with(value, "%"@) && !spec_ends_with(
                value,
                "em"@,
            ) {
                Some(VRes::Warning(name + " should include units (px, %, em)"@))
            } else {
                None
            }
        } else if name == "scale"@ {
            if !spec_float_literal(value) {
                Some(VRes::Error("Scale must be a number"@))
            } else {
                None
            }
        } else if name == "align"@ {
            if !(value == "left"@ || value == "center"@ || value == "right"@ || value == "top"@
                || value == "middle"@ || value == "bottom"@) {
                Some(
                    VRes::Error(
                        "Invalid alignment: "@ + value
                            + ". Valid options: left, center, right, top, middle, bottom"@,
                    ),
                )
            } else {
                None
            }
        } else {
            Some(VRes::Warning("Unknown option '"@ + name + "' for image directive"@))
        },
        OptRule::Toctree => if name == "maxdepth"@ {
            match spec_parse_uint(value, u32::MAX as int) {
                Some(depth) => if depth > 10 {
                    Some(
                        VRes::Warning("Very deep toctree depth may cause performance issues"@),
                    )
                } else {
                    None
                },
                None => Some(VRes::Error("maxdepth must be a positive integer"@)),
            }
        } else if name == "numbered"@ || name == "titlesonly"@ || name == "glob"@ || name
            == "reversed"@ || name == "hidden"@ || name == "includehidden"@ {
            if value.len() > 0 {
                Some(VRes::Warning(name + " option should not have a value"@))
            } else {
                None
            }
        } else if name == "caption"@ || name == "name"@ || name == "class"@ {
            None
        } else {
            Some(VRes::Warning("Unknown option '"@ + name + "' for toctree directive"@))
        },
        OptRule::LiteralInclude => if name == "start-line"@ || name == "end-line"@ || name
            == "lineno-start"@ || name == "tab-width"@ {
            if spec_parse_uint(value, u32::MAX as int) is None {
                Some(VRes::Error(name + " must be a positive integer"@))
            } else {
                None
            }
        } else if name == "dedent"@ {
            if value.len() > 0 && spec_parse_uint(value, u32::MAX as int) is None {
                Some(VRes::Error("dedent must be a positive integer"@))
            } else {
                None
            }
        } else if name == "language"@ || name == "start-after"@ || name == "end-before"@ || name
            == "prepend"@ || name == "append"@ || name == "caption"@ || name == "name"@ || name
            == "class"@ || name == "encoding"@ || name == "pyobject"@ || name == "diff"@ {
            None
        } else if name == "linenos"@ || name == "force"@ {
            if value.len() > 0 {
                Some(VRes::Warning(name + " option should not have a value"@))
            } else {
                None
            }
        } else {
            Some(VRes::Warning("Unknown option '"@ + name + "' for literalinclude directive"@))
        },
    }
}

/// An unknown-option message.
fn unknown_opt_msg(name: &[char], tail: &str) -> (r: String)
    ensures
        r@ == "Unknown option '"@ + name@ + tail@,
{
    let mut out: Vec<char> = Vec::new();
    append_str(&mut out, "Unknown option '");
    append_chars(&mut out, name);
    append_str(&mut out, tail);
    proof {
        assert(out@ =~= "Unknown option '"@ + name@ + tail@);
    }
    from_chars(out.as_slice())
}

/// A message of the form name + tail.
fn name_msg(name: &[char], tail: &str) -> (r: String)
    ensures
        r@ == name@ + tail@,
{
    let mut out: Vec<char> = Vec::new();
    append_chars(&mut out, name);
    append_str(&mut out, tail);
    proof {
        assert(out@ =~= name@ + tail@);
    }
    from_chars(out.as_slice())
}

/// Check one option under a rule.
fn opt_check(k: &OptRule, name: &[char], value: &[char]) -> (r: Option<DirectiveValidationResult>)
    ensures
        match r {
            Some(res) => spec_opt_check(*k, name@, value@) == Some(res@),
            None => spec_opt_check(*k, name@, value@) is None,
        },
{
    match k {
        OptRule::CodeBlock => {
            if chars_eq_str(name, "linenos") {
                if value.len() > 0 {
                    Some(
                        DirectiveValidationResult::Error(
                            String::from_str("linenos option should not have a value"),
                        ),
                    )
                } else {
                    None
                }
            } else if chars_eq_str(name, "lineno-start") {
                match parse_u32(value) {
                    None => Some(
                        DirectiveValidationResult::Error(
                            String::from_str("lineno-start must be a positive integer"),
                        ),
                    ),
                    Some(_) => None,
                }
            } else if chars_eq_str(name, "emphasize-lines") || chars_eq_str(name, "caption")
                || chars_eq_str(name, "name") || chars_eq_str(name, "dedent") {
                None
            } else {
                Some(
                    DirectiveValidationResult::Warning(
                        unknown_opt_msg(name, "' for code-block directive"),
                    ),
                )
            }
        },
        OptRule::Note => {
            if chars_eq_str(name, "class") || chars_eq_str(name, "name") {
                None
            } else {
                Some(
                    DirectiveValidationResult::Warning(
                        unknown_opt_msg(name, "' for note directive"),
                    ),
                )
            }
        },
        OptRule::Warn => {
            if chars_eq_str(name, "class") || chars_eq_str(name, "name") {
                None
            } else {
                Some(
                    DirectiveValidationResult::Warning(
                        unknown_opt_msg(name, "' for warning directive"),
                    ),
                )
            }
        },
        OptRule::Image => {
            if chars_eq_str(name, "alt") || chars_eq_str(name, "target") || chars_eq_str(
                name,
                "class",
            ) || chars_eq_str(name, "name") {
                None
            } else if chars_eq_str(name, "width") || chars_eq_str(name, "height") {
                if !ends_with_str(value, "px") && !ends_with_str(value, "%") && !ends_with_str(
                    value,
                    "em",
                ) {
                    Some(
                        DirectiveValidationResult::Warning(
                            name_msg(name, " should include units (px, %, em)"),
                        ),
                    )
                } else {
                    None
                }
            } else if chars_eq_str(name, "scale") {
                if !is_float_literal(value) {
                    Some(
                        DirectiveValidationResult::Error(
                            String::from_str("Scale must be a number"),
                        ),
                    )
                } else {
                    None
                }
            } else if chars_eq_str(name, "align") {
                if !(chars_eq_str(value, "left") || chars_eq_str(value, "center")
                    || chars_eq_str(value, "right") || chars_eq_str(value, "top") || chars_eq_str(
                    value,
                    "middle",
                ) || chars_eq_str(value, "bottom")) {
                    let mut out: Vec<char> = Vec::new();
                    append_str(&mut out, "Invalid alignment: ");
                    append_chars(&mut out, value);
                    append_str(
                        &mut out,
                        ". Valid options: left, center, right, top, middle, bottom",
                    );
                    proof {
                        assert(out@ =~= "Invalid alignment: "@ + value@
                            + ". Valid options: left, center, right, top, middle, bottom"@);
                    }
                    Some(DirectiveValidationResult::Error(from_chars(out.as_slice())))
                } else {
                    None
                }
            } else {
                Some(
                    DirectiveValidationResult::Warning(
                        unknown_opt_msg(name, "' for image directive"),
                    ),
                )
            }
        },
        OptRule::Toctree => {
            if chars_eq_str(name, "maxdepth") {
                match parse_u32(value) {
                    Some(depth) => {
                        if depth > 10 {
                            Some(
                                DirectiveValidationResult::Warning(
                                    String::from_str(
                                        "Very deep toctree depth may cause performance issues",
                                    ),
                                ),
                            )
                        } else {
                            None
                        }
                    },
                    None => Some(
                        DirectiveValidationResult::Error(
                            String::from_str("maxdepth must be a positive integer"),
                        ),
                    ),
                }
            } else if chars_eq_str(name, "numbered") || chars_eq_str(name, "titlesonly")
                || chars_eq_str(name, "glob") || chars_eq_str(name, "reversed") || chars_eq_str(
                name,
                "hidden",
            ) || chars_eq_str(name, "includehidden") {
                if value.len() > 0 {
                    Some(
                        DirectiveValidationResult::Warning(
                            name_msg(name, " option should not have a value"),
                        ),
                    )
                } else {
                    None
                }
            } else if chars_eq_str(name, "caption") || chars_eq_str(name, "name") || chars_eq_str(
                name,
                "class",
            ) {
                None
            } else {
                Some(
                    DirectiveValidationResult::Warning(
                        unknown_opt_msg(name, "' for toctree directive"),
                    ),
                )
            }
        },
        OptRule::LiteralInclude => {
            if chars_eq_str(name, "start-line") || chars_eq_str(name, "end-line") || chars_eq_str(
                name,
                "lineno-start",
            ) || chars_eq_str(name, "tab-width") {
                match parse_u32(value) {
                    None => Some(
                        DirectiveValidationResult::Error(
                            name_msg(name, " must be a positive integer"),
                        ),
                    ),
                    Some(_) => None,
                }
            } else if chars_eq_str(name, "dedent") {
                if value.len() > 0 {
                    match parse_u32(value) {
                        None => Some(
                            DirectiveValidationResult::Error(
                                String::from_str("dedent must be a positive integer"),
                            ),
                        ),
                        Some(_) => None,
                    }
                } else {
                    None
                }
            } else if chars_eq_str(name, "language") || chars_eq_str(name, "start-after")
                || chars_eq_str(name, "end-before") || chars_eq_str(name, "prepend")
                || chars_eq_str(name, "append") || chars_eq_str(name, "caption") || chars_eq_str(
                name,
                "name",
            ) || chars_eq_str(name, "class") || chars_eq_str(name, "encoding") || chars_eq_str(
                name,
                "pyobject",
            ) || chars_eq_str(name, "diff") {
                None
            } else if chars_eq_str(name, "linenos") || chars_eq_str(name, "force") {
                if value.len() > 0 {
                    Some(
                        DirectiveValidationResult::Warning(
                            name_msg(name, " option should not have a value"),
                        ),
                    )
                } else {
                    None
                }
            } else {
                Some(
                    DirectiveValidationResult::Warning(
                        unknown_opt_msg(name, "' for literalinclude directive"),
                    ),
                )
            }
        },
    }
}

/// The first warning or error among the options, else Valid.
pub open spec fn spec_opt_scan(k: OptRule, ps: Seq<(Seq<char>, Seq<char>)>) -> VRes
    decreases ps.len(),
{
    if ps.len() == 0 {
        VRes::Valid
    } else {
        match spec_opt_check(k, ps[0].0, ps[0].1) {
            Some(r) => r,
            None => spec_opt_scan(k, ps.drop_first()),
        }
    }
}

/// Scan every option of a directive under a rule.
fn opt_scan(k: &OptRule, m: &StrMap<String>) -> (r: DirectiveValidationResult)
    requires
        m.wf(),
    ensures
        r@ == spec_opt_scan(*k, opts_view(*m)),
{
    let ghost ps = opts_view(*m);
    let n = m.len();
    let mut i: usize = 0;
    proof {
        assert(ps.subrange(0, ps.len() as int) =~= ps);
        assert(ps.subrange(i as int, ps.len() as int) =~= ps);
    }
    while i < n
        invariant
            m.wf(),
            ps == opts_view(*m),
            n == m.key_seq().len(),
            ps.len() == n,
            i <= n,
            spec_opt_scan(*k, ps) == spec_opt_scan(*k, ps.subrange(i as int, ps.len() as int)),
        decreases n - i,
    {
        let ghost rest = ps.subrange(i as int, ps.len() as int);
        proof {
            lemma_view_entry(*m, i as int);
            assert(rest[0] == ps[i as int]);
            assert(rest.drop_first() =~= ps.subrange(i + 1, ps.len() as int));
        }
        let key = m.key_at(i);
        let val = m.val_at(i);
        let kc = to_chars(key.as_str());
        let vc = to_chars(val.as_str());
        proof {
            assert(kc@ == ps[i as int].0);
            assert(vc@ == ps[i as int].1) by {
                assert(ps[i as int].1 == m.val_seq()[i as int]@);
            }
        }
        match opt_check(k, kc.as_slice(), vc.as_slice()) {
            Some(res) => {
                return res;
            },
            None => {},
        }
        i += 1;
    }
    proof {
        assert(ps.subrange(i as int, ps.len() as int).len() == 0);
    }
    DirectiveValidationResult::Valid
}

// ---------------------------------------------------------------------------
// The validators.
// ---------------------------------------------------------------------------

/// What validating a code-block directive yields.
pub open spec fn spec_validate_code_block(d: &ParsedDirective) -> VRes {
    if d.arguments@.len() == 0 {
        VRes::Warning("No language specified for code-block directive"@)
    } else if d.arguments@[0]@.len() == 0 {
        VRes::Error("Empty language specification in code-block directive"@)
    } else if spec_is_blank(d.content@) {
        VRes::Warning("Code-block directive has no content"@)
    } else {
        spec_opt_scan(OptRule::CodeBlock, opts_view(d.options))
    }
}

/// Validator for the code-block directive.
pub struct CodeBlockValidator {
    _p: bool,
}

impl CodeBlockValidator {
    /// Create the validator.
    pub fn new() -> (r: CodeBlockValidator) {
        CodeBlockValidator { _p: true }
    }
}

impl DirectiveValidator for CodeBlockValidator {
    open spec fn spec_validate(&self, d: &ParsedDirective) -> VRes {
        spec_validate_code_block(d)
    }

    fn name(&self) -> (r: &'static str) {
        "code-block"
    }

    fn validate(&self, d: &ParsedDirective) -> (r: DirectiveValidationResult) {
        if d.arguments.len() == 0 {
            return DirectiveValidationResult::Warning(
                String::from_str("No language specified for code-block directive"),
            );
        }
        proof {
            assert(d.arguments.deep_view()[0] == d.arguments@[0]@);
        }
        if d.arguments[0].as_str().unicode_len() == 0 {
            return DirectiveValidationResult::Error(
                String::from_str("Empty language specification in code-block directive"),
            );
        }
        let c = to_chars(d.content.as_str());
        if trim_chars(c.as_slice()).len() == 0 {
            return DirectiveValidationResult::Warning(
                String::from_str("Code-block directive has no content"),
            );
        }
        opt_scan(&OptRule::CodeBlock, &d.options)
    }

    fn expected_arguments(&self) -> (r: Vec<String>) {
        let mut v: Vec<String> = Vec::new();
        v.push(String::from_str("language"));
        v
    }

    fn valid_options(&self) -> (r: Vec<String>) {
        let mut v: Vec<String> = Vec::new();
        v.push(String::from_str("linenos"));
        v.push(String::from_str("lineno-start"));
        v.push(String::from_str("emphasize-lines"));
        v.push(String::from_str("caption"));
        v.push(String::from_str("name"));
        v.push(String::from_str("dedent"));
        v.push(String::from_str("force"));
        v
    }

    fn requires_content(&self) -> (r: bool) {
        false
    }

    fn allows_content(&self) -> (r: bool) {
        true
    }
}

/// What validating a note or warning directive yields.
pub open spec fn spec_validate_admonition_like(d: &ParsedDirective, k: OptRule, which: Seq<
    char,
>) -> VRes {
    if spec_is_blank(d.content@) {
        VRes::Error(which + " directive requires content"@)
    } else if d.arguments@.len() > 0 {
        VRes::Warning(which + " directive does not expect arguments"@)
    } else {
        spec_opt_scan(k, opts_view(d.options))
    }
}

/// Validator for the note directive.
pub struct NoteValidator {
    _p: bool,
}

impl NoteValidator {
    /// Create the validator.
    pub fn new() -> (r: NoteValidator) {
        NoteValidator { _p: true }
    }
}

impl DirectiveValidator for NoteValidator {
    open spec fn spec_validate(&self, d: &ParsedDirective) -> VRes {
        spec_validate_admonition_like(d, OptRule::Note, "Note"@)
    }

    fn name(&self) -> (r: &'static str) {
        "note"
    }

    fn validate(&self, d: &ParsedDirective) -> (r: DirectiveValidationResult) {
        let c = to_chars(d.content.as_str());
        if trim_chars(c.as_slice()).len() == 0 {
            let msg = String::from_str("Note directive requires content");
            proof {
                reveal_strlit("Note directive requires content");
                reveal_strlit("Note");
                reveal_strlit(" directive requires content");
                assert(msg@ =~= "Note"@ + " directive requires content"@);
            }
            return DirectiveValidationResult::Error(msg);
        }
        if d.arguments.len() > 0 {
            let msg = String::from_str("Note directive does not expect arguments");
            proof {
                reveal_strlit("Note directive does not expect arguments");
                reveal_strlit("Note");
                reveal_strlit(" directive does not expect arguments");
                assert(msg@ =~= "Note"@ + " directive does not expect arguments"@);
            }
            return DirectiveValidationResult::Warning(msg);
        }
        opt_scan(&OptRule::Note, &d.options)
    }

    fn expected_arguments(&self) -> (r: Vec<String>) {
        Vec::new()
    }

    fn valid_options(&self) -> (r: Vec<String>) {
        let mut v: Vec<String> = Vec::new();
        v.push(String::from_str("class"));
        v.push(String::from_str("name"));
        v
    }

    fn requires_content(&self) -> (r: bool) {
        true
    }

    fn allows_content(&self) -> (r: bool) {
        true
    }
}

/// Validator for the warning directive.
pub struct WarningValidator {
    _p: bool,
}

impl WarningValidator {
    /// Create the validator.
    pub fn new() -> (r: WarningValidator) {
        WarningValidator { _p: true }
    }
}

impl DirectiveValidator for WarningValidator {
    open spec fn spec_validate(&self, d: &ParsedDirective) -> VRes {
        spec_validate_admonition_like(d, OptRule::Warn, "Warning"@)
    }

    fn name(&self) -> (r: &'static str) {
        "warning"
    }

    fn validate(&self, d: &ParsedDirective) -> (r: DirectiveValidationResult) {
        let c = to_chars(d.content.as_str());
        if trim_chars(c.as_slice()).len() == 0 {
            let msg = String::from_str("Warning directive requires content");
            proof {
                reveal_strlit("Warning directive requires content");
                reveal_strlit("Warning");
                reveal_strlit(" directive requires content");
                assert(msg@ =~= "Warning"@ + " directive requires content"@);
            }
            return DirectiveValidationResult::Error(msg);
        }
        if d.arguments.len() > 0 {
            let msg = String::from_str("Warning directive does not expect arguments");
            proof {
                reveal_strlit("Warning directive does not expect arguments");
                reveal_strlit("Warning");
                reveal_strlit(" directive does not expect arguments");
                assert(msg@ =~= "Warning"@ + " directive does not expect arguments"@);
            }
            return DirectiveValidationResult::Warning(msg);
        }
        opt_scan(&OptRule::Warn, &d.options)
    }

    fn expected_arguments(&self) -> (r: Vec<String>) {
        Vec::new()
    }

    fn valid_options(&self) -> (r: Vec<String>) {
        let mut v: Vec<String> = Vec::new();
        v.push(String::from_str("class"));
        v.push(String::from_str("name"));
        v
    }

    fn requires_content(&self) -> (r: bool) {
        true
    }

    fn allows_content(&self) -> (r: bool) {
        true
    }
}

/// The extension of an image or file path: the part after the last dot, or
/// the whole path when it has none.
pub open spec fn spec_last_part(p: Seq<char>) -> Seq<char> {
    let d = spec_rfind(p, '.');
    if d >= 0 {
        p.subrange(d + 1, p.len() as int)
    } else {
        p
    }
}

/// The part of a path after its last dot.
pub fn last_part_pub(p: &[char]) -> (r: Vec<char>)
    ensures
        r@ == spec_last_part(p@),
{
    let n = p.len();
    match crate::text::rfind_char(p, '.') {
        Some(d) => {
            proof {
                crate::parser::lemma_rfind_at(p@, '.', d as int);
            }
            slice_range(p, d + 1, n)
        },
        None => {
            proof {
                crate::parser::lemma_rfind_none(p@, '.');
            }
            let r = slice_range(p, 0, n);
            proof {
                assert(r@ =~= p@);
            }
            r
        },
    }
}

/// Whether a lower-cased extension names a common image format.
pub open spec fn spec_image_ext(e: Seq<char>) -> bool {
    e == "png"@ || e == "jpg"@ || e == "jpeg"@ || e == "gif"@ || e == "svg"@ || e == "bmp"@ || e
        == "webp"@
}

/// What validating an image directive yields.
pub open spec fn spec_validate_image(d: &ParsedDirective) -> VRes {
    if d.arguments@.len() == 0 {
        VRes::Error("Image directive requires a path argument"@)
    } else if d.arguments@[0]@.len() == 0 {
        VRes::Error("Image path cannot be empty"@)
    } else {
        let ext = spec_last_part(d.arguments@[0]@);
        if !spec_image_ext(lower_of(ext)) {
            VRes::Warning("Unusual image extension: "@ + ext)
        } else {
            spec_opt_scan(OptRule::Image, opts_view(d.options))
        }
    }
}

/// Validator for the image directive.
pub struct ImageValidator {
    _p: bool,
}

impl ImageValidator {
    /// Create the validator.
    pub fn new() -> (r: ImageValidator) {
        ImageValidator { _p: true }
    }
}

/// The image validation steps, shared with the figure directive.
fn validate_image_steps(d: &ParsedDirective) -> (r: DirectiveValidationResult)
    requires
        d.options.wf(),
    ensures
        r@ == spec_validate_image(d),
{
    if d.arguments.len() == 0 {
        return DirectiveValidationResult::Error(
            String::from_str("Image directive requires a path argument"),
        );
    }
    proof {
        assert(d.arguments.deep_view()[0] == d.arguments@[0]@);
    }
    let path = to_chars(d.arguments[0].as_str());
    if path.len() == 0 {
        return DirectiveValidationResult::Error(String::from_str("Image path cannot be empty"));
    }
    let ext = last_part_pub(path.as_slice());
    let lowered = lowercase_str(from_chars(ext.as_slice()).as_str());
    let le = to_chars(lowered.as_str());
    if !(chars_eq_str(le.as_slice(), "png") || chars_eq_str(le.as_slice(), "jpg") || chars_eq_str(
        le.as_slice(),
        "jpeg",
    ) || chars_eq_str(le.as_slice(), "gif") || chars_eq_str(le.as_slice(), "svg") || chars_eq_str(
        le.as_slice(),
        "bmp",
    ) || chars_eq_str(le.as_slice(), "webp")) {
        let msg = name_msg2("Unusual image extension: ", ext.as_slice());
        return DirectiveValidationResult::Warning(msg);
    }
    opt_scan(&OptRule::Image, &d.options)
}

/// A message of the form head + name.
fn name_msg2(head: &str, name: &[char]) -> (r: String)
    ensures
        r@ == head@ + name@,
{
    let mut out: Vec<char> = Vec::new();
    append_str(&mut out, head);
    append_chars(&mut out, name);
    proof {
        assert(out@ =~= head@ + name@);
    }
    from_chars(out.as_slice())
}

impl DirectiveValidator for ImageValidator {
    open spec fn spec_validate(&self, d: &ParsedDirective) -> VRes {
        spec_validate_image(d)
    }

    fn name(&self) -> (r: &'static str) {
        "image"
    }

    fn validate(&self, d: &ParsedDirective) -> (r: DirectiveValidationResult) {
        validate_image_steps(d)
    }

    fn expected_arguments(&self) -> (r: Vec<String>) {
        let mut v: Vec<String> = Vec::new();
        v.push(String::from_str("image_uri"));
        v
    }

    fn valid_options(&self) -> (r: Vec<String>) {
        let mut v: Vec<String> = Vec::new();
        v.push(String::from_str("alt"));
        v.push(String::from_str("height"));
        v.push(String::from_str("width"));
        v.push(String::from_str("scale"));
        v.push(String::from_str("align"));
        v.push(String::from_str("target"));
        v.push(String::from_str("class"));
        v.push(String::from_str("name"));
        v
    }

    fn requires_content(&self) -> (r: bool) {
        false
    }

    fn allows_content(&self) -> (r: bool) {
        false
    }
}

/// What validating a figure directive yields: the image checks, on the
/// same fields.
pub open spec fn spec_validate_figure(d: &ParsedDirective) -> VRes {
    if d.arguments@.len() == 0 {
        VRes::Error("Figure directive requires a path argument"@)
    } else {
        spec_validate_image(d)
    }
}

/// Validator for the figure directive.
pub struct FigureValidator {
    _p: bool,
}

impl FigureValidator {
    /// Create the validator.
    pub fn new() -> (r: FigureValidator) {
        FigureValidator { _p: true }
    }
}

impl DirectiveValidator for FigureValidator {
    open spec fn spec_validate(&self, d: &ParsedDirective) -> VRes {
        spec_validate_figure(d)
    }

    fn name(&self) -> (r: &'static str) {
        "figure"
    }

    fn validate(&self, d: &ParsedDirective) -> (r: DirectiveValidationResult) {
        if d.arguments.len() == 0 {
            return DirectiveValidationResult::Error(
                String::from_str("Figure directive requires a path argument"),
            );
        }
        validate_image_steps(d)
    }

    fn expected_arguments(&self) -> (r: Vec<String>) {
        let mut v: Vec<String> = Vec::new();
        v.push(String::from_str("image_uri"));
        v
    }

    fn valid_options(&self) -> (r: Vec<String>) {
        let mut v: Vec<String> = Vec::new();
        v.push(String::from_str("alt"));
        v.push(String::from_str("height"));
        v.push(String::from_str("width"));
        v.push(String::from_str("scale"));
        v.push(String::from_str("align"));
        v.push(String::from_str("target"));
        v.push(String::from_str("class"));
        v.push(String::from_str("name"));
        v.push(String::from_str("figwidth"));
        v.push(String::from_str("figclass"));
        v
    }

    fn requires_content(&self) -> (r: bool) {
        false
    }

    fn allows_content(&self) -> (r: bool) {
        true
    }
}

/// What validating a toctree directive yields.
pub open spec fn spec_validate_toctree(d: &ParsedDirective) -> VRes {
    if spec_is_blank(d.content@) {
        VRes::Warning("Toctree directive is empty"@)
    } else {
        spec_opt_scan(OptRule::Toctree, opts_view(d.options))
    }
}

/// Validator for the toctree directive.
pub struct TocTreeValidator {
    _p: bool,
}

impl TocTreeValidator {
    /// Create the validator.
    pub fn new() -> (r: TocTreeValidator) {
        TocTreeValidator { _p: true }
    }
}

impl DirectiveValidator for TocTreeValidator {
    open spec fn spec_validate(&self, d: &ParsedDirective) -> VRes {
        spec_validate_toctree(d)
    }

    fn name(&self) -> (r: &'static str) {
        "toctree"
    }

    fn validate(&self, d: &ParsedDirective) -> (r: DirectiveValidationResult) {
        let c = to_chars(d.content.as_str());
        if trim_chars(c.as_slice()).len() == 0 {
            return DirectiveValidationResult::Warning(
                String::from_str("Toctree directive is empty"),
            );
        }
        opt_scan(&OptRule::Toctree, &d.options)
    }

    fn expected_arguments(&self) -> (r: Vec<String>) {
        Vec::new()
    }

    fn valid_options(&self) -> (r: Vec<String>) {
        let mut v: Vec<String> = Vec::new();
        v.push(String::from_str("maxdepth"));
        v.push(String::from_str("numbered"));
        v.push(String::from_str("titlesonly"));
        v.push(String::from_str("glob"));
        v.push(String::from_str("reversed"));
        v.push(String::from_str("hidden"));
        v.push(String::from_str("includehidden"));
        v.push(String::from_str("caption"));
        v.push(String::from_str("name"));
        v.push(String::from_str("class"));
        v
    }

    fn requires_content(&self) -> (r: bool) {
        false
    }

    fn allows_content(&self) -> (r: bool) {
        true
    }
}

/// Whether a lower-cased extension is usual for an included document.
pub open spec fn spec_include_ext(e: Seq<char>) -> bool {
    e == "rst"@ || e == "txt"@ || e == "md"@ || e == "inc"@
}

/// What validating an include directive yields.
pub open spec fn spec_validate_include(d: &ParsedDirective) -> VRes {
    if d.arguments@.len() == 0 {
        VRes::Error("Include directive requires a file path"@)
    } else if d.arguments@[0]@.len() == 0 {
        VRes::Error("Include file path cannot be empty"@)
    } else {
        let ext = spec_last_part(d.arguments@[0]@);
        if !spec_include_ext(lower_of(ext)) {
            VRes::Warning("Unusual file extension for include: "@ + ext)
        } else {
            VRes::Valid
        }
    }
}

/// Validator for the include directive.
pub struct IncludeValidator {
    _p: bool,
}

impl IncludeValidator {
    /// Create the validator.
    pub fn new() -> (r: IncludeValidator) {
        IncludeValidator { _p: true }
    }
}

impl DirectiveValidator for IncludeValidator {
    open spec fn spec_validate(&self, d: &ParsedDirective) -> VRes {
        spec_validate_include(d)
    }

    fn name(&self) -> (r: &'static str) {
        "include"
    }

    fn validate(&self, d: &ParsedDirective) -> (r: DirectiveValidationResult) {
        if d.arguments.len() == 0 {
            return DirectiveValidationResult::Error(
                String::from_str("Include directive requires a file path"),
            );
        }
        proof {
            assert(d.arguments.deep_view()[0] == d.arguments@[0]@);
        }
        let path = to_chars(d.arguments[0].as_str());
        if path.len() == 0 {
            return DirectiveValidationResult::Error(
                String::from_str("Include file path cannot be empty"),
            );
        }
        let ext = last_part_pub(path.as_slice());
        let lowered = lowercase_str(from_chars(ext.as_slice()).as_str());
        let le = to_chars(lowered.as_str());
        if !(chars_eq_str(le.as_slice(), "rst") || chars_eq_str(le.as_slice(), "txt")
            || chars_eq_str(le.as_slice(), "md") || chars_eq_str(le.as_slice(), "inc")) {
            return DirectiveValidationResult::Warning(
                name_msg2("Unusual file extension for include: ", ext.as_slice()),
            );
        }
        DirectiveValidationResult::Valid
    }

    fn expected_arguments(&self) -> (r: Vec<String>) {
        let mut v: Vec<String> = Vec::new();
        v.push(String::from_str("filename"));
        v
    }

    fn valid_options(&self) -> (r: Vec<String>) {
        let mut v: Vec<String> = Vec::new();
        v.push(String::from_str("start-line"));
        v.push(String::from_str("end-line"));
        v.push(String::from_str("start-after"));
        v.push(String::from_str("end-before"));
        v.push(String::from_str("literal"));
        v.push(String::from_str("code"));
        v.push(String::from_str("number-lines"));
        v.push(String::from_str("encoding"));
        v.push(String::from_str("tab-width"));
        v
    }

    fn requires_content(&self) -> (r: bool) {
        false
    }

    fn allows_content(&self) -> (r: bool) {
        false
    }
}

/// What validating a literalinclude directive yields.
pub open spec fn spec_validate_literalinclude(d: &ParsedDirective) -> VRes {
    if d.arguments@.len() == 0 {
        VRes::Error("Literalinclude directive requires a file path"@)
    } else if d.arguments@[0]@.len() == 0 {
        VRes::Error("Literalinclude file path cannot be empty"@)
    } else {
        spec_opt_scan(OptRule::LiteralInclude, opts_view(d.options))
    }
}

/// Validator for the literalinclude directive.
pub struct LiteralIncludeValidator {
    _p: bool,
}

impl LiteralIncludeValidator {
    /// Create the validator.
    pub fn new() -> (r: LiteralIncludeValidator) {
        LiteralIncludeValidator { _p: true }
    }
}

impl DirectiveValidator for LiteralIncludeValidator {
    open spec fn spec_validate(&self, d: &ParsedDirective) -> VRes {
        spec_validate_literalinclude(d)
    }

    fn name(&self) -> (r: &'static str) {
        "literalinclude"
    }

    fn validate(&self, d: &ParsedDirective) -> (r: DirectiveValidationResult) {
        if d.arguments.len() == 0 {
            return DirectiveValidationResult::Error(
                String::from_str("Literalinclude directive requires a file path"),
            );
        }
        proof {
            assert(d.arguments.deep_view()[0] == d.arguments@[0]@);
        }
        let path = to_chars(d.arguments[0].as_str());
        if path.len() == 0 {
            return DirectiveValidationResult::Error(
                String::from_str("Literalinclude file path cannot be empty"),
            );
        }
        opt_scan(&OptRule::LiteralInclude, &d.options)
    }

    fn expected_arguments(&self) -> (r: Vec<String>) {
        let mut v: Vec<String> = Vec::new();
        v.push(String::from_str("filename"));
        v
    }

    fn valid_options(&self) -> (r: Vec<String>) {
        let mut v: Vec<String> = Vec::new();
        v.push(String::from_str("language"));
        v.push(String::from_str("linenos"));
        v.push(String::from_str("lineno-start"));
        v.push(String::from_str("emphasize-lines"));
        v.push(String::from_str("lines"));
        v.push(String::from_str("start-line"));
        v.push(String::from_str("end-line"));
        v.push(String::from_str("start-after"));
        v.push(String::from_str("end-before"));
        v.push(String::from_str("prepend"));
        v.push(String::from_str("append"));
        v.push(String::from_str("dedent"));
        v.push(String::from_str("tab-width"));
        v.push(String::from_str("encoding"));
        v.push(String::from_str("pyobject"));
        v.push(String::from_str("caption"));
        v.push(String::from_str("name"));
        v.push(String::from_str("class"));
        v.push(String::from_str("diff"));
        v.push(String::from_str("force"));
        v
    }

    fn requires_content(&self) -> (r: bool) {
        false
    }

    fn allows_content(&self) -> (r: bool) {
        false
    }
}

/// What validating an admonition directive yields.
pub open spec fn spec_validate_admonition(d: &ParsedDirective) -> VRes {
    if d.arguments@.len() == 0 {
        VRes::Error("Admonition directive requires a title argument"@)
    } else if spec_is_blank(d.content@) {
        VRes::Warning("Admonition directive has no content"@)
    } else {
        VRes::Valid
    }
}

/// Validator for the admonition directive.
pub struct AdmonitionValidator {
    _p: bool,
}

impl AdmonitionValidator {
    /// Create the validator.
    pub fn new() -> (r: AdmonitionValidator) {
        AdmonitionValidator { _p: true }
    }
}

impl DirectiveValidator for AdmonitionValidator {
    open spec fn spec_validate(&self, d: &ParsedDirective) -> VRes {
        spec_validate_admonition(d)
    }

    fn name(&self) -> (r: &'static str) {
        "admonition"
    }

    fn validate(&self, d: &ParsedDirective) -> (r: DirectiveValidationResult) {
        if d.arguments.len() == 0 {
            return DirectiveValidationResult::Error(
                String::from_str("Admonition directive requires a title argument"),
            );
        }
        let c = to_chars(d.content.as_str());
        if trim_chars(c.as_slice()).len() == 0 {
            return DirectiveValidationResult::Warning(
                String::from_str("Admonition directive has no content"),
            );
        }
        DirectiveValidationResult::Valid
    }

    fn expected_arguments(&self) -> (r: Vec<String>) {
        let mut v: Vec<String> = Vec::new();
        v.push(String::from_str("title"));
        v
    }

    fn valid_options(&self) -> (r: Vec<String>) {
        let mut v: Vec<String> = Vec::new();
        v.push(String::from_str("class"));
        v.push(String::from_str("name"));
        v
    }

    fn requires_content(&self) -> (r: bool) {
        false
    }

    fn allows_content(&self) -> (r: bool) {
        true
    }
}

/// What validating a math directive yields: content is required and braces
/// must balance.
pub open spec fn spec_validate_math(d: &ParsedDirective) -> VRes {
    if spec_is_blank(d.content@) {
        VRes::Error("Math directive requires LaTeX math content"@)
    } else if spec_count_char(spec_trim(d.content@), '{') != spec_count_char(
        spec_trim(d.content@),
        '}',
    ) {
        VRes::Warning("Unmatched braces in math content"@)
    } else {
        VRes::Valid
    }
}

/// Validator for the math directive.
pub struct MathValidator {
    _p: bool,
}

impl MathValidator {
    /// Create the validator.
    pub fn new() -> (r: MathValidator) {
        MathValidator { _p: true }
    }
}

impl DirectiveValidator for MathValidator {
    open spec fn spec_validate(&self, d: &ParsedDirective) -> VRes {
        spec_validate_math(d)
    }

    fn name(&self) -> (r: &'static str) {
        "math"
    }

    fn validate(&self, d: &ParsedDirective) -> (r: DirectiveValidationResult) {
        let c = to_chars(d.content.as_str());
        let t = trim_chars(c.as_slice());
        if t.len() == 0 {
            return DirectiveValidationResult::Error(
                String::from_str("Math directive requires LaTeX math content"),
            );
        }
        let open_braces = count_char(t.as_slice(), '{');
        let close_braces = count_char(t.as_slice(), '}');
        if open_braces != close_braces {
            return DirectiveValidationResult::Warning(
                String::from_str("Unmatched braces in math content"),
            );
        }
        DirectiveValidationResult::Valid
    }

    fn expected_arguments(&self) -> (r: Vec<String>) {
        Vec::new()
    }

    fn valid_options(&self) -> (r: Vec<String>) {
        let mut v: Vec<String> = Vec::new();
        v.push(String::from_str("label"));
        v.push(String::from_str("name"));
        v.push(String::from_str("class"));
        v
    }

    fn requires_content(&self) -> (r: bool) {
        true
    }

    fn allows_content(&self) -> (r: bool) {
        true
    }
}

} // verus!
