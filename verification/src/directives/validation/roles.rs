//! Built-in role validators.

use vstd::prelude::*;

use crate::directives::validation::{ParsedRole, RoleValidationResult, RoleValidator, VRes};
use crate::directives::validation::builtin::{spec_last_part};
use crate::text::{
    append_chars, append_str, chars_eq_str, char_lowercase, char_numeric, char_uppercase,
    contains_char, contains_sub, count_char, from_chars, is_lowercase_char, is_numeric_char,
    is_uppercase_char, lower_of, lowercase_str, slice_range, spec_contains, spec_count_char,
    spec_ends_with, spec_starts_with, to_chars, trim_chars, spec_trim, split_any, spec_split_any,
    ends_with_str, starts_with_str,
};

verus! {

/// What validating a doc role yields.
pub open spec fn spec_validate_doc(role: &ParsedRole) -> VRes {
    if role.target@.len() == 0 {
        VRes::Error("Doc role requires a document target"@)
    } else if spec_contains(role.target@, ".."@) {
        VRes::Warning("Document path contains parent directory references"@)
    } else if spec_ends_with(role.target@, ".rst"@) || spec_ends_with(role.target@, ".md"@) {
        VRes::Warning("Document reference should not include file extension"@)
    } else {
        VRes::Valid
    }
}

/// Validator for the doc role.
pub struct DocRoleValidator {
    _p: bool,
}

impl DocRoleValidator {
    /// Create the validator.
    pub fn new() -> (r: DocRoleValidator) {
        DocRoleValidator { _p: true }
    }
}

impl RoleValidator for DocRoleValidator {
    open spec fn spec_validate(&self, role: &ParsedRole) -> VRes {
        spec_validate_doc(role)
    }

    fn name(&self) -> (r: &'static str) {
        "doc"
    }

    fn validate(&self, role: &ParsedRole) -> (r: RoleValidationResult) {
        let t = to_chars(role.target.as_str());
        if t.len() == 0 {
            return RoleValidationResult::Error(
                String::from_str("Doc role requires a document target"),
            );
        }
        let dots = to_chars("..");
        if contains_sub(t.as_slice(), dots.as_slice()) {
            return RoleValidationResult::Warning(
                String::from_str("Document path contains parent directory references"),
            );
        }
        if ends_with_str(t.as_slice(), ".rst") || ends_with_str(t.as_slice(), ".md") {
            return RoleValidationResult::Warning(
                String::from_str("Document reference should not include file extension"),
            );
        }
        RoleValidationResult::Valid
    }

    fn requires_target(&self) -> (r: bool) {
        true
    }

    fn allows_display_text(&self) -> (r: bool) {
        true
    }
}

/// Whether every character of a reference target is lower case, numeric,
/// a hyphen or an underscore.
pub open spec fn spec_ref_chars_ok(s: Seq<char>) -> bool {
    forall|j: int|
        0 <= j < s.len() ==> (char_lowercase(#[trigger] s[j]) || char_numeric(s[j]) || s[j] == '-'
            || s[j] == '_')
}

/// What validating a ref role yields.
pub open spec fn spec_validate_ref(role: &ParsedRole) -> VRes {
    if role.target@.len() == 0 {
        VRes::Error("Ref role requires a reference target"@)
    } else if role.target@.contains(' ') {
        VRes::Error("Reference targets cannot contain spaces"@)
    } else if !spec_ref_chars_ok(role.target@) {
        VRes::Warning(
            "Reference targets should use lowercase letters, numbers, hyphens, and underscores"@,
        )
    } else {
        VRes::Valid
    }
}

/// Validator for the ref role.
pub struct RefRoleValidator {
    _p: bool,
}

impl RefRoleValidator {
    /// Create the validator.
    pub fn new() -> (r: RefRoleValidator) {
        RefRoleValidator { _p: true }
    }
}

impl RoleValidator for RefRoleValidator {
    open spec fn spec_validate(&self, role: &ParsedRole) -> VRes {
        spec_validate_ref(role)
    }

    fn name(&self) -> (r: &'static str) {
        "ref"
    }

    fn validate(&self, role: &ParsedRole) -> (r: RoleValidationResult) {
        let t = to_chars(role.target.as_str());
        if t.len() == 0 {
            return RoleValidationResult::Error(
                String::from_str("Ref role requires a reference target"),
            );
        }
        if contains_char(t.as_slice(), ' ') {
            return RoleValidationResult::Error(
                String::from_str("Reference targets cannot contain spaces"),
            );
        }
        let n = t.len();
        let mut i: usize = 0;
        while i < n
            invariant
                n == t@.len(),
                t@ == role.target@,
                role.target@.len() > 0,
                !role.target@.contains(' '),
                i <= n,
                forall|j: int|
                    0 <= j < i ==> (char_lowercase(#[trigger] t@[j]) || char_numeric(t@[j])
                        || t@[j] == '-' || t@[j] == '_'),
            decreases n - i,
        {
            let c = t[i];
            if !(is_lowercase_char(c) || is_numeric_char(c) || c == '-' || c == '_') {
                proof {
                    assert(!spec_ref_chars_ok(t@)) by {
                        if spec_ref_chars_ok(t@) {
                            assert(char_lowercase(t@[i as int]) || char_numeric(t@[i as int])
                                || t@[i as int] == '-' || t@[i as int] == '_');
                        }
                    }
                }
                return RoleValidationResult::Warning(
                    String::from_str(
                        "Reference targets should use lowercase letters, numbers, hyphens, and underscores",
                    ),
                );
            }
            i += 1;
        }
        RoleValidationResult::Valid
    }

    fn requires_target(&self) -> (r: bool) {
        true
    }

    fn allows_display_text(&self) -> (r: bool) {
        true
    }
}

/// Whether a lower-cased extension names a commonly downloadable file.
pub open spec fn spec_download_ext(e: Seq<char>) -> bool {
    e == "pdf"@ || e == "zip"@ || e == "tar"@ || e == "gz"@ || e == "doc"@ || e == "docx"@ || e
        == "xls"@ || e == "xlsx"@ || e == "ppt"@ || e == "pptx"@ || e == "txt"@ || e == "csv"@
        || e == "json"@ || e == "xml"@ || e == "sql"@ || e == "py"@ || e == "rs"@ || e == "js"@
        || e == "cpp"@ || e == "c"@ || e == "h"@ || e == "java"@ || e == "go"@ || e == "rb"@ || e
        == "php"@
}

/// What validating a download role yields.
pub open spec fn spec_validate_download(role: &ParsedRole) -> VRes {
    if role.target@.len() == 0 {
        VRes::Error("Download role requires a file path"@)
    } else {
        let ext = spec_last_part(role.target@);
        if !spec_download_ext(lower_of(ext)) {
            VRes::Warning("Unusual file type for download: "@ + ext)
        } else if spec_starts_with(role.target@, "http://"@) || spec_starts_with(
            role.target@,
            "https://"@,
        ) {
            VRes::Warning("Download role should reference local files, not URLs"@)
        } else {
            VRes::Valid
        }
    }
}

/// Validator for the download role.
pub struct DownloadRoleValidator {
    _p: bool,
}

impl DownloadRoleValidator {
    /// Create the validator.
    pub fn new() -> (r: DownloadRoleValidator) {
        DownloadRoleValidator { _p: true }
    }
}

impl RoleValidator for DownloadRoleValidator {
    open spec fn spec_validate(&self, role: &ParsedRole) -> VRes {
        spec_validate_download(role)
    }

    fn name(&self) -> (r: &'static str) {
        "download"
    }

    fn validate(&self, role: &ParsedRole) -> (r: RoleValidationResult) {
        let t = to_chars(role.target.as_str());
        if t.len() == 0 {
            return RoleValidationResult::Error(
                String::from_str("Download role requires a file path"),
            );
        }
        let ext = crate::directives::validation::builtin::last_part_pub(t.as_slice());
        let lowered = lowercase_str(from_chars(ext.as_slice()).as_str());
        let le = to_chars(lowered.as_str());
        let s = le.as_slice();
        let known = chars_eq_str(s, "pdf") || chars_eq_str(s, "zip") || chars_eq_str(s, "tar")
            || chars_eq_str(s, "gz") || chars_eq_str(s, "doc") || chars_eq_str(s, "docx")
            || chars_eq_str(s, "xls") || chars_eq_str(s, "xlsx") || chars_eq_str(s, "ppt")
            || chars_eq_str(s, "pptx") || chars_eq_str(s, "txt") || chars_eq_str(s, "csv")
            || chars_eq_str(s, "json") || chars_eq_str(s, "xml") || chars_eq_str(s, "sql")
            || chars_eq_str(s, "py") || chars_eq_str(s, "rs") || chars_eq_str(s, "js")
            || chars_eq_str(s, "cpp") || chars_eq_str(s, "c") || chars_eq_str(s, "h")
            || chars_eq_str(s, "java") || chars_eq_str(s, "go") || chars_eq_str(s, "rb")
            || chars_eq_str(s, "php");
        if !known {
            let mut out: Vec<char> = Vec::new();
            append_str(&mut out, "Unusual file type for download: ");
            append_chars(&mut out, ext.as_slice());
            proof {
                assert(out@ =~= "Unusual file type for download: "@ + ext@);
            }
            return RoleValidationResult::Warning(from_chars(out.as_slice()));
        }
        if starts_with_str(t.as_slice(), "http://") || starts_with_str(t.as_slice(), "https://") {
            return RoleValidationResult::Warning(
                String::from_str("Download role should reference local files, not URLs"),
            );
        }
        RoleValidationResult::Valid
    }

    fn requires_target(&self) -> (r: bool) {
        true
    }

    fn allows_display_text(&self) -> (r: bool) {
        true
    }
}

/// What validating a math role yields.
pub open spec fn spec_validate_math_role(role: &ParsedRole) -> VRes {
    if role.target@.len() == 0 {
        VRes::Error("Math role requires LaTeX math expression"@)
    } else if spec_count_char(role.target@, '{') != spec_count_char(role.target@, '}') {
        VRes::Warning("Unmatched braces in math expression"@)
    } else {
        VRes::Valid
    }
}

/// Validator for the math role.
pub struct MathRoleValidator {
    _p: bool,
}

impl MathRoleValidator {
    /// Create the validator.
    pub fn new() -> (r: MathRoleValidator) {
        MathRoleValidator { _p: true }
    }
}

impl RoleValidator for MathRoleValidator {
    open spec fn spec_validate(&self, role: &ParsedRole) -> VRes {
        spec_validate_math_role(role)
    }

    fn name(&self) -> (r: &'static str) {
        "math"
    }

    fn validate(&self, role: &ParsedRole) -> (r: RoleValidationResult) {
        let t = to_chars(role.target.as_str());
        if t.len() == 0 {
            return RoleValidationResult::Error(
                String::from_str("Math role requires LaTeX math expression"),
            );
        }
        if count_char(t.as_slice(), '{') != count_char(t.as_slice(), '}') {
            return RoleValidationResult::Warning(
                String::from_str("Unmatched braces in math expression"),
            );
        }
        RoleValidationResult::Valid
    }

    fn requires_target(&self) -> (r: bool) {
        true
    }

    fn allows_display_text(&self) -> (r: bool) {
        false
    }
}

/// Whether some character is upper case.
pub open spec fn spec_has_upper(s: Seq<char>) -> bool {
    exists|j: int| 0 <= j < s.len() && char_uppercase(#[trigger] s[j])
}

/// What validating an abbreviation role yields.
pub open spec fn spec_validate_abbr(role: &ParsedRole) -> VRes {
    if role.target@.len() == 0 {
        VRes::Error("Abbreviation role requires text"@)
    } else if !spec_has_upper(role.target@) {
        VRes::Warning("Abbreviations typically contain uppercase letters"@)
    } else {
        VRes::Valid
    }
}

/// Validator for the abbr role.
pub struct AbbreviationRoleValidator {
    _p: bool,
}

impl AbbreviationRoleValidator {
    /// Create the validator.
    pub fn new() -> (r: AbbreviationRoleValidator) {
        AbbreviationRoleValidator { _p: true }
    }
}

impl RoleValidator for AbbreviationRoleValidator {
    open spec fn spec_validate(&self, role: &ParsedRole) -> VRes {
        spec_validate_abbr(role)
    }

    fn name(&self) -> (r: &'static str) {
        "abbr"
    }

    fn validate(&self, role: &ParsedRole) -> (r: RoleValidationResult) {
        let t = to_chars(role.target.as_str());
        if t.len() == 0 {
            return RoleValidationResult::Error(String::from_str("Abbreviation role requires text"));
        }
        let n = t.len();
        let mut i: usize = 0;
        let mut has_upper = false;
        while i < n
            invariant
                n == t@.len(),
                i <= n,
                has_upper == exists|j: int| 0 <= j < i && char_uppercase(#[trigger] t@[j]),
            decreases n - i,
        {
            if is_uppercase_char(t[i]) {
                has_upper = true;
            }
            i += 1;
        }
        proof {
            assert(has_upper == spec_has_upper(t@));
        }
        if !has_upper {
            return RoleValidationResult::Warning(
                String::from_str("Abbreviations typically contain uppercase letters"),
            );
        }
        RoleValidationResult::Valid
    }

    fn requires_target(&self) -> (r: bool) {
        true
    }

    fn allows_display_text(&self) -> (r: bool) {
        true
    }
}

/// Whether a character can break out of a shell command.
pub open spec fn spec_dangerous_char(c: char) -> bool {
    c == '&' || c == '|' || c == ';' || c == '`' || c == '$' || c == '(' || c == ')' || c == '<'
        || c == '>'
}

/// What validating a command role yields.
pub open spec fn spec_validate_command(role: &ParsedRole) -> VRes {
    if role.target@.len() == 0 {
        VRes::Error("Command role requires a command name"@)
    } else if exists|j: int|
        0 <= j < role.target@.len() && spec_dangerous_char(#[trigger] role.target@[j]) {
        VRes::Warning("Command contains potentially dangerous characters"@)
    } else {
        VRes::Valid
    }
}

/// Validator for the command role.
pub struct CommandRoleValidator {
    _p: bool,
}

impl CommandRoleValidator {
    /// Create the validator.
    pub fn new() -> (r: CommandRoleValidator) {
        CommandRoleValidator { _p: true }
    }
}

impl RoleValidator for CommandRoleValidator {
    open spec fn spec_validate(&self, role: &ParsedRole) -> VRes {
        spec_validate_command(role)
    }

    fn name(&self) -> (r: &'static str) {
        "command"
    }

    fn validate(&self, role: &ParsedRole) -> (r: RoleValidationResult) {
        let t = to_chars(role.target.as_str());
        if t.len() == 0 {
            return RoleValidationResult::Error(
                String::from_str("Command role requires a command name"),
            );
        }
        let n = t.len();
        let mut i: usize = 0;
        let mut danger = false;
        while i < n
            invariant
                n == t@.len(),
                i <= n,
                danger == exists|j: int|
                    0 <= j < i && spec_dangerous_char(#[trigger] t@[j]),
            decreases n - i,
        {
            let c = t[i];
            if c == '&' || c == '|' || c == ';' || c == '`' || c == '$' || c == '(' || c == ')'
                || c == '<' || c == '>' {
                danger = true;
            }
            i += 1;
        }
        if danger {
            return RoleValidationResult::Warning(
                String::from_str("Command contains potentially dangerous characters"),
            );
        }
        RoleValidationResult::Valid
    }

    fn requires_target(&self) -> (r: bool) {
        true
    }

    fn allows_display_text(&self) -> (r: bool) {
        false
    }
}

/// Whether a character cannot appear in a file path.
pub open spec fn spec_invalid_path_char(c: char) -> bool {
    c == '<' || c == '>' || c == ':' || c == '"' || c == '|' || c == '?' || c == '*'
}

/// What validating a file role yields.
pub open spec fn spec_validate_file(role: &ParsedRole) -> VRes {
    if role.target@.len() == 0 {
        VRes::Error("File role requires a file path"@)
    } else if exists|j: int|
        0 <= j < role.target@.len() && spec_invalid_path_char(#[trigger] role.target@[j]) {
        VRes::Error("File path contains invalid characters"@)
    } else {
        VRes::Valid
    }
}

/// Validator for the file role.
pub struct FileRoleValidator {
    _p: bool,
}

impl FileRoleValidator {
    /// Create the validator.
    pub fn new() -> (r: FileRoleValidator) {
        FileRoleValidator { _p: true }
    }
}

impl RoleValidator for FileRoleValidator {
    open spec fn spec_validate(&self, role: &ParsedRole) -> VRes {
        spec_validate_file(role)
    }

    fn name(&self) -> (r: &'static str) {
        "file"
    }

    fn validate(&self, role: &ParsedRole) -> (r: RoleValidationResult) {
        let t = to_chars(role.target.as_str());
        if t.len() == 0 {
            return RoleValidationResult::Error(String::from_str("File role requires a file path"));
        }
        let n = t.len();
        let mut i: usize = 0;
        let mut bad = false;
        while i < n
            invariant
                n == t@.len(),
                i <= n,
                bad == exists|j: int|
                    0 <= j < i && spec_invalid_path_char(#[trigger] t@[j]),
            decreases n - i,
        {
            let c = t[i];
            if c == '<' || c == '>' || c == ':' || c == '"' || c == '|' || c == '?' || c == '*' {
                bad = true;
            }
            i += 1;
        }
        if bad {
            return RoleValidationResult::Error(
                String::from_str("File path contains invalid characters"),
            );
        }
        RoleValidationResult::Valid
    }

    fn requires_target(&self) -> (r: bool) {
        true
    }

    fn allows_display_text(&self) -> (r: bool) {
        false
    }
}

/// Whether a trimmed key name is one of the common keys.
pub open spec fn spec_common_key(k: Seq<char>) -> bool {
    k == "Ctrl"@ || k == "Alt"@ || k == "Shift"@ || k == "Enter"@ || k == "Escape"@ || k == "Tab"@
        || k == "Space"@ || k == "F1"@ || k == "F2"@ || k == "F3"@ || k == "F4"@ || k == "F5"@
        || k == "F6"@ || k == "F7"@ || k == "F8"@ || k == "F9"@ || k == "F10"@ || k == "F11"@
        || k == "F12"@ || k == "Home"@ || k == "End"@ || k == "Page Up"@ || k == "Page Down"@
        || k == "Delete"@ || k == "Insert"@
}

/// The first unusual key of a key combination, if any.
pub open spec fn spec_kbd_scan(keys: Seq<Seq<char>>) -> Option<Seq<char>>
    decreases keys.len(),
{
    if keys.len() == 0 {
        None
    } else {
        let k = spec_trim(keys[0]);
        if k.len() > 0 && !spec_common_key(k) && k.len() > 1 {
            Some(k)
        } else {
            spec_kbd_scan(keys.drop_first())
        }
    }
}

/// What validating a kbd role yields.
pub open spec fn spec_validate_kbd(role: &ParsedRole) -> VRes {
    if role.target@.len() == 0 {
        VRes::Error("Kbd role requires key combination"@)
    } else {
        match spec_kbd_scan(spec_split_any(role.target@, seq!['+', '-'])) {
            Some(k) => VRes::Warning("Unusual key name: "@ + k),
            None => VRes::Valid,
        }
    }
}

/// Validator for the kbd role.
pub struct KbdRoleValidator {
    _p: bool,
}

impl KbdRoleValidator {
    /// Create the validator.
    pub fn new() -> (r: KbdRoleValidator) {
        KbdRoleValidator { _p: true }
    }
}

impl RoleValidator for KbdRoleValidator {
    open spec fn spec_validate(&self, role: &ParsedRole) -> VRes {
        spec_validate_kbd(role)
    }

    fn name(&self) -> (r: &'static str) {
        "kbd"
    }

    fn validate(&self, role: &ParsedRole) -> (r: RoleValidationResult) {
        let t = to_chars(role.target.as_str());
        if t.len() == 0 {
            return RoleValidationResult::Error(
                String::from_str("Kbd role requires key combination"),
            );
        }
        let mut seps: Vec<char> = Vec::new();
        seps.push('+');
        seps.push('-');
        proof {
            assert(seps@ =~= seq!['+', '-']);
        }
        let keys = split_any(t.as_slice(), seps.as_slice());
        let ghost kv = keys.deep_view();
        let m = keys.len();
        let mut i: usize = 0;
        proof {
            assert(kv.subrange(0, kv.len() as int) =~= kv);
            assert(kv.subrange(i as int, kv.len() as int) =~= kv);
        }
        while i < m
            invariant
                kv == keys.deep_view(),
                kv == spec_split_any(role.target@, seq!['+', '-']),
                role.target@.len() > 0,
                m == keys@.len(),
                kv.len() == m,
                i <= m,
                spec_kbd_scan(kv) == spec_kbd_scan(kv.subrange(i as int, kv.len() as int)),
            decreases m - i,
        {
            let ghost rest = kv.subrange(i as int, kv.len() as int);
            proof {
                assert(kv[i as int] == keys@[i as int]@);
                assert(rest[0] == kv[i as int]);
                assert(rest.drop_first() =~= kv.subrange(i + 1, kv.len() as int));
            }
            let k = trim_chars(keys[i].as_slice());
            let s = k.as_slice();
            if k.len() > 0 && !(chars_eq_str(s, "Ctrl") || chars_eq_str(s, "Alt") || chars_eq_str(
                s,
                "Shift",
            ) || chars_eq_str(s, "Enter") || chars_eq_str(s, "Escape") || chars_eq_str(s, "Tab")
                || chars_eq_str(s, "Space") || chars_eq_str(s, "F1") || chars_eq_str(s, "F2")
                || chars_eq_str(s, "F3") || chars_eq_str(s, "F4") || chars_eq_str(s, "F5")
                || chars_eq_str(s, "F6") || chars_eq_str(s, "F7") || chars_eq_str(s, "F8")
                || chars_eq_str(s, "F9") || chars_eq_str(s, "F10") || chars_eq_str(s, "F11")
                || chars_eq_str(s, "F12") || chars_eq_str(s, "Home") || chars_eq_str(s, "End")
                || chars_eq_str(s, "Page Up") || chars_eq_str(s, "Page Down") || chars_eq_str(
                s,
                "Delete",
            ) || chars_eq_str(s, "Insert")) && k.len() > 1 {
                let mut out: Vec<char> = Vec::new();
                append_str(&mut out, "Unusual key name: ");
                append_chars(&mut out, s);
                proof {
                    assert(out@ =~= "Unusual key name: "@ + k@);
                }
                return RoleValidationResult::Warning(from_chars(out.as_slice()));
            }
            i += 1;
        }
        proof {
            assert(kv.subrange(i as int, kv.len() as int).len() == 0);
        }
        RoleValidationResult::Valid
    }

    fn requires_target(&self) -> (r: bool) {
        true
    }

    fn allows_display_text(&self) -> (r: bool) {
        false
    }
}

/// What validating a menuselection role yields.
pub open spec fn spec_validate_menuselection(role: &ParsedRole) -> VRes {
    if role.target@.len() == 0 {
        VRes::Error("Menu selection role requires menu path"@)
    } else if !spec_contains(role.target@, "-->"@) && !spec_contains(role.target@, " > "@) {
        VRes::Warning("Menu selection should use '-->' or ' > ' as separator"@)
    } else {
        VRes::Valid
    }
}

/// Validator for the menuselection role.
pub struct MenuSelectionRoleValidator {
    _p: bool,
}

impl MenuSelectionRoleValidator {
    /// Create the validator.
    pub fn new() -> (r: MenuSelectionRoleValidator) {
        MenuSelectionRoleValidator { _p: true }
    }
}

impl RoleValidator for MenuSelectionRoleValidator {
    open spec fn spec_validate(&self, role: &ParsedRole) -> VRes {
        spec_validate_menuselection(role)
    }

    fn name(&self) -> (r: &'static str) {
        "menuselection"
    }

    fn validate(&self, role: &ParsedRole) -> (r: RoleValidationResult) {
        let t = to_chars(role.target.as_str());
        if t.len() == 0 {
            return RoleValidationResult::Error(
                String::from_str("Menu selection role requires menu path"),
            );
        }
        let arrow = to_chars("-->");
        let gt = to_chars(" > ");
        if !contains_sub(t.as_slice(), arrow.as_slice()) && !contains_sub(
            t.as_slice(),
            gt.as_slice(),
        ) {
            return RoleValidationResult::Warning(
                String::from_str("Menu selection should use '-->' or ' > ' as separator"),
            );
        }
        RoleValidationResult::Valid
    }

    fn requires_target(&self) -> (r: bool) {
        true
    }

    fn allows_display_text(&self) -> (r: bool) {
        false
    }
}

/// What validating a guilabel role yields.
pub open spec fn spec_validate_guilabel(role: &ParsedRole) -> VRes {
    if role.target@.len() == 0 {
        VRes::Error("GUI label role requires label text"@)
    } else if role.target@.contains('&') && !spec_contains(role.target@, "&amp;"@) {
        VRes::Warning("Use &amp; for literal ampersand in GUI labels"@)
    } else {
        VRes::Valid
    }
}

/// Validator for the guilabel role.
pub struct GuiLabelRoleValidator {
    _p: bool,
}

impl GuiLabelRoleValidator {
    /// Create the validator.
    pub fn new() -> (r: GuiLabelRoleValidator) {
        GuiLabelRoleValidator { _p: true }
    }
}

impl RoleValidator for GuiLabelRoleValidator {
    open spec fn spec_validate(&self, role: &ParsedRole) -> VRes {
        spec_validate_guilabel(role)
    }

    fn name(&self) -> (r: &'static str) {
        "guilabel"
    }

    fn validate(&self, role: &ParsedRole) -> (r: RoleValidationResult) {
        let t = to_chars(role.target.as_str());
        if t.len() == 0 {
            return RoleValidationResult::Error(
                String::from_str("GUI label role requires label text"),
            );
        }
        let amp = to_chars("&amp;");
        if contains_char(t.as_slice(), '&') && !contains_sub(t.as_slice(), amp.as_slice()) {
            return RoleValidationResult::Warning(
                String::from_str("Use &amp; for literal ampersand in GUI labels"),
            );
        }
        RoleValidationResult::Valid
    }

    fn requires_target(&self) -> (r: bool) {
        true
    }

    fn allows_display_text(&self) -> (r: bool) {
        false
    }
}

} // verus!
