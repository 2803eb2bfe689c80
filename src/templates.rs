use crate::text::{append_str, chars_of, push_char, str_eq};
use std::path::{Path, PathBuf};
use vstd::prelude::*;

verus! {

#[verifier::external_type_specification]
#[verifier::external_body]
pub struct ExPathBuf(PathBuf);

#[verifier::external_type_specification]
#[verifier::external_body]
pub struct ExPath(Path);

/// Relies on `PathBuf::as_path`: a borrowed view of the same path.
pub assume_specification[ PathBuf::as_path ](p: &PathBuf) -> &Path;

/// What `char::is_whitespace` says of a character (Unicode White_Space).
pub uninterp spec fn is_space(c: char) -> bool;

/// What `char::is_uppercase` says of a character (Unicode Uppercase).
pub uninterp spec fn is_upper(c: char) -> bool;

/// What `str::to_lowercase` makes of a string.
pub uninterp spec fn lower_of(s: Seq<char>) -> Seq<char>;

/// Relies on `char::is_whitespace`.
#[verifier::external_body]
fn whitespace(c: char) -> (r: bool)
    ensures
        r == is_space(c),
{
    c.is_whitespace()
}

/// Relies on `char::is_uppercase`.
#[verifier::external_body]
fn uppercase(c: char) -> (r: bool)
    ensures
        r == is_upper(c),
{
    c.is_uppercase()
}

/// Relies on `str::to_lowercase`: the result depends on the characters alone.
#[verifier::external_body]
fn lowercase(s: &str) -> (r: String)
    ensures
        r@ == lower_of(s@),
{
    s.to_lowercase()
}

/// Relies on `Path::join`: `base` with `part` appended as a component.
#[verifier::external_body]
fn path_join(base: &Path, part: &str) -> (r: PathBuf) {
    base.join(part)
}

/// `c` with an ASCII lower-case letter made upper-case.
pub open spec fn ascii_upper(c: char) -> char {
    if 'a' <= c <= 'z' {
        ((c as u32) - 32) as char
    } else {
        c
    }
}

/// `c` with an ASCII upper-case letter made lower-case.
pub open spec fn ascii_lower(c: char) -> char {
    if 'A' <= c <= 'Z' {
        ((c as u32) + 32) as char
    } else {
        c
    }
}

/// `char::to_ascii_uppercase`.
pub fn to_ascii_upper(c: char) -> (r: char)
    ensures
        r == ascii_upper(c),
{
    if 'a' <= c && c <= 'z' {
        ((c as u8) - 32) as char
    } else {
        c
    }
}

/// `char::to_ascii_lowercase`.
pub fn to_ascii_lower(c: char) -> (r: char)
    ensures
        r == ascii_lower(c),
{
    if 'A' <= c && c <= 'Z' {
        ((c as u8) + 32) as char
    } else {
        c
    }
}

/// A word separator: `-`, `_` or white space.
pub open spec fn is_separator(c: char) -> bool {
    c == '-' || c == '_' || is_space(c)
}

fn separator(c: char) -> (r: bool)
    ensures
        r == is_separator(c),
{
    c == '-' || c == '_' || whitespace(c)
}

/// camelCase of `s`, from a state: separators are dropped and make the next
/// character upper-case; the first kept character, unless so raised, is made
/// lower-case; the others are kept.
pub open spec fn camel_from(s: Seq<char>, next_upper: bool, is_first: bool) -> Seq<char>
    decreases s.len(),
{
    if s.len() == 0 {
        Seq::empty()
    } else {
        let c = s[0];
        let rest = s.drop_first();
        if is_separator(c) {
            camel_from(rest, true, is_first)
        } else if next_upper {
            seq![ascii_upper(c)] + camel_from(rest, false, is_first)
        } else if is_first {
            seq![ascii_lower(c)] + camel_from(rest, false, false)
        } else {
            seq![c] + camel_from(rest, false, false)
        }
    }
}

/// PascalCase of `s`, from a state: separators are dropped and make the next
/// character upper-case; the first character is upper-case too; the others
/// are made lower-case.
pub open spec fn pascal_from(s: Seq<char>, capitalize: bool) -> Seq<char>
    decreases s.len(),
{
    if s.len() == 0 {
        Seq::empty()
    } else {
        let c = s[0];
        let rest = s.drop_first();
        if is_separator(c) {
            pascal_from(rest, true)
        } else if capitalize {
            seq![ascii_upper(c)] + pascal_from(rest, false)
        } else {
            seq![ascii_lower(c)] + pascal_from(rest, false)
        }
    }
}

/// What one character of the input becomes in snake_case: an upper-case
/// letter becomes `_` (but at the start) and its lower-case form; a separator
/// becomes `_`; anything else stays.
pub open spec fn snake_char(c: char, first: bool) -> Seq<char> {
    if is_upper(c) {
        if first {
            seq![ascii_lower(c)]
        } else {
            seq!['_', ascii_lower(c)]
        }
    } else if is_separator(c) {
        seq!['_']
    } else {
        seq![c]
    }
}

/// snake_case of `s`.
pub open spec fn snake_of(s: Seq<char>) -> Seq<char>
    decreases s.len(),
{
    if s.len() == 0 {
        Seq::empty()
    } else {
        snake_of(s.drop_last()) + snake_char(s.last(), s.len() == 1)
    }
}

/// camelCase of a project name: `my-project` becomes `myProject`.
pub fn to_camel_case(s: &str) -> (r: String)
    ensures
        r@ == camel_from(s@, false, true),
{
    let cs = chars_of(s);
    let mut result = String::new();
    let mut next_upper = false;
    let mut is_first = true;
    let mut i: usize = 0;
    assert(cs@.skip(0) =~= s@);
    assert(result@ + camel_from(s@, false, true) =~= camel_from(s@, false, true));
    while i < cs.len()
        invariant
            i <= cs@.len(),
            cs@ == s@,
            result@ + camel_from(cs@.skip(i as int), next_upper, is_first) == camel_from(
                s@,
                false,
                true,
            ),
        decreases cs@.len() - i,
    {
        let c = cs[i];
        let ghost rest = cs@.skip(i as int);
        assert(rest[0] == c);
        assert(rest.drop_first() =~= cs@.skip(i + 1));
        let ghost before = result@;
        if separator(c) {
            next_upper = true;
        } else if next_upper {
            push_char(&mut result, to_ascii_upper(c));
            next_upper = false;
            assert(before + (seq![ascii_upper(c)] + camel_from(cs@.skip(i + 1), false, is_first))
                =~= result@ + camel_from(cs@.skip(i + 1), false, is_first));
        } else if is_first {
            push_char(&mut result, to_ascii_lower(c));
            is_first = false;
            assert(before + (seq![ascii_lower(c)] + camel_from(cs@.skip(i + 1), false, false))
                =~= result@ + camel_from(cs@.skip(i + 1), false, false));
        } else {
            push_char(&mut result, c);
            assert(before + (seq![c] + camel_from(cs@.skip(i + 1), false, false)) =~= result@
                + camel_from(cs@.skip(i + 1), false, false));
        }
        i = i + 1;
    }
    assert(cs@.skip(i as int) =~= Seq::<char>::empty());
    assert(result@ + Seq::<char>::empty() =~= result@);
    result
}

/// PascalCase of a project name: `my-project` becomes `MyProject`.
pub fn to_pascal_case(s: &str) -> (r: String)
    ensures
        r@ == pascal_from(s@, true),
{
    let cs = chars_of(s);
    let mut result = String::new();
    let mut capitalize = true;
    let mut i: usize = 0;
    assert(cs@.skip(0) =~= s@);
    assert(result@ + pascal_from(s@, true) =~= pascal_from(s@, true));
    while i < cs.len()
        invariant
            i <= cs@.len(),
            cs@ == s@,
            result@ + pascal_from(cs@.skip(i as int), capitalize) == pascal_from(s@, true),
        decreases cs@.len() - i,
    {
        let c = cs[i];
        let ghost rest = cs@.skip(i as int);
        assert(rest[0] == c);
        assert(rest.drop_first() =~= cs@.skip(i + 1));
        let ghost before = result@;
        if separator(c) {
            capitalize = true;
        } else if capitalize {
            push_char(&mut result, to_ascii_upper(c));
            capitalize = false;
            assert(before + (seq![ascii_upper(c)] + pascal_from(cs@.skip(i + 1), false))
                =~= result@ + pascal_from(cs@.skip(i + 1), false));
        } else {
            push_char(&mut result, to_ascii_lower(c));
            assert(before + (seq![ascii_lower(c)] + pascal_from(cs@.skip(i + 1), false))
                =~= result@ + pascal_from(cs@.skip(i + 1), false));
        }
        i = i + 1;
    }
    assert(cs@.skip(i as int) =~= Seq::<char>::empty());
    assert(result@ + Seq::<char>::empty() =~= result@);
    result
}

/// snake_case of a name: `myProject` becomes `my_project`.
pub fn to_snake_case(s: &str) -> (r: String)
    ensures
        r@ == snake_of(s@),
{
    let cs = chars_of(s);
    let mut result = String::new();
    let mut i: usize = 0;
    while i < cs.len()
        invariant
            i <= cs@.len(),
            cs@ == s@,
            result@ == snake_of(cs@.take(i as int)),
            (result@.len() == 0) == (i == 0),
        decreases cs@.len() - i,
    {
        let c = cs[i];
        let ghost before = result@;
        proof {
            assert(cs@.take(i + 1).drop_last() =~= cs@.take(i as int));
            assert(cs@.take(i + 1).last() == c);
        }
        if uppercase(c) {
            if !result.as_str().is_empty() {
                push_char(&mut result, '_');
            }
            push_char(&mut result, to_ascii_lower(c));
        } else if separator(c) {
            push_char(&mut result, '_');
        } else {
            push_char(&mut result, c);
        }
        assert(result@ =~= before + snake_char(c, i == 0));
        i = i + 1;
    }
    assert(cs@.take(i as int) =~= s@);
    result
}

/// `s` with every match of the non-empty `pat`, taken from the left without
/// overlaps, replaced by `rep`.
pub open spec fn replace_all(s: Seq<char>, pat: Seq<char>, rep: Seq<char>) -> Seq<char>
    decreases s.len(),
{
    if pat.len() == 0 || s.len() < pat.len() {
        s
    } else if s.subrange(0, pat.len() as int) == pat {
        rep + replace_all(s.subrange(pat.len() as int, s.len() as int), pat, rep)
    } else {
        seq![s[0]] + replace_all(s.drop_first(), pat, rep)
    }
}

/// Relies on `str::replace`: every non-overlapping match of `from`, found
/// from the left, is replaced by `to`.
#[verifier::external_body]
fn replace_str(s: &str, from: &str, to: &str) -> (r: String)
    requires
        from@.len() > 0,
    ensures
        r@ == replace_all(s@, from@, to@),
{
    s.replace(from, to)
}

/// The project templates on offer.
#[derive(Debug, Clone, Copy, PartialEq, Eq, Structural)]
pub enum TemplateType {
    TypeScript,
    NestJS,
    Python,
}

/// The template that a lower-case name stands for.
pub open spec fn template_named(l: Seq<char>) -> Option<TemplateType> {
    if l == "ts"@ || l == "typescript"@ {
        Some(TemplateType::TypeScript)
    } else if l == "nestjs"@ || l == "nest"@ {
        Some(TemplateType::NestJS)
    } else if l == "py"@ || l == "python"@ {
        Some(TemplateType::Python)
    } else {
        None
    }
}

impl TemplateType {
    /// The template that an already lower-cased name stands for.
    pub fn from_lowercase_name(l: &str) -> (r: Option<TemplateType>)
        ensures
            r == template_named(l@),
    {
        proof {
            reveal_strlit("ts");
            reveal_strlit("typescript");
            reveal_strlit("nestjs");
            reveal_strlit("nest");
            reveal_strlit("py");
            reveal_strlit("python");
        }
        if str_eq(l, "ts") || str_eq(l, "typescript") {
            Some(TemplateType::TypeScript)
        } else if str_eq(l, "nestjs") || str_eq(l, "nest") {
            Some(TemplateType::NestJS)
        } else if str_eq(l, "py") || str_eq(l, "python") {
            Some(TemplateType::Python)
        } else {
            None
        }
    }

    /// The template a name stands for, in any case; an error that names the
    /// supported types otherwise.
    pub fn from_str(s: &str) -> (r: Result<TemplateType, String>)
        ensures
            r is Ok <==> template_named(lower_of(s@)) is Some,
            r matches Ok(t) ==> template_named(lower_of(s@)) == Some(t),
    {
        let l = lowercase(s);
        match Self::from_lowercase_name(l.as_str()) {
            Some(t) => Ok(t),
            None => {
                let mut msg = String::new();
                append_str(&mut msg, "Unknown template type: ");
                append_str(&mut msg, s);
                append_str(&mut msg, ". Supported types: ts, nestjs, python");
                Err(msg)
            },
        }
    }

    /// The name of the template's directory.
    pub fn dir_name(&self) -> (r: &'static str)
        ensures
            r@ == (match self {
                TemplateType::TypeScript => "typescript"@,
                TemplateType::NestJS => "nestjs"@,
                TemplateType::Python => "python"@,
            }),
    {
        match self {
            TemplateType::TypeScript => "typescript",
            TemplateType::NestJS => "nestjs",
            TemplateType::Python => "python",
        }
    }
}

/// The values substituted into a template.
#[derive(Debug, Clone)]
pub struct TemplateVariables {
    pub project_name: String,
    pub workflow_name: String,
    pub workflow_name_snake: String,
    pub input_type: String,
}

impl TemplateVariables {
    /// The variables derived from a project name: the name itself, its
    /// camelCase and snake_case forms, and its PascalCase form followed by
    /// `Input`.
    pub fn new(project_name: &str) -> (r: TemplateVariables)
        ensures
            r.project_name@ == project_name@,
            r.workflow_name@ == camel_from(project_name@, false, true),
            r.workflow_name_snake@ == snake_of(project_name@),
            r.input_type@ == pascal_from(project_name@, true) + "Input"@,
    {
        let mut input_type = to_pascal_case(project_name);
        append_str(&mut input_type, "Input");
        TemplateVariables {
            project_name: project_name.to_string(),
            workflow_name: to_camel_case(project_name),
            workflow_name_snake: to_snake_case(project_name),
            input_type,
        }
    }
}

/// `content` with the placeholders of the four variables filled in, one
/// variable after the other.
pub open spec fn rendered(content: Seq<char>, vars: TemplateVariables) -> Seq<char> {
    let a = replace_all(content, "{{ project_name }}"@, vars.project_name@);
    let b = replace_all(a, "{{ workflow_name }}"@, vars.workflow_name@);
    let c = replace_all(b, "{{ workflow_name_snake }}"@, vars.workflow_name_snake@);
    replace_all(c, "{{ input_type }}"@, vars.input_type@)
}

/// Fills the placeholders `{{ project_name }}`, `{{ workflow_name }}`,
/// `{{ workflow_name_snake }}` and `{{ input_type }}` of a template.
pub fn render_template(content: &str, vars: &TemplateVariables) -> (r: String)
    ensures
        r@ == rendered(content@, *vars),
{
    proof {
        reveal_strlit("{{ project_name }}");
        reveal_strlit("{{ workflow_name }}");
        reveal_strlit("{{ workflow_name_snake }}");
        reveal_strlit("{{ input_type }}");
    }
    let a = replace_str(content, "{{ project_name }}", vars.project_name.as_str());
    let b = replace_str(a.as_str(), "{{ workflow_name }}", vars.workflow_name.as_str());
    let c = replace_str(b.as_str(), "{{ workflow_name_snake }}", vars.workflow_name_snake.as_str());
    replace_str(c.as_str(), "{{ input_type }}", vars.input_type.as_str())
}

/// The directory of a template under the CLI's root: `templates/<dir_name>`.
pub fn get_template_dir(template_type: TemplateType, cli_root: &Path) -> (r: PathBuf) {
    let templates = path_join(cli_root, "templates");
    path_join(templates.as_path(), template_type.dir_name())
}

} // verus!
