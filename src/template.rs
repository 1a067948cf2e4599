//! The project context and the substitution of its placeholders into a
//! template body.
use vstd::prelude::*;
use vstd::string::StrSliceExecFns;

verus! {

#[verifier::external_type_specification]
#[verifier::external_body]
pub struct ExTemplateError(tinytemplate::error::Error);

/// The placeholder values of one project, all derived from its name.
#[derive(Debug, Clone)]
pub struct Template {
    pub project_name: String,
    pub project_name_dashes_to_underscores: String,
    pub project_name_lowercase: String,
}

/// Why a body could not be rendered: it does not parse, or it names a
/// placeholder outside the project context.
#[derive(Debug, Clone, Copy, PartialEq, Eq)]
pub enum RenderError {
    TemplateSyntax,
}

/// What `str::to_lowercase` makes of a string.
pub uninterp spec fn lower_of(s: Seq<char>) -> Seq<char>;

/// What tinytemplate renders `body` to, with the context that maps each
/// key of `fields` to its value; `None` where it reports an error.
pub uninterp spec fn tinytemplate_output(
    body: Seq<char>,
    fields: Seq<(Seq<char>, Seq<char>)>,
) -> Option<Seq<char>>;

/// `s` with every `from` made a `to`.
pub open spec fn replaced(s: Seq<char>, from: char, to: char) -> Seq<char> {
    s.map_values(|c: char| if c == from { to } else { c })
}

/// Relies on `str::to_lowercase`: the result depends on the characters alone.
#[verifier::external_body]
pub(crate) fn to_lowercase(s: &str) -> (r: String)
    ensures
        r@ == lower_of(s@),
{
    s.to_lowercase()
}

/// Relies on `str::replace` with a `char` pattern: each occurrence of `from`
/// is replaced by `to`, and every other character is kept in place.
#[verifier::external_body]
fn replace_char(s: &str, from: char, to: char) -> (r: String)
    ensures
        r@ == replaced(s@, from, to),
{
    s.replace(from, to.encode_utf8(&mut [0u8; 4]))
}

/// Relies on `tinytemplate::TinyTemplate::add_template` and `render`, with
/// `format_unescaped` as the default formatter: `body` is compiled and
/// rendered against a map from each key of `fields` to its value. The
/// compiler panics on some blocks, on an empty comment and on a trailing
/// backslash, so those bodies are left out.
#[verifier::external_body]
fn tinytemplate_render(body: &str, fields: &Vec<(String, String)>) -> (r: Result<
    String,
    tinytemplate::error::Error,
>)
    requires
        !has_unsupported_syntax(body@),
    ensures
        r is Ok ==> tinytemplate_output(body@, fields_view(fields@)) == Some(r->Ok_0@),
        r is Err ==> tinytemplate_output(body@, fields_view(fields@)) is None,
{
    let mut tt = tinytemplate::TinyTemplate::new();
    tt.set_default_formatter(&tinytemplate::format_unescaped);
    tt.add_template("body", body)?;
    let context: std::collections::BTreeMap<&str, &str> = fields.iter().map(
        |(k, v)| (k.as_str(), v.as_str()),
    ).collect();
    tt.render("body", &context)
}

pub open spec fn fields_view(f: Seq<(String, String)>) -> Seq<(Seq<char>, Seq<char>)> {
    f.map_values(|p: (String, String)| (p.0@, p.1@))
}

/// The mathematical value of a [`Template`].
pub struct TemplateModel {
    pub project_name: Seq<char>,
    pub project_name_dashes_to_underscores: Seq<char>,
    pub project_name_lowercase: Seq<char>,
}

impl View for Template {
    type V = TemplateModel;

    open spec fn view(&self) -> TemplateModel {
        TemplateModel {
            project_name: self.project_name@,
            project_name_dashes_to_underscores: self.project_name_dashes_to_underscores@,
            project_name_lowercase: self.project_name_lowercase@,
        }
    }
}

/// The context of project `name`.
pub open spec fn context_of(name: Seq<char>) -> TemplateModel {
    TemplateModel {
        project_name: name,
        project_name_dashes_to_underscores: replaced(name, '-', '_'),
        project_name_lowercase: lower_of(name),
    }
}

/// The placeholders of a context, each with its value.
pub open spec fn placeholders(t: TemplateModel) -> Seq<(Seq<char>, Seq<char>)> {
    seq![
        ("ProjectName"@, t.project_name),
        ("ProjectName_DashesToUnderscores"@, t.project_name_dashes_to_underscores),
        ("ProjectName_Lowercase"@, t.project_name_lowercase),
    ]
}

/// What `body` renders to in context `t`; `None` for a syntax error.
pub open spec fn rendered(body: Seq<char>, t: TemplateModel) -> Option<Seq<char>> {
    tinytemplate_output(body, placeholders(t))
}

impl Template {
    /// The context of the project named `project_name`.
    pub fn from_project_name(project_name: &str) -> (r: Self)
        ensures
            r@ == context_of(project_name@),
    {
        Template {
            project_name: project_name.to_owned(),
            project_name_dashes_to_underscores: replace_char(project_name, '-', '_'),
            project_name_lowercase: to_lowercase(project_name),
        }
    }

    /// The placeholders of this context, each with its value.
    pub fn fields(&self) -> (r: Vec<(String, String)>)
        ensures
            fields_view(r@) == placeholders(self@),
    {
        let r = vec![
            ("ProjectName".to_owned(), self.project_name.clone()),
            ("ProjectName_DashesToUnderscores".to_owned(), self.project_name_dashes_to_underscores.clone()),
            ("ProjectName_Lowercase".to_owned(), self.project_name_lowercase.clone()),
        ];
        assert(fields_view(r@) =~= placeholders(self@));
        r
    }
}

/// A character that may stand between a placeholder's braces.
pub open spec fn is_inner_char(c: char) -> bool {
    c != '{' && c != '}'
}

/// `body[i..=j]` is a placeholder token: `{`, text without braces, `}`.
pub open spec fn token_at(body: Seq<char>, i: int, j: int) -> bool {
    &&& 0 <= i
    &&& i < j < body.len()
    &&& body[i] == '{'
    &&& body[j] == '}'
    &&& forall|k: int| i < k < j ==> is_inner_char(#[trigger] body[k])
}

/// The names that a body may use: those of the project context.
pub open spec fn known_placeholder(name: Seq<char>) -> bool {
    name == "ProjectName"@ || name == "ProjectName_DashesToUnderscores"@ || name
        == "ProjectName_Lowercase"@
}

/// `body` holds a placeholder token whose text is not a name of the project
/// context.
pub open spec fn has_unknown_placeholder(body: Seq<char>) -> bool {
    exists|i: int, j: int| #[trigger] token_at(body, i, j) && !known_placeholder(body.subrange(i + 1, j))
}

/// `body` opens a block (`{{`) or a comment (`{#`), or ends in a backslash:
/// none of these belongs to the placeholder syntax.
pub open spec fn has_unsupported_syntax(body: Seq<char>) -> bool {
    (exists|i: int|
        0 <= i && i + 1 < body.len() && #[trigger] body[i] == '{' && (body[i + 1] == '{' || body[i + 1]
            == '#')) || (body.len() > 0 && body.last() == '\\')
}

fn is_known(name: &str) -> (r: bool)
    ensures
        r == known_placeholder(name@),
{
    let name = name.to_owned();
    name == "ProjectName".to_owned() || name == "ProjectName_DashesToUnderscores".to_owned() || name
        == "ProjectName_Lowercase".to_owned()
}

/// Whether `body` holds a placeholder outside the project context.
pub fn names_unknown_placeholder(body: &str) -> (r: bool)
    ensures
        r == has_unknown_placeholder(body@),
{
    let n = body.unicode_len();
    let mut i: usize = 0;
    while i < n
        invariant
            n == body@.len(),
            i <= n,
            forall|a: int, b: int|
                0 <= a < i && #[trigger] token_at(body@, a, b) ==> known_placeholder(body@.subrange(a + 1, b)),
        decreases n - i,
    {
        if body.get_char(i) == '{' {
            let mut j: usize = i + 1;
            while j < n && body.get_char(j) != '{' && body.get_char(j) != '}'
                invariant
                    n == body@.len(),
                    i < j <= n,
                    forall|k: int| i < k < j ==> is_inner_char(#[trigger] body@[k]),
                decreases n - j,
            {
                j = j + 1;
            }
            proof {
                assert forall|b: int| #[trigger] token_at(body@, i as int, b) implies b == j by {
                    if b < j {
                        assert(is_inner_char(body@[b]));
                    } else if b > j {
                        assert(is_inner_char(body@[j as int]));
                    }
                }
            }
            if j < n && body.get_char(j) == '}' {
                if !is_known(body.substring_char(i + 1, j)) {
                    assert(token_at(body@, i as int, j as int));
                    return true;
                }
            }
        }
        i = i + 1;
    }
    false
}

/// Whether `body` opens a block or a comment, or ends in a backslash.
pub fn uses_unsupported_syntax(body: &str) -> (r: bool)
    ensures
        r == has_unsupported_syntax(body@),
{
    let n = body.unicode_len();
    if n > 0 && body.get_char(n - 1) == '\\' {
        return true;
    }
    let mut i: usize = 0;
    while i < n
        invariant
            n == body@.len(),
            i <= n,
            n > 0 ==> body@.last() != '\\',
            forall|k: int|
                0 <= k < i && k + 1 < n && #[trigger] body@[k] == '{' ==> body@[k + 1] != '{' && body@[k
                    + 1] != '#',
        decreases n - i,
    {
        if i + 1 < n && body.get_char(i) == '{' {
            let c = body.get_char(i + 1);
            if c == '{' || c == '#' {
                return true;
            }
        }
        i = i + 1;
    }
    false
}

/// `body` with each placeholder of `context` replaced by its value, taken
/// literally. A body with a placeholder outside the context fails, whatever
/// surrounds it; so does one that opens a block or a comment, or ends in a
/// backslash.
pub fn render(body: &str, context: &Template) -> (r: Result<String, RenderError>)
    ensures
        has_unknown_placeholder(body@) ==> r == Err::<String, RenderError>(RenderError::TemplateSyntax),
        has_unsupported_syntax(body@) ==> r == Err::<String, RenderError>(RenderError::TemplateSyntax),
        !has_unknown_placeholder(body@) && !has_unsupported_syntax(body@) ==> (r is Ok <==> rendered(
            body@,
            context@,
        ) is Some),
        r is Ok ==> rendered(body@, context@) == Some(r->Ok_0@),
{
    if names_unknown_placeholder(body) || uses_unsupported_syntax(body) {
        return Err(RenderError::TemplateSyntax);
    }
    match tinytemplate_render(body, &context.fields()) {
        Ok(s) => Ok(s),
        Err(_) => Err(RenderError::TemplateSyntax),
    }
}

/// A body that holds a placeholder outside the project context fails to
/// render in every context, with any text around the token.
pub proof fn lemma_unknown_placeholder_fails(prefix: Seq<char>, name: Seq<char>, suffix: Seq<char>)
    requires
        forall|k: int| 0 <= k < name.len() ==> is_inner_char(#[trigger] name[k]),
        !known_placeholder(name),
    ensures
        has_unknown_placeholder(prefix + seq!['{'] + name + seq!['}'] + suffix),
{
    let body = prefix + seq!['{'] + name + seq!['}'] + suffix;
    let i = prefix.len() as int;
    let j = i + 1 + name.len();
    assert(body.subrange(i + 1, j) =~= name);
    assert forall|k: int| i < k < j implies is_inner_char(#[trigger] body[k]) by {
        assert(body[k] == name[k - i - 1]);
    }
    assert(token_at(body, i, j));
}

/// Rendering is a function of the body and the context alone: the same
/// arguments give the same output, or the same failure.
pub proof fn lemma_render_deterministic(b1: Seq<char>, c1: TemplateModel, b2: Seq<char>, c2: TemplateModel)
    requires
        b1 == b2,
        c1 == c2,
    ensures
        rendered(b1, c1) == rendered(b2, c2),
{
}

} // verus!
