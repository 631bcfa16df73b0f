//! Model capability data and its extraction from the backend's
//! describe-model answer.
//!
//! The answer arrives as JSON; the caller lifts the fields this module
//! probes into [`ModelDescription`], plain values the logic can be
//! verified over, and the functions here decide the trained context
//! length and the model class exactly as stated.

use vstd::prelude::*;
use vstd::string::StrSliceExecFns;
use vstd::string::StringExecFns;

use crate::text::contains_sub;
use crate::text::contains_sub_lower;
use crate::text::last_token;
use crate::text::parse_u32;
use crate::text::spec_contains;
use crate::text::spec_last_token;
use crate::text::spec_lower;
use crate::text::spec_parse_u32;

verus! {

/// What the gateway knows of a model: its trained context length and its
/// class, `"chat"`, `"embedding"` or `"unknown"`.
#[derive(Clone, Debug)]
pub struct ModelMetadata {
    pub n_ctx_train: u32,
    pub model_type: String,
}

impl Default for ModelMetadata {
    /// The conservative stand-in when the backend cannot be asked: a
    /// trained context length of 8192 and an unknown model class.
    fn default() -> (d: Self)
        ensures
            d.n_ctx_train == 8192,
            d.model_type@ == "unknown"@,
    {
        ModelMetadata { n_ctx_train: 8192, model_type: String::from_str("unknown") }
    }
}

/// One entry of the capability map: its key, and its value when that
/// value is an unsigned number.
#[derive(Clone, Debug)]
pub struct InfoField {
    pub key: String,
    pub num_value: Option<u64>,
}

/// The fields of the backend's describe-model answer that the probes
/// read, in the order the document gives them.
#[derive(Clone, Debug)]
pub struct ModelDescription {
    /// The nested capability map's entries.
    pub model_info: Vec<InfoField>,
    /// `num_ctx` from the nested parameters map, when numeric.
    pub details_num_ctx: Option<u64>,
    /// The embedded model-definition text blob.
    pub modelfile: Option<String>,
    /// The free-form parameters string.
    pub parameters: Option<String>,
    /// The prompt template.
    pub template: Option<String>,
}

/// A capability-map key that speaks of context size.
pub open spec fn spec_ctx_key(key: Seq<char>) -> bool {
    spec_contains(key, "context"@) || spec_contains(key, "ctx"@)
}

/// The first capability-map entry whose key speaks of context size and
/// whose value is numeric, if any.
pub open spec fn spec_first_ctx_field(fields: Seq<InfoField>) -> Option<u64>
    decreases fields.len(),
{
    if fields.len() == 0 {
        None
    } else if spec_ctx_key(fields[0].key@) && fields[0].num_value is Some {
        fields[0].num_value
    } else {
        spec_first_ctx_field(fields.drop_first())
    }
}

/// Index of the first occurrence of `c` in `s`, or -1.
pub open spec fn spec_find_char(s: Seq<char>, c: char) -> int
    decreases s.len(),
{
    if s.len() == 0 {
        -1
    } else if s[0] == c {
        0
    } else {
        let r = spec_find_char(s.drop_first(), c);
        if r == -1 {
            -1
        } else {
            r + 1
        }
    }
}

pub proof fn lemma_find_char_props(s: Seq<char>, c: char)
    ensures
        ({
            let r = spec_find_char(s, c);
            &&& r == -1 ==> forall|j: int| 0 <= j < s.len() ==> s[j] != c
            &&& r != -1 ==> 0 <= r < s.len() && s[r] == c && forall|j: int| 0 <= j < r ==> s[j]
                != c
        }),
    decreases s.len(),
{
    if s.len() > 0 && s[0] != c {
        lemma_find_char_props(s.drop_first(), c);
        let r = spec_find_char(s.drop_first(), c);
        if r == -1 {
            assert forall|j: int| 0 <= j < s.len() implies s[j] != c by {
                if j >= 1 {
                    assert(s.drop_first()[j - 1] == s[j]);
                }
            }
        } else {
            assert(s.drop_first()[r] == s[r + 1]);
            assert forall|j: int| 0 <= j < r + 1 implies s[j] != c by {
                if j >= 1 {
                    assert(s.drop_first()[j - 1] == s[j]);
                }
            }
        }
    }
}

/// Drops one `'\r'` from the end of a line, if one stands there.
pub open spec fn spec_strip_cr(line: Seq<char>) -> Seq<char> {
    if line.len() >= 1 && line.last() == '\r' {
        line.drop_last()
    } else {
        line
    }
}

/// Splits text into lines at each `'\n'`, dropping one trailing `'\r'`
/// from every line.
pub open spec fn spec_lines(s: Seq<char>) -> Seq<Seq<char>>
    decreases s.len(),
{
    let i = spec_find_char(s, '\n');
    if i == -1 {
        seq![spec_strip_cr(s)]
    } else {
        proof {
            lemma_find_char_props(s, '\n');
        }
        seq![spec_strip_cr(s.subrange(0, i))] + spec_lines(s.subrange(i + 1, s.len() as int))
    }
}

/// A line of the model-definition blob that sets `num_ctx`: it names
/// `parameter` in any letter case, names `num_ctx`, and its last
/// whitespace-separated token is the value.
pub open spec fn spec_modelfile_line_ctx(line: Seq<char>) -> Option<u32> {
    if spec_contains(spec_lower(line), "parameter"@) && spec_contains(line, "num_ctx"@) {
        match spec_last_token(line) {
            Some(tok) => spec_parse_u32(tok),
            None => None,
        }
    } else {
        None
    }
}

/// A line of the free-form parameters string that sets `num_ctx`.
pub open spec fn spec_params_line_ctx(line: Seq<char>) -> Option<u32> {
    if spec_contains(line, "num_ctx"@) {
        match spec_last_token(line) {
            Some(tok) => spec_parse_u32(tok),
            None => None,
        }
    } else {
        None
    }
}

/// The value of the first line the given rule accepts, scanning in
/// order; `modelfile_rule` picks between the two line shapes.
pub open spec fn spec_first_line_value(lines: Seq<Seq<char>>, modelfile_rule: bool) -> Option<
    u32,
>
    decreases lines.len(),
{
    if lines.len() == 0 {
        None
    } else {
        let v = if modelfile_rule {
            spec_modelfile_line_ctx(lines[0])
        } else {
            spec_params_line_ctx(lines[0])
        };
        if v is Some {
            v
        } else {
            spec_first_line_value(lines.drop_first(), modelfile_rule)
        }
    }
}

/// Index of the first `'\n'` in `s`, as [`spec_find_char`] states.
fn find_newline(s: &str) -> (r: Option<usize>)
    ensures
        r matches Some(i) ==> spec_find_char(s@, '\n') == i,
        r is None ==> spec_find_char(s@, '\n') == -1,
{
    let n = s.unicode_len();
    let mut i: usize = 0;
    while i < n
        invariant
            i <= n,
            n == s@.len(),
            forall|j: int| 0 <= j < i ==> s@[j] != '\n',
        decreases n - i,
    {
        if s.get_char(i) == '\n' {
            proof {
                lemma_find_char_props(s@, '\n');
            }
            return Some(i);
        }
        i += 1;
    }
    proof {
        lemma_find_char_props(s@, '\n');
    }
    None
}

/// The value of one line under the chosen rule, as
/// [`spec_modelfile_line_ctx`] or [`spec_params_line_ctx`] states.
fn line_ctx_value(line: &str, modelfile_rule: bool) -> (r: Option<u32>)
    ensures
        modelfile_rule ==> r == spec_modelfile_line_ctx(line@),
        !modelfile_rule ==> r == spec_params_line_ctx(line@),
{
    let rule_hit = if modelfile_rule {
        contains_sub_lower(line, "parameter") && contains_sub(line, "num_ctx")
    } else {
        contains_sub(line, "num_ctx")
    };
    if !rule_hit {
        return None;
    }
    match last_token(line) {
        Some(tok) => parse_u32(tok),
        None => None,
    }
}

/// Scans the lines of `text` for the first that sets `num_ctx` under the
/// chosen rule, as [`spec_first_line_value`] over [`spec_lines`] states.
fn scan_lines_for_ctx(text: &str, modelfile_rule: bool) -> (r: Option<u32>)
    ensures
        r == spec_first_line_value(spec_lines(text@), modelfile_rule),
{
    let mut rest: &str = text;
    loop
        invariant
            spec_first_line_value(spec_lines(text@), modelfile_rule) == spec_first_line_value(
                spec_lines(rest@),
                modelfile_rule,
            ),
        decreases rest@.len(),
    {
        let n = rest.unicode_len();
        match find_newline(rest) {
            Some(i) => {
                proof {
                    lemma_find_char_props(rest@, '\n');
                }
                let raw = rest.substring_char(0, i);
                let line = strip_cr(raw);
                if let Some(v) = line_ctx_value(line, modelfile_rule) {
                    proof {
                        assert(spec_lines(rest@)[0] == spec_strip_cr(rest@.subrange(0, i as int)));
                    }
                    return Some(v);
                }
                proof {
                    assert(spec_lines(rest@)[0] == spec_strip_cr(rest@.subrange(0, i as int)));
                    assert(spec_lines(rest@).drop_first() =~= spec_lines(
                        rest@.subrange(i + 1, rest@.len() as int),
                    ));
                }
                rest = rest.substring_char(i + 1, n);
            },
            None => {
                let line = strip_cr(rest);
                let v = line_ctx_value(line, modelfile_rule);
                proof {
                    assert(spec_lines(rest@) =~= seq![spec_strip_cr(rest@)]);
                    assert(spec_lines(rest@)[0] == spec_strip_cr(rest@));
                    assert(spec_lines(rest@).drop_first() =~= Seq::<Seq<char>>::empty());
                    assert(spec_first_line_value(Seq::<Seq<char>>::empty(), modelfile_rule)
                        is None);
                }
                return v;
            },
        }
    }
}

/// The line without one trailing `'\r'`, as [`spec_strip_cr`] states.
fn strip_cr<'a>(line: &'a str) -> (r: &'a str)
    ensures
        r@ == spec_strip_cr(line@),
{
    let n = line.unicode_len();
    if n >= 1 && line.get_char(n - 1) == '\r' {
        let r = line.substring_char(0, n - 1);
        proof {
            assert(line@.subrange(0, n - 1) =~= line@.drop_last());
        }
        r
    } else {
        line
    }
}

/// The trained context length the answer implies.
///
/// The probes run in order: a capability-map key that speaks of context
/// size, then the nested parameters map's `num_ctx`, then a
/// `PARAMETER num_ctx` line of the model-definition blob, then a
/// `num_ctx` line of the free-form parameters string. The first hit
/// wins; values wider than 32 bits are truncated; with no hit the
/// conservative default 8192 stands.
pub open spec fn spec_modelfile_ctx(d: ModelDescription) -> Option<u32> {
    match d.modelfile {
        Some(m) => spec_first_line_value(spec_lines(m@), true),
        None => None,
    }
}

pub open spec fn spec_params_ctx(d: ModelDescription) -> Option<u32> {
    match d.parameters {
        Some(p) => spec_first_line_value(spec_lines(p@), false),
        None => None,
    }
}

pub open spec fn spec_extract_n_ctx_train(d: ModelDescription) -> u32 {
    match spec_first_ctx_field(d.model_info@) {
        Some(v) => v as u32,
        None => match d.details_num_ctx {
            Some(v) => v as u32,
            None => match spec_modelfile_ctx(d) {
                Some(v) => v,
                None => match spec_params_ctx(d) {
                    Some(v) => v,
                    None => 8192,
                },
            },
        },
    }
}

/// Reads the trained context length out of a describe-model answer, as
/// [`spec_extract_n_ctx_train`] states.
pub fn extract_n_ctx_train(desc: &ModelDescription) -> (r: u32)
    ensures
        r == spec_extract_n_ctx_train(*desc),
{
    let n = desc.model_info.len();
    proof {
        assert(desc.model_info@.subrange(0, n as int) =~= desc.model_info@);
    }
    let mut i: usize = 0;
    while i < n
        invariant
            i <= n,
            n == desc.model_info@.len(),
            spec_first_ctx_field(desc.model_info@) == spec_first_ctx_field(
                desc.model_info@.subrange(i as int, n as int),
            ),
        decreases n - i,
    {
        let field = &desc.model_info[i];
        let ghost suffix = desc.model_info@.subrange(i as int, n as int);
        proof {
            assert(suffix[0] == desc.model_info@[i as int]);
            assert(suffix.drop_first() =~= desc.model_info@.subrange(i + 1, n as int));
        }
        let key_hit = contains_sub(field.key.as_str(), "context") || contains_sub(
            field.key.as_str(),
            "ctx",
        );
        if key_hit {
            if let Some(v) = field.num_value {
                return #[verifier::truncate] (v as u32);
            }
        }
        i += 1;
    }
    proof {
        assert(desc.model_info@.subrange(n as int, n as int) =~= Seq::<InfoField>::empty());
    }
    if let Some(v) = desc.details_num_ctx {
        return #[verifier::truncate] (v as u32);
    }
    if let Some(m) = &desc.modelfile {
        if let Some(v) = scan_lines_for_ctx(m.as_str(), true) {
            return v;
        }
    }
    if let Some(p) = &desc.parameters {
        if let Some(v) = scan_lines_for_ctx(p.as_str(), false) {
            return v;
        }
    }
    8192
}

/// The model class the answer implies: `"embedding"` when the
/// model-definition blob speaks of embeddings in any letter case, or
/// when the prompt template is empty or trivial; otherwise `"chat"`.
pub open spec fn spec_extract_model_type(d: ModelDescription) -> Seq<char> {
    if d.modelfile matches Some(m) && spec_contains(spec_lower(m@), "embed"@) {
        "embedding"@
    } else if d.template matches Some(t) && (t@.len() == 0 || spec_contains(
        t@,
        "{{ .Prompt }}"@,
    )) {
        "embedding"@
    } else {
        "chat"@
    }
}

/// Reads the model class out of a describe-model answer, as
/// [`spec_extract_model_type`] states.
pub fn extract_model_type(desc: &ModelDescription) -> (r: String)
    ensures
        r@ == spec_extract_model_type(*desc),
{
    if let Some(m) = &desc.modelfile {
        if contains_sub_lower(m.as_str(), "embed") {
            return String::from_str("embedding");
        }
    }
    if let Some(t) = &desc.template {
        if t.as_str().unicode_len() == 0 || contains_sub(t.as_str(), "{{ .Prompt }}") {
            return String::from_str("embedding");
        }
    }
    String::from_str("chat")
}

/// Builds [`ModelMetadata`] from a describe-model answer: both probes,
/// as their specs state.
pub fn metadata_from_description(desc: &ModelDescription) -> (m: ModelMetadata)
    ensures
        m.n_ctx_train == spec_extract_n_ctx_train(*desc),
        m.model_type@ == spec_extract_model_type(*desc),
{
    ModelMetadata {
        n_ctx_train: extract_n_ctx_train(desc),
        model_type: extract_model_type(desc),
    }
}

} // verus!
