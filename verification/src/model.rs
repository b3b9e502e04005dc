//! Note-types: a named schema of fields and templates, together with the
//! requirement inference that decides which fields gate each template's card.
//!
//! Inference probes the renderer with a sentinel string instead of analyzing
//! the pattern's grammar: a field is structurally required when blanking it
//! alone makes the sentinel vanish from the rendered question, and it is one
//! of several alternative triggers when binding it alone makes the sentinel
//! appear.

use crate::builders::{fld_matches, tmpl_matches, Field, Template};
use crate::db_entries::{Fld, ModelDbEntry, Tmpl};
use crate::error::Error;
use crate::render::{render_pattern, spec_render};
use crate::text::{contains_seq, contains_str};
use vstd::prelude::*;

verus! {

/// The two kinds of note-type: classic front/back cards, or cloze deletions.
#[derive(Clone, Copy, Debug, PartialEq, Eq, Structural)]
pub enum ModelType {
    FrontBack,
    Cloze,
}

/// A note-type: an identifier, a name, ordered fields and templates, styling
/// and typesetting metadata, and a variant tag.
#[derive(Clone, Debug)]
pub struct Model {
    pub id: i64,
    pub name: String,
    pub fields: Vec<Fld>,
    pub templates: Vec<Tmpl>,
    pub css: String,
    pub model_type: ModelType,
    pub latex_pre: String,
    pub latex_post: String,
    pub sort_field_index: i64,
}

/// The sentinel that inference binds to fields when probing the renderer.
pub open spec fn spec_sentinel() -> Seq<char> {
    "SeNtInEl"@
}

/// Bindings for the structural-requirement probe of field `j`: every field
/// is bound to the sentinel except `j`, which is blank.
pub open spec fn blank_one(n: nat, j: int) -> Seq<Seq<char>> {
    Seq::new(n, |i: int| if i == j { Seq::<char>::empty() } else { spec_sentinel() })
}

/// Bindings for the alternative-trigger probe of field `j`: every field is
/// blank except `j`, which is bound to the sentinel.
pub open spec fn only_one(n: nat, j: int) -> Seq<Seq<char>> {
    Seq::new(n, |i: int| if i == j { spec_sentinel() } else { Seq::<char>::empty() })
}

/// Field `j` is structurally required by pattern `q`: with `j` blanked and
/// the rest sentinel-bound, the sentinel no longer reaches the output.
pub open spec fn all_required(q: Seq<char>, names: Seq<Seq<char>>, j: int) -> bool {
    match spec_render(q, names, blank_one(names.len(), j)) {
        Result::Ok(s) => !contains_seq(s, spec_sentinel()),
        Result::Err(m) => false,
    }
}

/// Field `j` is one of several alternative triggers for pattern `q`: bound
/// alone to the sentinel, the sentinel reaches the output.
pub open spec fn any_trigger(q: Seq<char>, names: Seq<Seq<char>>, j: int) -> bool {
    match spec_render(q, names, only_one(names.len(), j)) {
        Result::Ok(s) => contains_seq(s, spec_sentinel()),
        Result::Err(m) => false,
    }
}

/// Every structural-requirement probe of `q` renders.
pub open spec fn pass1_parses(q: Seq<char>, names: Seq<Seq<char>>) -> bool {
    forall|j: int|
        0 <= j < names.len() ==> (#[trigger] spec_render(
            q,
            names,
            blank_one(names.len(), j),
        )) is Ok
}

/// Every alternative-trigger probe of `q` renders.
pub open spec fn pass2_parses(q: Seq<char>, names: Seq<Seq<char>>) -> bool {
    forall|j: int|
        0 <= j < names.len() ==> (#[trigger] spec_render(
            q,
            names,
            only_one(names.len(), j),
        )) is Ok
}

/// Some field of `q` is structurally required.
pub open spec fn has_all_required(q: Seq<char>, names: Seq<Seq<char>>) -> bool {
    exists|j: int| 0 <= j < names.len() && all_required(q, names, j)
}

/// Some field of `q` is an alternative trigger.
pub open spec fn has_any_trigger(q: Seq<char>, names: Seq<Seq<char>>) -> bool {
    exists|j: int| 0 <= j < names.len() && any_trigger(q, names, j)
}

/// What inference concludes for one template, in the order the passes run:
/// a render failure is fatal; otherwise the "all" rule wins when any field is
/// structurally required; otherwise the "any" rule applies to the alternative
/// triggers; a template with neither is unanalyzable.
pub enum TemplateOutcome {
    ParseFail,
    RuleAll,
    RuleAny,
    Uninferable,
}

/// The inference outcome for pattern `q` over fields `names`.
pub open spec fn template_outcome(q: Seq<char>, names: Seq<Seq<char>>) -> TemplateOutcome {
    if !pass1_parses(q, names) {
        TemplateOutcome::ParseFail
    } else if has_all_required(q, names) {
        TemplateOutcome::RuleAll
    } else if !pass2_parses(q, names) {
        TemplateOutcome::ParseFail
    } else if has_any_trigger(q, names) {
        TemplateOutcome::RuleAny
    } else {
        TemplateOutcome::Uninferable
    }
}

/// `ords` lists, in strictly ascending order, exactly the structurally
/// required field ordinals of pattern `q`.
pub open spec fn all_ords_ok(ords: Seq<usize>, q: Seq<char>, ns: Seq<Seq<char>>) -> bool {
    &&& forall|k: int|
        0 <= k < ords.len() ==> (#[trigger] ords[k]) < ns.len() && all_required(q, ns, ords[k] as int)
    &&& forall|k1: int, k2: int| 0 <= k1 < k2 < ords.len() ==> ords[k1] < ords[k2]
    &&& forall|j: int| 0 <= j < ns.len() && #[trigger] all_required(q, ns, j) ==> ords.contains(j as usize)
}

/// `ords` lists, in strictly ascending order, exactly the alternative-trigger
/// field ordinals of pattern `q`.
pub open spec fn any_ords_ok(ords: Seq<usize>, q: Seq<char>, ns: Seq<Seq<char>>) -> bool {
    &&& forall|k: int|
        0 <= k < ords.len() ==> (#[trigger] ords[k]) < ns.len() && any_trigger(q, ns, ords[k] as int)
    &&& forall|k1: int, k2: int| 0 <= k1 < k2 < ords.len() ==> ords[k1] < ords[k2]
    &&& forall|j: int| 0 <= j < ns.len() && #[trigger] any_trigger(q, ns, j) ==> ords.contains(j as usize)
}

/// The names of a model's fields, in order.
pub open spec fn model_field_names(m: Model) -> Seq<Seq<char>> {
    m.fields@.map_values(|f: Fld| f.name@)
}

/// Inference succeeds on template `t` of `m`.
pub open spec fn template_infers(m: Model, t: int) -> bool {
    let oc = template_outcome(m.templates@[t].qfmt@, model_field_names(m));
    oc is RuleAll || oc is RuleAny
}

/// Inference succeeds on every template of `m`.
pub open spec fn model_infers(m: Model) -> bool {
    forall|t: int| 0 <= t < m.templates@.len() ==> template_infers(m, t)
}

/// The requirement record `rec` is the one inference derives for template
/// `t` of `m`: the template's own ordinal, the rule the outcome dictates,
/// and the exact, ascending, non-empty set of governing field ordinals.
pub open spec fn req_record_ok(m: Model, rec: (usize, String, Vec<usize>), t: int) -> bool {
    let q = m.templates@[t].qfmt@;
    let ns = model_field_names(m);
    &&& rec.0 == t
    &&& match template_outcome(q, ns) {
        TemplateOutcome::RuleAll => {
            &&& rec.1@ == "all"@
            &&& all_ords_ok(rec.2@, q, ns)
            &&& rec.2@.len() > 0
        },
        TemplateOutcome::RuleAny => {
            &&& rec.1@ == "any"@
            &&& any_ords_ok(rec.2@, q, ns)
            &&& rec.2@.len() > 0
        },
        _ => false,
    }
}

/// The render-failure error of one template: the first probe that fails to
/// render, in the order the passes run, supplies the renderer's message.
pub open spec fn parse_fail_error_ok(q: Seq<char>, ns: Seq<Seq<char>>, e: Error) -> bool {
    ||| exists|j: int|
        {
            &&& 0 <= j < ns.len()
            &&& (#[trigger] spec_render(q, ns, blank_one(ns.len(), j))) matches Err(m) && (
            e matches Error::Template(msg) && msg@ == m)
            &&& forall|k: int|
                0 <= k < j ==> (#[trigger] spec_render(q, ns, blank_one(ns.len(), k))) is Ok
        }
    ||| (pass1_parses(q, ns) && !has_all_required(q, ns) && exists|j: int|
        {
            &&& 0 <= j < ns.len()
            &&& (#[trigger] spec_render(q, ns, only_one(ns.len(), j))) matches Err(m) && (
            e matches Error::Template(msg) && msg@ == m)
            &&& forall|k: int|
                0 <= k < j ==> (#[trigger] spec_render(q, ns, only_one(ns.len(), k))) is Ok
        })
}

/// Inference returns exactly one requirement record per template: the
/// records come in template order, each keyed by its own template ordinal,
/// with a rule of "all" or "any" over a non-empty set of field ordinals.
/// This holds of every note-type inference accepts; a template whose
/// pattern renders but names no governing field at all is rejected with an
/// error instead of a record.
pub proof fn lemma_one_record_per_template(m: Model, records: Seq<(usize, String, Vec<usize>)>)
    requires
        records.len() == m.templates@.len(),
        forall|t: int| 0 <= t < records.len() ==> req_record_ok(m, #[trigger] records[t], t),
    ensures
        forall|t: int|
            0 <= t < records.len() ==> {
                &&& (#[trigger] records[t]).0 == t
                &&& (records[t].1@ == "all"@ || records[t].1@ == "any"@)
                &&& records[t].2@.len() > 0
            },
{
}

/// The error inference reports for template `t` of `m`: a render failure
/// surfaces the first failing probe's message, an unanalyzable template
/// surfaces the template itself.
pub open spec fn req_error_ok(m: Model, e: Error, t: int) -> bool {
    match template_outcome(m.templates@[t].qfmt@, model_field_names(m)) {
        TemplateOutcome::ParseFail => parse_fail_error_ok(
            m.templates@[t].qfmt@,
            model_field_names(m),
            e,
        ),
        TemplateOutcome::Uninferable => e matches Error::TemplateFormat(tm) && tm
            == m.templates@[t],
        _ => false,
    }
}

fn blank_one_values(n: usize, j: usize) -> (v: Vec<String>)
    requires
        j < n,
    ensures
        v@.len() == n,
        v.deep_view() == blank_one(n as nat, j as int),
{
    let mut v: Vec<String> = Vec::new();
    let mut i: usize = 0;
    while i < n
        invariant
            0 <= i <= n,
            v@.len() == i,
            forall|k: int| 0 <= k < i ==> v@[k]@ == blank_one(n as nat, j as int)[k],
        decreases n - i,
    {
        if i == j {
            v.push(String::new());
        } else {
            v.push("SeNtInEl".to_owned());
        }
        i += 1;
    }
    assert(v.deep_view() =~= blank_one(n as nat, j as int));
    v
}

fn only_one_values(n: usize, j: usize) -> (v: Vec<String>)
    requires
        j < n,
    ensures
        v@.len() == n,
        v.deep_view() == only_one(n as nat, j as int),
{
    let mut v: Vec<String> = Vec::new();
    let mut i: usize = 0;
    while i < n
        invariant
            0 <= i <= n,
            v@.len() == i,
            forall|k: int| 0 <= k < i ==> v@[k]@ == only_one(n as nat, j as int)[k],
        decreases n - i,
    {
        if i == j {
            v.push("SeNtInEl".to_owned());
        } else {
            v.push(String::new());
        }
        i += 1;
    }
    assert(v.deep_view() =~= only_one(n as nat, j as int));
    v
}

/// Builds a copy of a serialized template, field by field.
fn copy_tmpl(t: &Tmpl) -> (r: Tmpl)
    ensures
        r == *t,
{
    Tmpl {
        name: t.name.clone(),
        qfmt: t.qfmt.clone(),
        did: t.did,
        bafmt: t.bafmt.clone(),
        afmt: t.afmt.clone(),
        ord: t.ord,
        bqfmt: t.bqfmt.clone(),
    }
}

/// Runs both inference passes on one template.
fn infer_template(t: &Tmpl, names: &Vec<String>) -> (r: Result<(String, Vec<usize>), Error>)
    ensures
        match r {
            Ok(rec) => {
                let q = t.qfmt@;
                let ns = names.deep_view();
                match template_outcome(q, ns) {
                    TemplateOutcome::RuleAll => {
                        &&& rec.0@ == "all"@
                        &&& all_ords_ok(rec.1@, q, ns)
                        &&& rec.1@.len() > 0
                    },
                    TemplateOutcome::RuleAny => {
                        &&& rec.0@ == "any"@
                        &&& any_ords_ok(rec.1@, q, ns)
                        &&& rec.1@.len() > 0
                    },
                    _ => false,
                }
            },
            Err(e) => {
                match template_outcome(t.qfmt@, names.deep_view()) {
                    TemplateOutcome::ParseFail => parse_fail_error_ok(
                        t.qfmt@,
                        names.deep_view(),
                        e,
                    ),
                    TemplateOutcome::Uninferable => e matches Error::TemplateFormat(tm) && tm
                        == *t,
                    _ => false,
                }
            },
        },
{
    let ghost q = t.qfmt@;
    let ghost ns = names.deep_view();
    let n = names.len();
    let mut all_ords: Vec<usize> = Vec::new();
    let mut j: usize = 0;
    while j < n
        invariant
            n == ns.len(),
            ns == names.deep_view(),
            q == t.qfmt@,
            0 <= j <= n,
            forall|k: int|
                0 <= k < j ==> (#[trigger] spec_render(q, ns, blank_one(n as nat, k))) is Ok,
            forall|k: int|
                0 <= k < all_ords@.len() ==> (#[trigger] all_ords@[k]) < j && all_required(
                    q,
                    ns,
                    all_ords@[k] as int,
                ),
            forall|k1: int, k2: int|
                0 <= k1 < k2 < all_ords@.len() ==> all_ords@[k1] < all_ords@[k2],
            forall|k: int|
                0 <= k < j && #[trigger] all_required(q, ns, k) ==> all_ords@.contains(k as usize),
        decreases n - j,
    {
        let values = blank_one_values(n, j);
        let ghost prev = all_ords@;
        match render_pattern(t.qfmt.as_str(), names, &values) {
            Err(e) => {
                proof {
                    assert(!pass1_parses(q, ns));
                    assert(parse_fail_error_ok(q, ns, e));
                }
                return Err(e);
            },
            Ok(s) => {
                if !contains_str(s.as_str(), "SeNtInEl") {
                    all_ords.push(j);
                }
            },
        }
        proof {
            assert forall|k: int|
                0 <= k < j + 1 && #[trigger] all_required(q, ns, k) implies all_ords@.contains(
                k as usize,
            ) by {
                if k < j {
                    let idx = choose|idx: int| 0 <= idx < prev.len() && prev[idx] == k as usize;
                    assert(all_ords@[idx] == k as usize);
                } else {
                    assert(all_ords@[all_ords@.len() - 1] == j);
                }
            }
        }
        j += 1;
    }
    assert(pass1_parses(q, ns));
    if all_ords.len() > 0 {
        assert(all_required(q, ns, all_ords@[0] as int));
        assert(has_all_required(q, ns));
        return Ok(("all".to_owned(), all_ords));
    }
    assert(!has_all_required(q, ns)) by {
        if has_all_required(q, ns) {
            let j0 = choose|j0: int| 0 <= j0 < ns.len() && all_required(q, ns, j0);
            assert(all_ords@.contains(j0 as usize));
        }
    }
    let mut any_ords: Vec<usize> = Vec::new();
    let mut j: usize = 0;
    while j < n
        invariant
            n == ns.len(),
            ns == names.deep_view(),
            q == t.qfmt@,
            0 <= j <= n,
            pass1_parses(q, ns),
            !has_all_required(q, ns),
            forall|k: int|
                0 <= k < j ==> (#[trigger] spec_render(q, ns, only_one(n as nat, k))) is Ok,
            forall|k: int|
                0 <= k < any_ords@.len() ==> (#[trigger] any_ords@[k]) < j && any_trigger(
                    q,
                    ns,
                    any_ords@[k] as int,
                ),
            forall|k1: int, k2: int|
                0 <= k1 < k2 < any_ords@.len() ==> any_ords@[k1] < any_ords@[k2],
            forall|k: int|
                0 <= k < j && #[trigger] any_trigger(q, ns, k) ==> any_ords@.contains(k as usize),
        decreases n - j,
    {
        let values = only_one_values(n, j);
        let ghost prev = any_ords@;
        match render_pattern(t.qfmt.as_str(), names, &values) {
            Err(e) => {
                proof {
                    assert(!pass2_parses(q, ns));
                    assert(parse_fail_error_ok(q, ns, e));
                }
                return Err(e);
            },
            Ok(s) => {
                if contains_str(s.as_str(), "SeNtInEl") {
                    any_ords.push(j);
                }
            },
        }
        proof {
            assert forall|k: int|
                0 <= k < j + 1 && #[trigger] any_trigger(q, ns, k) implies any_ords@.contains(
                k as usize,
            ) by {
                if k < j {
                    let idx = choose|idx: int| 0 <= idx < prev.len() && prev[idx] == k as usize;
                    assert(any_ords@[idx] == k as usize);
                } else {
                    assert(any_ords@[any_ords@.len() - 1] == j);
                }
            }
        }
        j += 1;
    }
    assert(pass2_parses(q, ns));
    if any_ords.len() == 0 {
        assert(!has_any_trigger(q, ns)) by {
            if has_any_trigger(q, ns) {
                let j0 = choose|j0: int| 0 <= j0 < ns.len() && any_trigger(q, ns, j0);
                assert(any_ords@.contains(j0 as usize));
            }
        }
        return Err(Error::TemplateFormat(copy_tmpl(t)));
    }
    assert(any_trigger(q, ns, any_ords@[0] as int));
    assert(has_any_trigger(q, ns));
    Ok(("any".to_owned(), any_ords))
}

impl Model {
    /// Infers the requirement records of this model: one per template, in
    /// template order.
    pub fn req(&self) -> (r: Result<Vec<(usize, String, Vec<usize>)>, Error>)
        ensures
            r matches Ok(v) ==> {
                &&& v@.len() == self.templates@.len()
                &&& forall|t: int| 0 <= t < v@.len() ==> req_record_ok(*self, v@[t], t)
            },
            (r is Ok) <==> model_infers(*self),
            r matches Err(e) ==> exists|t: int|
                {
                    &&& 0 <= t < self.templates@.len()
                    &&& !#[trigger] template_infers(*self, t)
                    &&& forall|s: int| 0 <= s < t ==> template_infers(*self, s)
                    &&& req_error_ok(*self, e, t)
                },
    {
        let mut names: Vec<String> = Vec::new();
        let mut i: usize = 0;
        while i < self.fields.len()
            invariant
                0 <= i <= self.fields@.len(),
                names@.len() == i,
                forall|k: int| 0 <= k < i ==> names@[k]@ == self.fields@[k].name@,
            decreases self.fields@.len() - i,
        {
            names.push(self.fields[i].name.clone());
            i += 1;
        }
        assert(names.deep_view() =~= model_field_names(*self));
        let mut records: Vec<(usize, String, Vec<usize>)> = Vec::new();
        let mut t: usize = 0;
        while t < self.templates.len()
            invariant
                names.deep_view() == model_field_names(*self),
                0 <= t <= self.templates@.len(),
                records@.len() == t,
                forall|s: int| 0 <= s < t ==> req_record_ok(*self, #[trigger] records@[s], s),
                forall|s: int| 0 <= s < t ==> #[trigger] template_infers(*self, s),
            decreases self.templates@.len() - t,
        {
            match infer_template(&self.templates[t], &names) {
                Ok((rule, ords)) => {
                    records.push((t, rule, ords));
                },
                Err(e) => {
                    proof {
                        let ti = t as int;
                        assert(!template_infers(*self, ti));
                        assert(!model_infers(*self));
                    }
                    return Err(e);
                },
            }
            t += 1;
        }
        Ok(records)
    }
}

/// The default typesetting preamble of a new note-type.
pub open spec fn spec_default_latex_pre() -> Seq<char> {
    "\n\\documentclass[12pt]{article}\n\\special{papersize=3in,5in}\n\\usepackage[utf8]{inputenc}\n\\usepackage{amssymb,amsmath}\n\\pagestyle{empty}\n\\setlength{\\parindent}{0in}\n\\begin{document}\n\n"@
}

/// The default typesetting postamble of a new note-type.
pub open spec fn spec_default_latex_post() -> Seq<char> {
    "\\end{document}"@
}

fn default_latex_pre() -> (r: &'static str)
    ensures
        r@ == spec_default_latex_pre(),
{
    "\n\\documentclass[12pt]{article}\n\\special{papersize=3in,5in}\n\\usepackage[utf8]{inputenc}\n\\usepackage{amssymb,amsmath}\n\\pagestyle{empty}\n\\setlength{\\parindent}{0in}\n\\begin{document}\n\n"
}

fn default_latex_post() -> (r: &'static str)
    ensures
        r@ == spec_default_latex_post(),
{
    "\\end{document}"
}

/// The serialized fields a sequence of field declarations denotes.
pub open spec fn flds_match(decls: Seq<Field>, flds: Seq<Fld>) -> bool {
    &&& flds.len() == decls.len()
    &&& forall|i: int| 0 <= i < decls.len() ==> fld_matches(decls[i], #[trigger] flds[i])
}

/// The serialized templates a sequence of template declarations denotes.
pub open spec fn tmpls_match(decls: Seq<Template>, tmpls: Seq<Tmpl>) -> bool {
    &&& tmpls.len() == decls.len()
    &&& forall|i: int| 0 <= i < decls.len() ==> tmpl_matches(decls[i], #[trigger] tmpls[i])
}

fn convert_fields(fields: Vec<Field>) -> (r: Vec<Fld>)
    ensures
        flds_match(fields@, r@),
{
    let ghost decls = fields@;
    let mut fields = fields;
    let mut r: Vec<Fld> = Vec::new();
    while fields.len() > 0
        invariant
            r@.len() + fields@.len() == decls.len(),
            fields@ == decls.subrange(r@.len() as int, decls.len() as int),
            forall|k: int| 0 <= k < r@.len() ==> fld_matches(decls[k], #[trigger] r@[k]),
        decreases fields@.len(),
    {
        let f = fields.remove(0);
        assert(f == decls[r@.len() as int]);
        r.push(f.into_fld());
        assert(fields@ =~= decls.subrange(r@.len() as int, decls.len() as int));
    }
    r
}

fn convert_templates(templates: Vec<Template>) -> (r: Vec<Tmpl>)
    ensures
        tmpls_match(templates@, r@),
{
    let ghost decls = templates@;
    let mut templates = templates;
    let mut r: Vec<Tmpl> = Vec::new();
    while templates.len() > 0
        invariant
            r@.len() + templates@.len() == decls.len(),
            templates@ == decls.subrange(r@.len() as int, decls.len() as int),
            forall|k: int| 0 <= k < r@.len() ==> tmpl_matches(decls[k], #[trigger] r@[k]),
        decreases templates@.len(),
    {
        let t = templates.remove(0);
        assert(t == decls[r@.len() as int]);
        r.push(t.into_tmpl());
        assert(templates@ =~= decls.subrange(r@.len() as int, decls.len() as int));
    }
    r
}

impl Model {
    /// Creates a new note-type with a unique `id`, a `name`, `fields` and
    /// `templates`; everything else takes its default.
    pub fn new(id: i64, name: &str, fields: Vec<Field>, templates: Vec<Template>) -> (m: Model)
        ensures
            m.id == id,
            m.name@ == name@,
            flds_match(fields@, m.fields@),
            tmpls_match(templates@, m.templates@),
            m.css@ == Seq::<char>::empty(),
            m.model_type is FrontBack,
            m.latex_pre@ == spec_default_latex_pre(),
            m.latex_post@ == spec_default_latex_post(),
            m.sort_field_index == 0,
    {
        Model {
            id,
            name: name.to_owned(),
            fields: convert_fields(fields),
            templates: convert_templates(templates),
            css: String::new(),
            model_type: ModelType::FrontBack,
            latex_pre: default_latex_pre().to_owned(),
            latex_post: default_latex_post().to_owned(),
            sort_field_index: 0,
        }
    }

    /// Creates a new note-type with a unique `id`, a `name`, `fields` and
    /// `templates`, and explicit overrides for the styling, the variant, the
    /// typesetting preamble and postamble, and the sort field index; each
    /// override falls back to its default when absent.
    pub fn new_with_options(
        id: i64,
        name: &str,
        fields: Vec<Field>,
        templates: Vec<Template>,
        css: Option<&str>,
        model_type: Option<ModelType>,
        latex_pre: Option<&str>,
        latex_post: Option<&str>,
        sort_field_index: Option<i64>,
    ) -> (m: Model)
        ensures
            m.id == id,
            m.name@ == name@,
            flds_match(fields@, m.fields@),
            tmpls_match(templates@, m.templates@),
            m.css@ == match css {
                Option::Some(c) => c@,
                Option::None => Seq::<char>::empty(),
            },
            m.model_type == match model_type {
                Option::Some(t) => t,
                Option::None => ModelType::FrontBack,
            },
            m.latex_pre@ == match latex_pre {
                Option::Some(s) => s@,
                Option::None => spec_default_latex_pre(),
            },
            m.latex_post@ == match latex_post {
                Option::Some(s) => s@,
                Option::None => spec_default_latex_post(),
            },
            m.sort_field_index == match sort_field_index {
                Option::Some(v) => v,
                Option::None => 0,
            },
    {
        Model {
            id,
            name: name.to_owned(),
            fields: convert_fields(fields),
            templates: convert_templates(templates),
            css: match css {
                Some(c) => c.to_owned(),
                None => String::new(),
            },
            model_type: match model_type {
                Some(t) => t,
                None => ModelType::FrontBack,
            },
            latex_pre: match latex_pre {
                Some(s) => s.to_owned(),
                None => default_latex_pre().to_owned(),
            },
            latex_post: match latex_post {
                Some(s) => s.to_owned(),
                None => default_latex_post().to_owned(),
            },
            sort_field_index: match sort_field_index {
                Some(v) => v,
                None => 0,
            },
        }
    }

    /// Adds one more field to the note-type.
    pub fn with_field(self, field: Field) -> (m: Model)
        ensures
            m.fields@.len() == self.fields@.len() + 1,
            m.fields@.subrange(0, self.fields@.len() as int) == self.fields@,
            fld_matches(field, m.fields@.last()),
            m.id == self.id,
            m.name == self.name,
            m.templates == self.templates,
            m.css == self.css,
            m.model_type == self.model_type,
            m.latex_pre == self.latex_pre,
            m.latex_post == self.latex_post,
            m.sort_field_index == self.sort_field_index,
    {
        let mut fields = self.fields;
        fields.push(field.into_fld());
        let m = Model { fields, ..self };
        proof {
            assert(m.fields@.subrange(0, m.fields@.len() - 1) =~= self.fields@);
        }
        m
    }

    /// Adds one more template to the note-type.
    pub fn with_template(self, template: Template) -> (m: Model)
        ensures
            m.templates@.len() == self.templates@.len() + 1,
            m.templates@.subrange(0, self.templates@.len() as int) == self.templates@,
            tmpl_matches(template, m.templates@.last()),
            m.id == self.id,
            m.name == self.name,
            m.fields == self.fields,
            m.css == self.css,
            m.model_type == self.model_type,
            m.latex_pre == self.latex_pre,
            m.latex_post == self.latex_post,
            m.sort_field_index == self.sort_field_index,
    {
        let mut templates = self.templates;
        templates.push(template.into_tmpl());
        let m = Model { templates, ..self };
        proof {
            assert(m.templates@.subrange(0, m.templates@.len() - 1) =~= self.templates@);
        }
        m
    }

    /// Replaces the note-type's style sheet.
    pub fn css(self, css: &str) -> (m: Model)
        ensures
            m.css@ == css@,
            m == (Model { css: m.css, ..self }),
    {
        Model { css: css.to_owned(), ..self }
    }

    /// Replaces the note-type's variant.
    pub fn model_type(self, model_type: ModelType) -> (m: Model)
        ensures
            m.model_type == model_type,
            m == (Model { model_type: m.model_type, ..self }),
    {
        Model { model_type, ..self }
    }

    /// Replaces the typesetting preamble.
    pub fn latex_pre(self, latex_pre: &str) -> (m: Model)
        ensures
            m.latex_pre@ == latex_pre@,
            m == (Model { latex_pre: m.latex_pre, ..self }),
    {
        Model { latex_pre: latex_pre.to_owned(), ..self }
    }

    /// Replaces the typesetting postamble.
    pub fn latex_post(self, latex_post: &str) -> (m: Model)
        ensures
            m.latex_post@ == latex_post@,
            m == (Model { latex_post: m.latex_post, ..self }),
    {
        Model { latex_post: latex_post.to_owned(), ..self }
    }

    /// Replaces the index of the field the browser sorts notes by.
    pub fn sort_field_index(self, sort_field_index: i64) -> (m: Model)
        ensures
            m.sort_field_index == sort_field_index,
            m == (Model { sort_field_index: m.sort_field_index, ..self }),
    {
        Model { sort_field_index, ..self }
    }
}

impl Model {
    /// The note-type's serialized fields.
    pub fn fields(&self) -> (r: &Vec<Fld>)
        ensures
            r == &self.fields,
    {
        &self.fields
    }

    /// The note-type's serialized templates.
    pub fn templates(&self) -> (r: &Vec<Tmpl>)
        ensures
            r == &self.templates,
    {
        &self.templates
    }

    /// The note-type's variant.
    pub fn get_model_type(&self) -> (r: ModelType)
        ensures
            r == self.model_type,
    {
        self.model_type
    }
}

/// `f` with its ordinal replaced by `o`.
pub open spec fn fld_with_ord(f: Fld, o: int) -> Fld {
    Fld { ord: o as i64, ..f }
}

/// `t` with its ordinal replaced by `o`.
pub open spec fn tmpl_with_ord(t: Tmpl, o: int) -> Tmpl {
    Tmpl { ord: o as i64, ..t }
}

/// The numeric variant tag the catalog stores.
pub open spec fn spec_model_type_code(t: ModelType) -> i64 {
    match t {
        ModelType::FrontBack => 0i64,
        ModelType::Cloze => 1i64,
    }
}

/// `e` is the catalog entry derived from `m` at `timestamp_secs` for the
/// deck `deck_id`: field and template ordinals are their sequence positions,
/// and the requirement records are the inferred ones.
pub open spec fn model_entry_ok(m: Model, timestamp_secs: i64, deck_id: i64, e: ModelDbEntry) -> bool {
    &&& e.name == m.name
    &&& e.did == deck_id
    &&& e.usn == -1i64
    &&& e.req@.len() == m.templates@.len()
    &&& forall|t: int| 0 <= t < e.req@.len() ==> req_record_ok(m, #[trigger] e.req@[t], t)
    &&& e.flds@.len() == m.fields@.len()
    &&& forall|i: int| 0 <= i < e.flds@.len() ==> #[trigger] e.flds@[i] == fld_with_ord(m.fields@[i], i)
    &&& e.sortf == m.sort_field_index
    &&& e.tmpls@.len() == m.templates@.len()
    &&& forall|i: int|
        0 <= i < e.tmpls@.len() ==> #[trigger] e.tmpls@[i] == tmpl_with_ord(m.templates@[i], i)
    &&& e.model_db_entry_mod == timestamp_secs
    &&& e.latex_post == m.latex_post
    &&& e.model_db_entry_type == spec_model_type_code(m.model_type)
    &&& e.id@ == crate::text::dec_of_int(m.id as int)
    &&& e.css == m.css
    &&& e.latex_pre == m.latex_pre
}

fn copy_fld_with_ord(f: &Fld, o: i64) -> (r: Fld)
    ensures
        r == (Fld { ord: o, ..*f }),
{
    Fld {
        name: f.name.clone(),
        sticky: f.sticky,
        rtl: f.rtl,
        ord: o,
        font: f.font.clone(),
        size: f.size,
    }
}

fn copy_tmpl_with_ord(t: &Tmpl, o: i64) -> (r: Tmpl)
    ensures
        r == (Tmpl { ord: o, ..*t }),
{
    Tmpl {
        name: t.name.clone(),
        qfmt: t.qfmt.clone(),
        did: t.did,
        bafmt: t.bafmt.clone(),
        afmt: t.afmt.clone(),
        ord: o,
        bqfmt: t.bqfmt.clone(),
    }
}

impl Model {
    /// Derives the note-type's catalog entry for the deck `deck_id` at
    /// `timestamp_secs`. Ordinals are computed as sequence positions in a
    /// derived view; the note-type itself is left untouched, so deriving the
    /// entry twice gives the same result.
    pub fn to_model_db_entry(&self, timestamp_secs: i64, deck_id: i64) -> (r: Result<
        ModelDbEntry,
        Error,
    >)
        requires
            self.fields@.len() < 0x8000000000000000,
            self.templates@.len() < 0x8000000000000000,
        ensures
            (r is Ok) <==> model_infers(*self),
            r matches Ok(e) ==> model_entry_ok(*self, timestamp_secs, deck_id, e),
            r matches Err(e) ==> exists|t: int|
                {
                    &&& 0 <= t < self.templates@.len()
                    &&& !#[trigger] template_infers(*self, t)
                    &&& forall|s: int| 0 <= s < t ==> template_infers(*self, s)
                    &&& req_error_ok(*self, e, t)
                },
    {
        let req = match self.req() {
            Ok(v) => v,
            Err(e) => {
                return Err(e);
            },
        };
        let mut flds: Vec<Fld> = Vec::new();
        let mut i: usize = 0;
        while i < self.fields.len()
            invariant
                self.fields@.len() < 0x8000000000000000,
                0 <= i <= self.fields@.len(),
                flds@.len() == i,
                forall|k: int|
                    0 <= k < i ==> #[trigger] flds@[k] == fld_with_ord(self.fields@[k], k),
            decreases self.fields@.len() - i,
        {
            flds.push(copy_fld_with_ord(&self.fields[i], i as i64));
            i += 1;
        }
        let mut tmpls: Vec<Tmpl> = Vec::new();
        let mut i: usize = 0;
        while i < self.templates.len()
            invariant
                self.templates@.len() < 0x8000000000000000,
                0 <= i <= self.templates@.len(),
                tmpls@.len() == i,
                forall|k: int|
                    0 <= k < i ==> #[trigger] tmpls@[k] == tmpl_with_ord(self.templates@[k], k),
            decreases self.templates@.len() - i,
        {
            tmpls.push(copy_tmpl_with_ord(&self.templates[i], i as i64));
            i += 1;
        }
        let mut id_text = String::new();
        crate::text::append_dec_i64(&mut id_text, self.id);
        Ok(
            ModelDbEntry {
                name: self.name.clone(),
                did: deck_id,
                usn: -1,
                req,
                flds,
                sortf: self.sort_field_index,
                tmpls,
                model_db_entry_mod: timestamp_secs,
                latex_post: self.latex_post.clone(),
                model_db_entry_type: match self.model_type {
                    ModelType::FrontBack => 0,
                    ModelType::Cloze => 1,
                },
                id: id_text,
                css: self.css.clone(),
                latex_pre: self.latex_pre.clone(),
            },
        )
    }
}

} // verus!
