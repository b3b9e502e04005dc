//! Notes and the cards they generate.
//!
//! A note owns its cards: they are computed once, when the note is created,
//! from the note-type's variant. A front/back note emits one card per
//! template whose stored requirement rule its field values satisfy; a cloze
//! note emits one card per distinct deletion group found in the fields its
//! single template binds to the cloze machinery.

use crate::card::Card;
use crate::cloze::{
    cloze_numbers, cloze_refs, has_name, has_val, scan_cloze_numbers, scan_cloze_refs,
    vec_contains_i64,
};
use crate::error::Error;
use crate::model::{
    all_required, any_trigger, model_field_names, model_infers, req_error_ok, template_infers,
    template_outcome, Model, ModelType, TemplateOutcome,
};
use crate::text::push_char;
use crate::util::{guid_for, spec_guid};
use vstd::prelude::*;

verus! {

/// A whitespace character, as far as tags are concerned.
pub open spec fn is_space_char(c: char) -> bool {
    c == ' ' || c == '\t' || c == '\n' || c == '\r'
}

/// The tag contains whitespace.
pub open spec fn tag_has_whitespace(t: Seq<char>) -> bool {
    exists|i: int| 0 <= i < t.len() && is_space_char(t[i])
}

/// Every tag is free of whitespace.
pub open spec fn tags_valid(tags: Seq<Seq<char>>) -> bool {
    forall|k: int| 0 <= k < tags.len() ==> !tag_has_whitespace(#[trigger] tags[k])
}

fn tag_whitespace_exec(t: &str) -> (r: bool)
    ensures
        r == tag_has_whitespace(t@),
{
    let n = t.unicode_len();
    let mut i: usize = 0;
    while i < n
        invariant
            n == t@.len(),
            0 <= i <= n,
            forall|k: int| 0 <= k < i ==> !is_space_char(t@[k]),
        decreases n - i,
    {
        let c = t.get_char(i);
        if c == ' ' || c == '\t' || c == '\n' || c == '\r' {
            assert(is_space_char(t@[i as int]));
            return true;
        }
        i += 1;
    }
    false
}

/// Rejects any tag that contains whitespace.
pub fn validate_tags(tags: &Vec<String>) -> (r: Result<(), Error>)
    ensures
        r is Ok <==> tags_valid(tags.deep_view()),
        r matches Err(e) ==> e is TagContainsWhitespace,
{
    let ghost dv = tags.deep_view();
    let mut k: usize = 0;
    while k < tags.len()
        invariant
            dv == tags.deep_view(),
            0 <= k <= dv.len(),
            forall|j: int| 0 <= j < k ==> !tag_has_whitespace(#[trigger] dv[j]),
        decreases dv.len() - k,
    {
        if tag_whitespace_exec(tags[k].as_str()) {
            assert(tag_has_whitespace(dv[k as int]));
            return Err(Error::TagContainsWhitespace);
        }
        k += 1;
    }
    Ok(())
}

/// `vals` joined with the separator `sep` between consecutive elements.
pub open spec fn join_with(vals: Seq<Seq<char>>, sep: Seq<char>) -> Seq<char>
    decreases vals.len(),
{
    if vals.len() == 0 {
        Seq::empty()
    } else if vals.len() == 1 {
        vals[0]
    } else {
        join_with(vals.drop_last(), sep) + sep + vals.last()
    }
}

/// Joins `vals` with the one-character separator `sep`.
fn join_exec(vals: &Vec<String>, sep: char) -> (r: String)
    ensures
        r@ == join_with(vals.deep_view(), seq![sep]),
{
    let ghost dv = vals.deep_view();
    let mut out = String::new();
    let mut i: usize = 0;
    while i < vals.len()
        invariant
            dv == vals.deep_view(),
            0 <= i <= dv.len(),
            out@ == join_with(dv.subrange(0, i as int), seq![sep]),
        decreases dv.len() - i,
    {
        if i > 0 {
            push_char(&mut out, sep);
        }
        out.append(vals[i].as_str());
        proof {
            assert(dv.subrange(0, i + 1).drop_last() =~= dv.subrange(0, i as int));
            assert(dv.subrange(0, i + 1).last() == dv[i as int]);
            if i == 0 {
                assert(out@ =~= join_with(dv.subrange(0, 1), seq![sep]));
            }
        }
        i += 1;
    }
    proof {
        assert(dv.subrange(0, dv.len() as int) =~= dv);
    }
    out
}

/// A lower-case letter or digit.
pub open spec fn is_alnum_lower(c: char) -> bool {
    ('a' <= c && c <= 'z') || ('0' <= c && c <= '9')
}

/// Length of the run of lower-case letters and digits starting at `i`.
pub open spec fn alnum_run_len(s: Seq<char>, i: int) -> int
    decreases s.len() - i when i <= s.len()
{
    if i < 0 || i >= s.len() {
        0
    } else if is_alnum_lower(s[i]) {
        1 + alnum_run_len(s, i + 1)
    } else {
        0
    }
}

/// A `>` occurs at or after `from` with no newline before it.
pub open spec fn gt_before_newline(s: Seq<char>, from: int) -> bool
    decreases s.len() - from when 0 <= from
{
    if from < 0 || from >= s.len() {
        false
    } else if s[from] == '>' {
        true
    } else if s[from] == '\n' {
        false
    } else {
        gt_before_newline(s, from + 1)
    }
}

/// The least `k >= from` with `s[k] == '>'`, if any.
pub open spec fn first_gt(s: Seq<char>, from: int) -> Option<int>
    decreases s.len() - from when 0 <= from
{
    if from < 0 || from >= s.len() {
        Option::None
    } else if s[from] == '>' {
        Option::Some(from)
    } else {
        first_gt(s, from + 1)
    }
}

/// What may follow `<` in a well-formed tag: an optional slash, at least one
/// lower-case letter or digit, and then either a closing `>`, a self-closing
/// `/>`, or a space with a `>` later on the same line.
pub open spec fn valid_tag_start(s: Seq<char>, p: int) -> bool {
    let q = if p < s.len() && s[p] == '/' {
        p + 1
    } else {
        p
    };
    let a = alnum_run_len(s, q);
    let r = q + a;
    &&& a >= 1
    &&& {
        ||| (r < s.len() && s[r] == '>')
        ||| (r + 1 < s.len() && s[r] == '/' && s[r + 1] == '>')
        ||| (r < s.len() && s[r] == ' ' && gt_before_newline(s, r + 1))
    }
}

/// The malformed tags at or after `i`, leftmost first: each starts at a `<`
/// that does not open a well-formed tag and runs to the next `>`; the scan
/// resumes after it.
pub open spec fn invalid_tags_from(s: Seq<char>, i: int) -> Seq<Seq<char>>
    decreases s.len() - i when 0 <= i via invalid_tags_from_decreases
{
    if i >= s.len() {
        Seq::empty()
    } else if s[i] == '<' && !valid_tag_start(s, i + 1) && first_gt(s, i + 1) is Some {
        let g = first_gt(s, i + 1)->Some_0;
        seq![s.subrange(i, g + 1)] + invalid_tags_from(s, g + 1)
    } else {
        invalid_tags_from(s, i + 1)
    }
}

proof fn lemma_first_gt_bounds(s: Seq<char>, from: int)
    requires
        from >= 0,
    ensures
        first_gt(s, from) matches Some(g) ==> from <= g && g < s.len(),
    decreases s.len() - from,
{
    if from < s.len() && s[from] != '>' {
        lemma_first_gt_bounds(s, from + 1);
    }
}

#[via_fn]
proof fn invalid_tags_from_decreases(s: Seq<char>, i: int) {
    lemma_first_gt_bounds(s, i + 1);
}

/// The malformed tags in one field value.
pub open spec fn spec_invalid_tags(s: Seq<char>) -> Seq<Seq<char>> {
    invalid_tags_from(s, 0)
}

fn alnum_run_exec(s: &str, i: usize) -> (d: usize)
    requires
        i <= s@.len(),
    ensures
        d == alnum_run_len(s@, i as int),
        i + d <= s@.len(),
{
    let n = s.unicode_len();
    let mut j: usize = i;
    loop
        invariant
            n == s@.len(),
            i <= j <= n,
            alnum_run_len(s@, i as int) == (j - i) + alnum_run_len(s@, j as int),
        ensures
            i <= j <= n,
            alnum_run_len(s@, i as int) == j - i,
        decreases n - j,
    {
        if j >= n {
            break ;
        }
        let c = s.get_char(j);
        if !(('a' <= c && c <= 'z') || ('0' <= c && c <= '9')) {
            break ;
        }
        j += 1;
    }
    j - i
}

fn gt_before_newline_exec(s: &str, from: usize) -> (r: bool)
    requires
        from <= s@.len(),
    ensures
        r == gt_before_newline(s@, from as int),
{
    let n = s.unicode_len();
    let mut k: usize = from;
    loop
        invariant
            n == s@.len(),
            from <= k <= n,
            gt_before_newline(s@, from as int) == gt_before_newline(s@, k as int),
        ensures
            gt_before_newline(s@, from as int) == gt_before_newline(s@, k as int),
            k >= n || s@[k as int] == '>' || s@[k as int] == '\n',
        decreases n - k,
    {
        if k >= n {
            break ;
        }
        let c = s.get_char(k);
        if c == '>' || c == '\n' {
            break ;
        }
        k += 1;
    }
    if k >= n {
        false
    } else {
        s.get_char(k) == '>'
    }
}

fn first_gt_exec(s: &str, from: usize) -> (r: Option<usize>)
    requires
        from <= s@.len(),
    ensures
        match r {
            Some(g) => first_gt(s@, from as int) == Some(g as int) && from <= g && g < s@.len(),
            None => first_gt(s@, from as int) is None,
        },
{
    let n = s.unicode_len();
    let mut k: usize = from;
    loop
        invariant
            n == s@.len(),
            from <= k <= n,
            first_gt(s@, from as int) == first_gt(s@, k as int),
        decreases n - k,
    {
        if k >= n {
            return None;
        }
        if s.get_char(k) == '>' {
            return Some(k);
        }
        k += 1;
    }
}

fn valid_tag_start_exec(s: &str, p: usize) -> (r: bool)
    requires
        p <= s@.len(),
    ensures
        r == valid_tag_start(s@, p as int),
{
    let n = s.unicode_len();
    let q: usize = if p < n && s.get_char(p) == '/' {
        p + 1
    } else {
        p
    };
    let a = alnum_run_exec(s, q);
    if a < 1 {
        return false;
    }
    let rr = q + a;
    if rr < n && s.get_char(rr) == '>' {
        return true;
    }
    if rr < n && n - rr >= 2 && s.get_char(rr) == '/' && s.get_char(rr + 1) == '>' {
        return true;
    }
    if rr < n && s.get_char(rr) == ' ' {
        return gt_before_newline_exec(s, rr + 1);
    }
    false
}

/// Finds the malformed angle-bracket tags in a field value, in order of
/// appearance. A well-formed tag is a letter-or-digit name, optionally
/// preceded by a slash, and closed by `>`, `/>`, or attributes after a
/// space; anything else between `<` and the next `>` is reported.
pub fn find_invalid_html_tags_in_field(field: &str) -> (r: Vec<String>)
    ensures
        r.deep_view() == spec_invalid_tags(field@),
{
    let n = field.unicode_len();
    let mut r: Vec<String> = Vec::new();
    let mut i: usize = 0;
    while i < n
        invariant
            n == field@.len(),
            0 <= i <= n,
            spec_invalid_tags(field@) == r.deep_view() + invalid_tags_from(field@, i as int),
        decreases n - i,
    {
        let ghost prevdv = r.deep_view();
        if field.get_char(i) == '<' && !valid_tag_start_exec(field, i + 1) {
            match first_gt_exec(field, i + 1) {
                Some(g) => {
                    let tag = field.substring_char(i, g + 1).to_owned();
                    r.push(tag);
                    proof {
                        assert(r.deep_view() =~= prevdv + seq![field@.subrange(i as int, g + 1)]);
                        assert(invalid_tags_from(field@, i as int) == seq![
                            field@.subrange(i as int, g + 1),
                        ] + invalid_tags_from(field@, g + 1));
                        assert(r.deep_view() + invalid_tags_from(field@, g + 1) =~= prevdv
                            + invalid_tags_from(field@, i as int));
                    }
                    i = g + 1;
                },
                None => {
                    i += 1;
                },
            }
        } else {
            i += 1;
        }
    }
    proof {
        assert(invalid_tags_from(field@, n as int) =~= Seq::<Seq<char>>::empty());
        assert(r.deep_view() =~= r.deep_view() + invalid_tags_from(field@, n as int));
    }
    r
}

/// The note's field values satisfy the requirement rule inference stores for
/// template `t`: under "all", every governing field is non-empty; under
/// "any", at least one is.
pub open spec fn template_satisfied(m: Model, t: int, values: Seq<Seq<char>>) -> bool {
    let q = m.templates@[t].qfmt@;
    let ns = model_field_names(m);
    match template_outcome(q, ns) {
        TemplateOutcome::RuleAll => forall|j: int|
            0 <= j < ns.len() && #[trigger] all_required(q, ns, j) ==> values[j].len() > 0,
        TemplateOutcome::RuleAny => exists|j: int|
            0 <= j < ns.len() && #[trigger] any_trigger(q, ns, j) && values[j].len() > 0,
        _ => false,
    }
}

/// `cards` are exactly the cards a front/back note with field values
/// `values` emits: one unsuspended card per satisfied template, carrying the
/// template's ordinal, in template order.
pub open spec fn fb_cards_ok(m: Model, values: Seq<Seq<char>>, cards: Seq<Card>) -> bool {
    &&& forall|k: int|
        0 <= k < cards.len() ==> 0 <= (#[trigger] cards[k]).ord < m.templates@.len()
            && template_satisfied(m, cards[k].ord as int, values) && !cards[k].suspend
    &&& forall|k1: int, k2: int| 0 <= k1 < k2 < cards.len() ==> cards[k1].ord < cards[k2].ord
    &&& forall|t: int|
        0 <= t < m.templates@.len() && #[trigger] template_satisfied(m, t, values) ==> exists|k: int|
            0 <= k < cards.len() && (#[trigger] cards[k]).ord == t
}

fn all_fields_nonempty(fields: &Vec<String>, ords: &Vec<usize>) -> (r: bool)
    requires
        forall|k: int| 0 <= k < ords@.len() ==> (#[trigger] ords@[k]) < fields@.len(),
    ensures
        r == (forall|k: int|
            0 <= k < ords@.len() ==> fields.deep_view()[#[trigger] ords@[k] as int].len() > 0),
{
    let mut x: usize = 0;
    while x < ords.len()
        invariant
            forall|k: int| 0 <= k < ords@.len() ==> (#[trigger] ords@[k]) < fields@.len(),
            0 <= x <= ords@.len(),
            forall|k: int|
                0 <= k < x ==> fields.deep_view()[#[trigger] ords@[k] as int].len() > 0,
        decreases ords@.len() - x,
    {
        if fields[ords[x]].as_str().is_empty() {
            return false;
        }
        x += 1;
    }
    true
}

fn any_field_nonempty(fields: &Vec<String>, ords: &Vec<usize>) -> (r: bool)
    requires
        forall|k: int| 0 <= k < ords@.len() ==> (#[trigger] ords@[k]) < fields@.len(),
    ensures
        r == (exists|k: int|
            0 <= k < ords@.len() && fields.deep_view()[#[trigger] ords@[k] as int].len() > 0),
{
    let mut x: usize = 0;
    while x < ords.len()
        invariant
            forall|k: int| 0 <= k < ords@.len() ==> (#[trigger] ords@[k]) < fields@.len(),
            0 <= x <= ords@.len(),
            forall|k: int| 0 <= k < x ==> fields.deep_view()[#[trigger] ords@[k] as int].len() == 0,
        decreases ords@.len() - x,
    {
        if !fields[ords[x]].as_str().is_empty() {
            return true;
        }
        x += 1;
    }
    false
}

/// Generates the cards of a front/back note by evaluating each template's
/// inferred requirement rule against the note's field values.
pub(crate) fn front_back_cards(model: &Model, fields: &Vec<String>) -> (r: Result<Vec<Card>, Error>)
    requires
        fields@.len() == model.fields@.len(),
        model.templates@.len() <= 0x7fff_ffff_ffff_ffff,
    ensures
        (r is Ok) <==> model_infers(*model),
        r matches Ok(cards) ==> fb_cards_ok(*model, fields.deep_view(), cards@),
        r matches Err(e) ==> exists|t: int|
            {
                &&& 0 <= t < model.templates@.len()
                &&& !#[trigger] template_infers(*model, t)
                &&& forall|s: int| 0 <= s < t ==> template_infers(*model, s)
                &&& req_error_ok(*model, e, t)
            },
{
    let ghost dv = fields.deep_view();
    let nf = fields.len();
    let records = match model.req() {
        Ok(v) => v,
        Err(e) => {
            return Err(e);
        },
    };
    let ghost ns = model_field_names(*model);
    let mut cards: Vec<Card> = Vec::new();
    let mut t: usize = 0;
    while t < records.len()
        invariant
            dv == fields.deep_view(),
            ns == model_field_names(*model),
            dv.len() == ns.len(),
            ns.len() == nf,
            model_infers(*model),
            records@.len() == model.templates@.len() <= 0x7fff_ffff_ffff_ffff,
            forall|s: int|
                0 <= s < records@.len() ==> crate::model::req_record_ok(
                    *model,
                    #[trigger] records@[s],
                    s,
                ),
            0 <= t <= records@.len(),
            forall|k: int|
                0 <= k < cards@.len() ==> 0 <= (#[trigger] cards@[k]).ord < t
                    && template_satisfied(*model, cards@[k].ord as int, dv) && !cards@[k].suspend,
            forall|k1: int, k2: int| 0 <= k1 < k2 < cards@.len() ==> cards@[k1].ord < cards@[k2].ord,
            forall|s: int|
                0 <= s < t && #[trigger] template_satisfied(*model, s, dv) ==> exists|k: int|
                    0 <= k < cards@.len() && (#[trigger] cards@[k]).ord == s,
        decreases records@.len() - t,
    {
        let ghost prevcards = cards@;
        let rec = &records[t];
        proof {
            reveal_strlit("all");
            reveal_strlit("any");
            assert(rec.0 == t);
        }
        let ghost q = model.templates@[t as int].qfmt@;
        let is_all = crate::text::str_eq(rec.1.as_str(), "all");
        let sat: bool = if is_all {
            proof {
                assert(template_outcome(q, ns) is RuleAll) by {
                    if template_outcome(q, ns) is RuleAny {
                        assert(rec.1@ == "any"@);
                        assert("all"@[1] == 'l' && "any"@[1] == 'n');
                    }
                }
            }
            let sat_all = all_fields_nonempty(fields, &rec.2);
            proof {
                if sat_all {
                    assert forall|j: int|
                        0 <= j < ns.len() && #[trigger] all_required(q, ns, j) implies dv[j].len()
                        > 0 by {
                        assert(rec.2@.contains(j as usize));
                        let k0 = choose|k0: int|
                            0 <= k0 < rec.2@.len() && rec.2@[k0] == j as usize;
                        assert(dv[rec.2@[k0] as int].len() > 0);
                    }
                } else {
                    let k0 = choose|k0: int|
                        0 <= k0 < rec.2@.len() && !(dv[#[trigger] rec.2@[k0] as int].len() > 0);
                    assert(all_required(q, ns, rec.2@[k0] as int));
                }
                assert(sat_all == template_satisfied(*model, t as int, dv));
            }
            sat_all
        } else {
            proof {
                assert(template_outcome(q, ns) is RuleAny) by {
                    if template_outcome(q, ns) is RuleAll {
                        assert(rec.1@ == "all"@);
                    }
                }
            }
            let sat_any = any_field_nonempty(fields, &rec.2);
            proof {
                if sat_any {
                    let k0 = choose|k0: int|
                        0 <= k0 < rec.2@.len() && dv[#[trigger] rec.2@[k0] as int].len() > 0;
                    assert(any_trigger(q, ns, rec.2@[k0] as int));
                    assert(template_satisfied(*model, t as int, dv));
                } else {
                    if template_satisfied(*model, t as int, dv) {
                        let j0 = choose|j0: int|
                            0 <= j0 < ns.len() && #[trigger] any_trigger(q, ns, j0) && dv[j0].len()
                                > 0;
                        assert(rec.2@.contains(j0 as usize));
                        let k0 = choose|k0: int|
                            0 <= k0 < rec.2@.len() && rec.2@[k0] == j0 as usize;
                        assert(dv[rec.2@[k0] as int].len() > 0);
                    }
                }
                assert(sat_any == template_satisfied(*model, t as int, dv));
            }
            sat_any
        };
        if sat {
            cards.push(Card::new(t as i64, false));
        }
        proof {
            assert forall|s: int|
                0 <= s < t + 1 && #[trigger] template_satisfied(*model, s, dv) implies exists|
                k: int,
            |
                0 <= k < cards@.len() && (#[trigger] cards@[k]).ord == s by {
                if s < t {
                    let k0 = choose|k0: int|
                        0 <= k0 < prevcards.len() && (#[trigger] prevcards[k0]).ord == s;
                    assert(cards@[k0].ord == s);
                } else {
                    assert(cards@[cards@.len() - 1].ord == s);
                }
            }
        }
        t += 1;
    }
    Ok(cards)
}

/// The question pattern a cloze note-type scans: its first template's, or
/// empty when the note-type has no template.
pub open spec fn cloze_pattern(m: Model) -> Seq<char> {
    if m.templates@.len() > 0 {
        m.templates@[0].qfmt@
    } else {
        Seq::empty()
    }
}

/// The first index at or after `i` whose name is `nm`, or -1.
pub open spec fn first_name_idx(names: Seq<Seq<char>>, nm: Seq<char>, i: int) -> int
    decreases names.len() - i when 0 <= i
{
    if i >= names.len() {
        -1
    } else if names[i] == nm {
        i
    } else {
        first_name_idx(names, nm, i + 1)
    }
}

/// The value bound to the field named `nm`: the value at the first field
/// with that name, or empty when no field has it.
pub open spec fn lookup_value(m: Model, values: Seq<Seq<char>>, nm: Seq<char>) -> Seq<char> {
    let i = first_name_idx(model_field_names(m), nm, 0);
    if i == -1 {
        Seq::empty()
    } else {
        values[i]
    }
}

/// Every deletion-group number found in the values of the fields the cloze
/// pattern references.
pub open spec fn cloze_note_numbers(m: Model, values: Seq<Seq<char>>) -> Set<int> {
    Set::new(
        |v: int|
            exists|nm: Seq<char>|
                #[trigger] cloze_refs(cloze_pattern(m)).contains(nm) && cloze_numbers(
                    lookup_value(m, values, nm),
                ).contains(v),
    )
}

/// The card ordinals of a cloze note: each group number `v >= 1` in the
/// referenced fields yields the 0-based ordinal `v - 1`; the group number 0,
/// invalid in the 1-based markup, is discarded.
pub open spec fn cloze_ord_set(m: Model, values: Seq<Seq<char>>) -> Set<int> {
    Set::new(|o: int| o >= 0 && cloze_note_numbers(m, values).contains(o + 1))
}

/// `cards` are exactly the cards a cloze note with field values `values`
/// emits: one unsuspended card per distinct deletion group, or the single
/// implicit card 0 when no group is found.
pub open spec fn cloze_cards_ok(m: Model, values: Seq<Seq<char>>, cards: Seq<Card>) -> bool {
    let os = cloze_ord_set(m, values);
    if exists|o: int| os.contains(o) {
        &&& forall|k: int|
            0 <= k < cards.len() ==> os.contains((#[trigger] cards[k]).ord as int) && !cards[k].suspend
        &&& forall|k1: int, k2: int| 0 <= k1 < k2 < cards.len() ==> cards[k1].ord != cards[k2].ord
        &&& forall|o: int|
            #[trigger] os.contains(o) ==> exists|k: int| 0 <= k < cards.len() && cards[k].ord == o
    } else {
        cards.len() == 1 && cards[0].ord == 0 && !cards[0].suspend
    }
}

/// Finds the value bound to the field named `name`.
fn find_field_value<'a>(model: &Model, fields: &'a Vec<String>, name: &String) -> (r: &'a str)
    requires
        fields@.len() == model.fields@.len(),
    ensures
        r@ == lookup_value(*model, fields.deep_view(), name@),
{
    let ghost ns = model_field_names(*model);
    let mut j: usize = 0;
    while j < model.fields.len()
        invariant
            ns == model_field_names(*model),
            fields@.len() == model.fields@.len() == ns.len(),
            0 <= j <= ns.len(),
            first_name_idx(ns, name@, 0) == first_name_idx(ns, name@, j as int),
        decreases ns.len() - j,
    {
        if model.fields[j].name.eq(name) {
            assert(ns[j as int] == name@);
            return fields[j].as_str();
        }
        assert(ns[j as int] != name@);
        j += 1;
    }
    proof {
        reveal_strlit("");
        assert(""@ =~= Seq::<char>::empty());
    }
    ""
}

/// The deletion-group numbers of the value bound to `nm`.
pub open spec fn nm_numbers(m: Model, values: Seq<Seq<char>>, nm: Seq<char>) -> Set<int> {
    cloze_numbers(lookup_value(m, values, nm))
}

/// Generates the cards of a cloze note: scans each referenced field's value
/// for deletion groups, de-duplicates the resulting ordinals, and falls back
/// to the single implicit card 0.
pub(crate) fn cloze_cards(model: &Model, fields: &Vec<String>) -> (r: Vec<Card>)
    requires
        fields@.len() == model.fields@.len(),
    ensures
        cloze_cards_ok(*model, fields.deep_view(), r@),
{
    let ghost dv = fields.deep_view();
    let qfmt: &str = if model.templates.len() > 0 {
        model.templates[0].qfmt.as_str()
    } else {
        proof {
            reveal_strlit("");
            assert(""@ =~= Seq::<char>::empty());
        }
        ""
    };
    assert(qfmt@ == cloze_pattern(*model));
    let names = scan_cloze_refs(qfmt);
    let ghost nms = names@;
    let mut ords: Vec<i64> = Vec::new();
    let mut k: usize = 0;
    while k < names.len()
        invariant
            dv == fields.deep_view(),
            fields@.len() == model.fields@.len(),
            nms == names@,
            qfmt@ == cloze_pattern(*model),
            forall|nm: Seq<char>|
                #[trigger] cloze_refs(cloze_pattern(*model)).contains(nm) ==> has_name(nms, nm),
            forall|x: int|
                0 <= x < nms.len() ==> cloze_refs(cloze_pattern(*model)).contains(
                    #[trigger] nms[x]@,
                ),
            0 <= k <= nms.len(),
            forall|o: int|
                #[trigger] has_val(ords@, o) <==> (o >= 0 && exists|x: int|
                    0 <= x < k && nm_numbers(*model, dv, #[trigger] nms[x]@).contains(o + 1)),
            forall|k1: int, k2: int| 0 <= k1 < k2 < ords@.len() ==> ords@[k1] != ords@[k2],
        decreases nms.len() - k,
    {
        let value = find_field_value(model, fields, &names[k]);
        let nums = scan_cloze_numbers(value);
        let ghost numsv = nums@;
        let mut x: usize = 0;
        while x < nums.len()
            invariant
                dv == fields.deep_view(),
                numsv == nums@,
                0 <= k < nms.len(),
                value@ == lookup_value(*model, dv, nms[k as int]@),
                forall|y: int|
                    0 <= y < numsv.len() ==> cloze_numbers(value@).contains(
                        #[trigger] numsv[y] as int,
                    ),
                forall|v: int| #[trigger] cloze_numbers(value@).contains(v) ==> has_val(numsv, v),
                0 <= x <= numsv.len(),
                forall|o: int|
                    #[trigger] has_val(ords@, o) <==> ((o >= 0 && exists|x2: int|
                        0 <= x2 < k && nm_numbers(*model, dv, #[trigger] nms[x2]@).contains(o + 1))
                        || (o >= 0 && exists|y: int|
                        0 <= y < x && numsv[y] == o + 1)),
                forall|k1: int, k2: int| 0 <= k1 < k2 < ords@.len() ==> ords@[k1] != ords@[k2],
            decreases numsv.len() - x,
        {
            let ghost prevords = ords@;
            let v = nums[x];
            if v >= 1 {
                let o = v - 1;
                if !vec_contains_i64(&ords, o) {
                    ords.push(o);
                    proof {
                        crate::cloze::lemma_has_val_push(prevords, o);
                    }
                } else {
                    proof {
                        crate::cloze::lemma_contains_has_val(prevords, o);
                    }
                }
            }
            proof {
                assert forall|o: int| #[trigger] has_val(ords@, o) implies ((o >= 0 && exists|
                    x2: int,
                |
                    0 <= x2 < k && nm_numbers(*model, dv, #[trigger] nms[x2]@).contains(o + 1)) || (
                o >= 0 && exists|y: int| 0 <= y < x + 1 && numsv[y] == o + 1)) by {
                    if !has_val(prevords, o) {
                        assert(ords@ == prevords.push((numsv[x as int] - 1) as i64));
                        crate::cloze::lemma_has_val_push(
                            prevords,
                            (numsv[x as int] - 1) as i64,
                        );
                        assert(o == numsv[x as int] - 1);
                        assert(numsv[x as int] == o + 1);
                    }
                }
                assert forall|o: int|
                    ((o >= 0 && exists|x2: int|
                        0 <= x2 < k && nm_numbers(*model, dv, #[trigger] nms[x2]@).contains(o + 1))
                        || (o >= 0 && exists|y: int|
                        0 <= y < x + 1 && numsv[y] == o + 1)) implies #[trigger] has_val(
                    ords@,
                    o,
                ) by {
                    if !has_val(ords@, o) {
                    }
                    if o >= 0 && exists|y: int| 0 <= y < x + 1 && numsv[y] == o + 1 {
                        let y0 = choose|y0: int| 0 <= y0 < x + 1 && numsv[y0] == o + 1;
                        if y0 == x {
                            if has_val(prevords, o) {
                                if ords@ != prevords {
                                    crate::cloze::lemma_has_val_push(
                                        prevords,
                                        (numsv[x as int] - 1) as i64,
                                    );
                                }
                            }
                        }
                    }
                }
            }
            x += 1;
        }
        proof {
            assert forall|o: int| #[trigger] has_val(ords@, o) implies (o >= 0 && exists|x2: int|
                0 <= x2 < k + 1 && nm_numbers(*model, dv, #[trigger] nms[x2]@).contains(o + 1)) by {
                if !(o >= 0 && exists|x2: int|
                    0 <= x2 < k && nm_numbers(*model, dv, nms[x2]@).contains(o + 1)) {
                    let y0 = choose|y0: int| 0 <= y0 < numsv.len() && numsv[y0] == o + 1;
                    assert(cloze_numbers(value@).contains(numsv[y0] as int));
                    assert(nm_numbers(*model, dv, nms[k as int]@).contains(o + 1));
                }
            }
            assert forall|o: int|
                (o >= 0 && exists|x2: int|
                    0 <= x2 < k + 1 && nm_numbers(*model, dv, #[trigger] nms[x2]@).contains(
                        o + 1,
                    )) implies #[trigger] has_val(ords@, o) by {
                let x2 = choose|x2: int|
                    0 <= x2 < k + 1 && nm_numbers(*model, dv, #[trigger] nms[x2]@).contains(o + 1);
                if x2 == k {
                    assert(cloze_numbers(value@).contains(o + 1));
                    assert(has_val(numsv, o + 1));
                    let y0 = choose|y0: int| 0 <= y0 < numsv.len() && numsv[y0] == o + 1;
                }
            }
        }
        k += 1;
    }
    proof {
        assert forall|o: int| #[trigger] cloze_ord_set(*model, dv).contains(o) implies has_val(
            ords@,
            o,
        ) by {
            assert(cloze_note_numbers(*model, dv).contains(o + 1));
            let nm = choose|nm: Seq<char>|
                #[trigger] cloze_refs(cloze_pattern(*model)).contains(nm) && cloze_numbers(
                    lookup_value(*model, dv, nm),
                ).contains(o + 1);
            let x0 = choose|x0: int| 0 <= x0 < nms.len() && nms[x0]@ == nm;
            assert(nm_numbers(*model, dv, nms[x0]@).contains(o + 1));
        }
        assert forall|o: int| #[trigger] has_val(ords@, o) implies cloze_ord_set(*model, dv)
            .contains(o) by {
            let x0 = choose|x0: int|
                0 <= x0 < nms.len() && nm_numbers(*model, dv, #[trigger] nms[x0]@).contains(o + 1);
            assert(cloze_refs(cloze_pattern(*model)).contains(nms[x0]@));
            assert(cloze_note_numbers(*model, dv).contains(o + 1));
        }
    }
    let mut cards: Vec<Card> = Vec::new();
    if ords.len() == 0 {
        proof {
            assert forall|o: int| !(#[trigger] cloze_ord_set(*model, dv).contains(o)) by {
                if cloze_ord_set(*model, dv).contains(o) {
                    assert(has_val(ords@, o));
                    let k0 = choose|k0: int| 0 <= k0 < ords@.len() && ords@[k0] == o;
                }
            }
        }
        cards.push(Card::new(0, false));
        return cards;
    }
    let ghost ordsv = ords@;
    let mut k: usize = 0;
    while k < ords.len()
        invariant
            ordsv == ords@,
            0 <= k <= ordsv.len(),
            cards@.len() == k,
            forall|j: int| 0 <= j < k ==> (#[trigger] cards@[j]).ord == ordsv[j]
                && !cards@[j].suspend,
        decreases ordsv.len() - k,
    {
        cards.push(Card::new(ords[k], false));
        k += 1;
    }
    proof {
        assert(has_val(ordsv, ordsv[0] as int));
        assert(cloze_ord_set(*model, dv).contains(ordsv[0] as int));
        assert(cloze_ord_set(*model, dv).contains(cards@[0].ord as int));
        assert forall|o: int| #[trigger] cloze_ord_set(*model, dv).contains(o) implies exists|
            j: int,
        | 0 <= j < cards@.len() && cards@[j].ord == o by {
            assert(has_val(ordsv, o));
            let k0 = choose|k0: int| 0 <= k0 < ordsv.len() && ordsv[k0] == o;
            assert(cards@[k0].ord == o);
        }
        assert forall|j: int| 0 <= j < cards@.len() implies cloze_ord_set(*model, dv).contains(
            (#[trigger] cards@[j]).ord as int,
        ) by {
            assert(has_val(ordsv, ordsv[j] as int));
        }
    }
    cards
}

/// A front/back note emits a card for template `t` exactly when its field
/// values satisfy the requirement rule inference stores for `t`: under
/// "all" every governing field is non-empty, under "any" at least one is.
pub proof fn lemma_card_iff_rule_satisfied(
    m: Model,
    values: Seq<Seq<char>>,
    cards: Seq<Card>,
    t: int,
)
    requires
        fb_cards_ok(m, values, cards),
        0 <= t < m.templates@.len(),
    ensures
        (exists|k: int| 0 <= k < cards.len() && (#[trigger] cards[k]).ord == t)
            <==> template_satisfied(m, t, values),
{
    if exists|k: int| 0 <= k < cards.len() && (#[trigger] cards[k]).ord == t {
        let k = choose|k: int| 0 <= k < cards.len() && (#[trigger] cards[k]).ord == t;
        assert(template_satisfied(m, cards[k].ord as int, values));
    }
}

/// The cards a note with note-type `m` and field values `values` emits,
/// decided by the note-type's variant.
pub open spec fn cards_ok_for(m: Model, values: Seq<Seq<char>>, cards: Seq<Card>) -> bool {
    match m.model_type {
        ModelType::FrontBack => fb_cards_ok(m, values, cards),
        ModelType::Cloze => cloze_cards_ok(m, values, cards),
    }
}

/// A note: one note-type, one value per field of that note-type, tags, a
/// content identifier, and the cards the note generates.
#[derive(Clone, Debug)]
pub struct Note {
    pub model: Model,
    pub fields: Vec<String>,
    pub sort_field: bool,
    pub tags: Vec<String>,
    pub guid: String,
    pub cards: Vec<Card>,
}

fn strs_to_strings(fields: Vec<&str>) -> (r: Vec<String>)
    ensures
        r.deep_view() == fields.deep_view(),
        r@.len() == fields@.len(),
        forall|k: int| 0 <= k < r@.len() ==> r@[k]@ == #[trigger] fields@[k]@,
{
    let mut r: Vec<String> = Vec::new();
    let mut i: usize = 0;
    while i < fields.len()
        invariant
            0 <= i <= fields@.len(),
            r@.len() == i,
            forall|k: int| 0 <= k < i ==> r@[k]@ == fields@[k]@,
        decreases fields@.len() - i,
    {
        r.push(fields[i].to_owned());
        i += 1;
    }
    assert(r.deep_view() =~= fields.deep_view());
    r
}

impl Note {
    /// Creates a note of the note-type `model` with one value per field.
    ///
    /// Fails when the number of values disagrees with the note-type's field
    /// count, and, for a front/back note-type, when requirement inference
    /// fails on one of its templates.
    pub fn new(model: Model, fields: Vec<&str>) -> (r: Result<Note, Error>)
        requires
            model.templates@.len() < 0x8000000000000000,
        ensures
            (r is Ok) <==> (fields@.len() == model.fields@.len() && (model.model_type
                is FrontBack ==> model_infers(model))),
            r matches Ok(n) ==> {
                &&& n.model == model
                &&& n.fields.deep_view() == fields.deep_view()
                &&& n.sort_field == false
                &&& n.tags@.len() == 0
                &&& n.guid@ == spec_guid(fields.deep_view())
                &&& cards_ok_for(model, fields.deep_view(), n.cards@)
            },
            r matches Err(e) ==> {
                if fields@.len() != model.fields@.len() {
                    e matches Error::ModelFieldCountMismatch(want, got) && want
                        == model.fields@.len() && got == fields@.len()
                } else {
                    model.model_type is FrontBack && exists|t: int|
                        {
                            &&& 0 <= t < model.templates@.len()
                            &&& !#[trigger] template_infers(model, t)
                            &&& forall|s: int| 0 <= s < t ==> template_infers(model, s)
                            &&& req_error_ok(model, e, t)
                        }
                }
            },
    {
        let values = strs_to_strings(fields);
        if values.len() != model.fields.len() {
            return Err(Error::ModelFieldCountMismatch(model.fields.len(), values.len()));
        }
        let cards = match model.model_type {
            ModelType::FrontBack => match front_back_cards(&model, &values) {
                Ok(cards) => cards,
                Err(e) => {
                    return Err(e);
                },
            },
            ModelType::Cloze => cloze_cards(&model, &values),
        };
        let guid = guid_for(&values);
        Ok(Note { model, fields: values, sort_field: false, tags: Vec::new(), guid, cards })
    }

    /// Creates a note with explicit options: whether the first field is the
    /// sort field, a list of tags (each free of whitespace), and an explicit
    /// content identifier in place of the derived one.
    pub fn new_with_options(
        model: Model,
        fields: Vec<&str>,
        sort_field: Option<bool>,
        tags: Option<Vec<&str>>,
        guid: Option<&str>,
    ) -> (r: Result<Note, Error>)
        requires
            model.templates@.len() < 0x8000000000000000,
        ensures
            (r is Ok) <==> {
                &&& (match tags {
                    Option::Some(ts) => tags_valid(ts.deep_view()),
                    Option::None => true,
                })
                &&& fields@.len() == model.fields@.len()
                &&& (model.model_type is FrontBack ==> model_infers(model))
            },
            r matches Ok(n) ==> {
                &&& n.model == model
                &&& n.fields.deep_view() == fields.deep_view()
                &&& n.sort_field == (match sort_field {
                    Option::Some(b) => b,
                    Option::None => false,
                })
                &&& n.tags.deep_view() == (match tags {
                    Option::Some(ts) => ts.deep_view(),
                    Option::None => Seq::<Seq<char>>::empty(),
                })
                &&& n.guid@ == (match guid {
                    Option::Some(g) => g@,
                    Option::None => spec_guid(fields.deep_view()),
                })
                &&& cards_ok_for(model, fields.deep_view(), n.cards@)
            },
            r matches Err(e) ==> {
                if !(match tags {
                    Option::Some(ts) => tags_valid(ts.deep_view()),
                    Option::None => true,
                }) {
                    e is TagContainsWhitespace
                } else if fields@.len() != model.fields@.len() {
                    e matches Error::ModelFieldCountMismatch(want, got) && want
                        == model.fields@.len() && got == fields@.len()
                } else {
                    model.model_type is FrontBack && exists|t: int|
                        {
                            &&& 0 <= t < model.templates@.len()
                            &&& !#[trigger] template_infers(model, t)
                            &&& forall|s: int| 0 <= s < t ==> template_infers(model, s)
                            &&& req_error_ok(model, e, t)
                        }
                }
            },
    {
        let tag_values: Vec<String> = match tags {
            Some(ts) => strs_to_strings(ts),
            None => Vec::new(),
        };
        match validate_tags(&tag_values) {
            Ok(()) => {},
            Err(e) => {
                return Err(e);
            },
        }
        let values = strs_to_strings(fields);
        if values.len() != model.fields.len() {
            return Err(Error::ModelFieldCountMismatch(model.fields.len(), values.len()));
        }
        let cards = match model.model_type {
            ModelType::FrontBack => match front_back_cards(&model, &values) {
                Ok(cards) => cards,
                Err(e) => {
                    return Err(e);
                },
            },
            ModelType::Cloze => cloze_cards(&model, &values),
        };
        let guid_value: String = match guid {
            Some(g) => g.to_owned(),
            None => guid_for(&values),
        };
        Ok(
            Note {
                model,
                fields: values,
                sort_field: match sort_field {
                    Some(b) => b,
                    None => false,
                },
                tags: tag_values,
                guid: guid_value,
                cards,
            },
        )
    }

    /// Replaces the sort-field flag.
    pub fn sort_field(self, sort_field: bool) -> (n: Note)
        ensures
            n.sort_field == sort_field,
            n == (Note { sort_field: n.sort_field, ..self }),
    {
        Note { sort_field, ..self }
    }

    /// Replaces the note's tags. The new tags are validated when the note is
    /// packaged.
    pub fn tags(self, tags: Vec<String>) -> (n: Note)
        ensures
            n.tags == tags,
            n == (Note { tags: n.tags, ..self }),
    {
        Note { tags, ..self }
    }

    /// Adds one tag. The new tag is validated when the note is packaged.
    pub fn with_tag(self, tag: &str) -> (n: Note)
        ensures
            n.tags@.len() == self.tags@.len() + 1,
            n.tags@.subrange(0, self.tags@.len() as int) == self.tags@,
            n.tags@.last()@ == tag@,
            n == (Note { tags: n.tags, ..self }),
    {
        let mut tags = self.tags;
        tags.push(tag.to_owned());
        let n = Note { tags, ..self };
        proof {
            assert(n.tags@.subrange(0, n.tags@.len() - 1) =~= self.tags@);
        }
        n
    }

    /// Replaces the note's content identifier.
    pub fn guid(self, guid: &str) -> (n: Note)
        ensures
            n.guid@ == guid@,
            n == (Note { guid: n.guid, ..self }),
    {
        Note { guid: guid.to_owned(), ..self }
    }

    /// The note's note-type.
    pub fn model(&self) -> (r: &Model)
        ensures
            r == &self.model,
    {
        &self.model
    }

    /// The cards this note generates.
    pub fn cards(&self) -> (r: Vec<Card>)
        ensures
            r@ == self.cards@,
    {
        let mut r: Vec<Card> = Vec::new();
        let mut i: usize = 0;
        while i < self.cards.len()
            invariant
                0 <= i <= self.cards@.len(),
                r@ == self.cards@.subrange(0, i as int),
            decreases self.cards@.len() - i,
        {
            r.push(self.cards[i]);
            proof {
                assert(r@ =~= self.cards@.subrange(0, i + 1));
            }
            i += 1;
        }
        proof {
            assert(self.cards@.subrange(0, self.cards@.len() as int) =~= self.cards@);
        }
        r
    }

    /// Checks that the note supplies exactly one value per field of its
    /// note-type.
    pub(crate) fn check_number_model_fields_matches_num_fields(&self) -> (r: Result<(), Error>)
        ensures
            (r is Ok) <==> self.fields@.len() == self.model.fields@.len(),
            r matches Err(e) ==> e matches Error::ModelFieldCountMismatch(want, got) && want
                == self.model.fields@.len() && got == self.fields@.len(),
    {
        if self.model.fields.len() != self.fields.len() {
            Err(Error::ModelFieldCountMismatch(self.model.fields.len(), self.fields.len()))
        } else {
            Ok(())
        }
    }

    /// The note's field values joined by the field separator of the notes
    /// table.
    pub(crate) fn format_fields(&self) -> (r: String)
        ensures
            r@ == join_with(self.fields.deep_view(), seq!['\u{1f}']),
    {
        join_exec(&self.fields, '\u{1f}')
    }

    /// The note's tags joined by single spaces, with one leading and one
    /// trailing space.
    pub(crate) fn format_tags(&self) -> (r: String)
        ensures
            r@ == seq![' '] + join_with(self.tags.deep_view(), seq![' ']) + seq![' '],
    {
        let mut out = String::new();
        push_char(&mut out, ' ');
        let joined = join_exec(&self.tags, ' ');
        out.append(joined.as_str());
        push_char(&mut out, ' ');
        proof {
            assert(out@ =~= seq![' '] + join_with(self.tags.deep_view(), seq![' ']) + seq![' ']);
        }
        out
    }
}

} // verus!
