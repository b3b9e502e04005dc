//! The serialized catalogs of the configuration row: the note-type catalog,
//! the deck catalog, and the archive's media manifest, each emitted as JSON
//! whose exact text is specified.

use crate::apkg_schema::{default_deck_json, spec_default_deck_json};
use crate::db_entries::{DeckDbEntry, Fld, ModelDbEntry, Tmpl};
use crate::deck::{deck_entry_json, spec_deck_json};
use crate::json::{append_json_bool, append_json_int, append_json_string, json_bool, json_str_of};
use crate::text::{append_dec_u64, dec_of, dec_of_int, push_char};
use vstd::prelude::*;

verus! {

/// The members of a JSON array of field ordinals.
pub open spec fn ords_items(ords: Seq<usize>) -> Seq<char>
    decreases ords.len(),
{
    if ords.len() == 0 {
        Seq::empty()
    } else if ords.len() == 1 {
        dec_of(ords[0] as nat)
    } else {
        ords_items(ords.drop_last()) + seq![','] + dec_of(ords.last() as nat)
    }
}

/// The JSON array of field ordinals.
pub open spec fn spec_ords_json(ords: Seq<usize>) -> Seq<char> {
    seq!['['] + ords_items(ords) + seq![']']
}

/// The JSON array form of one requirement record.
pub open spec fn spec_req_item_json(rec: (usize, String, Vec<usize>)) -> Seq<char> {
    seq!['['] + dec_of(rec.0 as nat) + seq![','] + json_str_of(rec.1@) + seq![','] + spec_ords_json(
        rec.2@,
    ) + seq![']']
}

/// The members of the JSON array of requirement records.
pub open spec fn req_items(req: Seq<(usize, String, Vec<usize>)>) -> Seq<char>
    decreases req.len(),
{
    if req.len() == 0 {
        Seq::empty()
    } else if req.len() == 1 {
        spec_req_item_json(req[0])
    } else {
        req_items(req.drop_last()) + seq![','] + spec_req_item_json(req.last())
    }
}

/// The JSON array of requirement records.
pub open spec fn spec_req_json(req: Seq<(usize, String, Vec<usize>)>) -> Seq<char> {
    seq!['['] + req_items(req) + seq![']']
}

/// The JSON object form of one serialized field.
pub open spec fn spec_fld_json(f: Fld) -> Seq<char> {
    "{\"name\":"@ + json_str_of(f.name@) + ",\"media\":[],\"sticky\":"@ + json_bool(f.sticky)
        + ",\"rtl\":"@ + json_bool(f.rtl) + ",\"ord\":"@ + dec_of_int(f.ord as int) + ",\"font\":"@
        + json_str_of(f.font@) + ",\"size\":"@ + dec_of_int(f.size as int) + seq!['}']
}

/// The members of the JSON array of serialized fields.
pub open spec fn flds_items(flds: Seq<Fld>) -> Seq<char>
    decreases flds.len(),
{
    if flds.len() == 0 {
        Seq::empty()
    } else if flds.len() == 1 {
        spec_fld_json(flds[0])
    } else {
        flds_items(flds.drop_last()) + seq![','] + spec_fld_json(flds.last())
    }
}

/// The JSON array of serialized fields.
pub open spec fn spec_flds_json(flds: Seq<Fld>) -> Seq<char> {
    seq!['['] + flds_items(flds) + seq![']']
}

/// The JSON object form of one serialized template.
pub open spec fn spec_tmpl_json(t: Tmpl) -> Seq<char> {
    "{\"name\":"@ + json_str_of(t.name@) + ",\"qfmt\":"@ + json_str_of(t.qfmt@) + ",\"did\":"@ + (
    match t.did {
        Option::Some(d) => dec_of_int(d as int),
        Option::None => "null"@,
    }) + ",\"bafmt\":"@ + json_str_of(t.bafmt@) + ",\"afmt\":"@ + json_str_of(t.afmt@)
        + ",\"ord\":"@ + dec_of_int(t.ord as int) + ",\"bqfmt\":"@ + json_str_of(t.bqfmt@)
        + seq!['}']
}

/// The members of the JSON array of serialized templates.
pub open spec fn tmpls_items(tmpls: Seq<Tmpl>) -> Seq<char>
    decreases tmpls.len(),
{
    if tmpls.len() == 0 {
        Seq::empty()
    } else if tmpls.len() == 1 {
        spec_tmpl_json(tmpls[0])
    } else {
        tmpls_items(tmpls.drop_last()) + seq![','] + spec_tmpl_json(tmpls.last())
    }
}

/// The JSON array of serialized templates.
pub open spec fn spec_tmpls_json(tmpls: Seq<Tmpl>) -> Seq<char> {
    seq!['['] + tmpls_items(tmpls) + seq![']']
}

/// The identity, requirement records and fields of a catalog entry's JSON.
pub open spec fn model_json_head(e: ModelDbEntry) -> Seq<char> {
    "{\"vers\":[],\"name\":"@ + json_str_of(e.name@) + ",\"tags\":[],\"did\":"@ + dec_of_int(
        e.did as int,
    ) + ",\"usn\":"@ + dec_of_int(e.usn as int) + ",\"req\":"@ + spec_req_json(e.req@)
        + ",\"flds\":"@ + spec_flds_json(e.flds@)
}

/// The templates, typesetting and styling of a catalog entry's JSON.
pub open spec fn model_json_tail(e: ModelDbEntry) -> Seq<char> {
    ",\"sortf\":"@ + dec_of_int(e.sortf as int) + ",\"tmpls\":"@ + spec_tmpls_json(e.tmpls@)
        + ",\"mod\":"@ + dec_of_int(e.model_db_entry_mod as int) + ",\"latexPost\":"@
        + json_str_of(e.latex_post@) + ",\"type\":"@ + dec_of_int(e.model_db_entry_type as int)
        + ",\"id\":"@ + json_str_of(e.id@) + ",\"css\":"@ + json_str_of(e.css@)
        + ",\"latexPre\":"@ + json_str_of(e.latex_pre@) + seq!['}']
}

/// The JSON object form of one note-type catalog entry.
#[verifier::opaque]
pub open spec fn spec_model_json(e: ModelDbEntry) -> Seq<char> {
    model_json_head(e) + model_json_tail(e)
}

/// The members of the note-type catalog object, keyed by the entries' own
/// identifier text.
pub open spec fn model_entries_items(entries: Seq<ModelDbEntry>) -> Seq<char>
    decreases entries.len(),
{
    if entries.len() == 0 {
        Seq::empty()
    } else if entries.len() == 1 {
        seq!['"'] + entries[0].id@ + seq!['"', ':'] + spec_model_json(entries[0])
    } else {
        model_entries_items(entries.drop_last()) + seq![','] + seq!['"'] + entries.last().id@
            + seq!['"', ':'] + spec_model_json(entries.last())
    }
}

/// The note-type catalog object.
pub open spec fn spec_models_json(entries: Seq<ModelDbEntry>) -> Seq<char> {
    seq!['{'] + model_entries_items(entries) + seq!['}']
}

/// The members the package's decks add to the deck catalog object, each
/// preceded by a comma (the built-in default deck always comes first).
pub open spec fn deck_entries_items(entries: Seq<DeckDbEntry>) -> Seq<char>
    decreases entries.len(),
{
    if entries.len() == 0 {
        Seq::empty()
    } else {
        deck_entries_items(entries.drop_last()) + seq![',', '"'] + dec_of_int(
            entries.last().id as int,
        ) + seq!['"', ':'] + spec_deck_json(entries.last())
    }
}

/// The deck catalog object: the built-in default deck, then the package's
/// decks keyed by their identifiers.
pub open spec fn spec_decks_json(entries: Seq<DeckDbEntry>) -> Seq<char> {
    "{\"1\":"@ + spec_default_deck_json() + deck_entries_items(entries) + seq!['}']
}

/// One member of the media manifest: the archive-local numeric key `i`
/// mapped to the medium's logical filename.
pub open spec fn manifest_item(i: nat, name: Seq<char>) -> Seq<char> {
    seq!['"'] + dec_of(i) + seq!['"', ':'] + json_str_of(name)
}

/// The members of the media manifest object, keyed by position.
pub open spec fn manifest_items(names: Seq<Seq<char>>) -> Seq<char>
    decreases names.len(),
{
    if names.len() == 0 {
        Seq::empty()
    } else if names.len() == 1 {
        manifest_item(0, names[0])
    } else {
        manifest_items(names.drop_last()) + seq![','] + manifest_item(
            (names.len() - 1) as nat,
            names.last(),
        )
    }
}

/// The media manifest object.
pub open spec fn spec_manifest_json(names: Seq<Seq<char>>) -> Seq<char> {
    seq!['{'] + manifest_items(names) + seq!['}']
}

fn append_ords_json(out: &mut String, ords: &Vec<usize>)
    ensures
        final(out)@ == old(out)@ + spec_ords_json(ords@),
{
    let ghost start = out@;
    push_char(out, '[');
    let mut i: usize = 0;
    while i < ords.len()
        invariant
            0 <= i <= ords@.len(),
            out@ == start + seq!['['] + ords_items(ords@.subrange(0, i as int)),
        decreases ords@.len() - i,
    {
        if i > 0 {
            push_char(out, ',');
        }
        append_dec_u64(out, ords[i] as u64);
        proof {
            assert(ords@.subrange(0, i + 1).drop_last() =~= ords@.subrange(0, i as int));
            assert(ords@.subrange(0, i + 1).last() == ords@[i as int]);
            if i == 0 {
                assert(out@ =~= start + seq!['['] + ords_items(ords@.subrange(0, 1)));
            }
        }
        i += 1;
    }
    push_char(out, ']');
    proof {
        assert(ords@.subrange(0, ords@.len() as int) =~= ords@);
        assert(out@ =~= start + spec_ords_json(ords@));
    }
}

fn append_req_json(out: &mut String, req: &Vec<(usize, String, Vec<usize>)>)
    ensures
        final(out)@ == old(out)@ + spec_req_json(req@),
{
    let ghost start = out@;
    push_char(out, '[');
    let mut i: usize = 0;
    while i < req.len()
        invariant
            0 <= i <= req@.len(),
            out@ == start + seq!['['] + req_items(req@.subrange(0, i as int)),
        decreases req@.len() - i,
    {
        if i > 0 {
            push_char(out, ',');
        }
        let ghost before = out@;
        let rec = &req[i];
        push_char(out, '[');
        append_dec_u64(out, rec.0 as u64);
        push_char(out, ',');
        append_json_string(out, rec.1.as_str());
        push_char(out, ',');
        append_ords_json(out, &rec.2);
        push_char(out, ']');
        proof {
            assert(out@ =~= before + spec_req_item_json(req@[i as int]));
            assert(req@.subrange(0, i + 1).drop_last() =~= req@.subrange(0, i as int));
            assert(req@.subrange(0, i + 1).last() == req@[i as int]);
            if i == 0 {
                assert(out@ =~= start + seq!['['] + req_items(req@.subrange(0, 1)));
            }
        }
        i += 1;
    }
    push_char(out, ']');
    proof {
        assert(req@.subrange(0, req@.len() as int) =~= req@);
        assert(out@ =~= start + spec_req_json(req@));
    }
}

fn append_fld_json(out: &mut String, f: &Fld)
    ensures
        final(out)@ == old(out)@ + spec_fld_json(*f),
{
    let ghost start = out@;
    out.append("{\"name\":");
    append_json_string(out, f.name.as_str());
    out.append(",\"media\":[],\"sticky\":");
    append_json_bool(out, f.sticky);
    out.append(",\"rtl\":");
    append_json_bool(out, f.rtl);
    out.append(",\"ord\":");
    append_json_int(out, f.ord);
    out.append(",\"font\":");
    append_json_string(out, f.font.as_str());
    out.append(",\"size\":");
    append_json_int(out, f.size);
    push_char(out, '}');
    proof {
        assert(out@ =~= start + spec_fld_json(*f));
    }
}

fn append_flds_json(out: &mut String, flds: &Vec<Fld>)
    ensures
        final(out)@ == old(out)@ + spec_flds_json(flds@),
{
    let ghost start = out@;
    push_char(out, '[');
    let mut i: usize = 0;
    while i < flds.len()
        invariant
            0 <= i <= flds@.len(),
            out@ == start + seq!['['] + flds_items(flds@.subrange(0, i as int)),
        decreases flds@.len() - i,
    {
        if i > 0 {
            push_char(out, ',');
        }
        append_fld_json(out, &flds[i]);
        proof {
            assert(flds@.subrange(0, i + 1).drop_last() =~= flds@.subrange(0, i as int));
            assert(flds@.subrange(0, i + 1).last() == flds@[i as int]);
            if i == 0 {
                assert(out@ =~= start + seq!['['] + flds_items(flds@.subrange(0, 1)));
            }
        }
        i += 1;
    }
    push_char(out, ']');
    proof {
        assert(flds@.subrange(0, flds@.len() as int) =~= flds@);
        assert(out@ =~= start + spec_flds_json(flds@));
    }
}

fn append_tmpl_json(out: &mut String, t: &Tmpl)
    ensures
        final(out)@ == old(out)@ + spec_tmpl_json(*t),
{
    let ghost start = out@;
    out.append("{\"name\":");
    append_json_string(out, t.name.as_str());
    out.append(",\"qfmt\":");
    append_json_string(out, t.qfmt.as_str());
    out.append(",\"did\":");
    match &t.did {
        Some(d) => {
            append_json_int(out, *d);
        },
        None => {
            out.append("null");
        },
    }
    out.append(",\"bafmt\":");
    append_json_string(out, t.bafmt.as_str());
    out.append(",\"afmt\":");
    append_json_string(out, t.afmt.as_str());
    out.append(",\"ord\":");
    append_json_int(out, t.ord);
    out.append(",\"bqfmt\":");
    append_json_string(out, t.bqfmt.as_str());
    push_char(out, '}');
    proof {
        assert(out@ =~= start + spec_tmpl_json(*t));
    }
}

fn append_tmpls_json(out: &mut String, tmpls: &Vec<Tmpl>)
    ensures
        final(out)@ == old(out)@ + spec_tmpls_json(tmpls@),
{
    let ghost start = out@;
    push_char(out, '[');
    let mut i: usize = 0;
    while i < tmpls.len()
        invariant
            0 <= i <= tmpls@.len(),
            out@ == start + seq!['['] + tmpls_items(tmpls@.subrange(0, i as int)),
        decreases tmpls@.len() - i,
    {
        if i > 0 {
            push_char(out, ',');
        }
        append_tmpl_json(out, &tmpls[i]);
        proof {
            assert(tmpls@.subrange(0, i + 1).drop_last() =~= tmpls@.subrange(0, i as int));
            assert(tmpls@.subrange(0, i + 1).last() == tmpls@[i as int]);
            if i == 0 {
                assert(out@ =~= start + seq!['['] + tmpls_items(tmpls@.subrange(0, 1)));
            }
        }
        i += 1;
    }
    push_char(out, ']');
    proof {
        assert(tmpls@.subrange(0, tmpls@.len() as int) =~= tmpls@);
        assert(out@ =~= start + spec_tmpls_json(tmpls@));
    }
}

#[verifier::rlimit(100)]
fn append_model_json(out: &mut String, e: &ModelDbEntry)
    ensures
        final(out)@ == old(out)@ + spec_model_json(*e),
{
    let ghost start = out@;
    out.append("{\"vers\":[],\"name\":");
    append_json_string(out, e.name.as_str());
    out.append(",\"tags\":[],\"did\":");
    append_json_int(out, e.did);
    out.append(",\"usn\":");
    append_json_int(out, e.usn);
    out.append(",\"req\":");
    append_req_json(out, &e.req);
    out.append(",\"flds\":");
    append_flds_json(out, &e.flds);
    proof {
        assert(out@ =~= start + model_json_head(*e));
    }
    let ghost mid = out@;
    out.append(",\"sortf\":");
    append_json_int(out, e.sortf);
    out.append(",\"tmpls\":");
    append_tmpls_json(out, &e.tmpls);
    out.append(",\"mod\":");
    append_json_int(out, e.model_db_entry_mod);
    out.append(",\"latexPost\":");
    append_json_string(out, e.latex_post.as_str());
    out.append(",\"type\":");
    append_json_int(out, e.model_db_entry_type);
    out.append(",\"id\":");
    append_json_string(out, e.id.as_str());
    out.append(",\"css\":");
    append_json_string(out, e.css.as_str());
    out.append(",\"latexPre\":");
    append_json_string(out, e.latex_pre.as_str());
    push_char(out, '}');
    proof {
        reveal(spec_model_json);
        assert(out@ =~= mid + model_json_tail(*e));
        assert(out@ =~= start + spec_model_json(*e));
    }
}

/// Writes the note-type catalog object.
#[verifier::rlimit(100)]
pub(crate) fn models_json(entries: &Vec<ModelDbEntry>) -> (r: String)
    ensures
        r@ == spec_models_json(entries@),
{
    let mut out = String::new();
    push_char(&mut out, '{');
    let mut i: usize = 0;
    while i < entries.len()
        invariant
            0 <= i <= entries@.len(),
            out@ == seq!['{'] + model_entries_items(entries@.subrange(0, i as int)),
        decreases entries@.len() - i,
    {
        if i > 0 {
            push_char(&mut out, ',');
        }
        let ghost before = out@;
        push_char(&mut out, '"');
        out.append(entries[i].id.as_str());
        out.append("\":");
        append_model_json(&mut out, &entries[i]);
        proof {
            reveal_strlit("\":");
            assert("\":"@ =~= seq!['"', ':']);
            assert(out@ =~= before + (seq!['"'] + entries@[i as int].id@ + seq!['"', ':']
                + spec_model_json(entries@[i as int])));
            assert(entries@.subrange(0, i + 1).drop_last() =~= entries@.subrange(0, i as int));
            assert(entries@.subrange(0, i + 1).last() == entries@[i as int]);
            if i == 0 {
                assert(model_entries_items(entries@.subrange(0, 1)) == seq!['"'] + entries@[0].id@
                    + seq!['"', ':'] + spec_model_json(entries@[0]));
                assert(out@ =~= seq!['{'] + model_entries_items(entries@.subrange(0, 1)));
            } else {
                assert(model_entries_items(entries@.subrange(0, i + 1)) == model_entries_items(
                    entries@.subrange(0, i as int),
                ) + seq![','] + seq!['"'] + entries@[i as int].id@ + seq!['"', ':']
                    + spec_model_json(entries@[i as int]));
                assert(out@ =~= seq!['{'] + model_entries_items(entries@.subrange(0, i + 1)));
            }
        }
        i += 1;
    }
    push_char(&mut out, '}');
    proof {
        assert(entries@.subrange(0, entries@.len() as int) =~= entries@);
        assert(out@ =~= spec_models_json(entries@));
    }
    out
}

/// Writes the deck catalog object, default deck included.
pub(crate) fn decks_json(entries: &Vec<DeckDbEntry>) -> (r: String)
    ensures
        r@ == spec_decks_json(entries@),
{
    let mut out = String::new();
    out.append("{\"1\":");
    out.append(default_deck_json());
    let mut i: usize = 0;
    while i < entries.len()
        invariant
            0 <= i <= entries@.len(),
            out@ == "{\"1\":"@ + spec_default_deck_json() + deck_entries_items(
                entries@.subrange(0, i as int),
            ),
        decreases entries@.len() - i,
    {
        out.append(",\"");
        append_json_int(&mut out, entries[i].id);
        out.append("\":");
        let entry_text = deck_entry_json(&entries[i]);
        out.append(entry_text.as_str());
        proof {
            reveal_strlit(",\"");
            reveal_strlit("\":");
            assert(entries@.subrange(0, i + 1).drop_last() =~= entries@.subrange(0, i as int));
            assert(entries@.subrange(0, i + 1).last() == entries@[i as int]);
            assert(",\""@ =~= seq![',', '"']);
            assert("\":"@ =~= seq!['"', ':']);
            assert(out@ =~= "{\"1\":"@ + spec_default_deck_json() + deck_entries_items(
                entries@.subrange(0, i + 1),
            ));
        }
        i += 1;
    }
    push_char(&mut out, '}');
    proof {
        assert(entries@.subrange(0, entries@.len() as int) =~= entries@);
        assert(out@ =~= spec_decks_json(entries@));
    }
    out
}

/// Writes the media manifest object for the given entry names.
pub(crate) fn manifest_json(names: &Vec<String>) -> (r: String)
    ensures
        r@ == spec_manifest_json(names.deep_view()),
{
    let ghost dv = names.deep_view();
    let mut out = String::new();
    push_char(&mut out, '{');
    let mut i: usize = 0;
    while i < names.len()
        invariant
            dv == names.deep_view(),
            0 <= i <= dv.len(),
            out@ == seq!['{'] + manifest_items(dv.subrange(0, i as int)),
        decreases dv.len() - i,
    {
        if i > 0 {
            push_char(&mut out, ',');
        }
        push_char(&mut out, '"');
        append_dec_u64(&mut out, i as u64);
        out.append("\":");
        append_json_string(&mut out, names[i].as_str());
        proof {
            reveal_strlit("\":");
            assert(dv.subrange(0, i + 1).drop_last() =~= dv.subrange(0, i as int));
            assert(dv.subrange(0, i + 1).last() == dv[i as int]);
            assert("\":"@ =~= seq!['"', ':']);
            assert(out@ =~= seq!['{'] + manifest_items(dv.subrange(0, i + 1)));
        }
        i += 1;
    }
    push_char(&mut out, '}');
    proof {
        assert(dv.subrange(0, dv.len() as int) =~= dv);
        assert(out@ =~= spec_manifest_json(dv));
    }
    out
}

} // verus!
