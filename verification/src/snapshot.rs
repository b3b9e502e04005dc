//! The relational snapshot of a package: deck-catalog rows, note-type
//! catalog entries, and one row per note and card, with every primary key
//! drawn from one strictly increasing identifier sequence seeded from the
//! packaging timestamp.

use crate::card::Card;
use crate::db_entries::{DeckDbEntry, ModelDbEntry};
use crate::deck::{spec_deck_db_entry, Deck};
use crate::error::Error;
use crate::model::{model_entry_ok, model_infers, req_error_ok, template_infers};
use crate::note::{join_with, tags_valid, Note};
use vstd::prelude::*;

verus! {

/// One row of the notes table.
#[derive(Clone, Debug)]
pub struct NoteRow {
    pub id: i64,
    pub guid: String,
    pub mid: i64,
    pub mod_secs: i64,
    pub tags: String,
    pub flds: String,
    pub sfld: bool,
}

/// One row of the cards table.
#[derive(Clone, Copy, Debug)]
pub struct CardRow {
    pub id: i64,
    pub nid: i64,
    pub did: i64,
    pub ord: i64,
    pub mod_secs: i64,
    pub queue: i64,
}

/// The assembled relational snapshot of one package.
#[derive(Debug)]
pub struct Snapshot {
    pub decks: Vec<DeckDbEntry>,
    pub models: Vec<ModelDbEntry>,
    pub model_ids: Vec<i64>,
    pub notes: Vec<NoteRow>,
    pub cards: Vec<CardRow>,
}

/// The notes of one deck, each tagged with its deck's identifier.
pub open spec fn note_pairs(did: i64, notes: Seq<Note>) -> Seq<(i64, Note)> {
    notes.map_values(|n: Note| (did, n))
}

/// The note/deck pairs contributed by the decks from index `i` on.
pub open spec fn all_note_pairs_from(decks: Seq<Deck>, i: int) -> Seq<(i64, Note)>
    decreases decks.len() - i when 0 <= i
{
    if i >= decks.len() {
        Seq::empty()
    } else {
        note_pairs(decks[i].id, decks[i].notes@) + all_note_pairs_from(decks, i + 1)
    }
}

/// Every note of every deck, in deck order then note order, tagged with its
/// deck's identifier.
pub open spec fn all_note_pairs(decks: Seq<Deck>) -> Seq<(i64, Note)> {
    all_note_pairs_from(decks, 0)
}

/// The cards of one note, tagged with the note's global index and its deck's
/// identifier.
pub open spec fn cards_of(nidx: int, did: i64, cards: Seq<Card>) -> Seq<(int, i64, Card)> {
    cards.map_values(|c: Card| (nidx, did, c))
}

/// The card triples contributed by the notes of one deck from note index `j`
/// on, where the deck's first note has global index `base`.
pub open spec fn deck_cards_from(did: i64, notes: Seq<Note>, j: int, base: int) -> Seq<
    (int, i64, Card),
>
    decreases notes.len() - j when 0 <= j
{
    if j >= notes.len() {
        Seq::empty()
    } else {
        cards_of(base + j, did, notes[j].cards@) + deck_cards_from(did, notes, j + 1, base)
    }
}

/// The card triples contributed by the decks from index `i` on, where
/// `base` notes precede deck `i`.
pub open spec fn all_cards_from(decks: Seq<Deck>, i: int, base: int) -> Seq<(int, i64, Card)>
    decreases decks.len() - i when 0 <= i
{
    if i >= decks.len() {
        Seq::empty()
    } else {
        deck_cards_from(decks[i].id, decks[i].notes@, 0, base) + all_cards_from(
            decks,
            i + 1,
            base + decks[i].notes@.len(),
        )
    }
}

/// Every card of every note of every deck, in traversal order, tagged with
/// its note's global index and its deck's identifier.
pub open spec fn all_cards(decks: Seq<Deck>) -> Seq<(int, i64, Card)> {
    all_cards_from(decks, 0, 0)
}

/// The note supplies one value per field of its note-type and its tags are
/// free of whitespace.
pub open spec fn note_valid(n: Note) -> bool {
    &&& n.fields@.len() == n.model.fields@.len()
    &&& tags_valid(n.tags.deep_view())
}

/// The note-type's field and template counts fit the signed 64-bit ordinals
/// the catalog stores.
pub open spec fn model_dims_ok(n: Note) -> bool {
    &&& n.model.fields@.len() < 0x8000000000000000
    &&& n.model.templates@.len() < 0x8000000000000000
}

/// The note can be written: its note-type's dimensions fit, every template
/// of its note-type infers, it supplies one value per field, and its tags
/// are clean.
pub open spec fn pair_writable(n: Note) -> bool {
    &&& model_dims_ok(n)
    &&& model_infers(n.model)
    &&& note_valid(n)
}

/// Every note of the package can be written.
pub open spec fn notes_writable(decks: Seq<Deck>) -> bool {
    forall|k: int|
        0 <= k < all_note_pairs(decks).len() ==> pair_writable(
            (#[trigger] all_note_pairs(decks)[k]).1,
        )
}

/// The identifier sequence fits: the seed and one identifier per note and
/// card row stay within the signed 64-bit range.
pub open spec fn id_range_ok(decks: Seq<Deck>, timestamp_millis: u64) -> bool {
    timestamp_millis + all_note_pairs(decks).len() + all_cards(decks).len() <= i64::MAX
}

/// The error the snapshot builder reports for an unwritable note, checked in
/// the order the builder works: oversized note-type dimensions, then
/// requirement inference, then the field count, then the tags.
pub open spec fn pair_error_ok(n: Note, e: Error) -> bool {
    if !model_dims_ok(n) {
        e is IdentifierOverflow
    } else if !model_infers(n.model) {
        exists|t: int|
            {
                &&& 0 <= t < n.model.templates@.len()
                &&& !#[trigger] template_infers(n.model, t)
                &&& forall|s: int| 0 <= s < t ==> template_infers(n.model, s)
                &&& req_error_ok(n.model, e, t)
            }
    } else if n.fields@.len() != n.model.fields@.len() {
        e matches Error::ModelFieldCountMismatch(want, got) && want == n.model.fields@.len() && got
            == n.fields@.len()
    } else {
        !tags_valid(n.tags.deep_view()) && e is TagContainsWhitespace
    }
}

/// What a failed snapshot build reports: either the identifier range is
/// exhausted, or the first unwritable note in traversal order explains the
/// error.
pub open spec fn snapshot_err_ok(decks: Seq<Deck>, timestamp_millis: u64, e: Error) -> bool {
    ||| (e is IdentifierOverflow && !id_range_ok(decks, timestamp_millis))
    ||| exists|k: int|
        {
            &&& 0 <= k < all_note_pairs(decks).len()
            &&& !pair_writable((#[trigger] all_note_pairs(decks)[k]).1)
            &&& forall|k2: int| 0 <= k2 < k ==> pair_writable((#[trigger] all_note_pairs(decks)[k2]).1)
            &&& pair_error_ok(all_note_pairs(decks)[k].1, e)
        }
}

/// The row `row` stores note `n` at `ts_secs`: its content identifier, its
/// note-type's identifier, the tags padded with single spaces, the field
/// values joined by the unit separator, and the sort-field flag.
pub open spec fn note_row_ok(row: NoteRow, n: Note, ts_secs: i64) -> bool {
    &&& row.guid == n.guid
    &&& row.mid == n.model.id
    &&& row.mod_secs == ts_secs
    &&& row.tags@ == seq![' '] + join_with(n.tags.deep_view(), seq![' ']) + seq![' ']
    &&& row.flds@ == join_with(n.fields.deep_view(), seq!['\u{1f}'])
    &&& row.sfld == n.sort_field
}

/// The row `row` stores card `c` of note row `nid` in deck `did` at
/// `ts_secs`; a suspended card is queued out of review.
pub open spec fn card_row_ok(row: CardRow, nid: i64, did: i64, c: Card, ts_secs: i64) -> bool {
    &&& row.nid == nid
    &&& row.did == did
    &&& row.ord == c.ord
    &&& row.mod_secs == ts_secs
    &&& row.queue == (if c.suspend {
        -1i64
    } else {
        0i64
    })
}

/// How many of the card triples belong to notes before global index `k` —
/// the number of card identifiers the traversal consumes before it reaches
/// note `k`.
pub open spec fn cards_below(cards: Seq<(int, i64, Card)>, k: int) -> int
    decreases cards.len(),
{
    if cards.len() == 0 {
        0
    } else {
        cards_below(cards.drop_last(), k) + (if cards.last().0 < k {
            1int
        } else {
            0int
        })
    }
}

proof fn lemma_cards_below_concat(a: Seq<(int, i64, Card)>, b: Seq<(int, i64, Card)>, k: int)
    ensures
        cards_below(a + b, k) == cards_below(a, k) + cards_below(b, k),
    decreases b.len(),
{
    if b.len() == 0 {
        assert(a + b =~= a);
    } else {
        assert((a + b).drop_last() =~= a + b.drop_last());
        assert((a + b).last() == b.last());
        lemma_cards_below_concat(a, b.drop_last(), k);
    }
}

proof fn lemma_cards_below_all(cards: Seq<(int, i64, Card)>, k: int)
    requires
        forall|t: int| 0 <= t < cards.len() ==> (#[trigger] cards[t]).0 < k,
    ensures
        cards_below(cards, k) == cards.len(),
    decreases cards.len(),
{
    if cards.len() > 0 {
        lemma_cards_below_all(cards.drop_last(), k);
    }
}

proof fn lemma_cards_below_none(cards: Seq<(int, i64, Card)>, k: int)
    requires
        forall|t: int| 0 <= t < cards.len() ==> (#[trigger] cards[t]).0 >= k,
    ensures
        cards_below(cards, k) == 0,
    decreases cards.len(),
{
    if cards.len() > 0 {
        lemma_cards_below_none(cards.drop_last(), k);
    }
}

proof fn lemma_deck_cards_from_lb(did: i64, notes: Seq<Note>, j: int, base: int)
    requires
        0 <= j,
    ensures
        forall|t: int|
            0 <= t < deck_cards_from(did, notes, j, base).len() ==> (#[trigger] deck_cards_from(
                did,
                notes,
                j,
                base,
            )[t]).0 >= base + j,
    decreases notes.len() - j,
{
    if j < notes.len() {
        lemma_deck_cards_from_lb(did, notes, j + 1, base);
        assert forall|t: int|
            0 <= t < deck_cards_from(did, notes, j, base).len() implies (#[trigger] deck_cards_from(
            did,
            notes,
            j,
            base,
        )[t]).0 >= base + j by {
            let seg = cards_of(base + j, did, notes[j].cards@);
            if t < seg.len() {
                assert(deck_cards_from(did, notes, j, base)[t] == seg[t]);
            } else {
                assert(deck_cards_from(did, notes, j, base)[t] == deck_cards_from(
                    did,
                    notes,
                    j + 1,
                    base,
                )[t - seg.len()]);
            }
        }
    }
}

proof fn lemma_all_cards_from_lb(decks: Seq<Deck>, i: int, base: int)
    requires
        0 <= i,
    ensures
        forall|t: int|
            0 <= t < all_cards_from(decks, i, base).len() ==> (#[trigger] all_cards_from(
                decks,
                i,
                base,
            )[t]).0 >= base,
    decreases decks.len() - i,
{
    if i < decks.len() {
        lemma_deck_cards_from_lb(decks[i].id, decks[i].notes@, 0, base);
        lemma_all_cards_from_lb(decks, i + 1, base + decks[i].notes@.len() as int);
        assert forall|t: int|
            0 <= t < all_cards_from(decks, i, base).len() implies (#[trigger] all_cards_from(
            decks,
            i,
            base,
        )[t]).0 >= base by {
            let seg = deck_cards_from(decks[i].id, decks[i].notes@, 0, base);
            if t < seg.len() {
                assert(all_cards_from(decks, i, base)[t] == seg[t]);
            } else {
                assert(all_cards_from(decks, i, base)[t] == all_cards_from(
                    decks,
                    i + 1,
                    base + decks[i].notes@.len(),
                )[t - seg.len()]);
            }
        }
    }
}

/// Entry `i` of the note-type catalog comes from the last note (in traversal
/// order) whose note-type carries that identifier, serialized for that
/// note's deck.
pub open spec fn model_entry_src_ok(
    models: Seq<ModelDbEntry>,
    model_ids: Seq<i64>,
    i: int,
    pairs: Seq<(i64, Note)>,
    ts_secs: i64,
) -> bool {
    exists|k: int|
        {
            &&& 0 <= k < pairs.len()
            &&& (#[trigger] pairs[k]).1.model.id == model_ids[i]
            &&& forall|k2: int|
                k < k2 < pairs.len() ==> (#[trigger] pairs[k2]).1.model.id != model_ids[i]
            &&& model_entry_ok(pairs[k].1.model, ts_secs, pairs[k].0, models[i])
        }
}

/// Some entry of `ids` is `id`.
pub open spec fn has_model_id(ids: Seq<i64>, id: i64) -> bool {
    exists|i: int| 0 <= i < ids.len() && ids[i] == id
}

/// What the snapshot builder guarantees of a successful build.
pub open spec fn snapshot_ok(s: Snapshot, decks: Seq<Deck>, timestamp_millis: u64) -> bool {
    let pairs = all_note_pairs(decks);
    let cards = all_cards(decks);
    let ts_secs = (timestamp_millis / 1000) as i64;
    &&& s.decks@.len() == decks.len()
    &&& forall|i: int| 0 <= i < decks.len() ==> #[trigger] s.decks@[i] == spec_deck_db_entry(decks[i])
    &&& s.model_ids@.len() == s.models@.len()
    &&& forall|i: int, j: int| 0 <= i < j < s.model_ids@.len() ==> s.model_ids@[i] != s.model_ids@[j]
    &&& forall|i: int|
        0 <= i < s.models@.len() ==> model_entry_src_ok(s.models@, s.model_ids@, i, pairs, ts_secs)
    &&& forall|k: int|
        0 <= k < pairs.len() ==> has_model_id(s.model_ids@, (#[trigger] pairs[k]).1.model.id)
    &&& s.notes@.len() == pairs.len()
    &&& forall|k: int| 0 <= k < pairs.len() ==> note_row_ok(#[trigger] s.notes@[k], pairs[k].1, ts_secs)
    &&& forall|k1: int, k2: int| 0 <= k1 < k2 < s.notes@.len() ==> s.notes@[k1].id < s.notes@[k2].id
    &&& forall|k: int|
        0 <= k < pairs.len() ==> (#[trigger] s.notes@[k]).id == timestamp_millis + k + cards_below(
            cards,
            k,
        )
    &&& s.cards@.len() == cards.len()
    &&& forall|k: int| 0 <= k < cards.len() ==> 0 <= (#[trigger] cards[k]).0 < s.notes@.len()
    &&& forall|k: int|
        0 <= k < cards.len() ==> card_row_ok(
            #[trigger] s.cards@[k],
            s.notes@[cards[k].0].id,
            cards[k].1,
            cards[k].2,
            ts_secs,
        )
    &&& forall|k1: int, k2: int| 0 <= k1 < k2 < s.cards@.len() ==> s.cards@[k1].id < s.cards@[k2].id
    &&& forall|j: int|
        0 <= j < cards.len() ==> (#[trigger] s.cards@[j]).id == timestamp_millis + cards[j].0 + 1
            + j
}

/// Across one packaging run no two notes and no two cards share a primary
/// key: every snapshot draws its note and card identifiers from one strictly
/// increasing sequence, whatever the decks hold.
pub proof fn lemma_primary_keys_unique(s: Snapshot, decks: Seq<Deck>, timestamp_millis: u64)
    requires
        snapshot_ok(s, decks, timestamp_millis),
    ensures
        forall|k1: int, k2: int|
            0 <= k1 < k2 < s.notes@.len() ==> s.notes@[k1].id != s.notes@[k2].id,
        forall|k1: int, k2: int|
            0 <= k1 < k2 < s.cards@.len() ==> s.cards@[k1].id != s.cards@[k2].id,
{
}

fn find_model_slot(ids: &Vec<i64>, id: i64) -> (r: Option<usize>)
    ensures
        match r {
            Some(i) => i < ids@.len() && ids@[i as int] == id,
            None => forall|i: int| 0 <= i < ids@.len() ==> ids@[i] != id,
        },
{
    let mut i: usize = 0;
    while i < ids.len()
        invariant
            0 <= i <= ids@.len(),
            forall|k: int| 0 <= k < i ==> ids@[k] != id,
        decreases ids@.len() - i,
    {
        if ids[i] == id {
            return Some(i);
        }
        i += 1;
    }
    None
}

/// Builds the relational snapshot of `decks` for the packaging run seeded
/// at `timestamp_millis`: validates every note, merges the referenced
/// note-types (last registration of an identifier wins), and assigns one
/// fresh primary key per note and card row.
#[verifier::rlimit(100)]
pub fn build_snapshot(decks: &Vec<Deck>, timestamp_millis: u64) -> (r: Result<
    Snapshot,
    Error,
>)
    ensures
        (r is Ok) <==> (notes_writable(decks@) && id_range_ok(decks@, timestamp_millis)),
        r matches Ok(s) ==> snapshot_ok(s, decks@, timestamp_millis),
        r matches Err(e) ==> snapshot_err_ok(decks@, timestamp_millis, e),
{
    let ghost pairs = all_note_pairs(decks@);
    let ghost cardsv = all_cards(decks@);
    let ghost ts_secs_g = (timestamp_millis / 1000) as i64;
    if timestamp_millis > 0x7fffffffffffffff {
        proof {
            assert(!id_range_ok(decks@, timestamp_millis));
        }
        return Err(Error::IdentifierOverflow);
    }
    let ts_secs: i64 = (timestamp_millis / 1000) as i64;
    let mut next: i64 = timestamp_millis as i64;
    let mut deck_entries: Vec<DeckDbEntry> = Vec::new();
    let mut models: Vec<ModelDbEntry> = Vec::new();
    let mut model_ids: Vec<i64> = Vec::new();
    let mut notes: Vec<NoteRow> = Vec::new();
    let mut cards: Vec<CardRow> = Vec::new();
    let ghost mut done: Seq<(i64, Note)> = Seq::empty();
    let ghost mut cdone: Seq<(int, i64, Card)> = Seq::empty();
    let mut di: usize = 0;
    proof {
        assert(Seq::<(i64, Note)>::empty() + all_note_pairs_from(decks@, 0)
            =~= all_note_pairs_from(decks@, 0));
        assert(Seq::<(int, i64, Card)>::empty() + all_cards_from(decks@, 0, 0) =~= all_cards_from(
            decks@,
            0,
            0,
        ));
    }
    while di < decks.len()
        invariant
            pairs == all_note_pairs(decks@),
            cardsv == all_cards(decks@),
            ts_secs == ts_secs_g,
            timestamp_millis <= 0x7fffffffffffffff,
            0 <= di <= decks@.len(),
            deck_entries@.len() == di,
            forall|i: int|
                0 <= i < di ==> #[trigger] deck_entries@[i] == spec_deck_db_entry(decks@[i]),
            model_ids@.len() == models@.len(),
            forall|i: int, j: int| 0 <= i < j < model_ids@.len() ==> model_ids@[i] != model_ids@[j],
            forall|i: int|
                0 <= i < models@.len() ==> model_entry_src_ok(
                    models@,
                    model_ids@,
                    i,
                    done,
                    ts_secs_g,
                ),
            forall|k: int|
                0 <= k < done.len() ==> has_model_id(model_ids@, (#[trigger] done[k]).1.model.id),
            notes@.len() == done.len(),
            pairs == done + all_note_pairs_from(decks@, di as int),
            forall|k: int|
                0 <= k < done.len() ==> pair_writable((#[trigger] done[k]).1) && note_row_ok(
                    notes@[k],
                    done[k].1,
                    ts_secs_g,
                ),
            forall|k1: int, k2: int| 0 <= k1 < k2 < notes@.len() ==> notes@[k1].id < notes@[k2].id,
            cards@.len() == cdone.len(),
            cardsv == cdone + all_cards_from(decks@, di as int, done.len() as int),
            forall|k: int| 0 <= k < cdone.len() ==> 0 <= (#[trigger] cdone[k]).0 < notes@.len(),
            forall|k: int|
                0 <= k < cdone.len() ==> card_row_ok(
                    #[trigger] cards@[k],
                    notes@[cdone[k].0].id,
                    cdone[k].1,
                    cdone[k].2,
                    ts_secs_g,
                ),
            forall|k1: int, k2: int| 0 <= k1 < k2 < cards@.len() ==> cards@[k1].id < cards@[k2].id,
            next == timestamp_millis + notes@.len() + cards@.len(),
            forall|k: int| 0 <= k < notes@.len() ==> (#[trigger] notes@[k]).id < next,
            forall|k: int| 0 <= k < cards@.len() ==> (#[trigger] cards@[k]).id < next,
            forall|k: int|
                0 <= k < notes@.len() ==> (#[trigger] notes@[k]).id == timestamp_millis + k
                    + cards_below(cardsv, k),
            forall|j2: int|
                0 <= j2 < cards@.len() ==> (#[trigger] cards@[j2]).id == timestamp_millis
                    + cardsv[j2].0 + 1 + j2,
        decreases decks@.len() - di,
    {
        let deck = &decks[di];
        let ghost did = deck.id;
        deck_entries.push(deck.to_deck_db_entry());
        let ghost base = done.len() as int;
        let mut j: usize = 0;
        proof {
            assert(all_note_pairs_from(decks@, di as int) == note_pairs(did, deck.notes@)
                + all_note_pairs_from(decks@, di + 1));
            assert(all_cards_from(decks@, di as int, base) == deck_cards_from(
                did,
                deck.notes@,
                0,
                base,
            ) + all_cards_from(decks@, di + 1, base + deck.notes@.len()));
            assert(deck.notes@.subrange(0, deck.notes@.len() as int) =~= deck.notes@);
            assert(note_pairs(did, deck.notes@.subrange(0, deck.notes@.len() as int)) == note_pairs(
                did,
                deck.notes@,
            ));
            assert(pairs =~= done + note_pairs(
                did,
                deck.notes@.subrange(0, deck.notes@.len() as int),
            ) + all_note_pairs_from(decks@, di + 1));
            assert(cardsv =~= cdone + deck_cards_from(did, deck.notes@, 0, base) + all_cards_from(
                decks@,
                di + 1,
                base + deck.notes@.len(),
            ));
        }
        while j < deck.notes.len()
            invariant
                pairs == all_note_pairs(decks@),
                cardsv == all_cards(decks@),
                ts_secs == ts_secs_g,
                timestamp_millis <= 0x7fffffffffffffff,
                0 <= di < decks@.len(),
                deck == &decks@[di as int],
                did == deck.id,
                0 <= j <= deck.notes@.len(),
                done.len() == base + j,
                base >= 0,
                notes@.len() == done.len(),
                model_ids@.len() == models@.len(),
                forall|i: int, j2: int|
                    0 <= i < j2 < model_ids@.len() ==> model_ids@[i] != model_ids@[j2],
                forall|i: int|
                    0 <= i < models@.len() ==> model_entry_src_ok(
                        models@,
                        model_ids@,
                        i,
                        done,
                        ts_secs_g,
                    ),
                forall|k: int|
                    0 <= k < done.len() ==> has_model_id(
                        model_ids@,
                        (#[trigger] done[k]).1.model.id,
                    ),
                pairs == done + note_pairs(
                    did,
                    deck.notes@.subrange(j as int, deck.notes@.len() as int),
                ) + all_note_pairs_from(decks@, di + 1),
                forall|k: int|
                    0 <= k < done.len() ==> pair_writable((#[trigger] done[k]).1) && note_row_ok(
                        notes@[k],
                        done[k].1,
                        ts_secs_g,
                    ),
                forall|k1: int, k2: int|
                    0 <= k1 < k2 < notes@.len() ==> notes@[k1].id < notes@[k2].id,
                cards@.len() == cdone.len(),
                cardsv == cdone + deck_cards_from(did, deck.notes@, j as int, base)
                    + all_cards_from(decks@, di + 1, base + deck.notes@.len()),
                forall|k: int| 0 <= k < cdone.len() ==> 0 <= (#[trigger] cdone[k]).0 < notes@.len(),
                forall|k: int|
                    0 <= k < cdone.len() ==> card_row_ok(
                        #[trigger] cards@[k],
                        notes@[cdone[k].0].id,
                        cdone[k].1,
                        cdone[k].2,
                        ts_secs_g,
                    ),
                forall|k1: int, k2: int|
                    0 <= k1 < k2 < cards@.len() ==> cards@[k1].id < cards@[k2].id,
                next == timestamp_millis + notes@.len() + cards@.len(),
                forall|k: int| 0 <= k < notes@.len() ==> (#[trigger] notes@[k]).id < next,
                forall|k: int| 0 <= k < cards@.len() ==> (#[trigger] cards@[k]).id < next,
                forall|k: int|
                    0 <= k < notes@.len() ==> (#[trigger] notes@[k]).id == timestamp_millis + k
                        + cards_below(cardsv, k),
                forall|j2: int|
                    0 <= j2 < cards@.len() ==> (#[trigger] cards@[j2]).id == timestamp_millis
                        + cardsv[j2].0 + 1 + j2,
            decreases deck.notes@.len() - j,
        {
            let note = &deck.notes[j];
            let ghost g = done.len() as int;
            let ghost pg = (did, deck.notes@[j as int]);
            proof {
                assert(note_pairs(did, deck.notes@.subrange(j as int, deck.notes@.len() as int))[0]
                    == pg);
                assert(pairs[g] == pg);
            }
            if note.model.fields.len() as u64 >= 0x8000000000000000u64 || note.model.templates.len()
                as u64 >= 0x8000000000000000u64 {
                proof {
                    assert(!pair_writable(pg.1));
                    assert(pair_error_ok(pg.1, Error::IdentifierOverflow));
                    assert(!pair_writable((all_note_pairs(decks@)[g]).1));
                    assert(forall|k2: int|
                        0 <= k2 < g ==> pair_writable((#[trigger] all_note_pairs(decks@)[k2]).1));
                }
                return Err(Error::IdentifierOverflow);
            }
            let entry = match note.model.to_model_db_entry(ts_secs, deck.id) {
                Ok(entry) => entry,
                Err(e) => {
                    proof {
                        assert(!pair_writable(pg.1));
                        assert(pair_error_ok(pg.1, e));
                        assert(!pair_writable((all_note_pairs(decks@)[g]).1));
                        assert(forall|k2: int|
                            0 <= k2 < g ==> pair_writable((#[trigger] all_note_pairs(decks@)[k2]).1));
                    }
                    return Err(e);
                },
            };
            let ghost old_models = models@;
            let ghost old_ids = model_ids@;
            let ghost mut upd_slot: int = 0;
            match find_model_slot(&model_ids, note.model.id) {
                Some(slot) => {
                    let ghost e = entry;
                    models.remove(slot);
                    models.insert(slot, entry);
                    proof {
                        upd_slot = slot as int;
                        assert(models@ =~= old_models.update(slot as int, e));
                    }
                },
                None => {
                    models.push(entry);
                    model_ids.push(note.model.id);
                    proof {
                        upd_slot = old_ids.len() as int;
                    }
                },
            }
            proof {
                assert(0 <= upd_slot < models@.len());
                assert(model_ids@[upd_slot] == pg.1.model.id);
                assert(model_entry_ok(pg.1.model, ts_secs_g, pg.0, models@[upd_slot]));
                assert(forall|i: int|
                    0 <= i < models@.len() && i != upd_slot ==> i < old_ids.len() && models@[i]
                        == old_models[i] && #[trigger] model_ids@[i] == old_ids[i]);
                assert(forall|i: int, j2: int|
                    0 <= i < j2 < model_ids@.len() ==> model_ids@[i] != model_ids@[j2]);
                let newdone = done.push(pg);
                assert forall|i: int| 0 <= i < models@.len() implies model_entry_src_ok(
                    models@,
                    model_ids@,
                    i,
                    newdone,
                    ts_secs_g,
                ) by {
                    if i == upd_slot {
                        assert(newdone[g] == pg);
                        assert(model_entry_ok(pg.1.model, ts_secs_g, pg.0, models@[i]));
                        assert forall|k2: int| g < k2 < newdone.len() implies (
                        #[trigger] newdone[k2]).1.model.id != model_ids@[i] by {}
                    } else {
                        assert(model_ids@[i] != pg.1.model.id);
                        assert(i < old_ids.len() && old_ids[i] == model_ids@[i]);
                        assert(models@[i] == old_models[i]);
                        assert(model_entry_src_ok(old_models, old_ids, i, done, ts_secs_g));
                        let k = choose|k: int|
                            {
                                &&& 0 <= k < done.len()
                                &&& (#[trigger] done[k]).1.model.id == old_ids[i]
                                &&& forall|k2: int|
                                    k < k2 < done.len() ==> (#[trigger] done[k2]).1.model.id
                                        != old_ids[i]
                                &&& model_entry_ok(
                                    done[k].1.model,
                                    ts_secs_g,
                                    done[k].0,
                                    old_models[i],
                                )
                            };
                        assert(newdone[k] == done[k]);
                        assert forall|k2: int| k < k2 < newdone.len() implies (
                        #[trigger] newdone[k2]).1.model.id != model_ids@[i] by {
                            if k2 < done.len() {
                                assert(newdone[k2] == done[k2]);
                            } else {
                                assert(newdone[k2] == pg);
                            }
                        }
                    }
                }
                assert forall|k: int| 0 <= k < newdone.len() implies has_model_id(
                    model_ids@,
                    (#[trigger] newdone[k]).1.model.id,
                ) by {
                    if k < done.len() {
                        assert(newdone[k] == done[k]);
                        assert(has_model_id(old_ids, done[k].1.model.id));
                        let i0 = choose|i0: int|
                            0 <= i0 < old_ids.len() && old_ids[i0] == done[k].1.model.id;
                        if i0 == upd_slot && model_ids@[i0] != old_ids[i0] {
                            assert(old_ids[i0] == pg.1.model.id ==> model_ids@[upd_slot]
                                == old_ids[i0]);
                        }
                        assert(model_ids@[i0] == done[k].1.model.id || model_ids@[upd_slot]
                            == done[k].1.model.id);
                    } else {
                        assert(newdone[k] == pg);
                        assert(model_ids@[upd_slot] == pg.1.model.id);
                    }
                }
            }
            match note.check_number_model_fields_matches_num_fields() {
                Ok(()) => {},
                Err(e) => {
                    proof {
                        assert(!pair_writable(pg.1));
                        assert(pair_error_ok(pg.1, e));
                        assert(!pair_writable((all_note_pairs(decks@)[g]).1));
                        assert(forall|k2: int|
                            0 <= k2 < g ==> pair_writable((#[trigger] all_note_pairs(decks@)[k2]).1));
                    }
                    return Err(e);
                },
            }
            match crate::note::validate_tags(&note.tags) {
                Ok(()) => {},
                Err(e) => {
                    proof {
                        assert(!pair_writable(pg.1));
                        assert(pair_error_ok(pg.1, e));
                        assert(!pair_writable((all_note_pairs(decks@)[g]).1));
                        assert(forall|k2: int|
                            0 <= k2 < g ==> pair_writable((#[trigger] all_note_pairs(decks@)[k2]).1));
                    }
                    return Err(e);
                },
            }
            if next == i64::MAX {
                proof {
                    assert(note_pairs(
                        did,
                        deck.notes@.subrange(j as int, deck.notes@.len() as int),
                    ).len() >= 1);
                    assert(pairs.len() >= done.len() + 1);
                    assert(cardsv.len() >= cdone.len());
                    assert(!id_range_ok(decks@, timestamp_millis));
                }
                return Err(Error::IdentifierOverflow);
            }
            proof {
                let segb = deck_cards_from(did, deck.notes@, j as int, base);
                let restc = all_cards_from(decks@, di + 1, base + deck.notes@.len() as int);
                lemma_cards_below_concat(cdone + segb, restc, g);
                lemma_cards_below_concat(cdone, segb, g);
                lemma_cards_below_all(cdone, g);
                lemma_deck_cards_from_lb(did, deck.notes@, j as int, base);
                lemma_cards_below_none(segb, g);
                lemma_all_cards_from_lb(decks@, di + 1, base + deck.notes@.len() as int);
                lemma_cards_below_none(restc, g);
                assert(cards_below(cardsv, g) == cdone.len());
            }
            let note_id = next;
            next = next + 1;
            let row = NoteRow {
                id: note_id,
                guid: note.guid.clone(),
                mid: note.model.id,
                mod_secs: ts_secs,
                tags: note.format_tags(),
                flds: note.format_fields(),
                sfld: note.sort_field,
            };
            notes.push(row);
            proof {
                done = done.push(pg);
                assert(note_pairs(
                    did,
                    deck.notes@.subrange(j as int, deck.notes@.len() as int),
                ).drop_first() =~= note_pairs(
                    did,
                    deck.notes@.subrange(j + 1, deck.notes@.len() as int),
                ));
                assert(pairs =~= done + note_pairs(
                    did,
                    deck.notes@.subrange(j + 1, deck.notes@.len() as int),
                ) + all_note_pairs_from(decks@, di + 1));
                assert(deck_cards_from(did, deck.notes@, j as int, base) == cards_of(
                    base + j,
                    did,
                    deck.notes@[j as int].cards@,
                ) + deck_cards_from(did, deck.notes@, j + 1, base));
            }
            let mut ci: usize = 0;
            while ci < note.cards.len()
                invariant
                    pairs == all_note_pairs(decks@),
                    cardsv == all_cards(decks@),
                    timestamp_millis <= 0x7fffffffffffffff,
                    0 <= ci <= note.cards@.len(),
                    note == &decks@[di as int].notes@[j as int],
                    0 <= di < decks@.len(),
                    0 <= j < decks@[di as int].notes@.len(),
                    did == decks@[di as int].id,
                    did == deck.id,
                    ts_secs == ts_secs_g,
                    g == notes@.len() - 1,
                    g < pairs.len(),
                    g == base + j,
                    notes@[g].id == note_id,
                    cards@.len() == cdone.len() + ci,
                    cdone.len() + note.cards@.len() + deck_cards_from(
                        decks@[di as int].id,
                        decks@[di as int].notes@,
                        j + 1,
                        base,
                    ).len() + all_cards_from(
                        decks@,
                        di + 1,
                        base + decks@[di as int].notes@.len(),
                    ).len() == cardsv.len(),
                    cardsv == cdone + cards_of(g, did, note.cards@) + deck_cards_from(
                        decks@[di as int].id,
                        decks@[di as int].notes@,
                        j + 1,
                        base,
                    ) + all_cards_from(decks@, di + 1, base + decks@[di as int].notes@.len()),
                    forall|k: int|
                        0 <= k < cdone.len() ==> 0 <= (#[trigger] cdone[k]).0 < notes@.len(),
                    forall|k: int|
                        0 <= k < cdone.len() ==> card_row_ok(
                            #[trigger] cards@[k],
                            notes@[cdone[k].0].id,
                            cdone[k].1,
                            cdone[k].2,
                            ts_secs_g,
                        ),
                    forall|k: int|
                        cdone.len() <= k < cards@.len() ==> card_row_ok(
                            #[trigger] cards@[k],
                            note_id,
                            did,
                            note.cards@[k - cdone.len()],
                            ts_secs_g,
                        ),
                    forall|k1: int, k2: int|
                        0 <= k1 < k2 < cards@.len() ==> cards@[k1].id < cards@[k2].id,
                    next == timestamp_millis + notes@.len() + cards@.len(),
                    forall|k: int| 0 <= k < notes@.len() ==> (#[trigger] notes@[k]).id < next,
                    forall|k: int| 0 <= k < cards@.len() ==> (#[trigger] cards@[k]).id < next,
                    forall|k: int|
                        0 <= k < notes@.len() ==> (#[trigger] notes@[k]).id == timestamp_millis + k
                            + cards_below(cardsv, k),
                    forall|j2: int|
                        0 <= j2 < cards@.len() ==> (#[trigger] cards@[j2]).id == timestamp_millis
                            + cardsv[j2].0 + 1 + j2,
                decreases note.cards@.len() - ci,
            {
                if next == i64::MAX {
                    proof {
                        assert(cardsv.len() >= cdone.len() + ci + 1);
                        assert(pairs.len() >= notes@.len());
                        assert(!id_range_ok(decks@, timestamp_millis));
                    }
                    return Err(Error::IdentifierOverflow);
                }
                let card_id = next;
                next = next + 1;
                let c = note.cards[ci];
                cards.push(
                    CardRow {
                        id: card_id,
                        nid: note_id,
                        did: deck.id,
                        ord: c.ord,
                        mod_secs: ts_secs,
                        queue: if c.suspend {
                            -1
                        } else {
                            0
                        },
                    },
                );
                ci += 1;
            }
            proof {
                let seg = cards_of(g, did, decks@[di as int].notes@[j as int].cards@);
                assert(seg.len() == decks@[di as int].notes@[j as int].cards@.len());
                cdone = cdone + seg;
                assert(cards@.len() == cdone.len());
                assert(cardsv =~= cdone + deck_cards_from(did, deck.notes@, j + 1, base)
                    + all_cards_from(decks@, di + 1, base + deck.notes@.len()));
                assert forall|k: int| 0 <= k < cdone.len() implies 0 <= (#[trigger] cdone[k]).0
                    < notes@.len() by {
                    if k >= cdone.len() - seg.len() {
                        assert(cdone[k] == seg[k - (cdone.len() - seg.len())]);
                    }
                }
                assert forall|k: int| 0 <= k < cdone.len() implies card_row_ok(
                    #[trigger] cards@[k],
                    notes@[cdone[k].0].id,
                    cdone[k].1,
                    cdone[k].2,
                    ts_secs_g,
                ) by {
                    if k >= cdone.len() - seg.len() {
                        assert(cdone[k] == seg[k - (cdone.len() - seg.len())]);
                        assert(cdone[k].0 == g && cdone[k].1 == did);
                    }
                }
            }
            j += 1;
        }
        proof {
            assert(note_pairs(
                did,
                deck.notes@.subrange(deck.notes@.len() as int, deck.notes@.len() as int),
            ) =~= Seq::<(i64, Note)>::empty());
            assert(deck_cards_from(did, deck.notes@, deck.notes@.len() as int, base) =~= Seq::<
                (int, i64, Card),
            >::empty());
            assert(pairs =~= done + all_note_pairs_from(decks@, di + 1));
            assert(cardsv =~= cdone + all_cards_from(decks@, di + 1, done.len() as int));
        }
        di += 1;
    }
    proof {
        assert(all_note_pairs_from(decks@, decks@.len() as int) =~= Seq::<(i64, Note)>::empty());
        assert(all_cards_from(decks@, decks@.len() as int, done.len() as int) =~= Seq::<
            (int, i64, Card),
        >::empty());
        assert(pairs =~= done);
        assert(cardsv =~= cdone);
        assert(id_range_ok(decks@, timestamp_millis));
        assert(notes_writable(decks@));
    }
    Ok(Snapshot { decks: deck_entries, models, model_ids, notes, cards })
}

} // verus!
