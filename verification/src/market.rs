//! Market lookups: the outright-winner markets of the fixture teams, the
//! outcome rows of a market, and the parameters of the edge and
//! tournament requests.
use vstd::prelude::*;
use vstd::utf8::*;
use vstd::string::StringSliceAdditionalSpecFns;
use crate::query::{Query, lookup};
use crate::text::{split_bytes, split_text, split_str, piece_bytes, trimmed, trim_str, lowercased, lowercase, same_text};

verus! {

broadcast use {vstd::utf8::encode_utf8_decode_utf8, vstd::utf8::encode_utf8_valid_utf8};

/// The Polymarket outright-winner market of each fixture team, as
/// (team, market slug); the outcome to read on each is "Yes".
pub open spec fn slug_table() -> Seq<(Seq<char>, Seq<char>)> {
    seq![
        ("Spain"@, "will-spain-win-the-2026-fifa-world-cup-963"@),
        ("Germany"@, "will-germany-win-the-2026-fifa-world-cup-467"@),
        ("Argentina"@, "will-argentina-win-the-2026-fifa-world-cup-245"@),
        ("Mexico"@, "will-mexico-win-the-2026-fifa-world-cup-529"@),
        ("France"@, "will-france-win-the-2026-fifa-world-cup-924"@),
        ("England"@, "will-england-win-the-2026-fifa-world-cup-937"@),
        ("Brazil"@, "will-brazil-win-the-2026-fifa-world-cup-183"@),
        ("Netherlands"@, "will-netherlands-win-the-2026-fifa-world-cup-739"@),
        ("Portugal"@, "will-portugal-win-the-2026-fifa-world-cup-912"@),
        ("Uruguay"@, "will-uruguay-win-the-2026-fifa-world-cup-932"@),
        ("Croatia"@, "will-croatia-win-the-2026-fifa-world-cup"@),
        ("Morocco"@, "will-morocco-win-the-2026-fifa-world-cup-464"@),
        ("USA"@, "will-usa-win-the-2026-fifa-world-cup-467"@),
        ("Colombia"@, "will-colombia-win-the-2026-fifa-world-cup-734"@),
        ("Japan"@, "will-japan-win-the-2026-fifa-world-cup-112"@),
        ("Senegal"@, "will-senegal-win-the-2026-fifa-world-cup"@),
    ]
}

/// A name with its ASCII capitals made small.
pub open spec fn ascii_lower(s: Seq<char>) -> Seq<char> {
    s.map_values(|c: char| if 'A' <= c <= 'Z' { ((c as u32) + 32) as char } else { c })
}

/// The start of the slug of a team's outright-winner market.
pub open spec fn outright_slug_stem(team: Seq<char>) -> Seq<char> {
    "will-"@ + ascii_lower(team) + "-win-the-2026-fifa-world-cup"@
}

/// Each team's slug is that team's own outright-winner market: it starts
/// with "will-", the team's name in lower case, and
/// "-win-the-2026-fifa-world-cup"; and no team is listed twice.
pub proof fn each_slug_is_its_teams_market()
    ensures
        forall|i: int| 0 <= i < slug_table().len() ==> {
            let (team, slug) = #[trigger] slug_table()[i];
            slug.len() >= outright_slug_stem(team).len()
                && slug.take(outright_slug_stem(team).len() as int) == outright_slug_stem(team)
        },
        forall|i: int, j: int| 0 <= i < j < slug_table().len() ==> #[trigger] slug_table()[i].0 != #[trigger] slug_table()[j].0,
{
    reveal_strlit("will-");
    reveal_strlit("-win-the-2026-fifa-world-cup");
    reveal_strlit("Spain");
    reveal_strlit("will-spain-win-the-2026-fifa-world-cup-963");
    reveal_strlit("Germany");
    reveal_strlit("will-germany-win-the-2026-fifa-world-cup-467");
    reveal_strlit("Argentina");
    reveal_strlit("will-argentina-win-the-2026-fifa-world-cup-245");
    reveal_strlit("Mexico");
    reveal_strlit("will-mexico-win-the-2026-fifa-world-cup-529");
    reveal_strlit("France");
    reveal_strlit("will-france-win-the-2026-fifa-world-cup-924");
    reveal_strlit("England");
    reveal_strlit("will-england-win-the-2026-fifa-world-cup-937");
    reveal_strlit("Brazil");
    reveal_strlit("will-brazil-win-the-2026-fifa-world-cup-183");
    reveal_strlit("Netherlands");
    reveal_strlit("will-netherlands-win-the-2026-fifa-world-cup-739");
    reveal_strlit("Portugal");
    reveal_strlit("will-portugal-win-the-2026-fifa-world-cup-912");
    reveal_strlit("Uruguay");
    reveal_strlit("will-uruguay-win-the-2026-fifa-world-cup-932");
    reveal_strlit("Croatia");
    reveal_strlit("will-croatia-win-the-2026-fifa-world-cup");
    reveal_strlit("Morocco");
    reveal_strlit("will-morocco-win-the-2026-fifa-world-cup-464");
    reveal_strlit("USA");
    reveal_strlit("will-usa-win-the-2026-fifa-world-cup-467");
    reveal_strlit("Colombia");
    reveal_strlit("will-colombia-win-the-2026-fifa-world-cup-734");
    reveal_strlit("Japan");
    reveal_strlit("will-japan-win-the-2026-fifa-world-cup-112");
    reveal_strlit("Senegal");
    reveal_strlit("will-senegal-win-the-2026-fifa-world-cup");
    let table = slug_table();
    assert("will-spain-win-the-2026-fifa-world-cup-963"@.take(outright_slug_stem("Spain"@).len() as int) =~= outright_slug_stem("Spain"@));
    assert("will-germany-win-the-2026-fifa-world-cup-467"@.take(outright_slug_stem("Germany"@).len() as int) =~= outright_slug_stem("Germany"@));
    assert("will-argentina-win-the-2026-fifa-world-cup-245"@.take(outright_slug_stem("Argentina"@).len() as int) =~= outright_slug_stem("Argentina"@));
    assert("will-mexico-win-the-2026-fifa-world-cup-529"@.take(outright_slug_stem("Mexico"@).len() as int) =~= outright_slug_stem("Mexico"@));
    assert("will-france-win-the-2026-fifa-world-cup-924"@.take(outright_slug_stem("France"@).len() as int) =~= outright_slug_stem("France"@));
    assert("will-england-win-the-2026-fifa-world-cup-937"@.take(outright_slug_stem("England"@).len() as int) =~= outright_slug_stem("England"@));
    assert("will-brazil-win-the-2026-fifa-world-cup-183"@.take(outright_slug_stem("Brazil"@).len() as int) =~= outright_slug_stem("Brazil"@));
    assert("will-netherlands-win-the-2026-fifa-world-cup-739"@.take(outright_slug_stem("Netherlands"@).len() as int) =~= outright_slug_stem("Netherlands"@));
    assert("will-portugal-win-the-2026-fifa-world-cup-912"@.take(outright_slug_stem("Portugal"@).len() as int) =~= outright_slug_stem("Portugal"@));
    assert("will-uruguay-win-the-2026-fifa-world-cup-932"@.take(outright_slug_stem("Uruguay"@).len() as int) =~= outright_slug_stem("Uruguay"@));
    assert("will-croatia-win-the-2026-fifa-world-cup"@.take(outright_slug_stem("Croatia"@).len() as int) =~= outright_slug_stem("Croatia"@));
    assert("will-morocco-win-the-2026-fifa-world-cup-464"@.take(outright_slug_stem("Morocco"@).len() as int) =~= outright_slug_stem("Morocco"@));
    assert("will-usa-win-the-2026-fifa-world-cup-467"@.take(outright_slug_stem("USA"@).len() as int) =~= outright_slug_stem("USA"@));
    assert("will-colombia-win-the-2026-fifa-world-cup-734"@.take(outright_slug_stem("Colombia"@).len() as int) =~= outright_slug_stem("Colombia"@));
    assert("will-japan-win-the-2026-fifa-world-cup-112"@.take(outright_slug_stem("Japan"@).len() as int) =~= outright_slug_stem("Japan"@));
    assert("will-senegal-win-the-2026-fifa-world-cup"@.take(outright_slug_stem("Senegal"@).len() as int) =~= outright_slug_stem("Senegal"@));
    assert forall|i: int| 0 <= i < table.len() implies {
        let (team, slug) = #[trigger] table[i];
        slug.len() >= outright_slug_stem(team).len()
            && slug.take(outright_slug_stem(team).len() as int) == outright_slug_stem(team)
    } by {}
    assert forall|i: int, j: int| 0 <= i < j < table.len() implies #[trigger] table[i].0 != #[trigger] table[j].0 by {
        assert(table[i].0.len() != table[j].0.len() || table[i].0[0] != table[j].0[0] || table[i].0[1] != table[j].0[1]);
    }
}

/// The outright-winner market slug of each fixture team, in board order.
pub fn outright_slugs() -> (r: Vec<(&'static str, &'static str)>)
    ensures
        r@.len() == slug_table().len(),
        forall|i: int| 0 <= i < r@.len() ==> (#[trigger] r@[i].0@, r@[i].1@) == slug_table()[i],
{
    vec![
        ("Spain", "will-spain-win-the-2026-fifa-world-cup-963"),
        ("Germany", "will-germany-win-the-2026-fifa-world-cup-467"),
        ("Argentina", "will-argentina-win-the-2026-fifa-world-cup-245"),
        ("Mexico", "will-mexico-win-the-2026-fifa-world-cup-529"),
        ("France", "will-france-win-the-2026-fifa-world-cup-924"),
        ("England", "will-england-win-the-2026-fifa-world-cup-937"),
        ("Brazil", "will-brazil-win-the-2026-fifa-world-cup-183"),
        ("Netherlands", "will-netherlands-win-the-2026-fifa-world-cup-739"),
        ("Portugal", "will-portugal-win-the-2026-fifa-world-cup-912"),
        ("Uruguay", "will-uruguay-win-the-2026-fifa-world-cup-932"),
        ("Croatia", "will-croatia-win-the-2026-fifa-world-cup"),
        ("Morocco", "will-morocco-win-the-2026-fifa-world-cup-464"),
        ("USA", "will-usa-win-the-2026-fifa-world-cup-467"),
        ("Colombia", "will-colombia-win-the-2026-fifa-world-cup-734"),
        ("Japan", "will-japan-win-the-2026-fifa-world-cup-112"),
        ("Senegal", "will-senegal-win-the-2026-fifa-world-cup"),
    ]
}

/// One outcome row of a market, as far as the lookups read it: its label
/// (when it is a string) and whether it carries a numeric price.
pub struct OutcomeRow {
    pub label: Option<String>,
    pub has_price: bool,
}

/// The label text of a row.
pub open spec fn row_label(row: OutcomeRow) -> Option<Seq<char>> {
    match row.label {
        Some(s) => Some(s@),
        None => None,
    }
}

/// A label that reads "yes" in lower case.
pub open spec fn is_yes_label(label: Option<Seq<char>>) -> bool {
    label matches Some(s) && lowercased(s) == "yes"@
}

/// A label that names `outcome`, both trimmed and in lower case.
pub open spec fn names_outcome(label: Option<Seq<char>>, outcome: Seq<char>) -> bool {
    label matches Some(s) && lowercased(trimmed(s)) == lowercased(trimmed(outcome))
}

/// The position of the first "Yes" row of a binary market's outcomes.
pub fn yes_row(rows: &Vec<OutcomeRow>) -> (r: Option<usize>)
    ensures
        match r {
            Some(i) => i < rows@.len() && is_yes_label(row_label(rows@[i as int]))
                && forall|j: int| 0 <= j < i ==> !is_yes_label(#[trigger] row_label(rows@[j])),
            None => forall|j: int| 0 <= j < rows@.len() ==> !is_yes_label(#[trigger] row_label(rows@[j])),
        },
{
    let mut i: usize = 0;
    while i < rows.len()
        invariant
            0 <= i <= rows@.len(),
            forall|j: int| 0 <= j < i ==> !is_yes_label(#[trigger] row_label(rows@[j])),
        decreases rows.len() - i,
    {
        match &rows[i].label {
            Some(s) => {
                let low = lowercase(s.as_str());
                if same_text(low.as_str(), "yes") {
                    return Some(i);
                }
            },
            None => {},
        }
        i = i + 1;
    }
    None
}

/// The row whose price is a market's "Yes" price: the first "Yes" row,
/// when it carries a price; `None` when there is no such row or it has
/// no price.
pub fn yes_price_row(rows: &Vec<OutcomeRow>) -> (r: Option<usize>)
    ensures
        match r {
            Some(i) => i < rows@.len() && is_yes_label(row_label(rows@[i as int])) && rows@[i as int].has_price
                && forall|j: int| 0 <= j < i ==> !is_yes_label(#[trigger] row_label(rows@[j])),
            None => forall|i: int|
                0 <= i < rows@.len() && is_yes_label(row_label(rows@[i]))
                    && (forall|j: int| 0 <= j < i ==> !is_yes_label(#[trigger] row_label(rows@[j])))
                    ==> !(#[trigger] rows@[i]).has_price,
        },
{
    match yes_row(rows) {
        Some(i) => if rows[i].has_price {
            Some(i)
        } else {
            None
        },
        None => None,
    }
}

/// The position of the first row whose label names `outcome`, ignoring
/// surrounding whitespace and case.
pub fn outcome_row(rows: &Vec<OutcomeRow>, outcome: &str) -> (r: Option<usize>)
    ensures
        match r {
            Some(i) => i < rows@.len() && names_outcome(row_label(rows@[i as int]), outcome@)
                && forall|j: int| 0 <= j < i ==> !names_outcome(#[trigger] row_label(rows@[j]), outcome@),
            None => forall|j: int| 0 <= j < rows@.len() ==> !names_outcome(#[trigger] row_label(rows@[j]), outcome@),
        },
{
    let want = lowercase(trim_str(outcome));
    let mut i: usize = 0;
    while i < rows.len()
        invariant
            0 <= i <= rows@.len(),
            want@ == lowercased(trimmed(outcome@)),
            forall|j: int| 0 <= j < i ==> !names_outcome(#[trigger] row_label(rows@[j]), outcome@),
        decreases rows.len() - i,
    {
        match &rows[i].label {
            Some(s) => {
                let low = lowercase(trim_str(s.as_str()));
                if same_text(low.as_str(), want.as_str()) {
                    return Some(i);
                }
            },
            None => {},
        }
        i = i + 1;
    }
    None
}

/// Finding a market row by outcome ignores surrounding whitespace and
/// letter case on both sides: a label that is the asked outcome (up to
/// surrounding whitespace) always names it, and two spellings of the
/// outcome that agree once trimmed and lower-cased ("Yes", " yes ",
/// "YES") name exactly the same labels, so `outcome_row` and
/// `edge_outcome` find the same row for both. A label names an outcome
/// only when the two agree once trimmed and lower-cased, and a row
/// without a label names none.
pub proof fn outcome_match_ignores_case_and_space(label: Seq<char>, outcome: Seq<char>, other: Seq<char>)
    ensures
        trimmed(label) == trimmed(outcome) ==> names_outcome(Some(label), outcome),
        names_outcome(Some(outcome), outcome),
        lowercased(trimmed(outcome)) == lowercased(trimmed(other))
            ==> (names_outcome(Some(label), outcome) <==> names_outcome(Some(label), other)),
        names_outcome(Some(label), outcome) ==> lowercased(trimmed(label)) == lowercased(trimmed(outcome)),
        !names_outcome(None, outcome),
{
}

/// The error reported when a market has no priced row for the asked
/// outcome.
pub open spec fn outcome_missing_text(outcome: Seq<char>) -> Seq<char> {
    "outcome '"@ + outcome + "' not found"@
}

/// The row whose price an edge request compares with: the first row
/// naming the outcome, when it carries a price; otherwise the error
/// "outcome '<outcome>' not found".
pub fn edge_outcome(rows: &Vec<OutcomeRow>, outcome: &str) -> (r: Result<usize, String>)
    ensures
        match r {
            Ok(i) => i < rows@.len() && names_outcome(row_label(rows@[i as int]), outcome@) && rows@[i as int].has_price
                && forall|j: int| 0 <= j < i ==> !names_outcome(#[trigger] row_label(rows@[j]), outcome@),
            Err(e) => e@ == outcome_missing_text(outcome@) && forall|i: int|
                0 <= i < rows@.len() && names_outcome(row_label(rows@[i]), outcome@)
                    && (forall|j: int| 0 <= j < i ==> !names_outcome(#[trigger] row_label(rows@[j]), outcome@))
                    ==> !(#[trigger] rows@[i]).has_price,
        },
{
    match outcome_row(rows, outcome) {
        Some(i) => if rows[i].has_price {
            return Ok(i);
        },
        None => {},
    }
    let mut msg = "outcome '".to_owned();
    msg.append(outcome);
    msg.append("' not found");
    Err(msg)
}

/// The parameters of an edge request: the market, the outcome on it, and
/// the model probability as sent (still to be read as a number).
pub struct EdgeRequest {
    pub slug: String,
    pub outcome: String,
    pub model_prob: String,
}

/// What an edge request's parameters come to: the three values, or the
/// error for the first one missing.
pub open spec fn edge_params(q: Seq<(Seq<char>, Seq<char>)>) -> Result<(Seq<char>, Seq<char>, Seq<char>), Seq<char>> {
    match lookup(q, "slug"@) {
        None => Err("missing slug"@),
        Some(slug) => match lookup(q, "outcome"@) {
            None => Err("missing outcome"@),
            Some(outcome) => match lookup(q, "model_prob"@) {
                None => Err("missing model_prob"@),
                Some(prob) => Ok((slug, outcome, prob)),
            },
        },
    }
}

/// Reads the `slug`, `outcome` and `model_prob` parameters of an edge
/// request, in that order; the first one missing is the error.
pub fn edge_request(q: &Query) -> (r: Result<EdgeRequest, String>)
    ensures
        match edge_params(q@) {
            Ok((slug, outcome, prob)) => r is Ok && r->Ok_0.slug@ == slug && r->Ok_0.outcome@ == outcome
                && r->Ok_0.model_prob@ == prob,
            Err(e) => r is Err && r->Err_0@ == e,
        },
{
    let slug = match q.get("slug") {
        Some(s) => s,
        None => return Err("missing slug".to_owned()),
    };
    let outcome = match q.get("outcome") {
        Some(o) => o,
        None => return Err("missing outcome".to_owned()),
    };
    let prob = match q.get("model_prob") {
        Some(p) => p,
        None => return Err("missing model_prob".to_owned()),
    };
    Ok(EdgeRequest { slug: slug.to_owned(), outcome: outcome.to_owned(), model_prob: prob.to_owned() })
}

/// The texts of owned strings.
pub open spec fn string_views(v: Seq<String>) -> Seq<Seq<char>> {
    v.map_values(|s: String| s@)
}

/// The trimmed pieces that are not blank, in order.
pub open spec fn kept_names(pieces: Seq<Seq<char>>) -> Seq<Seq<char>>
    decreases pieces.len(),
{
    if pieces.len() == 0 {
        Seq::empty()
    } else if trimmed(pieces.last()).len() > 0 {
        kept_names(pieces.drop_last()).push(trimmed(pieces.last()))
    } else {
        kept_names(pieces.drop_last())
    }
}

/// Keeping the names of two lists one after the other keeps the names
/// of each: nothing is dropped or added at the seam, however long the
/// lists are.
pub proof fn kept_names_append(a: Seq<Seq<char>>, b: Seq<Seq<char>>)
    ensures
        kept_names(a + b) == kept_names(a) + kept_names(b),
    decreases b.len(),
{
    if b.len() == 0 {
        assert(a + b =~= a);
        assert(kept_names(a) + kept_names(b) =~= kept_names(a));
    } else {
        kept_names_append(a, b.drop_last());
        assert((a + b).drop_last() =~= a + b.drop_last());
        assert((a + b).last() == b.last());
        if trimmed(b.last()).len() > 0 {
            assert(kept_names(a) + kept_names(b) =~= (kept_names(a) + kept_names(b.drop_last())).push(trimmed(b.last())));
        }
    }
}

/// No non-blank name is lost: when no piece is blank, the names kept are
/// all the pieces, each trimmed, in order, as many as there are pieces.
pub proof fn no_name_is_lost(pieces: Seq<Seq<char>>)
    requires
        forall|i: int| 0 <= i < pieces.len() ==> #[trigger] trimmed(pieces[i]).len() > 0,
    ensures
        kept_names(pieces) == pieces.map_values(|p: Seq<char>| trimmed(p)),
        kept_names(pieces).len() == pieces.len(),
    decreases pieces.len(),
{
    if pieces.len() > 0 {
        let init = pieces.drop_last();
        assert forall|i: int| 0 <= i < init.len() implies #[trigger] trimmed(init[i]).len() > 0 by {
            assert(init[i] == pieces[i]);
        }
        no_name_is_lost(init);
        assert(trimmed(pieces[pieces.len() - 1]).len() > 0);
        assert(pieces.map_values(|p: Seq<char>| trimmed(p))
            =~= init.map_values(|p: Seq<char>| trimmed(p)).push(trimmed(pieces.last())));
    }
}

/// A single piece keeps its trimmed text when that is not blank, and
/// nothing when it is; with `kept_names_append` this fixes the names kept
/// of any list of pieces.
pub proof fn kept_names_single(p: Seq<char>)
    ensures
        trimmed(p).len() > 0 ==> kept_names(seq![p]) == seq![trimmed(p)],
        trimmed(p).len() == 0 ==> kept_names(seq![p]) == Seq::<Seq<char>>::empty(),
{
    let one = seq![p];
    assert(one.len() == 1 && one.last() == p);
    assert(one.drop_last() =~= Seq::<Seq<char>>::empty());
    assert(kept_names(one.drop_last()) == Seq::<Seq<char>>::empty());
    assert(Seq::<Seq<char>>::empty().push(trimmed(p)) =~= seq![trimmed(p)]);
}

/// Each piece keeps at most one name: the names kept are never more than
/// the pieces.
pub proof fn kept_names_count(pieces: Seq<Seq<char>>)
    ensures
        kept_names(pieces).len() <= pieces.len(),
    decreases pieces.len(),
{
    if pieces.len() > 0 {
        kept_names_count(pieces.drop_last());
    }
}

/// The team names of a comma-separated list: each piece trimmed, blank
/// ones dropped.
pub open spec fn team_list(teams: Seq<char>) -> Seq<Seq<char>> {
    kept_names(split_text(teams, 0x2c))
}

/// What a tournament request's `teams` parameter comes to.
pub open spec fn tournament_params(q: Seq<(Seq<char>, Seq<char>)>) -> Result<Seq<Seq<char>>, Seq<char>> {
    match lookup(q, "teams"@) {
        None => Err("missing teams"@),
        Some(teams) => Ok(team_list(teams)),
    }
}

/// The teams of a tournament request: its `teams` parameter split at
/// commas, each name trimmed, blank ones dropped.
pub fn tournament_teams(q: &Query) -> (r: Result<Vec<String>, String>)
    ensures
        match tournament_params(q@) {
            Ok(names) => r is Ok && string_views(r->Ok_0@) == names,
            Err(e) => r is Err && r->Err_0@ == e,
        },
        r matches Ok(names) ==> forall|i: int| 0 <= i < names@.len() ==> #[trigger] names@[i]@.len() > 0,
{
    let teams = match q.get("teams") {
        Some(t) => t,
        None => return Err("missing teams".to_owned()),
    };
    let pieces = split_str(teams, 0x2c);
    let ghost texts = split_text(teams@, 0x2c);
    assert(texts.len() == pieces@.len());
    let mut names: Vec<String> = Vec::new();
    let mut i: usize = 0;
    assert(texts.take(0) =~= Seq::<Seq<char>>::empty());
    assert(string_views(names@) =~= Seq::<Seq<char>>::empty());
    while i < pieces.len()
        invariant
            0 <= i <= pieces@.len(),
            texts == split_text(teams@, 0x2c),
            texts.len() == pieces@.len(),
            piece_bytes(pieces@) == split_bytes(teams.spec_bytes(), 0x2c),
            string_views(names@) == kept_names(texts.take(i as int)),
            forall|k: int| 0 <= k < names@.len() ==> #[trigger] names@[k]@.len() > 0,
        decreases pieces.len() - i,
    {
        let piece: &str = pieces[i];
        assert(piece_bytes(pieces@)[i as int] == piece.spec_bytes());
        assert(texts[i as int] == piece@);
        assert(texts.take(i + 1).drop_last() =~= texts.take(i as int));
        assert(texts.take(i + 1).last() == texts[i as int]);
        let name = trim_str(piece);
        if !name.is_empty() {
            let ghost before = names@;
            names.push(name.to_owned());
            assert(string_views(names@) =~= string_views(before).push(name@));
        }
        i = i + 1;
    }
    assert(texts.take(i as int) =~= texts);
    Ok(names)
}

} // verus!
