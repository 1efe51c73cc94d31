//! The history of sent URLs (most recent first, no repeats, at most 50) and the
//! suggestions drawn from it while a URL is typed.

use vstd::prelude::*;

use crate::seqs::{count_where, lemma_filter_all, lemma_filter_item, lemma_filter_len_count, lemma_filter_position, lemma_filter_push};
use crate::text::{contains, has_infix, is_white_space, law_trim_is_idempotent, law_trimmed_empty_iff_all_white_space, lowercase_of, to_lowercase, trim, trimmed};

verus! {

/// How many URLs the history keeps.
pub const HISTORY_LIMIT: usize = 50;

/// How many suggestions are offered at most.
pub const SUGGESTION_LIMIT: usize = 10;

/// The texts of a list of strings.
pub open spec fn texts(s: Seq<String>) -> Seq<Seq<char>> {
    s.map_values(|u: String| u@)
}

/// The texts other than `t`, as a predicate.
pub open spec fn other_than(t: Seq<char>) -> spec_fn(Seq<char>) -> bool {
    |u: Seq<char>| u != t
}

/// At most the first `n` items of `s`.
pub open spec fn at_most<A>(s: Seq<A>, n: nat) -> Seq<A> {
    if s.len() > n {
        s.take(n as int)
    } else {
        s
    }
}

/// The history after sending to URL text `t` (already trimmed): `t` first, then the
/// earlier entries other than `t` in their order, cut to `HISTORY_LIMIT`.
pub open spec fn history_with(h: Seq<Seq<char>>, t: Seq<char>) -> Seq<Seq<char>> {
    at_most(seq![t] + h.filter(other_than(t)), HISTORY_LIMIT as nat)
}

/// The history after the user sends to `url`: unchanged when the URL is blank, otherwise
/// the trimmed URL moves (or goes) to the front.
pub open spec fn recorded_history(h: Seq<Seq<char>>, url: Seq<char>) -> Seq<Seq<char>> {
    if trimmed(url).len() == 0 {
        h
    } else {
        history_with(h, trimmed(url))
    }
}

/// Records a sent URL: the trimmed URL goes to the front, any earlier copy of it leaves,
/// and the history is cut to `HISTORY_LIMIT`. A blank URL records nothing. Returns whether
/// the history was recorded (and so should be saved).
pub fn record_history(history: &mut Vec<String>, url: &str) -> (recorded: bool)
    ensures
        recorded == (trimmed(url@).len() > 0),
        texts(final(history)@) == recorded_history(texts(old(history)@), url@),
{
    let t = trim(url);
    if t.is_empty() {
        return false;
    }
    let entry = String::from_str(t);
    let ghost before = texts(history@);
    let mut kept: Vec<String> = Vec::new();
    for i in 0..history.len()
        invariant
            texts(history@) == before,
            entry@ == trimmed(url@),
            texts(kept@) == before.take(i as int).filter(other_than(entry@)),
    {
        proof {
            assert(before.take(i + 1) =~= before.take(i as int).push(before[i as int]));
            lemma_filter_push(before.take(i as int), before[i as int], other_than(entry@));
        }
        let ghost prev = kept@;
        if history[i] != entry {
            kept.push(history[i].clone());
            assert(texts(kept@) =~= texts(prev).push(before[i as int]));
        }
    }
    assert(before.take(before.len() as int) =~= before);
    let ghost filtered = texts(kept@);
    kept.insert(0, entry);
    assert(texts(kept@) =~= seq![trimmed(url@)] + filtered);
    if kept.len() > HISTORY_LIMIT {
        kept.truncate(HISTORY_LIMIT);
        assert(texts(kept@) =~= (seq![trimmed(url@)] + filtered).take(HISTORY_LIMIT as int));
    }
    *history = kept;
    true
}


/// Whether a history entry is suggested while `input` is typed: its lower-case form
/// holds the trimmed, lower-cased input (any entry does when that is empty), and it is
/// not the input itself.
pub open spec fn suggests(entry: Seq<char>, input: Seq<char>) -> bool {
    let q = lowercase_of(trimmed(input));
    (q.len() == 0 || has_infix(lowercase_of(entry), q)) && entry != input
}

/// The suggestion test for `input`, as a predicate.
pub open spec fn suggested_for(input: Seq<char>) -> spec_fn(Seq<char>) -> bool {
    |entry: Seq<char>| suggests(entry, input)
}

/// The suggestions for `input`: the first `SUGGESTION_LIMIT` matching entries, most recent first.
pub open spec fn suggestions(h: Seq<Seq<char>>, input: Seq<char>) -> Seq<Seq<char>> {
    at_most(h.filter(suggested_for(input)), SUGGESTION_LIMIT as nat)
}

/// The history entries offered under the URL field while `input` is typed, filtered by
/// the input (case-insensitively), most recent first, at most `SUGGESTION_LIMIT`.
pub fn autocomplete_matches(history: &Vec<String>, input: &str) -> (r: Vec<String>)
    ensures
        texts(r@) == suggestions(texts(history@), input@),
        trimmed(input@).len() == 0 ==> texts(r@) == at_most(
            texts(history@).filter(other_than(input@)),
            SUGGESTION_LIMIT as nat,
        ),
{
    let ghost h = texts(history@);
    let q = to_lowercase(trim(input));
    assert(trimmed(input@).len() == 0 ==> suggested_for(input@) =~= other_than(input@));
    let typed = String::from_str(input);
    let mut out: Vec<String> = Vec::new();
    let mut i: usize = 0;
    while i < history.len()
        invariant
            h == texts(history@),
            q@ == lowercase_of(trimmed(input@)),
            trimmed(input@).len() == 0 ==> suggested_for(input@) == other_than(input@),
            typed@ == input@,
            i <= history.len(),
            texts(out@) == h.take(i as int).filter(suggested_for(input@)),
            out@.len() < SUGGESTION_LIMIT,
        decreases history.len() - i,
    {
        proof {
            assert(h.take(i + 1) =~= h.take(i as int).push(h[i as int]));
            lemma_filter_push(h.take(i as int), h[i as int], suggested_for(input@));
        }
        let entry = &history[i];
        let lower = to_lowercase(entry.as_str());
        let ghost prev = out@;
        if (q.as_str().is_empty() || contains(lower.as_str(), q.as_str())) && *entry != typed {
            out.push(entry.clone());
            assert(texts(out@) =~= texts(prev).push(h[i as int]));
        }
        i = i + 1;
        if out.len() == SUGGESTION_LIMIT {
            proof {
                let all = h.filter(suggested_for(input@));
                assert(h =~= h.take(i as int) + h.skip(i as int));
                Seq::filter_distributes_over_add(h.take(i as int), h.skip(i as int), suggested_for(input@));
                assert(all.take(SUGGESTION_LIMIT as int) =~= texts(out@));
            }
            return out;
        }
    }
    assert(h.take(h.len() as int) =~= h);
    out
}


/// Whether no text occurs twice in `s`.
pub open spec fn no_repeats(s: Seq<Seq<char>>) -> bool {
    forall|i: int, j: int| 0 <= i < j < s.len() ==> s[i] != s[j]
}

proof fn lemma_filter_no_repeats(s: Seq<Seq<char>>, p: spec_fn(Seq<char>) -> bool)
    requires
        no_repeats(s),
    ensures
        no_repeats(s.filter(p)),
    decreases s.len(),
{
    reveal(Seq::filter);
    if s.len() > 0 {
        let d = s.drop_last();
        assert(no_repeats(d));
        lemma_filter_no_repeats(d, p);
        if p(s.last()) {
            let f = d.filter(p);
            assert forall|i: int| 0 <= i < f.len() implies f[i] != s.last() by {
                lemma_filter_item(d, p, i);
                if f[i] == s.last() {
                    let k = choose|k: int| 0 <= k < d.len() && d[k] == f[i];
                    assert(s[k] == s[s.len() - 1]);
                }
            }
        }
    }
}

/// After sending to a URL that is not blank, the trimmed URL heads the history, occurs
/// there only once, and the history holds at most `HISTORY_LIMIT` entries.
pub proof fn law_sent_url_heads_history(h: Seq<Seq<char>>, url: Seq<char>)
    requires
        trimmed(url).len() > 0,
    ensures
        recorded_history(h, url).len() >= 1,
        recorded_history(h, url).len() <= HISTORY_LIMIT,
        recorded_history(h, url)[0] == trimmed(url),
        forall|i: int|
            1 <= i < recorded_history(h, url).len() ==> #[trigger] recorded_history(h, url)[i]
                != trimmed(url),
{
    let t = trimmed(url);
    let f = h.filter(other_than(t));
    let r = recorded_history(h, url);
    assert forall|i: int| 1 <= i < r.len() implies #[trigger] r[i] != t by {
        assert(r[i] == f[i - 1]);
        lemma_filter_item(h, other_than(t), i - 1);
    }
}

/// A history without repeated URLs stays without them, whatever is sent.
pub proof fn law_history_has_no_repeats(h: Seq<Seq<char>>, url: Seq<char>)
    requires
        no_repeats(h),
    ensures
        no_repeats(recorded_history(h, url)),
{
    let t = trimmed(url);
    if t.len() > 0 {
        let f = h.filter(other_than(t));
        lemma_filter_no_repeats(h, other_than(t));
        let r = recorded_history(h, url);
        let full = seq![t] + f;
        assert forall|i: int, j: int| 0 <= i < j < full.len() implies full[i] != full[j] by {
            if i == 0 {
                lemma_filter_item(h, other_than(t), j - 1);
            } else {
                assert(full[i] == f[i - 1] && full[j] == f[j - 1]);
            }
        }
        assert forall|i: int, j: int| 0 <= i < j < r.len() implies r[i] != r[j] by {
            assert(r[i] == full[i] && r[j] == full[j]);
        }
    }
}

/// Sending to the same URL twice leaves the history as sending once does.
pub proof fn law_resending_keeps_history(h: Seq<Seq<char>>, url: Seq<char>)
    ensures
        recorded_history(recorded_history(h, url), url) == recorded_history(h, url),
{
    let t = trimmed(url);
    if t.len() > 0 {
        let r = recorded_history(h, url);
        let rest = r.drop_first();
        assert(r =~= seq![t] + rest);
        assert forall|i: int| 0 <= i < rest.len() implies other_than(t)(#[trigger] rest[i]) by {
            law_sent_url_heads_history(h, url);
            assert(rest[i] == r[i + 1]);
        }
        lemma_filter_all(rest, other_than(t));
        r.lemma_filter_prepend(t, other_than(t));
        assert(r.filter(other_than(t)) =~= seq![t].filter(other_than(t)) + rest.filter(
            other_than(t),
        )) by {
            rest.lemma_filter_prepend(t, other_than(t));
        }
        assert(seq![t] + r.filter(other_than(t)) =~= r) by {
            rest.lemma_filter_prepend(t, other_than(t));
        }
    }
}

/// Every suggestion is a history entry that passes the suggestion test (so never the
/// input itself), and there are at most `SUGGESTION_LIMIT` of them.
pub proof fn law_suggestions_come_from_history(h: Seq<Seq<char>>, input: Seq<char>)
    ensures
        suggestions(h, input).len() <= SUGGESTION_LIMIT,
        forall|i: int|
            0 <= i < suggestions(h, input).len() ==> h.contains(
                #[trigger] suggestions(h, input)[i],
            ) && suggests(suggestions(h, input)[i], input),
{
    let f = h.filter(suggested_for(input));
    assert forall|i: int| 0 <= i < suggestions(h, input).len() implies h.contains(
        #[trigger] suggestions(h, input)[i],
    ) && suggests(suggestions(h, input)[i], input) by {
        assert(suggestions(h, input)[i] == f[i]);
        lemma_filter_item(h, suggested_for(input), i);
    }
}



/// Sending again to an entry as it stands in the history (the trimmed URL, as picking a
/// suggestion puts it in the URL field) leaves the history as it is.
pub proof fn law_resending_entry_keeps_history(h: Seq<Seq<char>>, url: Seq<char>)
    ensures
        recorded_history(recorded_history(h, url), trimmed(url)) == recorded_history(h, url),
{
    law_trim_is_idempotent(url);
    if trimmed(url).len() > 0 {
        law_resending_keeps_history(h, url);
    }
}


/// The suggestion test searches the whole entry: an entry other than the typed text is
/// suggested whenever the trimmed, lower-cased input occurs anywhere in its lower-cased
/// text (at its very start included), and any entry other than the typed text is
/// suggested when the trimmed input lower-cases to nothing.
pub proof fn law_match_anywhere_is_suggested(entry: Seq<char>, input: Seq<char>, at: int)
    requires
        entry != input,
        0 <= at,
        at + lowercase_of(trimmed(input)).len() <= lowercase_of(entry).len(),
        lowercase_of(entry).subrange(at, at + lowercase_of(trimmed(input)).len())
            == lowercase_of(trimmed(input)),
    ensures
        suggests(entry, input),
{
    let q = lowercase_of(trimmed(input));
    assert(lowercase_of(entry).subrange(at, at + q.len()) == q);
}

/// Only such entries are suggested: a suggested entry is not the typed text, and the
/// trimmed, lower-cased input is empty or occurs somewhere in its lower-cased text.
pub proof fn law_suggested_entries_match(entry: Seq<char>, input: Seq<char>)
    requires
        suggests(entry, input),
    ensures
        entry != input,
        lowercase_of(trimmed(input)).len() == 0 || exists|at: int|
            0 <= at && at + lowercase_of(trimmed(input)).len() <= lowercase_of(entry).len()
                && #[trigger] lowercase_of(entry).subrange(
                at,
                at + lowercase_of(trimmed(input)).len(),
            ) == lowercase_of(trimmed(input)),
{
}

/// The suggestions list the entries that pass the suggestion test, in history order,
/// up to `SUGGESTION_LIMIT`: the passing entry with `n` passing entries before it is
/// suggestion `n` whenever `n` is under the limit, and there are as many suggestions as
/// passing entries, or the limit.
pub proof fn law_suggestions_list_passing_entries(h: Seq<Seq<char>>, input: Seq<char>)
    ensures
        suggestions(h, input).len() == if count_where(h, suggested_for(input))
            > SUGGESTION_LIMIT {
            SUGGESTION_LIMIT as nat
        } else {
            count_where(h, suggested_for(input))
        },
        forall|j: int|
            0 <= j < h.len() && suggests(#[trigger] h[j], input) && count_where(
                h.take(j),
                suggested_for(input),
            ) < SUGGESTION_LIMIT ==> suggestions(h, input)[count_where(
                h.take(j),
                suggested_for(input),
            ) as int] == h[j],
{
    lemma_filter_len_count(h, suggested_for(input));
    assert forall|j: int|
        0 <= j < h.len() && suggests(#[trigger] h[j], input) && count_where(
            h.take(j),
            suggested_for(input),
        ) < SUGGESTION_LIMIT implies suggestions(h, input)[count_where(
        h.take(j),
        suggested_for(input),
    ) as int] == h[j] by {
        lemma_filter_position(h, suggested_for(input), j);
    }
}


/// Sending keeps the earlier entries other than the sent URL, in their order, behind it:
/// the entry with `n` such entries before it moves to place `n + 1` (while that is within
/// `HISTORY_LIMIT`); and every entry of the new history is the sent URL or an earlier entry.
pub proof fn law_sending_keeps_earlier_entries(h: Seq<Seq<char>>, url: Seq<char>)
    requires
        trimmed(url).len() > 0,
    ensures
        forall|j: int|
            0 <= j < h.len() && #[trigger] h[j] != trimmed(url) && count_where(
                h.take(j),
                |u: Seq<char>| u != trimmed(url),
            ) + 1 < HISTORY_LIMIT ==> recorded_history(h, url)[(count_where(
                h.take(j),
                |u: Seq<char>| u != trimmed(url),
            ) + 1) as int] == h[j],
        forall|i: int|
            0 <= i < recorded_history(h, url).len() ==> #[trigger] recorded_history(h, url)[i]
                == trimmed(url) || h.contains(recorded_history(h, url)[i]),
{
    let t = trimmed(url);
    let p = |u: Seq<char>| u != t;
    assert(other_than(t) =~= p);
    let f = h.filter(p);
    let r = recorded_history(h, url);
    assert forall|j: int|
        0 <= j < h.len() && #[trigger] h[j] != t && count_where(h.take(j), p) + 1
            < HISTORY_LIMIT implies r[(count_where(h.take(j), p) + 1) as int] == h[j] by {
        lemma_filter_position(h, p, j);
    }
    assert forall|i: int| 0 <= i < r.len() implies #[trigger] r[i] == t || h.contains(r[i]) by {
        if i > 0 {
            assert(r[i] == f[i - 1]);
            lemma_filter_item(h, p, i - 1);
        }
    }
}


/// A URL made only of white space (or nothing) leaves the history untouched; any other URL
/// is recorded.
pub proof fn law_blank_url_records_nothing(h: Seq<Seq<char>>, url: Seq<char>)
    ensures
        (forall|k: int| 0 <= k < url.len() ==> is_white_space(#[trigger] url[k]))
            ==> recorded_history(h, url) == h,
        !(forall|k: int| 0 <= k < url.len() ==> is_white_space(#[trigger] url[k]))
            ==> recorded_history(h, url)[0] == trimmed(url),
{
    law_trimmed_empty_iff_all_white_space(url);
    if trimmed(url).len() > 0 {
        law_sent_url_heads_history(h, url);
    }
}

} // verus!
