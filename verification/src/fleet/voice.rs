//! The autonomous colloquium voice of the oracle: which inbox messages it
//! answers, and whether (and how) a generated answer is posted. An answer
//! that commits its author to act is held back.

use vstd::prelude::*;
use crate::astrolabe::scan::{ci_at, ci_text_at, class_pred, is_word, run_len, run_of, word_char, Class};
use crate::fleet::colloquium::{phrase_at, phrase_somewhere, says};
use crate::text::{contains_spec, contains_str, lowercase_spec, str_eq, to_chars, to_lowercase};

verus! {

/// Whether the voice of `agent` answers a message from `from` in thread
/// `thread_id` with subject `subject`: not its own, in a thread, and a
/// colloquium (the subject, lower-cased, holds `colloquium`).
pub fn voice_should_answer(agent: &str, from: &str, thread_id: &str, subject: &str) -> (b: bool)
    ensures
        b == (from@ != agent@ && thread_id@.len() > 0 && contains_spec(lowercase_spec(subject@), "colloquium"@)),
{
    if str_eq(from, agent) || thread_id.is_empty() {
        return false;
    }
    let lower = to_lowercase(subject);
    contains_str(lower.as_str(), "colloquium")
}

/// Phrases that commit the speaker, matched as whole words, case ignored.
pub open spec fn voice_phrases() -> Seq<Seq<char>> {
    seq![
        "i will"@,
        "i commit"@,
        "i volunteer"@,
        "let me handle"@,
        "let me build"@,
        "let me deploy"@,
        "let me implement"@,
        "let me fix"@,
        "let me create"@,
    ]
}

/// Words that, after `I'll` and white space, make it no commitment.
pub open spec fn hedge_words() -> Seq<Seq<char>> {
    seq!["note"@, "observe"@, "watch"@, "consider"@, "think"@, "flag"@, "keep"@, "check"@, "look"@]
}

/// Position `j` of `s` starts white space followed by a hedge word.
pub open spec fn hedged_after(s: Seq<char>, j: int) -> bool {
    let w = run_of(s, j, class_pred(Class::Space));
    w > 0 && exists|k: int| 0 <= k < hedge_words().len() && #[trigger] ci_text_at(s, hedge_words()[k], j + w)
}

/// Whether a generated answer commits its author to act: one of
/// `voice_phrases` as whole words, or `I'll` as a whole word not followed
/// by white space and a hedge word (`I'll note`, `I'll check`, ...).
pub open spec fn voice_commitment(s: Seq<char>) -> bool {
    ||| exists|k: int, i: int| 0 <= k < voice_phrases().len() && #[trigger] phrase_at(s, voice_phrases()[k], i)
    ||| exists|i: int| #[trigger] phrase_at(s, "i'll"@, i) && !hedged_after(s, i + 4)
}

/// Position `j` of `s` starts white space followed by one of `note`,
/// `observe`, `watch`, `consider`, `think`, `flag`, `keep`, `check`, `look`
/// (case ignored).
pub open spec fn hedge_follows(s: Seq<char>, j: int) -> bool {
    let w = run_of(s, j, class_pred(Class::Space));
    w > 0 && (
        ci_text_at(s, "note"@, j + w)
        || ci_text_at(s, "observe"@, j + w)
        || ci_text_at(s, "watch"@, j + w)
        || ci_text_at(s, "consider"@, j + w)
        || ci_text_at(s, "think"@, j + w)
        || ci_text_at(s, "flag"@, j + w)
        || ci_text_at(s, "keep"@, j + w)
        || ci_text_at(s, "check"@, j + w)
        || ci_text_at(s, "look"@, j + w))
}

proof fn lemma_hedged_after(s: Seq<char>, j: int)
    ensures
        hedged_after(s, j) <==> hedge_follows(s, j),
{
    let w = run_of(s, j, class_pred(Class::Space));
    if w > 0 {
        if ci_text_at(s, "note"@, j + w) {
            assert(hedge_words()[0] == "note"@);
            assert(ci_text_at(s, hedge_words()[0], j + w));
        }
        if ci_text_at(s, "observe"@, j + w) {
            assert(hedge_words()[1] == "observe"@);
            assert(ci_text_at(s, hedge_words()[1], j + w));
        }
        if ci_text_at(s, "watch"@, j + w) {
            assert(hedge_words()[2] == "watch"@);
            assert(ci_text_at(s, hedge_words()[2], j + w));
        }
        if ci_text_at(s, "consider"@, j + w) {
            assert(hedge_words()[3] == "consider"@);
            assert(ci_text_at(s, hedge_words()[3], j + w));
        }
        if ci_text_at(s, "think"@, j + w) {
            assert(hedge_words()[4] == "think"@);
            assert(ci_text_at(s, hedge_words()[4], j + w));
        }
        if ci_text_at(s, "flag"@, j + w) {
            assert(hedge_words()[5] == "flag"@);
            assert(ci_text_at(s, hedge_words()[5], j + w));
        }
        if ci_text_at(s, "keep"@, j + w) {
            assert(hedge_words()[6] == "keep"@);
            assert(ci_text_at(s, hedge_words()[6], j + w));
        }
        if ci_text_at(s, "check"@, j + w) {
            assert(hedge_words()[7] == "check"@);
            assert(ci_text_at(s, hedge_words()[7], j + w));
        }
        if ci_text_at(s, "look"@, j + w) {
            assert(hedge_words()[8] == "look"@);
            assert(ci_text_at(s, hedge_words()[8], j + w));
        }
        if hedged_after(s, j) {
            let k = choose|k: int| 0 <= k < hedge_words().len() && #[trigger] ci_text_at(s, hedge_words()[k], j + w);
            assert(0 <= k < 9);
        }
    }
}

/// A generated answer is a commitment exactly when it says, as whole words
/// and in any case, "I will", "I commit", "I volunteer", or "let me" with
/// handle, build, deploy, implement, fix or create; or "I'll" not followed
/// by white space and one of note, observe, watch, consider, think, flag,
/// keep, check, look.
pub proof fn lemma_voice_commitment(s: Seq<char>)
    ensures
        voice_commitment(s) <==> (says(s, "i will"@) || says(s, "i commit"@) || says(s, "i volunteer"@) || says(s, "let me handle"@) || says(s, "let me build"@) || says(s, "let me deploy"@) || says(s, "let me implement"@) || says(s, "let me fix"@) || says(s, "let me create"@) || exists|i: int| #[trigger] phrase_at(s, "i'll"@, i) && !hedge_follows(s, i + 4)),
{
        if says(s, "i will"@) {
            let i = choose|i: int| phrase_at(s, "i will"@, i);
            assert(voice_phrases()[0] == "i will"@);
            assert(phrase_at(s, voice_phrases()[0], i));
        }
        if says(s, "i commit"@) {
            let i = choose|i: int| phrase_at(s, "i commit"@, i);
            assert(voice_phrases()[1] == "i commit"@);
            assert(phrase_at(s, voice_phrases()[1], i));
        }
        if says(s, "i volunteer"@) {
            let i = choose|i: int| phrase_at(s, "i volunteer"@, i);
            assert(voice_phrases()[2] == "i volunteer"@);
            assert(phrase_at(s, voice_phrases()[2], i));
        }
        if says(s, "let me handle"@) {
            let i = choose|i: int| phrase_at(s, "let me handle"@, i);
            assert(voice_phrases()[3] == "let me handle"@);
            assert(phrase_at(s, voice_phrases()[3], i));
        }
        if says(s, "let me build"@) {
            let i = choose|i: int| phrase_at(s, "let me build"@, i);
            assert(voice_phrases()[4] == "let me build"@);
            assert(phrase_at(s, voice_phrases()[4], i));
        }
        if says(s, "let me deploy"@) {
            let i = choose|i: int| phrase_at(s, "let me deploy"@, i);
            assert(voice_phrases()[5] == "let me deploy"@);
            assert(phrase_at(s, voice_phrases()[5], i));
        }
        if says(s, "let me implement"@) {
            let i = choose|i: int| phrase_at(s, "let me implement"@, i);
            assert(voice_phrases()[6] == "let me implement"@);
            assert(phrase_at(s, voice_phrases()[6], i));
        }
        if says(s, "let me fix"@) {
            let i = choose|i: int| phrase_at(s, "let me fix"@, i);
            assert(voice_phrases()[7] == "let me fix"@);
            assert(phrase_at(s, voice_phrases()[7], i));
        }
        if says(s, "let me create"@) {
            let i = choose|i: int| phrase_at(s, "let me create"@, i);
            assert(voice_phrases()[8] == "let me create"@);
            assert(phrase_at(s, voice_phrases()[8], i));
        }
    if voice_commitment(s) {
        if exists|k: int, i: int| 0 <= k < voice_phrases().len() && #[trigger] phrase_at(s, voice_phrases()[k], i) {
            let (k, i) = choose|k: int, i: int| 0 <= k < voice_phrases().len() && #[trigger] phrase_at(s, voice_phrases()[k], i);
            assert(phrase_at(s, voice_phrases()[k], i));
        } else {
            let i = choose|i: int| #[trigger] phrase_at(s, "i'll"@, i) && !hedged_after(s, i + 4);
            lemma_hedged_after(s, i + 4);
        }
    }
    if exists|i: int| #[trigger] phrase_at(s, "i'll"@, i) && !hedge_follows(s, i + 4) {
        let i = choose|i: int| #[trigger] phrase_at(s, "i'll"@, i) && !hedge_follows(s, i + 4);
        lemma_hedged_after(s, i + 4);
    }
}

fn hedge_at(v: &Vec<char>, j: usize) -> (b: bool)
    ensures
        b == exists|k: int| 0 <= k < hedge_words().len() && #[trigger] ci_text_at(v@, hedge_words()[k], j as int),
{
    let words = vec!["note", "observe", "watch", "consider", "think", "flag", "keep", "check", "look"];
    assert(words@.map_values(|x: &str| x@) =~= hedge_words());
    let mut k: usize = 0;
    while k < words.len()
        invariant
            k <= words@.len(),
            words@.map_values(|x: &str| x@) == hedge_words(),
            forall|t: int| 0 <= t < k ==> !#[trigger] ci_text_at(v@, hedge_words()[t], j as int),
        decreases words@.len() - k,
    {
        assert(hedge_words()[k as int] == words@[k as int]@);
        if ci_at(v, j, words[k]) {
            return true;
        }
        k = k + 1;
    }
    false
}

fn hedged_after_exec(v: &Vec<char>, j: usize) -> (b: bool)
    ensures
        b == hedged_after(v@, j as int),
{
    let w = run_len(v, j, Class::Space);
    if w == 0 {
        return false;
    }
    let n = v.len();
    assert(j + w <= n);
    hedge_at(v, j + w)
}

fn unhedged_ill(v: &Vec<char>) -> (b: bool)
    ensures
        b == exists|i: int| #[trigger] phrase_at(v@, "i'll"@, i) && !hedged_after(v@, i + 4),
{
    proof {
        reveal_strlit("i'll");
    }
    let n = v.len();
    let mut i: usize = 0;
    while i < n
        invariant
            n == v@.len(),
            i <= n,
            "i'll"@.len() == 4,
            forall|j: int| 0 <= j < i ==> !(#[trigger] phrase_at(v@, "i'll"@, j) && !hedged_after(v@, j + 4)),
        decreases n - i,
    {
        if 4 <= n - i && ci_at(v, i, "i'll") && (i == 0 || !word_char(v[i - 1])) && (4 == n - i || !word_char(
            v[i + 4],
        )) {
            assert(phrase_at(v@, "i'll"@, i as int));
            if !hedged_after_exec(v, i + 4) {
                return true;
            }
        }
        i = i + 1;
    }
    assert forall|j: int| !(#[trigger] phrase_at(v@, "i'll"@, j) && !hedged_after(v@, j + 4)) by {
        if phrase_at(v@, "i'll"@, j) {
            assert(0 <= j && j + 4 <= n);
        }
    }
    false
}

/// Whether a generated answer commits its author (see `voice_commitment`).
pub fn is_voice_commitment(text: &str) -> (b: bool)
    ensures
        b == voice_commitment(text@),
{
    let v = to_chars(text);
    let phrases = vec![
        "i will",
        "i commit",
        "i volunteer",
        "let me handle",
        "let me build",
        "let me deploy",
        "let me implement",
        "let me fix",
        "let me create",
    ];
    assert(phrases@.map_values(|x: &str| x@) =~= voice_phrases());
    let mut k: usize = 0;
    while k < phrases.len()
        invariant
            v@ == text@,
            k <= phrases@.len(),
            phrases@.map_values(|x: &str| x@) == voice_phrases(),
            forall|j: int, i: int| 0 <= j < k ==> !#[trigger] phrase_at(text@, voice_phrases()[j], i),
        decreases phrases@.len() - k,
    {
        assert(voice_phrases()[k as int] == phrases@[k as int]@);
        if phrase_somewhere(&v, phrases[k]) {
            let ghost i = choose|i: int| phrase_at(v@, phrases@[k as int]@, i);
            assert(phrase_at(text@, voice_phrases()[k as int], i));
            return true;
        }
        k = k + 1;
    }
    unhedged_ill(&v)
}

/// The reply the voice of `agent` (answering with `model`) posts for a
/// generated `response`: none when the response is empty, a `[PASS]`, or a
/// commitment; else the response signed with the agent and the model.
pub open spec fn voice_reply_spec(agent: Seq<char>, model: Seq<char>, response: Seq<char>) -> Option<Seq<char>> {
    if response.len() == 0 || response == "[PASS]"@ || voice_commitment(response) {
        None
    } else {
        Some(response + "\n\n--- *"@ + agent + " [autonomous voice | "@ + model + "]* ---"@)
    }
}

/// The voice posts nothing for an empty answer, a `[PASS]`, or an answer
/// that commits its author; any other answer is posted as it is, followed
/// by a blank line and the signature `--- *<agent> [autonomous voice |
/// <model>]* ---`, so the posted text starts with the answer.
pub proof fn lemma_voice_reply(agent: Seq<char>, model: Seq<char>, response: Seq<char>)
    ensures
        response.len() == 0 ==> voice_reply_spec(agent, model, response) is None,
        voice_reply_spec(agent, model, "[PASS]"@) is None,
        voice_commitment(response) ==> voice_reply_spec(agent, model, response) is None,
        response.len() > 0 && response != "[PASS]"@ && !voice_commitment(response) ==> voice_reply_spec(agent, model, response)
            == Some(response + "\n\n--- *"@ + agent + " [autonomous voice | "@ + model + "]* ---"@),
        voice_reply_spec(agent, model, response) matches Some(t) ==> t.take(response.len() as int) == response,
{
    if voice_reply_spec(agent, model, response) is Some {
        let t = response + "\n\n--- *"@ + agent + " [autonomous voice | "@ + model + "]* ---"@;
        assert(t.take(response.len() as int) =~= response);
    }
}


/// The reply to post for a generated response (see `voice_reply_spec`).
pub fn voice_reply(agent: &str, model: &str, response: &str) -> (r: Option<String>)
    ensures
        match r {
            Some(t) => voice_reply_spec(agent@, model@, response@) == Some(t@),
            None => voice_reply_spec(agent@, model@, response@) is None,
        },
{
    if response.is_empty() || str_eq(response, "[PASS]") || is_voice_commitment(response) {
        return None;
    }
    let mut t = String::from_str(response);
    t.append("\n\n--- *");
    t.append(agent);
    t.append(" [autonomous voice | ");
    t.append(model);
    t.append("]* ---");
    Some(t)
}

} // verus!
