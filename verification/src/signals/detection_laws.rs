//! What the detectors see, and what they leave alone.

use crate::natural::Ratio;
use crate::signals::analyzer::Row;
use crate::signals::environment::exhaustion::{
    exhaustion_at, exhaustion_facts, exhaustion_of, ExhaustionSpans,
};
use crate::signals::execution::failure::{
    failure_facts, failure_in, failure_of, last_call, FailureSpans,
};
use crate::signals::interaction::constants::{
    has_prefix, CONFIRMATION_PREFIXES, POSITIVE_PREFIXES,
};
use crate::signals::interaction::disengagement::{
    capitals, disengagement_at, disengagement_facts, disengagement_of, letters,
    punctuation_facts, shouting_facts, AGENT_DIRECTED_PROFANITY_PATTERN_TEXTS,
    ESCALATION_PATTERN_TEXTS, NEGATIVE_STANCE_PATTERN_TEXTS, QUIT_PATTERN_TEXTS,
};
use crate::signals::interaction::messages::{first_hit, phrase_hit, Tagged, Thresholds};
use crate::signals::interaction::misalignment::{
    last_human, meaningful, misalignment_at, misalignment_facts, misalignment_of,
    CLARIFICATION_PATTERN_TEXTS, CORRECTION_PATTERN_TEXTS, REPHRASE_PATTERN_TEXTS,
};
use crate::signals::interaction::satisfaction::{
    satisfaction_at, satisfaction_facts, CONFIRMATION_PATTERN_TEXTS, GRATITUDE_PATTERN_TEXTS,
    SUCCESS_PATTERN_TEXTS,
};
use crate::signals::interaction::stagnation::{
    efficiency, metrics_of, of_role, repetition_after, repetition_at, repetition_of,
};
use crate::signals::quality::type_count;
use crate::signals::schemas::{SignalFacts, SignalType};
use crate::signals::text_processing::{
    has_phrase, jaccard_similarity, pattern_matches, pattern_text, pattern_texts, shared,
    MessageText, PatternText,
};
use vstd::prelude::*;

verus! {

// ---------------------------------------------------------------------------
// Phrases
// ---------------------------------------------------------------------------

/// Whether a message says a phrase: its words stand in a row in the message.
pub open spec fn says(m: MessageText, phrase: Seq<char>) -> bool {
    pattern_text(phrase).tokens.len() > 0 && has_phrase(m.tokens, pattern_text(phrase).tokens)
}

/// Whether a message says one of the phrases.
pub open spec fn says_any(m: MessageText, phrases: Seq<&'static str>) -> bool {
    exists|i: int| 0 <= i < phrases.len() && says(m, (#[trigger] phrases[i])@)
}

proof fn lemma_first_hit(m: MessageText, table: Seq<PatternText>, t: Thresholds, i: int)
    requires
        0 <= i,
    ensures
        match first_hit(m, table, t, i) {
            Some(p) => exists|k: int|
                i <= k < table.len() && p == #[trigger] table[k] && pattern_matches(
                    m,
                    table[k],
                    t.char_ngram,
                    t.token_cosine,
                ),
            None => forall|k: int|
                i <= k < table.len() ==> !pattern_matches(
                    m,
                    #[trigger] table[k],
                    t.char_ngram,
                    t.token_cosine,
                ),
        },
    decreases table.len() - i,
{
    if i < table.len() {
        lemma_first_hit(m, table, t, i + 1);
    }
}

/// A message that says a phrase hits it, whatever the thresholds are.
pub proof fn said_phrase_is_hit(m: MessageText, phrases: Seq<&'static str>, t: Thresholds)
    requires
        says_any(m, phrases),
    ensures
        phrase_hit(m, phrases, t) is Some,
{
    let i = choose|i: int| 0 <= i < phrases.len() && says(m, (#[trigger] phrases[i])@);
    let table = pattern_texts(phrases);
    lemma_first_hit(m, table, t, 0);
    assert(table[i] == pattern_text(phrases[i]@));
}

/// What is hit is one of the phrases.
pub proof fn hit_is_a_phrase(m: MessageText, phrases: Seq<&'static str>, t: Thresholds)
    requires
        phrase_hit(m, phrases, t) is Some,
    ensures
        exists|i: int|
            0 <= i < phrases.len() && phrase_hit(m, phrases, t)->0 == pattern_text(
                (#[trigger] phrases[i])@,
            ) && pattern_matches(
                m,
                pattern_text(phrases[i]@),
                t.char_ngram,
                t.token_cosine,
            ),
{
    let table = pattern_texts(phrases);
    lemma_first_hit(m, table, t, 0);
    let k = choose|k: int|
        0 <= k < table.len() && phrase_hit(m, phrases, t)->0 == #[trigger] table[k]
            && pattern_matches(m, table[k], t.char_ngram, t.token_cosine);
    assert(table[k] == pattern_text(phrases[k]@));
}

// ---------------------------------------------------------------------------
// Misalignment
// ---------------------------------------------------------------------------

/// A user who corrects the assistant shows misalignment at that message: one
/// signal, of a correction, whatever else the message says.
pub proof fn correction_is_misalignment(ms: Seq<Tagged>, i: int, t: Thresholds)
    requires
        0 <= i < ms.len(),
        ms[i].role == "human"@,
        says_any(ms[i].text, CORRECTION_PATTERN_TEXTS@),
    ensures
        misalignment_at(ms, i, t).len() == 1,
        misalignment_at(ms, i, t)[0].signal_type == SignalType::MisalignmentCorrection,
        misalignment_at(ms, i, t)[0].message_index == ms[i].index,
{
    said_phrase_is_hit(ms[i].text, CORRECTION_PATTERN_TEXTS@, t);
}

/// A user who says so rephrases, and one who asks for it gets a clarification;
/// what is said before counts first.
pub proof fn misalignment_goes_by_the_phrase(m: Tagged, prev: Option<Tagged>, t: Thresholds)
    ensures
        ({
            let corrects = phrase_hit(m.text, CORRECTION_PATTERN_TEXTS@, t) is Some;
            let rephrases_it = phrase_hit(m.text, REPHRASE_PATTERN_TEXTS@, t) is Some;
            let asks = phrase_hit(m.text, CLARIFICATION_PATTERN_TEXTS@, t) is Some;
            let f = misalignment_of(m, prev, t);
            &&& corrects || rephrases_it || asks ==> f is Some
            &&& f is Some ==> f->0.message_index == m.index
            &&& corrects ==> f->0.signal_type == SignalType::MisalignmentCorrection
            &&& !corrects && rephrases_it ==> f->0.signal_type == SignalType::MisalignmentRephrase
            &&& !corrects && !rephrases_it && asks ==> f->0.signal_type
                == SignalType::MisalignmentClarification
            &&& f is Some && !corrects && !rephrases_it && !asks ==> prev is Some && m.index
                <= prev->0.index + 3 && f->0.signal_type == SignalType::MisalignmentRephrase
        }),
{
}

/// A message that says nothing of the kind still rephrases the previous one
/// of the user, if that is at most three messages back: both have four
/// meaningful words or more, at most half of its own are new, and three
/// quarters or more of the fewer are shared.
pub proof fn similar_messages_are_rephrases(m: Tagged, prev: Tagged, t: Thresholds)
    requires
        phrase_hit(m.text, CORRECTION_PATTERN_TEXTS@, t) is None,
        phrase_hit(m.text, REPHRASE_PATTERN_TEXTS@, t) is None,
        phrase_hit(m.text, CLARIFICATION_PATTERN_TEXTS@, t) is None,
        meaningful(m.text.tokens).len() <= u64::MAX,
        meaningful(prev.text.tokens).len() <= u64::MAX,
    ensures
        ({
            let own = meaningful(m.text.tokens);
            let before = meaningful(prev.text.tokens);
            let common = shared(own, before);
            let fewer = if own.len() <= before.len() { own.len() } else { before.len() };
            (misalignment_of(m, Some(prev), t) is Some) == (m.index <= prev.index + 3
                && m.text.tokens.len() >= 3 && prev.text.tokens.len() >= 3 && own.len() >= 4
                && before.len() >= 4 && !has_prefix(m.text.raw, CONFIRMATION_PREFIXES@) && 2 * (
            own.len() - common) <= own.len() && 4 * common >= 3 * fewer)
        }),
        misalignment_of(m, None, t) is None,
{
    let own = meaningful(m.text.tokens);
    let before = meaningful(prev.text.tokens);
    let common = shared(own, before) as int;
    let fewer = if own.len() <= before.len() { own.len() as int } else { before.len() as int };
    crate::signals::text_processing::lemma_shared_bound(own, before);
    let n = own.len() as int;
    assert(50 * n >= (n - common) * 100 <==> 2 * (n - common) <= n) by (nonlinear_arith);
    assert(common * 100 >= 75 * fewer <==> 4 * common >= 3 * fewer) by (nonlinear_arith);
}

/// Only users show misalignment, each message at most once; a message shows
/// what it shows after the last message of a user before it.
pub proof fn only_users_are_misaligned(ms: Seq<Tagged>, i: int, t: Thresholds)
    requires
        0 <= i < ms.len(),
    ensures
        ms[i].role != "human"@ ==> misalignment_at(ms, i, t).len() == 0,
        misalignment_at(ms, i, t).len() <= 1,
        misalignment_facts(ms, i + 1, t).len() == misalignment_facts(ms, i, t).len()
            + misalignment_at(ms, i, t).len(),
        forall|k: int|
            0 <= k < misalignment_facts(ms, i, t).len() ==> #[trigger] misalignment_facts(
                ms,
                i + 1,
                t,
            )[k] == misalignment_facts(ms, i, t)[k],
        misalignment_facts(ms, 0, t).len() == 0,
        ms[i].role == "human"@ ==> last_human(ms.take(i + 1)) == Some(ms[i]),
        ms[i].role != "human"@ ==> last_human(ms.take(i + 1)) == last_human(ms.take(i)),
{
    assert(ms.take(i + 1).last() == ms[i]);
    assert(ms.take(i + 1).drop_last() =~= ms.take(i));
}

// ---------------------------------------------------------------------------
// Satisfaction
// ---------------------------------------------------------------------------

/// A user who says thanks, confirms or speaks of success is satisfied: one
/// signal at that message, of the first of these; nobody else is.
pub proof fn praise_is_satisfaction(m: Tagged, t: Thresholds)
    ensures
        ({
            let thanks = phrase_hit(m.text, GRATITUDE_PATTERN_TEXTS@, t) is Some;
            let confirms = phrase_hit(m.text, CONFIRMATION_PATTERN_TEXTS@, t) is Some;
            let succeeds = phrase_hit(m.text, SUCCESS_PATTERN_TEXTS@, t) is Some;
            let f = satisfaction_at(m, t);
            &&& f.len() == (if m.role == "human"@ && (thanks || confirms || succeeds) {
                1nat
            } else {
                0
            })
            &&& f.len() == 1 ==> f[0].message_index == m.index
            &&& f.len() == 1 && thanks ==> f[0].signal_type == SignalType::SatisfactionGratitude
            &&& f.len() == 1 && !thanks && confirms ==> f[0].signal_type
                == SignalType::SatisfactionConfirmation
            &&& f.len() == 1 && !thanks && !confirms ==> f[0].signal_type
                == SignalType::SatisfactionSuccess
        }),
{
}

/// The signals of a conversation are those of its messages, in order.
pub proof fn satisfaction_adds_up(ms: Seq<Tagged>, i: int, t: Thresholds)
    requires
        0 <= i < ms.len(),
    ensures
        satisfaction_facts(ms, i + 1, t).len() == satisfaction_facts(ms, i, t).len()
            + satisfaction_at(ms[i], t).len(),
        satisfaction_facts(ms, 0, t).len() == 0,
        disengagement_facts(ms, i + 1, t).len() == disengagement_facts(ms, i, t).len()
            + disengagement_at(ms[i], t).len(),
        disengagement_facts(ms, 0, t).len() == 0,
{
}

// ---------------------------------------------------------------------------
// Disengagement
// ---------------------------------------------------------------------------

proof fn lemma_type_count_concat(a: Seq<SignalFacts>, b: Seq<SignalFacts>, ty: SignalType)
    ensures
        type_count(a + b, ty) == type_count(a, ty) + type_count(b, ty),
    decreases b.len(),
{
    if b.len() == 0 {
        assert(a + b =~= a);
    } else {
        lemma_type_count_concat(a, b.drop_last(), ty);
        assert((a + b).drop_last() =~= a + b.drop_last());
        assert((a + b).last() == b.last());
    }
}

proof fn lemma_type_count_one(f: SignalFacts, ty: SignalType)
    ensures
        type_count(seq![f], ty) == (if f.signal_type == ty { 1nat } else { 0 }),
        type_count(Seq::<SignalFacts>::empty(), ty) == 0,
{
    assert(seq![f].drop_last() =~= Seq::<SignalFacts>::empty());
    assert(type_count(seq![f].drop_last(), ty) == 0);
}

/// A user who asks for someone else always shows it, and so does one who
/// quits, whatever else they say; nobody but users does.
pub proof fn escalation_and_quitting_are_seen(m: Tagged, t: Thresholds)
    ensures
        m.role != "human"@ ==> disengagement_at(m, t).len() == 0,
        m.role == "human"@ ==> type_count(
            disengagement_at(m, t),
            SignalType::DisengagementEscalation,
        ) == (if phrase_hit(m.text, ESCALATION_PATTERN_TEXTS@, t) is Some {
            1nat
        } else {
            0
        }),
        m.role == "human"@ ==> type_count(disengagement_at(m, t), SignalType::DisengagementQuit)
            == (if phrase_hit(m.text, QUIT_PATTERN_TEXTS@, t) is Some {
            1nat
        } else {
            0
        }),
{
    lemma_disengagement_counts(m, t, SignalType::DisengagementEscalation);
    lemma_disengagement_counts(m, t, SignalType::DisengagementQuit);
}

proof fn lemma_disengagement_counts(m: Tagged, t: Thresholds, ty: SignalType)
    requires
        ty != SignalType::DisengagementNegativeStance,
    ensures
        type_count(disengagement_of(m, t), ty) == (if ty == SignalType::DisengagementEscalation
            && phrase_hit(m.text, ESCALATION_PATTERN_TEXTS@, t) is Some {
            1nat
        } else {
            0
        }) + (if ty == SignalType::DisengagementQuit && phrase_hit(m.text, QUIT_PATTERN_TEXTS@, t) is Some {
            1nat
        } else {
            0
        }),
{
    let e = phrase_hit(m.text, ESCALATION_PATTERN_TEXTS@, t);
    let q = phrase_hit(m.text, QUIT_PATTERN_TEXTS@, t);
    let p = phrase_hit(m.text, AGENT_DIRECTED_PROFANITY_PATTERN_TEXTS@, t);
    let c = if e is None && p is None {
        phrase_hit(m.text, NEGATIVE_STANCE_PATTERN_TEXTS@, t)
    } else {
        None
    };
    let a1 = crate::signals::interaction::messages::phrase_facts(
        e,
        SignalType::DisengagementEscalation,
        m.index,
        "escalation"@,
    );
    let a2 = crate::signals::interaction::messages::phrase_facts(
        q,
        SignalType::DisengagementQuit,
        m.index,
        "quit"@,
    );
    let a3 = crate::signals::interaction::disengagement::phrase_stance_facts(m.index, p, true);
    let a4 = crate::signals::interaction::disengagement::phrase_stance_facts(m.index, c, false);
    let s = shouting_facts(m.index, m.text.raw);
    let u = punctuation_facts(
        m.index,
        m.text.raw,
        has_prefix(m.text.raw, POSITIVE_PREFIXES@),
        crate::signals::patterns::regex_count("\\?{2,}"@, m.text.raw),
        crate::signals::patterns::regex_count("!{2,}"@, m.text.raw),
        crate::signals::patterns::regex_count("[?!]{3,}"@, m.text.raw),
    );
    lemma_type_count_concat(a1, a2, ty);
    lemma_type_count_concat(a1 + a2, a3, ty);
    lemma_type_count_concat(a1 + a2 + a3, a4, ty);
    lemma_type_count_concat(s, u, ty);
    lemma_type_count_concat(s + u, a1 + a2 + a3 + a4, ty);
    if a1.len() > 0 {
        lemma_type_count_one(a1[0], ty);
        assert(a1 =~= seq![a1[0]]);
    }
    if a2.len() > 0 {
        lemma_type_count_one(a2[0], ty);
        assert(a2 =~= seq![a2[0]]);
    }
    if a3.len() > 0 {
        lemma_type_count_one(a3[0], ty);
        assert(a3 =~= seq![a3[0]]);
    }
    if a4.len() > 0 {
        lemma_type_count_one(a4[0], ty);
        assert(a4 =~= seq![a4[0]]);
    }
    if s.len() > 0 {
        lemma_type_count_one(s[0], ty);
        assert(s =~= seq![s[0]]);
    }
    if u.len() > 0 {
        lemma_type_count_one(u[0], ty);
        assert(u =~= seq![u[0]]);
    }
}

/// Ten letters or more of which four fifths or more are capitals are a shout,
/// and nothing else is.
pub proof fn capitals_are_a_shout(index: nat, raw: Seq<char>)
    requires
        letters(raw) <= u64::MAX,
        capitals(raw) <= u64::MAX,
    ensures
        shouting_facts(index, raw).len() == (if letters(raw) >= 10 && 5 * capitals(raw) >= 4
            * letters(raw) {
            1nat
        } else {
            0
        }),
        shouting_facts(index, raw).len() == 1 ==> shouting_facts(index, raw)[0].signal_type
            == SignalType::DisengagementNegativeStance && shouting_facts(
            index,
            raw,
        )[0].message_index == index,
{
    let c = capitals(raw) as int;
    let l = letters(raw) as int;
    assert(c * 100 >= 80 * l <==> 5 * c >= 4 * l) by (nonlinear_arith);
}

/// Runs of question or exclamation marks are held against a message once,
/// unless it opens in a friendly way.
pub proof fn runs_of_marks_count_once(
    index: nat,
    raw: Seq<char>,
    friendly: bool,
    questions: nat,
    exclamations: nat,
    mixed: nat,
)
    ensures
        punctuation_facts(index, raw, friendly, questions, exclamations, mixed).len() == (if !friendly
            && questions + exclamations + mixed > 0 {
            1nat
        } else {
            0
        }),
{
}

// ---------------------------------------------------------------------------
// Stagnation
// ---------------------------------------------------------------------------

/// A conversation is fully efficient up to its baseline of turns, and each
/// turn beyond lowers that; it drags from the fifth such turn on, where less
/// than half is left.
pub proof fn long_conversations_drag(user: nat, assistant: nat, baseline: nat)
    requires
        user <= usize::MAX,
        assistant <= usize::MAX,
    ensures
        ({
            let m = metrics_of(user, assistant, baseline, Ratio { num: 50, den: 100 });
            let e = efficiency(user, baseline);
            &&& m.is_dragging == (user > baseline + 4)
            &&& m.user_turns == user
            &&& m.assistant_turns == assistant
            &&& m.total_turns == user
            &&& m.efficiency_score == e
            &&& user <= baseline ==> e.num == e.den
            &&& user > baseline ==> e.num * (4 + user - baseline) == 4 * e.den
            &&& 0 < e.num <= e.den
        }),
{
    let e = efficiency(user, baseline);
    if user > baseline {
        let d = 4 + (user - baseline);
        assert(d <= 0xffff_ffff_ffff_ffff + 4);
        assert(e.den == d);
        assert(e.num * 100 >= 50 * e.den <==> d <= 8);
        assert(e.num * (4 + user - baseline) == 4 * e.den);
    } else {
        assert(e.num * 100 >= 50 * e.den);
    }
}

/// A message of at least five words repeats an earlier one of as many, of
/// the same role and among its last two, where their parts overlap by at
/// least 85 percent, and exactly from 95 percent on.
pub proof fn overlapping_messages_are_repetitions(m: Tagged, p: Tagged, t: Thresholds)
    requires
        m.role == "gpt"@,
        jaccard_similarity(m.text.char_ngram_set, p.text.char_ngram_set).den > 0,
    ensures
        ({
            let s = jaccard_similarity(m.text.char_ngram_set, p.text.char_ngram_set);
            let r = repetition_after(
                m,
                seq![p],
                2,
                Ratio { num: 95, den: 100 },
                Ratio { num: 85, den: 100 },
            );
            &&& r.len() == (if m.text.tokens.len() >= 5 && p.text.tokens.len() >= 5 && 20 * s.num
                >= 17 * s.den {
                1nat
            } else {
                0
            })
            &&& r.len() == 1 ==> r[0].signal_type == SignalType::StagnationRepetition
                && r[0].message_index == m.index && r[0].confidence == s
        }),
{
    reveal_strlit("gpt");
    reveal_strlit("human");
    assert("gpt"@.len() != "human"@.len());
    let s = jaccard_similarity(m.text.char_ngram_set, p.text.char_ngram_set);
    let a = s.num as int;
    let b = s.den as int;
    assert(a * 100 >= 85 * b <==> 20 * a >= 17 * b) by (nonlinear_arith);
    assert(a * 100 >= 95 * b ==> a * 100 >= 85 * b) by (nonlinear_arith)
        requires
            b >= 0,
    ;
    let earlier = seq![p];
    let exact = Ratio { num: 95, den: 100 };
    let near = Ratio { num: 85, den: 100 };
    assert(repetition_of(m, earlier, exact, near, 1) is None);
    assert(earlier[0] == p);
}

/// Messages are compared with those of their own role before them, and with
/// the last two of these alone.
pub proof fn repetition_looks_back_two_messages(
    ms: Seq<Tagged>,
    m: Tagged,
    older: Seq<Tagged>,
    a: Tagged,
    b: Tagged,
    exact: Ratio,
    near: Ratio,
)
    ensures
        repetition_after(m, older.push(a).push(b), 2, exact, near) == repetition_after(
            m,
            seq![a, b],
            2,
            exact,
            near,
        ),
        m.role == a.role ==> of_role(ms.push(a), m.role) == of_role(ms, m.role).push(a),
        m.role != a.role ==> of_role(ms.push(a), m.role) == of_role(ms, m.role),
        repetition_at(ms.push(m), ms.len() as int, 2, exact, near) == repetition_after(
            m,
            of_role(ms, m.role),
            2,
            exact,
            near,
        ),
{
    let all = older.push(a).push(b);
    if all.len() > 2 {
        assert(all.skip(all.len() - 2) =~= seq![a, b]);
    } else {
        assert(all =~= seq![a, b]);
    }
    assert(ms.push(a).drop_last() =~= ms);
    assert(ms.push(m).take(ms.len() as int) =~= ms);
}

// ---------------------------------------------------------------------------
// Failures
// ---------------------------------------------------------------------------

/// Only observations report failures, each at most one, at its own place.
pub proof fn only_observations_fail(row: Row, index: nat, call: Option<(nat, Seq<char>)>)
    ensures
        row.from != "observation"@ ==> failure_in(row, index, call).len() == 0,
        failure_in(row, index, call).len() <= 1,
        failure_in(row, index, call).len() == 1 ==> failure_in(row, index, call)[0].message_index
            == index,
        row.from != "observation"@ ==> exhaustion_at(row, index).len() == 0,
        exhaustion_at(row, index).len() <= 1,
        exhaustion_at(row, index).len() == 1 ==> exhaustion_at(row, index)[0].message_index
            == index,
{
}

/// An observation that speaks of a failure reports it: wrong arguments, else
/// an unknown tool, else missing rights, else a wrong state, else a bad query.
pub proof fn failure_is_of_the_first_kind(
    value: Seq<char>,
    index: nat,
    call_index: nat,
    tool: Seq<char>,
    m: FailureSpans,
)
    ensures
        ({
            let f = failure_of(value, index, call_index, tool, m);
            &&& (f is Some) == (m.invalid_args is Some || m.tool_not_found is Some || m.auth_misuse is Some
                || m.state_error is Some || m.bad_query is Some)
            &&& m.invalid_args is Some ==> f->0.signal_type
                == SignalType::ExecutionFailureInvalidArgs
            &&& m.invalid_args is None && m.tool_not_found is Some ==> f->0.signal_type
                == SignalType::ExecutionFailureToolNotFound
            &&& m.invalid_args is None && m.tool_not_found is None && m.auth_misuse is Some
                ==> f->0.signal_type == SignalType::ExecutionFailureAuthMisuse
            &&& m.invalid_args is None && m.tool_not_found is None && m.auth_misuse is None
                && m.state_error is Some ==> f->0.signal_type
                == SignalType::ExecutionFailureStateError
            &&& m.invalid_args is None && m.tool_not_found is None && m.auth_misuse is None
                && m.state_error is None && m.bad_query is Some ==> f->0.signal_type
                == SignalType::ExecutionFailureBadQuery
        }),
{
}

/// A failure is that of the last call before it.
pub proof fn failure_belongs_to_the_last_call(conversation: Seq<Row>, row: Row, base: nat)
    ensures
        row.from == "function_call"@ ==> last_call(conversation.push(row), base) is Some
            && (last_call(conversation.push(row), base)->0).0 == base + conversation.len(),
        row.from != "function_call"@ ==> last_call(conversation.push(row), base) == last_call(
            conversation,
            base,
        ),
        last_call(Seq::empty(), base) is None,
        failure_facts(conversation.push(row), base, conversation.len() as int + 1).len()
            == failure_facts(conversation.push(row), base, conversation.len() as int).len()
            + failure_in(
            row,
            base + conversation.len(),
            last_call(conversation, base),
        ).len(),
        exhaustion_facts(conversation.push(row), base, conversation.len() as int + 1).len()
            == exhaustion_facts(conversation.push(row), base, conversation.len() as int).len()
            + exhaustion_at(row, base + conversation.len()).len(),
{
    assert(conversation.push(row).drop_last() =~= conversation);
    assert(conversation.push(row).take(conversation.len() as int) =~= conversation);
}

/// An observation that speaks of a limit of the environment reports it: of a
/// rate, else of an API, else of time, else of the network, else of a reply
/// that cannot be read, else of the context.
pub proof fn exhaustion_is_of_the_first_kind(value: Seq<char>, index: nat, m: ExhaustionSpans)
    ensures
        ({
            let f = exhaustion_of(value, index, m);
            &&& (f is Some) == (m.rate_limit is Some || m.api_error is Some || m.timeout is Some
                || m.network is Some || m.malformed is Some || m.context_overflow is Some)
            &&& m.rate_limit is Some ==> f->0.signal_type
                == SignalType::EnvironmentExhaustionRateLimit
            &&& m.rate_limit is None && m.api_error is Some ==> f->0.signal_type
                == SignalType::EnvironmentExhaustionApiError
            &&& m.rate_limit is None && m.api_error is None && m.timeout is Some
                ==> f->0.signal_type == SignalType::EnvironmentExhaustionTimeout
            &&& m.rate_limit is None && m.api_error is None && m.timeout is None && m.network is Some
                ==> f->0.signal_type == SignalType::EnvironmentExhaustionNetwork
            &&& m.rate_limit is None && m.api_error is None && m.timeout is None && m.network is None
                && m.malformed is Some ==> f->0.signal_type
                == SignalType::EnvironmentExhaustionMalformed
            &&& m.rate_limit is None && m.api_error is None && m.timeout is None && m.network is None
                && m.malformed is None && m.context_overflow is Some ==> f->0.signal_type
                == SignalType::EnvironmentExhaustionContextOverflow
        }),
{
}

} // verus!
