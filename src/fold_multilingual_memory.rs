//! Folding of language-annotated event sequences: key insights, language
//! distribution, cross-language patterns and translation quality.
//!
//! Translation quality comes from an alignment service outside this crate.
//! `MultilingualMemoryFolder::translation_requests` lists what to ask it, one
//! request per adjacent pair of events whose primary languages differ; the
//! caller hands its answers back to `fold_memory`, `None` where the service
//! failed.
use crate::AgentEvent::{all_langs, is_multilingual, LanguageAwareAgentEvent};
use crate::serendipity_trace::ratio;
use crate::text::{
    contains_text, digits, index_of_text, join_texts, joined, prefix, push_digits, take_chars,
    texts,
};
use vstd::prelude::*;
use vstd::string::*;

verus! {

/// Confidence above this (0.8) makes an event a key insight.
pub const KEY_INSIGHT_THRESHOLD: u32 = 800;

/// Alignment below this (0.7) makes a translation problematic.
pub const PROBLEMATIC_BELOW: u32 = 700;

/// Characters of text kept in an insight preview.
pub const PREVIEW_CHARS: usize = 50;

/// Scores an alignment service gives a pair of texts, in thousandths.
#[derive(Debug, Clone, Copy, PartialEq, Eq, Structural)]
pub struct AlignmentResult {
    pub overall_score: u32,
    pub semantic_score: u32,
    pub structural_score: u32,
    pub cultural_score: u32,
}

/// What to hand the alignment service for one adjacent language change:
/// the earlier event's output and the later event's input, with their languages.
#[derive(Debug)]
pub struct TranslationRequest {
    pub source_text: String,
    pub target_text: String,
    pub source_language: String,
    pub target_language: String,
}

#[derive(Debug, Clone, Copy, PartialEq, Eq, Structural)]
pub enum PatternType {
    /// Adjacent events with different primary languages
    LanguageSwitch,
    /// More than two multilingual events in the sequence
    MultilingualReasoning,
}

/// A structural pattern found in the language metadata of an event sequence.
#[derive(Debug)]
pub struct CrossLanguagePattern {
    pub pattern_type: PatternType,
    pub languages: Vec<String>,
    pub description: String,
    /// In thousandths
    pub confidence: u32,
}

/// Quality of the translations between adjacent events.
#[derive(Debug)]
pub struct TranslationSummary {
    pub total_translations: usize,
    /// Mean overall alignment, in thousandths; 1000 when there is no translation
    pub average_quality: u32,
    /// Distinct `<from>-<to>` labels, in order of first use
    pub language_pairs: Vec<String>,
    pub problematic_translations: usize,
}

/// Number of events touching each language, languages in order of first use.
#[derive(Debug)]
pub struct LanguageCounts {
    pub languages: Vec<String>,
    pub counts: Vec<usize>,
}

/// Summary of a folded event sequence.
#[derive(Debug)]
pub struct MultilingualMemoryFold {
    pub trace_id: String,
    pub total_events: usize,
    pub key_insights: Vec<String>,
    pub language_distribution: LanguageCounts,
    pub cross_language_patterns: Vec<CrossLanguagePattern>,
    pub translation_summary: TranslationSummary,
    /// Share of events that are key insights, in thousandths; 0 for no events
    pub compression_ratio: u32,
    /// Mean of the events' alignment scores, in thousandths; 1000 when none has one
    pub overall_alignment: u32,
}

/// Why a fold was not produced.
#[derive(Debug)]
pub enum FoldError {
    /// The alignment service gave no answer for this language pair.
    AlignmentUnavailable { from_language: String, to_language: String },
}

/// Folds annotated event sequences.
#[derive(Debug)]
pub struct MultilingualMemoryFolder {}

pub type PatternView = (PatternType, Seq<Seq<char>>, Seq<char>, u32);

pub type RequestView = (Seq<char>, Seq<char>, Seq<char>, Seq<char>);

impl CrossLanguagePattern {
    pub open spec fn view(&self) -> PatternView {
        (self.pattern_type, texts(self.languages@), self.description@, self.confidence)
    }
}

impl TranslationRequest {
    pub open spec fn view(&self) -> RequestView {
        (self.source_text@, self.target_text@, self.source_language@, self.target_language@)
    }
}

pub open spec fn patterns_view(ps: Seq<CrossLanguagePattern>) -> Seq<PatternView> {
    ps.map_values(|p: CrossLanguagePattern| p.view())
}

pub open spec fn requests_view(rs: Seq<TranslationRequest>) -> Seq<RequestView> {
    rs.map_values(|q: TranslationRequest| q.view())
}

/// The key-insight line of an event.
pub open spec fn insight_text(e: LanguageAwareAgentEvent) -> Seq<char> {
    if is_multilingual(e) {
        "[Multilingual "@ + joined(all_langs(e), "+"@) + "] "@ + e.agent_type@ + ": "@ + prefix(
            e.input@,
            PREVIEW_CHARS as nat,
        ) + " -> "@ + prefix(e.output@, PREVIEW_CHARS as nat)
    } else {
        "["@ + e.primary_language@ + "] "@ + e.agent_type@ + ": "@ + prefix(
            e.output@,
            PREVIEW_CHARS as nat,
        )
    }
}

pub open spec fn is_key(e: LanguageAwareAgentEvent) -> bool {
    e.confidence > KEY_INSIGHT_THRESHOLD || is_multilingual(e)
}

/// Insight lines of the key events, in order.
pub open spec fn key_insights(evs: Seq<LanguageAwareAgentEvent>) -> Seq<Seq<char>>
    decreases evs.len(),
{
    if evs.len() == 0 {
        Seq::empty()
    } else if is_key(evs.last()) {
        key_insights(evs.drop_last()).push(insight_text(evs.last()))
    } else {
        key_insights(evs.drop_last())
    }
}

/// `acc` followed by the elements of `ls` that are new, in order, each once.
pub open spec fn add_new(acc: Seq<Seq<char>>, ls: Seq<Seq<char>>) -> Seq<Seq<char>>
    decreases ls.len(),
{
    if ls.len() == 0 {
        acc
    } else {
        let a = add_new(acc, ls.drop_last());
        if a.contains(ls.last()) {
            a
        } else {
            a.push(ls.last())
        }
    }
}

/// Distinct languages of `evs`, in order of first use.
pub open spec fn languages_seen(evs: Seq<LanguageAwareAgentEvent>) -> Seq<Seq<char>>
    decreases evs.len(),
{
    if evs.len() == 0 {
        Seq::empty()
    } else {
        add_new(languages_seen(evs.drop_last()), all_langs(evs.last()))
    }
}

/// Number of events of `evs` that touch language `l`.
pub open spec fn events_touching(evs: Seq<LanguageAwareAgentEvent>, l: Seq<char>) -> nat
    decreases evs.len(),
{
    if evs.len() == 0 {
        0
    } else {
        events_touching(evs.drop_last(), l) + if all_langs(evs.last()).contains(l) {
            1nat
        } else {
            0nat
        }
    }
}

pub open spec fn switch_view(a: LanguageAwareAgentEvent, b: LanguageAwareAgentEvent) -> PatternView {
    (
        PatternType::LanguageSwitch,
        seq![a.primary_language@, b.primary_language@],
        "Switch from "@ + a.primary_language@ + " to "@ + b.primary_language@,
        ((a.confidence + b.confidence) / 2) as u32,
    )
}

/// One language-switch pattern per adjacent pair with different primary languages.
pub open spec fn switch_patterns(evs: Seq<LanguageAwareAgentEvent>) -> Seq<PatternView>
    decreases evs.len(),
{
    if evs.len() < 2 {
        Seq::empty()
    } else {
        let a = evs[evs.len() - 2];
        let b = evs.last();
        if a.primary_language@ != b.primary_language@ {
            switch_patterns(evs.drop_last()).push(switch_view(a, b))
        } else {
            switch_patterns(evs.drop_last())
        }
    }
}

/// The multilingual events of `evs`, in order.
pub open spec fn multilingual_events(evs: Seq<LanguageAwareAgentEvent>) -> Seq<LanguageAwareAgentEvent>
    decreases evs.len(),
{
    if evs.len() == 0 {
        Seq::empty()
    } else if is_multilingual(evs.last()) {
        multilingual_events(evs.drop_last()).push(evs.last())
    } else {
        multilingual_events(evs.drop_last())
    }
}

pub open spec fn confidence_total(evs: Seq<LanguageAwareAgentEvent>) -> nat
    decreases evs.len(),
{
    if evs.len() == 0 {
        0
    } else {
        confidence_total(evs.drop_last()) + evs.last().confidence as nat
    }
}

pub open spec fn reasoning_view(ml: Seq<LanguageAwareAgentEvent>) -> PatternView {
    (
        PatternType::MultilingualReasoning,
        languages_seen(ml),
        digits(ml.len()) + " multilingual reasoning steps detected"@,
        (confidence_total(ml) / ml.len()) as u32,
    )
}

/// All patterns of `evs`: the switches in order, then the multilingual
/// reasoning pattern when more than two events are multilingual.
pub open spec fn expected_patterns(evs: Seq<LanguageAwareAgentEvent>) -> Seq<PatternView> {
    let ml = multilingual_events(evs);
    if ml.len() > 2 {
        switch_patterns(evs).push(reasoning_view(ml))
    } else {
        switch_patterns(evs)
    }
}

/// One request per adjacent pair with different primary languages.
pub open spec fn requests_for(evs: Seq<LanguageAwareAgentEvent>) -> Seq<RequestView>
    decreases evs.len(),
{
    if evs.len() < 2 {
        Seq::empty()
    } else {
        let a = evs[evs.len() - 2];
        let b = evs.last();
        if a.primary_language@ != b.primary_language@ {
            requests_for(evs.drop_last()).push(
                (a.output@, b.input@, a.primary_language@, b.primary_language@),
            )
        } else {
            requests_for(evs.drop_last())
        }
    }
}

pub open spec fn pair_label(q: RequestView) -> Seq<char> {
    q.2 + "-"@ + q.3
}

pub open spec fn pair_labels(reqs: Seq<RequestView>) -> Seq<Seq<char>> {
    reqs.map_values(|q: RequestView| pair_label(q))
}

/// The service's answer for request `k`; none past the end of `answers`.
pub open spec fn answer(answers: Seq<Option<AlignmentResult>>, k: int) -> Option<AlignmentResult> {
    if 0 <= k < answers.len() {
        answers[k]
    } else {
        None
    }
}

pub open spec fn all_answered(answers: Seq<Option<AlignmentResult>>, n: nat) -> bool {
    forall|k: int| 0 <= k < n ==> (#[trigger] answer(answers, k)) is Some
}

/// Sum of the overall scores of the first `n` answers.
pub open spec fn quality_total(answers: Seq<Option<AlignmentResult>>, n: nat) -> nat
    decreases n,
{
    if n == 0 {
        0
    } else {
        quality_total(answers, (n - 1) as nat) + match answer(answers, n - 1) {
            Some(a) => a.overall_score as nat,
            None => 0nat,
        }
    }
}

/// Number of the first `n` answers whose overall score is problematic.
pub open spec fn problematic_count(answers: Seq<Option<AlignmentResult>>, n: nat) -> nat
    decreases n,
{
    if n == 0 {
        0
    } else {
        problematic_count(answers, (n - 1) as nat) + match answer(answers, n - 1) {
            Some(a) => if a.overall_score < PROBLEMATIC_BELOW {
                1nat
            } else {
                0nat
            },
            None => 0nat,
        }
    }
}

/// `summary` is the translation summary of `reqs` answered by `answers`.
pub open spec fn summarizes(
    summary: TranslationSummary,
    reqs: Seq<RequestView>,
    answers: Seq<Option<AlignmentResult>>,
) -> bool {
    &&& summary.total_translations == reqs.len()
    &&& summary.average_quality == if reqs.len() == 0 {
        1000
    } else {
        quality_total(answers, reqs.len()) / reqs.len()
    }
    &&& texts(summary.language_pairs@) == add_new(Seq::empty(), pair_labels(reqs))
    &&& summary.problematic_translations == problematic_count(answers, reqs.len())
}

/// The first request without an answer is request `k`.
pub open spec fn first_unanswered(answers: Seq<Option<AlignmentResult>>, n: nat, k: int) -> bool {
    &&& 0 <= k < n
    &&& answer(answers, k) is None
    &&& all_answered(answers, k as nat)
}

/// `r` is what folding `reqs` with `answers` gives when the service fails:
/// the error names the first unanswered pair.
pub open spec fn fails_on_first_gap(
    err: FoldError,
    reqs: Seq<RequestView>,
    answers: Seq<Option<AlignmentResult>>,
) -> bool {
    match err {
        FoldError::AlignmentUnavailable { from_language, to_language } => exists|k: int|
            first_unanswered(answers, reqs.len(), k) && from_language@ == (#[trigger] reqs[k]).2
                && to_language@ == reqs[k].3,
    }
}

pub open spec fn alignment_total(evs: Seq<LanguageAwareAgentEvent>) -> (nat, nat)
    decreases evs.len(),
{
    if evs.len() == 0 {
        (0, 0)
    } else {
        let p = alignment_total(evs.drop_last());
        match evs.last().alignment_score {
            Some(v) => (p.0 + v as nat, p.1 + 1),
            None => p,
        }
    }
}

/// Mean alignment score of the events that have one; 1000 when none has.
pub open spec fn overall_alignment(evs: Seq<LanguageAwareAgentEvent>) -> nat {
    let p = alignment_total(evs);
    if p.1 == 0 {
        1000
    } else {
        p.0 / p.1
    }
}

/// `counts` holds, for each language of `evs` in order of first use, the
/// number of events that touch it.
pub open spec fn distribution_of(counts: LanguageCounts, evs: Seq<LanguageAwareAgentEvent>) -> bool {
    &&& texts(counts.languages@) == languages_seen(evs)
    &&& counts.counts.len() == counts.languages.len()
    &&& forall|i: int|
        0 <= i < counts.counts.len() ==> #[trigger] counts.counts@[i] == events_touching(
            evs,
            languages_seen(evs)[i],
        )
}

/// Appends to `acc` the strings of `ls` that it does not hold yet, in order.
fn add_new_languages(acc: &mut Vec<String>, ls: &Vec<String>)
    ensures
        texts(final(acc)@) == add_new(texts(old(acc)@), texts(ls@)),
{
    let ghost start = texts(acc@);
    let mut j: usize = 0;
    while j < ls.len()
        invariant
            j <= ls.len(),
            texts(acc@) == add_new(start, texts(ls@).take(j as int)),
        decreases ls.len() - j,
    {
        assert(texts(ls@).take(j + 1).drop_last() =~= texts(ls@).take(j as int));
        assert(texts(ls@).take(j + 1).last() == ls@[j as int]@);
        if !contains_text(acc, ls[j].as_str()) {
            let ghost before = acc@;
            acc.push(ls[j].clone());
            assert(texts(acc@) =~= texts(before).push(ls@[j as int]@));
        }
        j = j + 1;
    }
    assert(texts(ls@).take(ls.len() as int) =~= texts(ls@));
}

/// Distinct languages of `events`, in order of first use.
fn collect_languages(events: &[LanguageAwareAgentEvent]) -> (r: Vec<String>)
    ensures
        texts(r@) == languages_seen(events@),
{
    let mut acc: Vec<String> = Vec::new();
    let mut i: usize = 0;
    assert(texts(acc@) =~= Seq::<Seq<char>>::empty());
    while i < events.len()
        invariant
            i <= events.len(),
            texts(acc@) == languages_seen(events@.take(i as int)),
        decreases events.len() - i,
    {
        assert(events@.take(i + 1).drop_last() =~= events@.take(i as int));
        let ls = events[i].all_languages();
        add_new_languages(&mut acc, &ls);
        i = i + 1;
    }
    assert(events@.take(events.len() as int) =~= events@);
    acc
}

/// The key-insight line of one event.
fn insight_line(e: &LanguageAwareAgentEvent) -> (r: String)
    ensures
        r@ == insight_text(*e),
{
    if e.is_multilingual() {
        let langs = e.all_languages();
        let mut s = String::from_str("[Multilingual ");
        let j = join_texts(&langs, "+");
        s.append(j.as_str());
        s.append("] ");
        s.append(e.agent_type.as_str());
        s.append(": ");
        let input = take_chars(e.input.as_str(), PREVIEW_CHARS);
        s.append(input.as_str());
        s.append(" -> ");
        let output = take_chars(e.output.as_str(), PREVIEW_CHARS);
        s.append(output.as_str());
        s
    } else {
        let mut s = String::from_str("[");
        s.append(e.primary_language.as_str());
        s.append("] ");
        s.append(e.agent_type.as_str());
        s.append(": ");
        let output = take_chars(e.output.as_str(), PREVIEW_CHARS);
        s.append(output.as_str());
        s
    }
}

impl Default for MultilingualMemoryFolder {
    fn default() -> (r: Self)
        ensures
            r == (MultilingualMemoryFolder {}),
    {
        MultilingualMemoryFolder {}
    }
}

impl LanguageCounts {
    /// Whether some event touches `language`.
    pub fn contains_key(&self, language: &str) -> (r: bool)
        ensures
            r == texts(self.languages@).contains(language@),
    {
        contains_text(&self.languages, language)
    }

    /// Number of events touching `language`.
    pub fn get(&self, language: &str) -> (r: Option<usize>)
        ensures
            match r {
                Some(c) => exists|i: int|
                    0 <= i < self.counts.len() && texts(self.languages@)[i] == language@
                        && #[trigger] self.counts@[i] == c,
                None => !texts(self.languages@).contains(language@) || self.counts.len()
                    != self.languages.len(),
            },
    {
        match index_of_text(&self.languages, language) {
            Some(i) => {
                if i < self.counts.len() {
                    Some(self.counts[i])
                } else {
                    None
                }
            },
            None => None,
        }
    }

    /// Number of distinct languages.
    pub fn len(&self) -> (r: usize)
        ensures
            r == self.languages.len(),
    {
        self.languages.len()
    }
}

impl MultilingualMemoryFolder {
    pub fn new() -> (r: Self)
        ensures
            r == (MultilingualMemoryFolder {}),
    {
        MultilingualMemoryFolder {}
    }

    /// Lines for the events with confidence above 0.8 or more than one
    /// language, in order; texts are cut to `PREVIEW_CHARS` characters.
    pub fn extract_key_insights(&self, events: &[LanguageAwareAgentEvent]) -> (r: Vec<String>)
        ensures
            texts(r@) == key_insights(events@),
            r.len() <= events.len(),
    {
        let mut r: Vec<String> = Vec::new();
        let mut i: usize = 0;
        assert(texts(r@) =~= Seq::<Seq<char>>::empty());
        while i < events.len()
            invariant
                i <= events.len(),
                texts(r@) == key_insights(events@.take(i as int)),
                r.len() <= i,
            decreases events.len() - i,
        {
            assert(events@.take(i + 1).drop_last() =~= events@.take(i as int));
            let e = &events[i];
            if e.confidence > KEY_INSIGHT_THRESHOLD || e.is_multilingual() {
                let line = insight_line(e);
                let ghost before = r@;
                r.push(line);
                assert(texts(r@) =~= texts(before).push(line@));
            }
            i = i + 1;
        }
        assert(events@.take(events.len() as int) =~= events@);
        r
    }

    /// For each language, in order of first use, the number of events that
    /// touch it as primary or secondary language.
    pub fn compute_language_distribution(&self, events: &[LanguageAwareAgentEvent]) -> (r: LanguageCounts)
        ensures
            distribution_of(r, events@),
    {
        let languages = collect_languages(events);
        let mut counts: Vec<usize> = Vec::new();
        let mut k: usize = 0;
        while k < languages.len()
            invariant
                k <= languages.len(),
                texts(languages@) == languages_seen(events@),
                counts.len() == k,
                forall|j: int|
                    0 <= j < k ==> #[trigger] counts@[j] == events_touching(
                        events@,
                        languages_seen(events@)[j],
                    ),
            decreases languages.len() - k,
        {
            let ghost l = languages@[k as int]@;
            assert(l == languages_seen(events@)[k as int]);
            let mut c: usize = 0;
            let mut i: usize = 0;
            while i < events.len()
                invariant
                    i <= events.len(),
                    k < languages.len(),
                    l == languages@[k as int]@,
                    c == events_touching(events@.take(i as int), l),
                    c <= i,
                decreases events.len() - i,
            {
                assert(events@.take(i + 1).drop_last() =~= events@.take(i as int));
                if events[i].has_language(languages[k].as_str()) {
                    c = c + 1;
                }
                i = i + 1;
            }
            assert(events@.take(events.len() as int) =~= events@);
            counts.push(c);
            k = k + 1;
        }
        LanguageCounts { languages, counts }
    }

    /// Language switches between adjacent events, then the multilingual
    /// reasoning pattern when more than two events are multilingual.
    pub fn detect_cross_language_patterns(&self, events: &[LanguageAwareAgentEvent]) -> (r: Vec<CrossLanguagePattern>)
        ensures
            patterns_view(r@) == expected_patterns(events@),
    {
        let n = events.len();
        let mut ps: Vec<CrossLanguagePattern> = Vec::new();
        let mut i: usize = 1;
        assert(patterns_view(ps@) =~= Seq::<PatternView>::empty());
        while i < n
            invariant
                1 <= i,
                i <= n || n == 0,
                n == events.len(),
                patterns_view(ps@) == switch_patterns(events@.take(if i <= n { i as int } else { n as int })),
            decreases n - i,
        {
            assert(events@.take(i + 1).drop_last() =~= events@.take(i as int));
            let a = &events[i - 1];
            let b = &events[i];
            if a.primary_language != b.primary_language {
                let mut description = String::from_str("Switch from ");
                description.append(a.primary_language.as_str());
                description.append(" to ");
                description.append(b.primary_language.as_str());
                let languages = vec![a.primary_language.clone(), b.primary_language.clone()];
                assert(texts(languages@) =~= seq![a.primary_language@, b.primary_language@]);
                let p = CrossLanguagePattern {
                    pattern_type: PatternType::LanguageSwitch,
                    languages,
                    description,
                    confidence: ((a.confidence as u64 + b.confidence as u64) / 2) as u32,
                };
                let ghost before = ps@;
                ps.push(p);
                assert(patterns_view(ps@) =~= patterns_view(before).push(p.view()));
            }
            i = i + 1;
        }
        assert(events@.take(n as int) =~= events@);
        let mut langs: Vec<String> = Vec::new();
        let mut count: usize = 0;
        let mut confidence_sum: u128 = 0;
        let mut j: usize = 0;
        assert(texts(langs@) =~= Seq::<Seq<char>>::empty());
        while j < n
            invariant
                j <= n,
                n == events.len(),
                texts(langs@) == languages_seen(multilingual_events(events@.take(j as int))),
                count == multilingual_events(events@.take(j as int)).len(),
                confidence_sum == confidence_total(multilingual_events(events@.take(j as int))),
                count <= j,
                confidence_sum <= count * 0xFFFF_FFFFu128,
            decreases n - j,
        {
            assert(events@.take(j + 1).drop_last() =~= events@.take(j as int));
            let e = &events[j];
            if e.is_multilingual() {
                let ghost ml = multilingual_events(events@.take(j as int));
                assert(ml.push(events@[j as int]).drop_last() =~= ml);
                let ls = e.all_languages();
                add_new_languages(&mut langs, &ls);
                count = count + 1;
                confidence_sum = confidence_sum + e.confidence as u128;
            }
            j = j + 1;
        }
        if count > 2 {
            let mut description = String::new();
            push_digits(&mut description, count as u64);
            description.append(" multilingual reasoning steps detected");
            let ghost ml = multilingual_events(events@);
            assert(description@ =~= digits(ml.len()) + " multilingual reasoning steps detected"@);
            let total = count as u128;
            assert(confidence_sum / total <= 0xFFFF_FFFFu128) by (nonlinear_arith)
                requires
                    confidence_sum <= total * 0xFFFF_FFFFu128,
                    total > 0,
            ;
            let p = CrossLanguagePattern {
                pattern_type: PatternType::MultilingualReasoning,
                languages: langs,
                description,
                confidence: (confidence_sum / total) as u32,
            };
            let ghost before = ps@;
            ps.push(p);
            assert(patterns_view(ps@) =~= patterns_view(before).push(p.view()));
        }
        ps
    }

    /// The alignment requests of `events`: one per adjacent pair whose primary
    /// languages differ, with the earlier output and the later input.
    pub fn translation_requests(&self, events: &[LanguageAwareAgentEvent]) -> (r: Vec<TranslationRequest>)
        ensures
            requests_view(r@) == requests_for(events@),
    {
        let n = events.len();
        let mut rs: Vec<TranslationRequest> = Vec::new();
        let mut i: usize = 1;
        assert(requests_view(rs@) =~= Seq::<RequestView>::empty());
        while i < n
            invariant
                1 <= i,
                i <= n || n == 0,
                n == events.len(),
                requests_view(rs@) == requests_for(events@.take(if i <= n { i as int } else { n as int })),
            decreases n - i,
        {
            assert(events@.take(i + 1).drop_last() =~= events@.take(i as int));
            let a = &events[i - 1];
            let b = &events[i];
            if a.primary_language != b.primary_language {
                let q = TranslationRequest {
                    source_text: a.output.clone(),
                    target_text: b.input.clone(),
                    source_language: a.primary_language.clone(),
                    target_language: b.primary_language.clone(),
                };
                let ghost before = rs@;
                rs.push(q);
                assert(requests_view(rs@) =~= requests_view(before).push(q.view()));
            }
            i = i + 1;
        }
        assert(events@.take(n as int) =~= events@);
        rs
    }

    /// Summary of the translations between adjacent events, where `answers[k]`
    /// is the alignment service's answer to the k-th request of
    /// `translation_requests`. Fails, naming the language pair, at the first
    /// request without an answer.
    pub fn compute_translation_summary(
        &self,
        events: &[LanguageAwareAgentEvent],
        answers: &[Option<AlignmentResult>],
    ) -> (r: Result<TranslationSummary, FoldError>)
        ensures
            match r {
                Ok(s) => all_answered(answers@, requests_for(events@).len()) && summarizes(
                    s,
                    requests_for(events@),
                    answers@,
                ),
                Err(e) => !all_answered(answers@, requests_for(events@).len()) && fails_on_first_gap(
                    e,
                    requests_for(events@),
                    answers@,
                ),
            },
    {
        let reqs = self.translation_requests(events);
        let ghost rv = requests_for(events@);
        let n = reqs.len();
        assert(n == rv.len());
        let mut labels: Vec<String> = Vec::new();
        let mut sum: u128 = 0;
        let mut problematic: usize = 0;
        let mut k: usize = 0;
        assert(texts(labels@) =~= Seq::<Seq<char>>::empty());
        assert(pair_labels(rv).take(0) =~= Seq::<Seq<char>>::empty());
        while k < n
            invariant
                k <= n,
                n == reqs.len(),
                requests_view(reqs@) == rv,
                rv == requests_for(events@),
                all_answered(answers@, k as nat),
                sum == quality_total(answers@, k as nat),
                sum <= k * 0xFFFF_FFFFu128,
                problematic == problematic_count(answers@, k as nat),
                problematic <= k,
                texts(labels@) == add_new(Seq::empty(), pair_labels(rv).take(k as int)),
            decreases n - k,
        {
            let a: Option<AlignmentResult> = if k < answers.len() {
                answers[k]
            } else {
                None
            };
            assert(a == answer(answers@, k as int));
            assert(rv[k as int] == reqs@[k as int].view());
            match a {
                None => {
                    let from_language = reqs[k].source_language.clone();
                    let to_language = reqs[k].target_language.clone();
                    assert(from_language@ == rv[k as int].2);
                    assert(to_language@ == rv[k as int].3);
                    let e = FoldError::AlignmentUnavailable { from_language, to_language };
                    assert(first_unanswered(answers@, rv.len(), k as int));
                    assert(fails_on_first_gap(e, rv, answers@));
                    assert(!all_answered(answers@, rv.len())) by {
                        assert(answer(answers@, k as int) is None);
                    }
                    return Err(e);
                },
                Some(res) => {
                    sum = sum + res.overall_score as u128;
                    if res.overall_score < PROBLEMATIC_BELOW {
                        problematic = problematic + 1;
                    }
                    let mut label = reqs[k].source_language.clone();
                    label.append("-");
                    label.append(reqs[k].target_language.as_str());
                    assert(label@ == pair_label(rv[k as int]));
                    assert(pair_labels(rv).take(k + 1).drop_last() =~= pair_labels(rv).take(k as int));
                    assert(pair_labels(rv).take(k + 1).last() == label@);
                    if !contains_text(&labels, label.as_str()) {
                        let ghost before = labels@;
                        labels.push(label);
                        assert(texts(labels@) =~= texts(before).push(label@));
                    }
                    assert(all_answered(answers@, (k + 1) as nat)) by {
                        assert forall|j: int| 0 <= j < k + 1 implies (#[trigger] answer(answers@, j)) is Some by {
                            if j < k {
                                assert(answer(answers@, j) is Some);
                            }
                        }
                    }
                },
            }
            k = k + 1;
        }
        assert(pair_labels(rv).take(n as int) =~= pair_labels(rv));
        let average_quality: u32 = if n == 0 {
            1000
        } else {
            let total = n as u128;
            assert(sum / total <= 0xFFFF_FFFFu128) by (nonlinear_arith)
                requires
                    sum <= total * 0xFFFF_FFFFu128,
                    total > 0,
            ;
            (sum / total) as u32
        };
        Ok(TranslationSummary {
            total_translations: n,
            average_quality,
            language_pairs: labels,
            problematic_translations: problematic,
        })
    }

    /// Mean alignment score of the events that have one; 1000 when none has.
    pub fn calculate_overall_alignment(&self, events: &[LanguageAwareAgentEvent]) -> (r: u32)
        ensures
            r == overall_alignment(events@),
    {
        let mut sum: u128 = 0;
        let mut count: u128 = 0;
        let mut i: usize = 0;
        while i < events.len()
            invariant
                i <= events.len(),
                sum == alignment_total(events@.take(i as int)).0,
                count == alignment_total(events@.take(i as int)).1,
                count <= i,
                sum <= count * 0xFFFF_FFFFu128,
            decreases events.len() - i,
        {
            assert(events@.take(i + 1).drop_last() =~= events@.take(i as int));
            match events[i].alignment_score {
                Some(v) => {
                    sum = sum + v as u128;
                    count = count + 1;
                },
                None => {},
            }
            i = i + 1;
        }
        assert(events@.take(events.len() as int) =~= events@);
        if count == 0 {
            1000
        } else {
            assert(sum / count <= 0xFFFF_FFFFu128) by (nonlinear_arith)
                requires
                    sum <= count * 0xFFFF_FFFFu128,
                    count > 0,
            ;
            (sum / count) as u32
        }
    }

    /// Folds `events` into a summary, where `answers[k]` is the alignment
    /// service's answer to the k-th request of `translation_requests`.
    /// Fails as a whole, naming the language pair, when a request has no answer.
    pub fn fold_memory(
        &self,
        trace_id: &str,
        events: &[LanguageAwareAgentEvent],
        answers: &[Option<AlignmentResult>],
    ) -> (r: Result<MultilingualMemoryFold, FoldError>)
        ensures
            match r {
                Ok(f) => {
                    &&& all_answered(answers@, requests_for(events@).len())
                    &&& f.trace_id@ == trace_id@
                    &&& f.total_events == events.len()
                    &&& texts(f.key_insights@) == key_insights(events@)
                    &&& distribution_of(f.language_distribution, events@)
                    &&& patterns_view(f.cross_language_patterns@) == expected_patterns(events@)
                    &&& summarizes(f.translation_summary, requests_for(events@), answers@)
                    &&& f.compression_ratio == ratio(key_insights(events@).len(), events.len() as nat)
                    &&& f.overall_alignment == overall_alignment(events@)
                },
                Err(e) => !all_answered(answers@, requests_for(events@).len()) && fails_on_first_gap(
                    e,
                    requests_for(events@),
                    answers@,
                ),
            },
    {
        let translation_summary = match self.compute_translation_summary(events, answers) {
            Ok(s) => s,
            Err(e) => {
                return Err(e);
            },
        };
        let key_insights = self.extract_key_insights(events);
        let language_distribution = self.compute_language_distribution(events);
        let cross_language_patterns = self.detect_cross_language_patterns(events);
        let n = events.len();
        let compression_ratio: u32 = if n == 0 {
            0
        } else {
            let k = key_insights.len() as u128;
            let total = n as u128;
            assert((k * 1000) / (total as int) <= 1000) by (nonlinear_arith)
                requires
                    k <= total,
                    total > 0,
            ;
            (k * 1000 / total) as u32
        };
        let overall_alignment = self.calculate_overall_alignment(events);
        Ok(MultilingualMemoryFold {
            trace_id: String::from_str(trace_id),
            total_events: n,
            key_insights,
            language_distribution,
            cross_language_patterns,
            translation_summary,
            compression_ratio,
            overall_alignment,
        })
    }
}

} // verus!
