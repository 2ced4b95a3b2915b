//! Per-contributor running statistics and a leaderboard ranked by one of
//! several criteria.
//!
//! Each running mean is kept exactly as its numerator: after `n` traces the
//! running total equals `mean_{n-1}·(n-1) + x_n`, so the incremental-mean
//! identity holds with no rounding drift. The means that the getters return
//! are that total divided by `n`, rounded down.
use crate::fold_multilingual_memory::add_new;
use crate::text::{copy_texts, contains_text, index_of_text, texts};
use vstd::arithmetic::div_mod::{lemma_fundamental_div_mod, lemma_hoist_over_denominator};
use vstd::prelude::*;
use vstd::string::*;

verus! {

/// The mathematical content of a contributor's statistics.
pub struct StatsView {
    pub contributor_id: Seq<char>,
    pub total_traces: nat,
    pub multilingual_traces: nat,
    pub depth_total: nat,
    pub uniqueness_total: nat,
    pub serendipity_total: nat,
    pub alignment_total: nat,
    pub translation_total: nat,
    pub languages_used: Seq<Seq<char>>,
    /// Proficiency of `languages_used[i]`, in thousandths
    pub proficiency: Seq<nat>,
    pub discoveries: Seq<Seq<char>>,
    pub expertise_domains: Seq<Seq<char>>,
}

/// `total / n` rounded down; 0 when `n` is 0.
pub open spec fn mean(total: nat, n: nat) -> nat {
    if n == 0 {
        0
    } else {
        total / n
    }
}

pub open spec fn min_nat(a: nat, b: nat) -> nat {
    if a < b {
        a
    } else {
        b
    }
}

/// Mean trace depth in thousandths of an event.
pub open spec fn avg_depth(v: StatsView) -> nat {
    mean(v.depth_total * 1000, v.total_traces)
}

/// `min(languages, 10)/10 · multilingual/total` in thousandths, rounded down.
pub open spec fn cross_expertise(v: StatsView) -> nat {
    mean(min_nat(v.languages_used.len(), 10) * 100 * v.multilingual_traces, v.total_traces)
}

/// `0.20·min(depth/50, 1) + 0.25·uniqueness + 0.20·serendipity
/// + 0.15·cross-language expertise + 0.10·(alignment + translation)/2
/// + 0.10·min(discoveries/10, 1)`, in thousandths, rounded down.
pub open spec fn overall(v: StatsView) -> nat {
    let n = v.total_traces;
    (20 * min_nat(avg_depth(v) / 50, 1000) + 25 * mean(v.uniqueness_total, n) + 20 * mean(
        v.serendipity_total,
        n,
    ) + 15 * cross_expertise(v) + 5 * (mean(v.alignment_total, n) + mean(v.translation_total, n))
        + 10 * min_nat(v.discoveries.len() * 100, 1000)) / 100
}

/// The statistics of a contributor with no trace yet.
pub open spec fn fresh(id: Seq<char>) -> StatsView {
    StatsView {
        contributor_id: id,
        total_traces: 0,
        multilingual_traces: 0,
        depth_total: 0,
        uniqueness_total: 0,
        serendipity_total: 0,
        alignment_total: 0,
        translation_total: 0,
        languages_used: Seq::empty(),
        proficiency: Seq::empty(),
        discoveries: Seq::empty(),
        expertise_domains: Seq::empty(),
    }
}

/// Languages and proficiencies after using each of `langs` in a trace of
/// uniqueness `u`: a new language starts at 0, and each use blends the
/// proficiency with `u` as `(old + u) / 2`, a recency-weighted average.
pub open spec fn learn(
    used: Seq<Seq<char>>,
    prof: Seq<nat>,
    langs: Seq<Seq<char>>,
    u: nat,
) -> (Seq<Seq<char>>, Seq<nat>)
    decreases langs.len(),
{
    if langs.len() == 0 {
        (used, prof)
    } else {
        let p = learn(used, prof, langs.drop_last(), u);
        let l = langs.last();
        if p.0.contains(l) {
            let i = choose|i: int| 0 <= i < p.0.len() && p.0[i] == l;
            (p.0, p.1.update(i, (p.1[i] + u) / 2))
        } else {
            (p.0.push(l), p.1.push(u / 2))
        }
    }
}

/// The inputs of one `add_trace` call.
pub struct TraceInput {
    pub depth: nat,
    pub uniqueness: nat,
    pub serendipity: nat,
    pub languages: Seq<Seq<char>>,
    pub alignment: nat,
    pub translation: nat,
}

/// The statistics after adding one trace.
pub open spec fn added(v: StatsView, t: TraceInput) -> StatsView {
    let p = learn(v.languages_used, v.proficiency, t.languages, t.uniqueness);
    StatsView {
        contributor_id: v.contributor_id,
        total_traces: v.total_traces + 1,
        multilingual_traces: v.multilingual_traces + if t.languages.len() > 1 {
            1nat
        } else {
            0nat
        },
        depth_total: v.depth_total + t.depth,
        uniqueness_total: v.uniqueness_total + t.uniqueness,
        serendipity_total: v.serendipity_total + t.serendipity,
        alignment_total: v.alignment_total + t.alignment,
        translation_total: v.translation_total + t.translation,
        languages_used: p.0,
        proficiency: p.1,
        discoveries: v.discoveries,
        expertise_domains: v.expertise_domains,
    }
}

/// The statistics after adding each of `ts` in order.
pub open spec fn replay(v: StatsView, ts: Seq<TraceInput>) -> StatsView
    decreases ts.len(),
{
    if ts.len() == 0 {
        v
    } else {
        added(replay(v, ts.drop_last()), ts.last())
    }
}

pub open spec fn depth_sum(ts: Seq<TraceInput>) -> nat
    decreases ts.len(),
{
    if ts.len() == 0 {
        0
    } else {
        depth_sum(ts.drop_last()) + ts.last().depth
    }
}

pub open spec fn uniqueness_sum(ts: Seq<TraceInput>) -> nat
    decreases ts.len(),
{
    if ts.len() == 0 {
        0
    } else {
        uniqueness_sum(ts.drop_last()) + ts.last().uniqueness
    }
}

pub open spec fn serendipity_sum(ts: Seq<TraceInput>) -> nat
    decreases ts.len(),
{
    if ts.len() == 0 {
        0
    } else {
        serendipity_sum(ts.drop_last()) + ts.last().serendipity
    }
}

pub open spec fn alignment_sum(ts: Seq<TraceInput>) -> nat
    decreases ts.len(),
{
    if ts.len() == 0 {
        0
    } else {
        alignment_sum(ts.drop_last()) + ts.last().alignment
    }
}

pub open spec fn translation_sum(ts: Seq<TraceInput>) -> nat
    decreases ts.len(),
{
    if ts.len() == 0 {
        0
    } else {
        translation_sum(ts.drop_last()) + ts.last().translation
    }
}

/// Every score of `t` lies in [0, 1000].
pub open spec fn input_in_range(t: TraceInput) -> bool {
    &&& t.uniqueness <= 1000
    &&& t.serendipity <= 1000
    &&& t.alignment <= 1000
    &&& t.translation <= 1000
}

/// Every running mean lies in [0, 1000].
pub open spec fn means_in_range(v: StatsView) -> bool {
    &&& v.uniqueness_total <= 1000 * v.total_traces
    &&& v.serendipity_total <= 1000 * v.total_traces
    &&& v.alignment_total <= 1000 * v.total_traces
    &&& v.translation_total <= 1000 * v.total_traces
    &&& v.multilingual_traces <= v.total_traces
}

/// Running statistics of one contributor, in thousandths.
pub struct LanguageAwareContributorStats {
    pub(crate) contributor_id: String,
    pub(crate) total_traces: usize,
    pub(crate) multilingual_traces: usize,
    pub(crate) depth_total: u128,
    pub(crate) uniqueness_total: u128,
    pub(crate) serendipity_total: u128,
    pub(crate) alignment_total: u128,
    pub(crate) translation_total: u128,
    pub(crate) languages_used: Vec<String>,
    pub(crate) language_proficiency: Vec<u32>,
    pub(crate) discoveries: Vec<String>,
    pub(crate) expertise_domains: Vec<String>,
}

impl View for LanguageAwareContributorStats {
    type V = StatsView;

    closed spec fn view(&self) -> StatsView {
        StatsView {
            contributor_id: self.contributor_id@,
            total_traces: self.total_traces as nat,
            multilingual_traces: self.multilingual_traces as nat,
            depth_total: self.depth_total as nat,
            uniqueness_total: self.uniqueness_total as nat,
            serendipity_total: self.serendipity_total as nat,
            alignment_total: self.alignment_total as nat,
            translation_total: self.translation_total as nat,
            languages_used: texts(self.languages_used@),
            proficiency: self.language_proficiency@.map_values(|p: u32| p as nat),
            discoveries: texts(self.discoveries@),
            expertise_domains: texts(self.expertise_domains@),
        }
    }
}

/// The counts and totals fit their machine types.
pub open spec fn stats_fit(v: StatsView) -> bool {
    &&& v.multilingual_traces <= v.total_traces
    &&& v.total_traces <= usize::MAX
    &&& v.depth_total <= v.total_traces * (usize::MAX as nat)
    &&& v.uniqueness_total <= v.total_traces * (u32::MAX as nat)
    &&& v.serendipity_total <= v.total_traces * (u32::MAX as nat)
    &&& v.alignment_total <= v.total_traces * (u32::MAX as nat)
    &&& v.translation_total <= v.total_traces * (u32::MAX as nat)
    &&& v.proficiency.len() == v.languages_used.len()
    &&& forall|i: int| 0 <= i < v.proficiency.len() ==> #[trigger] v.proficiency[i] <= u32::MAX
    &&& v.languages_used.no_duplicates()
    &&& v.discoveries.no_duplicates()
    &&& v.expertise_domains.no_duplicates()
}

impl LanguageAwareContributorStats {
    #[verifier::type_invariant]
    closed spec fn inv(self) -> bool {
        stats_fit(self@)
    }

    pub fn new(contributor_id: &str) -> (r: Self)
        ensures
            r@ == fresh(contributor_id@),
    {
        let r = LanguageAwareContributorStats {
            contributor_id: String::from_str(contributor_id),
            total_traces: 0,
            multilingual_traces: 0,
            depth_total: 0,
            uniqueness_total: 0,
            serendipity_total: 0,
            alignment_total: 0,
            translation_total: 0,
            languages_used: Vec::new(),
            language_proficiency: Vec::new(),
            discoveries: Vec::new(),
            expertise_domains: Vec::new(),
        };
        assert(texts(r.languages_used@) =~= Seq::<Seq<char>>::empty());
        assert(texts(r.discoveries@) =~= Seq::<Seq<char>>::empty());
        assert(texts(r.expertise_domains@) =~= Seq::<Seq<char>>::empty());
        assert(r.language_proficiency@.map_values(|p: u32| p as nat) =~= Seq::<nat>::empty());
        assert(r@ == fresh(contributor_id@));
        r
    }
}

/// The proficiencies as natural numbers.
pub open spec fn prof_view(p: Seq<u32>) -> Seq<nat> {
    p.map_values(|x: u32| x as nat)
}

/// Uses each of `langs`: adds new languages and blends proficiencies with `u`.
fn learn_languages(used: &mut Vec<String>, prof: &mut Vec<u32>, langs: &Vec<String>, u: u32)
    requires
        texts(old(used)@).no_duplicates(),
        old(prof).len() == old(used).len(),
    ensures
        (texts(final(used)@), prof_view(final(prof)@)) == learn(
            texts(old(used)@),
            prof_view(old(prof)@),
            texts(langs@),
            u as nat,
        ),
        texts(final(used)@).no_duplicates(),
        final(prof).len() == final(used).len(),
{
    let ghost u0 = texts(used@);
    let ghost p0 = prof_view(prof@);
    let mut j: usize = 0;
    while j < langs.len()
        invariant
            j <= langs.len(),
            (texts(used@), prof_view(prof@)) == learn(u0, p0, texts(langs@).take(j as int), u as nat),
            texts(used@).no_duplicates(),
            prof.len() == used.len(),
        decreases langs.len() - j,
    {
        let ghost ls = texts(langs@).take(j + 1);
        assert(ls.drop_last() =~= texts(langs@).take(j as int));
        assert(ls.last() == langs@[j as int]@);
        let ghost l = langs@[j as int]@;
        let ghost before_used = texts(used@);
        let ghost before_prof = prof_view(prof@);
        match index_of_text(used, langs[j].as_str()) {
            Some(i) => {
                assert(before_used.contains(l)) by {
                    assert(before_used[i as int] == l);
                }
                let ghost c = choose|c: int| 0 <= c < before_used.len() && before_used[c] == l;
                assert(c == i) by {
                    if c != i {
                        assert(before_used[c] == before_used[i as int]);
                    }
                }
                let v = ((prof[i] as u64 + u as u64) / 2) as u32;
                prof.set(i, v);
                assert(prof_view(prof@) =~= before_prof.update(i as int, ((before_prof[i as int] + u) / 2) as nat));
            },
            None => {
                used.push(langs[j].clone());
                prof.push(u / 2);
                assert(texts(used@) =~= before_used.push(l));
                assert(prof_view(prof@) =~= before_prof.push((u / 2) as nat));
                assert(texts(used@).no_duplicates()) by {
                    assert forall|a: int, b: int|
                        0 <= a < b < texts(used@).len() implies texts(used@)[a] != texts(used@)[b] by {
                        if b == before_used.len() {
                            assert(before_used[a] != l) by {
                                if before_used[a] == l {
                                    assert(before_used.contains(l));
                                }
                            }
                        }
                    }
                }
            },
        }
        j = j + 1;
    }
    assert(texts(langs@).take(langs.len() as int) =~= texts(langs@));
}

/// `total / n` rounded down, 0 when `n` is 0.
fn mean_of(total: u128, n: usize) -> (r: u32)
    requires
        total <= n * (u32::MAX as nat),
    ensures
        r == mean(total as nat, n as nat),
{
    if n == 0 {
        0
    } else {
        let d = n as u128;
        assert(total / d <= u32::MAX) by (nonlinear_arith)
            requires
                total <= d * (u32::MAX as nat),
                d > 0,
        ;
        (total / d) as u32
    }
}

pub open spec fn with_discovery(v: StatsView, name: Seq<char>) -> StatsView {
    StatsView { discoveries: add_new(v.discoveries, seq![name]), ..v }
}

pub open spec fn with_domain(v: StatsView, domain: Seq<char>) -> StatsView {
    StatsView { expertise_domains: add_new(v.expertise_domains, seq![domain]), ..v }
}

impl LanguageAwareContributorStats {
    /// Adds one trace: the five running means, the multilingual count (the
    /// trace is multilingual when it names more than one language), the
    /// languages used and their recency-weighted proficiency.
    /// Scores are trusted to lie in [0, 1000]; they are not clamped.
    pub fn add_trace(
        &mut self,
        depth: usize,
        uniqueness: u32,
        serendipity: u32,
        languages: Vec<String>,
        alignment_score: u32,
        translation_quality: u32,
    )
        requires
            old(self)@.total_traces < usize::MAX,
        ensures
            final(self)@ == added(
                old(self)@,
                (TraceInput {
                    depth: depth as nat,
                    uniqueness: uniqueness as nat,
                    serendipity: serendipity as nat,
                    languages: texts(languages@),
                    alignment: alignment_score as nat,
                    translation: translation_quality as nat,
                }),
            ),
    {
        proof {
            use_type_invariant(&*self);
        }
        let n = self.total_traces + 1;
        let mut used = copy_texts(&self.languages_used);
        let mut prof: Vec<u32> = Vec::new();
        let mut k: usize = 0;
        while k < self.language_proficiency.len()
            invariant
                k <= self.language_proficiency.len(),
                prof@ == self.language_proficiency@.take(k as int),
            decreases self.language_proficiency.len() - k,
        {
            prof.push(self.language_proficiency[k]);
            assert(prof@ =~= self.language_proficiency@.take(k + 1));
            k = k + 1;
        }
        assert(prof@ =~= self.language_proficiency@);
        learn_languages(&mut used, &mut prof, &languages, uniqueness);
        let ghost t = TraceInput {
            depth: depth as nat,
            uniqueness: uniqueness as nat,
            serendipity: serendipity as nat,
            languages: texts(languages@),
            alignment: alignment_score as nat,
            translation: translation_quality as nat,
        };
        let ghost p = learn(
            self@.languages_used,
            self@.proficiency,
            texts(languages@),
            uniqueness as nat,
        );
        proof {
            lemma_learn_bounded(self@.languages_used, self@.proficiency, texts(languages@), uniqueness as nat);
            assert(self@.proficiency =~= prof_view(self.language_proficiency@));
            assert forall|i: int| 0 <= i < prof.len() implies #[trigger] prof@[i] <= u32::MAX by {}
        }
        let next = LanguageAwareContributorStats {
            contributor_id: self.contributor_id.clone(),
            total_traces: n,
            multilingual_traces: if languages.len() > 1 {
                self.multilingual_traces + 1
            } else {
                self.multilingual_traces
            },
            depth_total: self.depth_total + depth as u128,
            uniqueness_total: self.uniqueness_total + uniqueness as u128,
            serendipity_total: self.serendipity_total + serendipity as u128,
            alignment_total: self.alignment_total + alignment_score as u128,
            translation_total: self.translation_total + translation_quality as u128,
            languages_used: used,
            language_proficiency: prof,
            discoveries: copy_texts(&self.discoveries),
            expertise_domains: copy_texts(&self.expertise_domains),
        };
        assert(next@.proficiency =~= prof_view(prof@));
        assert(next@ == added(self@, t));
        *self = next;
    }

    pub fn contributor_id(&self) -> (r: &str)
        ensures
            r@ == self@.contributor_id,
    {
        self.contributor_id.as_str()
    }

    pub fn total_traces(&self) -> (r: usize)
        ensures
            r == self@.total_traces,
    {
        self.total_traces
    }

    /// Traces that named more than one language.
    pub fn multilingual_traces(&self) -> (r: usize)
        ensures
            r == self@.multilingual_traces,
    {
        self.multilingual_traces
    }

    /// Mean trace depth in thousandths of an event, rounded down.
    pub fn avg_trace_depth(&self) -> (r: u128)
        ensures
            r == avg_depth(self@),
    {
        proof {
            use_type_invariant(self);
        }
        let n = self.total_traces;
        if n == 0 {
            return 0;
        }
        let d = n as u128;
        let t = self.depth_total;
        let q = t / d;
        let rem = t % d;
        assert(q <= usize::MAX) by (nonlinear_arith)
            requires
                t <= d * (usize::MAX as nat),
                d > 0,
                q == t / d,
        ;
        assert(rem < d);
        assert((1000 * rem) as u128 / d <= 1000) by (nonlinear_arith)
            requires
                rem < d,
        ;
        proof {
            lemma_fundamental_div_mod(t as int, d as int);
            assert(1000 * (t as int) == 1000 * (rem as int) + (1000 * (q as int)) * (d as int)) by (nonlinear_arith)
                requires
                    t as int == (d as int) * (q as int) + rem as int,
            ;
            lemma_hoist_over_denominator(1000 * (rem as int), 1000 * (q as int), d as nat);
        }
        1000 * q + (1000 * rem) / d
    }

    /// Mean uniqueness, rounded down.
    pub fn avg_uniqueness(&self) -> (r: u32)
        ensures
            r == mean(self@.uniqueness_total, self@.total_traces),
    {
        proof {
            use_type_invariant(self);
        }
        mean_of(self.uniqueness_total, self.total_traces)
    }

    /// Mean serendipity, rounded down.
    pub fn avg_serendipity(&self) -> (r: u32)
        ensures
            r == mean(self@.serendipity_total, self@.total_traces),
    {
        proof {
            use_type_invariant(self);
        }
        mean_of(self.serendipity_total, self.total_traces)
    }

    /// Mean alignment score, rounded down.
    pub fn avg_alignment_score(&self) -> (r: u32)
        ensures
            r == mean(self@.alignment_total, self@.total_traces),
    {
        proof {
            use_type_invariant(self);
        }
        mean_of(self.alignment_total, self.total_traces)
    }

    /// Mean translation quality, rounded down.
    pub fn avg_translation_quality(&self) -> (r: u32)
        ensures
            r == mean(self@.translation_total, self@.total_traces),
    {
        proof {
            use_type_invariant(self);
        }
        mean_of(self.translation_total, self.total_traces)
    }

    /// Distinct languages used, in order of first use.
    pub fn languages_used(&self) -> (r: &Vec<String>)
        ensures
            texts(r@) == self@.languages_used,
    {
        &self.languages_used
    }

    /// Proficiency in `language`, if the contributor has used it.
    pub fn language_proficiency(&self, language: &str) -> (r: Option<u32>)
        ensures
            match r {
                Some(p) => exists|i: int|
                    0 <= i < self@.languages_used.len() && self@.languages_used[i] == language@
                        && #[trigger] self@.proficiency[i] == p,
                None => !self@.languages_used.contains(language@),
            },
    {
        proof {
            use_type_invariant(self);
        }
        match index_of_text(&self.languages_used, language) {
            Some(i) => {
                let p = self.language_proficiency[i];
                assert(self@.proficiency[i as int] == p);
                Some(p)
            },
            None => None,
        }
    }

    /// `min(languages, 10)/10 · multilingual/total`, in thousandths.
    pub fn cross_language_expertise(&self) -> (r: u32)
        ensures
            r == cross_expertise(self@),
            r <= 1000,
    {
        proof {
            use_type_invariant(self);
        }
        let n = self.total_traces;
        if n == 0 {
            return 0;
        }
        let l: u128 = if self.languages_used.len() < 10 {
            self.languages_used.len() as u128
        } else {
            10
        };
        let m = self.multilingual_traces as u128;
        let d = n as u128;
        assert(l * 100 * m <= 1000 * d) by (nonlinear_arith)
            requires
                l <= 10,
                m <= d,
        ;
        assert((l * 100 * m) as u128 / d <= 1000) by (nonlinear_arith)
            requires
                l * 100 * m <= 1000 * d,
                d > 0,
        ;
        (l * 100 * m / d) as u32
    }

    /// Distinct discoveries, in order of first addition.
    pub fn discoveries(&self) -> (r: &Vec<String>)
        ensures
            texts(r@) == self@.discoveries,
    {
        &self.discoveries
    }

    /// Distinct expertise domains, in order of first addition.
    pub fn expertise_domains(&self) -> (r: &Vec<String>)
        ensures
            texts(r@) == self@.expertise_domains,
    {
        &self.expertise_domains
    }

    /// Weighted combination of the capped sub-scores (see `overall`), in thousandths.
    pub fn overall_score(&self) -> (r: u32)
        ensures
            r == overall(self@),
    {
        let depth = self.avg_trace_depth() / 50;
        let depth_score: u64 = if depth < 1000 {
            depth as u64
        } else {
            1000
        };
        let uniqueness = self.avg_uniqueness() as u64;
        let serendipity = self.avg_serendipity() as u64;
        let language = self.cross_language_expertise() as u64;
        let quality = self.avg_alignment_score() as u64 + self.avg_translation_quality() as u64;
        let discovery_score: u64 = if self.discoveries.len() < 10 {
            self.discoveries.len() as u64 * 100
        } else {
            1000
        };
        let sum = 20 * depth_score + 25 * uniqueness + 20 * serendipity + 15 * language + 5 * quality
            + 10 * discovery_score;
        (sum / 100) as u32
    }

    /// Records a discovery unless it is already listed.
    pub fn add_discovery(&mut self, discovery_name: &str)
        ensures
            final(self)@ == with_discovery(old(self)@, discovery_name@),
    {
        proof {
            use_type_invariant(&*self);
        }
        let mut ds = copy_texts(&self.discoveries);
        proof {
            lemma_add_one(self@.discoveries, discovery_name@);
        }
        if !contains_text(&ds, discovery_name) {
            let ghost before = ds@;
            ds.push(String::from_str(discovery_name));
            assert(texts(ds@) =~= texts(before).push(discovery_name@));
            proof {
                lemma_push_new_keeps_distinct(texts(before), discovery_name@);
            }
        }
        let domains = copy_texts(&self.expertise_domains);
        let next = self.with_lists(ds, domains);
        assert(next@ =~= with_discovery(self@, discovery_name@));
        *self = next;
    }

    /// Records an expertise domain unless it is already listed.
    pub fn add_expertise_domain(&mut self, domain: &str)
        ensures
            final(self)@ == with_domain(old(self)@, domain@),
    {
        proof {
            use_type_invariant(&*self);
        }
        let mut domains = copy_texts(&self.expertise_domains);
        proof {
            lemma_add_one(self@.expertise_domains, domain@);
        }
        if !contains_text(&domains, domain) {
            let ghost before = domains@;
            domains.push(String::from_str(domain));
            assert(texts(domains@) =~= texts(before).push(domain@));
            proof {
                lemma_push_new_keeps_distinct(texts(before), domain@);
            }
        }
        let ds = copy_texts(&self.discoveries);
        let next = self.with_lists(ds, domains);
        assert(next@ =~= with_domain(self@, domain@));
        *self = next;
    }

    /// A copy of these statistics with other discovery and domain lists.
    fn with_lists(&self, discoveries: Vec<String>, expertise_domains: Vec<String>) -> (r: Self)
        requires
            texts(discoveries@).no_duplicates(),
            texts(expertise_domains@).no_duplicates(),
        ensures
            r@ == (StatsView {
                discoveries: texts(discoveries@),
                expertise_domains: texts(expertise_domains@),
                ..self@
            }),
    {
        proof {
            use_type_invariant(self);
        }
        let mut prof: Vec<u32> = Vec::new();
        let mut k: usize = 0;
        while k < self.language_proficiency.len()
            invariant
                k <= self.language_proficiency.len(),
                prof@ == self.language_proficiency@.take(k as int),
            decreases self.language_proficiency.len() - k,
        {
            prof.push(self.language_proficiency[k]);
            assert(prof@ =~= self.language_proficiency@.take(k + 1));
            k = k + 1;
        }
        assert(prof@ =~= self.language_proficiency@);
        LanguageAwareContributorStats {
            contributor_id: self.contributor_id.clone(),
            total_traces: self.total_traces,
            multilingual_traces: self.multilingual_traces,
            depth_total: self.depth_total,
            uniqueness_total: self.uniqueness_total,
            serendipity_total: self.serendipity_total,
            alignment_total: self.alignment_total,
            translation_total: self.translation_total,
            languages_used: copy_texts(&self.languages_used),
            language_proficiency: prof,
            discoveries,
            expertise_domains,
        }
    }

    /// A copy of these statistics.
    pub fn duplicate(&self) -> (r: Self)
        ensures
            r@ == self@,
    {
        proof {
            use_type_invariant(self);
        }
        let r = self.with_lists(copy_texts(&self.discoveries), copy_texts(&self.expertise_domains));
        assert(r@ =~= self@);
        r
    }
}

/// Running totals after replaying `ts` from a fresh record.
proof fn lemma_replay_totals(id: Seq<char>, ts: Seq<TraceInput>)
    ensures
        replay(fresh(id), ts).total_traces == ts.len(),
        replay(fresh(id), ts).multilingual_traces <= ts.len(),
        replay(fresh(id), ts).depth_total == depth_sum(ts),
        replay(fresh(id), ts).uniqueness_total == uniqueness_sum(ts),
        replay(fresh(id), ts).serendipity_total == serendipity_sum(ts),
        replay(fresh(id), ts).alignment_total == alignment_sum(ts),
        replay(fresh(id), ts).translation_total == translation_sum(ts),
        replay(fresh(id), ts).discoveries == Seq::<Seq<char>>::empty(),
    decreases ts.len(),
{
    if ts.len() > 0 {
        lemma_replay_totals(id, ts.drop_last());
    }
}

/// The incremental-mean identity holds exactly: after `k > 0` traces added to
/// a fresh record, each running mean is the mean of the `k` inputs (depth in
/// thousandths of an event), rounded down.
pub proof fn lemma_running_means(id: Seq<char>, ts: Seq<TraceInput>)
    requires
        ts.len() > 0,
    ensures
        replay(fresh(id), ts).total_traces == ts.len(),
        avg_depth(replay(fresh(id), ts)) == depth_sum(ts) * 1000 / ts.len(),
        mean(replay(fresh(id), ts).uniqueness_total, replay(fresh(id), ts).total_traces)
            == uniqueness_sum(ts) / ts.len(),
        mean(replay(fresh(id), ts).serendipity_total, replay(fresh(id), ts).total_traces)
            == serendipity_sum(ts) / ts.len(),
        mean(replay(fresh(id), ts).alignment_total, replay(fresh(id), ts).total_traces)
            == alignment_sum(ts) / ts.len(),
        mean(replay(fresh(id), ts).translation_total, replay(fresh(id), ts).total_traces)
            == translation_sum(ts) / ts.len(),
{
    lemma_replay_totals(id, ts);
}

proof fn lemma_replay_in_range(id: Seq<char>, ts: Seq<TraceInput>)
    requires
        forall|i: int| 0 <= i < ts.len() ==> input_in_range(#[trigger] ts[i]),
    ensures
        means_in_range(replay(fresh(id), ts)),
    decreases ts.len(),
{
    if ts.len() > 0 {
        let prefix = ts.drop_last();
        assert forall|i: int| 0 <= i < prefix.len() implies input_in_range(#[trigger] prefix[i]) by {
            assert(prefix[i] == ts[i]);
        }
        lemma_replay_in_range(id, prefix);
        assert(input_in_range(ts[ts.len() - 1]));
    }
}

proof fn lemma_mean_in_range(total: nat, n: nat)
    requires
        total <= 1000 * n,
    ensures
        mean(total, n) <= 1000,
{
    if n > 0 {
        assert(total / n <= 1000) by (nonlinear_arith)
            requires
                total <= 1000 * n,
                n > 0,
        ;
    }
}

/// The overall score of a record whose running means lie in [0, 1000] lies in [0, 1000].
proof fn lemma_overall_in_range(v: StatsView)
    requires
        means_in_range(v),
    ensures
        overall(v) <= 1000,
{
    let n = v.total_traces;
    lemma_mean_in_range(v.uniqueness_total, n);
    lemma_mean_in_range(v.serendipity_total, n);
    lemma_mean_in_range(v.alignment_total, n);
    lemma_mean_in_range(v.translation_total, n);
    let l = min_nat(v.languages_used.len(), 10);
    let m = v.multilingual_traces;
    assert(l * 100 * m <= 1000 * n) by (nonlinear_arith)
        requires
            l <= 10,
            m <= n,
    ;
    lemma_mean_in_range(l * 100 * m, n);
}

/// Given scores in [0, 1000] for every added trace, the overall score lies in
/// [0, 1000], whatever discoveries were recorded between the traces.
pub proof fn lemma_overall_score_bounded(
    id: Seq<char>,
    ts: Seq<TraceInput>,
    discoveries: Seq<Seq<char>>,
)
    requires
        forall|i: int| 0 <= i < ts.len() ==> input_in_range(#[trigger] ts[i]),
    ensures
        overall((StatsView { discoveries, ..replay(fresh(id), ts) })) <= 1000,
{
    lemma_replay_in_range(id, ts);
    lemma_overall_in_range(StatsView { discoveries, ..replay(fresh(id), ts) });
}

proof fn lemma_push_new_keeps_distinct(s: Seq<Seq<char>>, x: Seq<char>)
    requires
        s.no_duplicates(),
        !s.contains(x),
    ensures
        s.push(x).no_duplicates(),
{
    let t = s.push(x);
    assert forall|a: int, b: int| 0 <= a < b < t.len() implies t[a] != t[b] by {
        if b == s.len() {
            if t[a] == x {
                assert(s[a] == x);
            }
        }
    }
}

proof fn lemma_add_one(s: Seq<Seq<char>>, x: Seq<char>)
    ensures
        add_new(s, seq![x]) == if s.contains(x) {
            s
        } else {
            s.push(x)
        },
{
    assert(seq![x].drop_last() =~= Seq::<Seq<char>>::empty());
    assert(add_new(s, seq![x].drop_last()) == s);
}

proof fn lemma_learn_bounded(used: Seq<Seq<char>>, prof: Seq<nat>, langs: Seq<Seq<char>>, u: nat)
    requires
        prof.len() == used.len(),
        forall|i: int| 0 <= i < prof.len() ==> #[trigger] prof[i] <= u32::MAX,
        u <= u32::MAX,
    ensures
        learn(used, prof, langs, u).1.len() == learn(used, prof, langs, u).0.len(),
        forall|i: int|
            0 <= i < learn(used, prof, langs, u).1.len() ==> #[trigger] learn(used, prof, langs, u).1[i]
                <= u32::MAX,
    decreases langs.len(),
{
    if langs.len() > 0 {
        lemma_learn_bounded(used, prof, langs.drop_last(), u);
    }
}

/// What a leaderboard ranks contributors by.
#[derive(Debug, Clone, Copy, PartialEq, Eq, Structural)]
pub enum LanguageAwareRankingCriteria {
    /// Overall combined score
    Overall,
    /// Mean serendipity
    Serendipity,
    /// Cross-language expertise
    CrossLanguageExpertise,
    /// Number of discoveries
    Discoveries,
    /// Mean translation quality
    TranslationQuality,
    /// Number of languages used
    LanguageDiversity,
}

/// The score a criterion ranks a record by.
pub open spec fn score_by(v: StatsView, c: LanguageAwareRankingCriteria) -> nat {
    match c {
        LanguageAwareRankingCriteria::Overall => overall(v),
        LanguageAwareRankingCriteria::Serendipity => mean(v.serendipity_total, v.total_traces),
        LanguageAwareRankingCriteria::CrossLanguageExpertise => cross_expertise(v),
        LanguageAwareRankingCriteria::Discoveries => v.discoveries.len(),
        LanguageAwareRankingCriteria::TranslationQuality => mean(v.translation_total, v.total_traces),
        LanguageAwareRankingCriteria::LanguageDiversity => v.languages_used.len(),
    }
}

/// Position of the first record of highest score in a non-empty `s`.
pub open spec fn best_index(s: Seq<StatsView>, c: LanguageAwareRankingCriteria) -> int
    decreases s.len(),
{
    if s.len() <= 1 {
        0
    } else {
        let b = best_index(s.drop_last(), c);
        if score_by(s.last(), c) > score_by(s[b], c) {
            s.len() - 1
        } else {
            b
        }
    }
}

/// `s` sorted by descending score; records of equal score keep their order.
pub open spec fn ranked(s: Seq<StatsView>, c: LanguageAwareRankingCriteria) -> Seq<StatsView>
    decreases s.len(),
{
    let b = best_index(s, c);
    if 0 <= b < s.len() {
        seq![s[b]] + ranked(s.remove(b), c)
    } else {
        Seq::empty()
    }
}

pub open spec fn stats_views(s: Seq<LanguageAwareContributorStats>) -> Seq<StatsView> {
    s.map_values(|x: LanguageAwareContributorStats| x@)
}

/// Contributor records, one per contributor id, in order of first addition.
pub struct LanguageAwareLeaderboard {
    pub(crate) contributors: Vec<LanguageAwareContributorStats>,
}

pub open spec fn distinct_ids(s: Seq<StatsView>) -> bool {
    forall|i: int, j: int|
        0 <= i < j < s.len() ==> (#[trigger] s[i]).contributor_id != (#[trigger] s[j]).contributor_id
}

/// The board after adding `v`: it replaces the record with the same id, in
/// place, or else comes last.
pub open spec fn board_with(s: Seq<StatsView>, v: StatsView) -> Seq<StatsView> {
    if exists|i: int| 0 <= i < s.len() && (#[trigger] s[i]).contributor_id == v.contributor_id {
        let i = choose|i: int| 0 <= i < s.len() && (#[trigger] s[i]).contributor_id == v.contributor_id;
        s.update(i, v)
    } else {
        s.push(v)
    }
}

proof fn lemma_best_index_bounds(s: Seq<StatsView>, c: LanguageAwareRankingCriteria)
    requires
        s.len() > 0,
    ensures
        0 <= best_index(s, c) < s.len(),
        forall|j: int| 0 <= j < s.len() ==> score_by(#[trigger] s[j], c) <= score_by(s[best_index(s, c)], c),
    decreases s.len(),
{
    if s.len() > 1 {
        let p = s.drop_last();
        lemma_best_index_bounds(p, c);
        assert forall|j: int| 0 <= j < s.len() implies score_by(#[trigger] s[j], c) <= score_by(
            s[best_index(s, c)],
            c,
        ) by {
            if j < s.len() - 1 {
                assert(s[j] == p[j]);
            }
        }
    }
}

proof fn lemma_ranked_shape(s: Seq<StatsView>, c: LanguageAwareRankingCriteria)
    ensures
        ranked(s, c).len() == s.len(),
        forall|k: int| 0 <= k < s.len() ==> s.contains(#[trigger] ranked(s, c)[k]),
        forall|k: int| 0 <= k < s.len() ==> score_by(#[trigger] ranked(s, c)[k], c) <= score_by(ranked(s, c)[0], c),
    decreases s.len(),
{
    if s.len() > 0 {
        let b = best_index(s, c);
        lemma_best_index_bounds(s, c);
        let rest = s.remove(b);
        lemma_ranked_shape(rest, c);
        let r = ranked(s, c);
        assert forall|k: int| 0 <= k < s.len() implies s.contains(#[trigger] r[k]) && score_by(r[k], c)
            <= score_by(r[0], c) by {
            if k == 0 {
                assert(r[0] == s[b]);
            } else {
                assert(r[k] == ranked(rest, c)[k - 1]);
                assert(rest.contains(ranked(rest, c)[k - 1]));
                let j = choose|j: int| 0 <= j < rest.len() && rest[j] == ranked(rest, c)[k - 1];
                if j < b {
                    assert(rest[j] == s[j]);
                    assert(s[j] == r[k]);
                } else {
                    assert(rest[j] == s[j + 1]);
                    assert(s[j + 1] == r[k]);
                }
            }
        }
    }
}

/// A ranking lists the scores in descending order and is as long as the board.
pub proof fn lemma_ranking_sorted(s: Seq<StatsView>, c: LanguageAwareRankingCriteria)
    ensures
        ranked(s, c).len() == s.len(),
        forall|i: int, j: int|
            0 <= i < j < s.len() ==> score_by(#[trigger] ranked(s, c)[i], c) >= score_by(
                #[trigger] ranked(s, c)[j],
                c,
            ),
    decreases s.len(),
{
    lemma_ranked_shape(s, c);
    if s.len() > 0 {
        lemma_best_index_bounds(s, c);
        let b = best_index(s, c);
        let rest = s.remove(b);
        lemma_ranking_sorted(rest, c);
        let r = ranked(s, c);
        assert forall|i: int, j: int| 0 <= i < j < s.len() implies score_by(#[trigger] r[i], c)
            >= score_by(#[trigger] r[j], c) by {
            if i > 0 {
                assert(r[i] == ranked(rest, c)[i - 1]);
                assert(r[j] == ranked(rest, c)[j - 1]);
            }
        }
    }
}

/// The first `n` entries of a ranking are in descending order of score and
/// number `min(n, population)`.
pub proof fn lemma_top_n_sorted(s: Seq<StatsView>, c: LanguageAwareRankingCriteria, n: nat)
    ensures
        ranked(s, c).take(min_nat(n, s.len()) as int).len() == min_nat(n, s.len()),
        forall|i: int, j: int|
            0 <= i < j < min_nat(n, s.len()) ==> score_by(
                #[trigger] ranked(s, c).take(min_nat(n, s.len()) as int)[i],
                c,
            ) >= score_by(#[trigger] ranked(s, c).take(min_nat(n, s.len()) as int)[j], c),
{
    lemma_ranking_sorted(s, c);
    let t = ranked(s, c).take(min_nat(n, s.len()) as int);
    assert forall|i: int, j: int| 0 <= i < j < min_nat(n, s.len()) implies score_by(#[trigger] t[i], c)
        >= score_by(#[trigger] t[j], c) by {
        assert(t[i] == ranked(s, c)[i]);
        assert(t[j] == ranked(s, c)[j]);
    }
}

proof fn lemma_ranked_step(rem: Seq<StatsView>, c: LanguageAwareRankingCriteria)
    requires
        rem.len() > 0,
    ensures
        0 <= best_index(rem, c) < rem.len(),
        ranked(rem, c) == seq![rem[best_index(rem, c)]] + ranked(rem.remove(best_index(rem, c)), c),
{
    lemma_best_index_bounds(rem, c);
}

proof fn lemma_views_remove(s: Seq<LanguageAwareContributorStats>, i: int)
    requires
        0 <= i < s.len(),
    ensures
        stats_views(s.remove(i)) == stats_views(s).remove(i),
        stats_views(s)[i] == s[i]@,
{
    assert(stats_views(s.remove(i)) =~= stats_views(s).remove(i));
}

proof fn lemma_views_push(s: Seq<LanguageAwareContributorStats>, x: LanguageAwareContributorStats)
    ensures
        stats_views(s.push(x)) == stats_views(s).push(x@),
{
    assert(stats_views(s.push(x)) =~= stats_views(s).push(x@));
}

proof fn lemma_concat_step(a: Seq<StatsView>, x: StatsView, r: Seq<StatsView>)
    ensures
        a.push(x) + r == a + (seq![x] + r),
{
    assert(a.push(x) + r =~= a + (seq![x] + r));
}

impl View for LanguageAwareLeaderboard {
    type V = Seq<StatsView>;

    closed spec fn view(&self) -> Seq<StatsView> {
        stats_views(self.contributors@)
    }
}

impl Default for LanguageAwareLeaderboard {
    fn default() -> (r: Self)
        ensures
            r@ == Seq::<StatsView>::empty(),
    {
        LanguageAwareLeaderboard::new()
    }
}

impl LanguageAwareLeaderboard {
    #[verifier::type_invariant]
    closed spec fn inv(self) -> bool {
        distinct_ids(stats_views(self.contributors@))
    }

    pub fn new() -> (r: Self)
        ensures
            r@ == Seq::<StatsView>::empty(),
    {
        let r = LanguageAwareLeaderboard { contributors: Vec::new() };
        assert(r@ =~= Seq::<StatsView>::empty());
        r
    }

    /// The score `criteria` ranks `stats` by.
    pub fn get_score(&self, stats: &LanguageAwareContributorStats, criteria: LanguageAwareRankingCriteria) -> (r: u64)
        ensures
            r == score_by(stats@, criteria),
    {
        proof {
            use_type_invariant(stats);
        }
        match criteria {
            LanguageAwareRankingCriteria::Overall => stats.overall_score() as u64,
            LanguageAwareRankingCriteria::Serendipity => stats.avg_serendipity() as u64,
            LanguageAwareRankingCriteria::CrossLanguageExpertise => stats.cross_language_expertise() as u64,
            LanguageAwareRankingCriteria::Discoveries => stats.discoveries.len() as u64,
            LanguageAwareRankingCriteria::TranslationQuality => stats.avg_translation_quality() as u64,
            LanguageAwareRankingCriteria::LanguageDiversity => stats.languages_used.len() as u64,
        }
    }

    /// Number of contributors.
    pub fn len(&self) -> (r: usize)
        ensures
            r == self@.len(),
    {
        self.contributors.len()
    }

    /// Adds a contributor's record; a record with the same id is replaced in place.
    pub fn add_contributor(&mut self, stats: LanguageAwareContributorStats)
        ensures
            final(self)@ == board_with(old(self)@, stats@),
    {
        proof {
            use_type_invariant(&*self);
        }
        let ghost before = self@;
        let mut found: Option<usize> = None;
        let mut i: usize = 0;
        while i < self.contributors.len()
            invariant
                i <= self.contributors.len(),
                before == stats_views(self.contributors@),
                match found {
                    Some(k) => k < i && before[k as int].contributor_id == stats@.contributor_id,
                    None => forall|j: int| 0 <= j < i ==> (#[trigger] before[j]).contributor_id != stats@.contributor_id,
                },
            decreases self.contributors.len() - i,
        {
            if found.is_none() && self.contributors[i].contributor_id == stats.contributor_id {
                found = Some(i);
            }
            i = i + 1;
        }
        let mut next: Vec<LanguageAwareContributorStats> = Vec::new();
        let mut j: usize = 0;
        while j < self.contributors.len()
            invariant
                j <= self.contributors.len(),
                before == stats_views(self.contributors@),
                stats_views(next@) == before.take(j as int),
            decreases self.contributors.len() - j,
        {
            let d = self.contributors[j].duplicate();
            let ghost prev = next@;
            next.push(d);
            assert(stats_views(next@) =~= stats_views(prev).push(d@));
            assert(before.take(j + 1) =~= before.take(j as int).push(before[j as int]));
            j = j + 1;
        }
        assert(before.take(before.len() as int) =~= before);
        match found {
            Some(k) => {
                let ghost v = stats@;
                next.set(k, stats);
                assert(stats_views(next@) =~= before.update(k as int, v));
                proof {
                    let c = choose|c: int|
                        0 <= c < before.len() && (#[trigger] before[c]).contributor_id
                            == v.contributor_id;
                    if c != k {
                        assert(before[c].contributor_id == before[k as int].contributor_id);
                    }
                    assert(board_with(before, v) == before.update(k as int, v));
                }
            },
            None => {
                let ghost v = stats@;
                next.push(stats);
                assert(stats_views(next@) =~= before.push(v));
            },
        }
        *self = LanguageAwareLeaderboard { contributors: next };
    }

    /// The first `n` contributors when sorted by descending score for
    /// `criteria`, ties kept in board order; all of them when there are fewer.
    pub fn get_top_n(&self, n: usize, criteria: LanguageAwareRankingCriteria) -> (r: Vec<LanguageAwareContributorStats>)
        ensures
            stats_views(r@) == ranked(self@, criteria).take(min_nat(n as nat, self@.len()) as int),
    {
        let ghost all = self@;
        let mut remaining: Vec<LanguageAwareContributorStats> = Vec::new();
        let mut j: usize = 0;
        while j < self.contributors.len()
            invariant
                j <= self.contributors.len(),
                all == stats_views(self.contributors@),
                stats_views(remaining@) == all.take(j as int),
            decreases self.contributors.len() - j,
        {
            let d = self.contributors[j].duplicate();
            let ghost prev = remaining@;
            remaining.push(d);
            assert(stats_views(remaining@) =~= stats_views(prev).push(d@));
            assert(all.take(j + 1) =~= all.take(j as int).push(all[j as int]));
            j = j + 1;
        }
        assert(all.take(all.len() as int) =~= all);
        proof {
            lemma_ranked_shape(all, criteria);
        }
        let mut result: Vec<LanguageAwareContributorStats> = Vec::new();
        while result.len() < n && remaining.len() > 0
            invariant
                stats_views(result@) + ranked(stats_views(remaining@), criteria) == ranked(all, criteria),
                result.len() <= n,
                result.len() + remaining.len() == all.len(),
            decreases remaining.len(),
        {
            let ghost rem = stats_views(remaining@);
            let mut b: usize = 0;
            let mut best = self.get_score(&remaining[0], criteria);
            let mut i: usize = 1;
            while i < remaining.len()
                invariant
                    1 <= i <= remaining.len(),
                    rem == stats_views(remaining@),
                    b == best_index(rem.take(i as int), criteria),
                    b < i,
                    best == score_by(rem[b as int], criteria),
                decreases remaining.len() - i,
            {
                assert(rem.take(i + 1).drop_last() =~= rem.take(i as int));
                assert(rem.take(i + 1)[b as int] == rem[b as int]);
                let s = self.get_score(&remaining[i], criteria);
                if s > best {
                    b = i;
                    best = s;
                }
                i = i + 1;
            }
            assert(rem.take(remaining.len() as int) =~= rem);
            let ghost before_result = stats_views(result@);
            let ghost prev_remaining = remaining@;
            let x = remaining.remove(b);
            proof {
                lemma_views_remove(prev_remaining, b as int);
                lemma_ranked_step(rem, criteria);
            }
            let ghost prev_result = result@;
            result.push(x);
            proof {
                lemma_views_push(prev_result, x);
                lemma_concat_step(before_result, rem[b as int], ranked(rem.remove(b as int), criteria));
            }
        }
        proof {
            lemma_ranked_shape(stats_views(remaining@), criteria);
            let k = result.len();
            assert(k == min_nat(n as nat, all.len()));
            assert(ranked(all, criteria).take(k as int) =~= stats_views(result@));
        }
        result
    }
}

} // verus!
