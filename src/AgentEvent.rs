//! Language-annotated agent events, their language metadata and a builder.
use crate::text::{contains_text, copy_texts, texts};
use vstd::prelude::*;
use vstd::string::*;

verus! {

/// Language facts about the text of one event.
#[derive(Debug)]
pub struct LanguageMetadata {
    pub language_code: String,
    pub text: String,
    /// Writing system, e.g. `Latin`
    pub script: String,
    /// Language family, e.g. `Austronesian`
    pub language_family: String,
    /// Register of the text; `neutral` until set
    pub formality: String,
    /// Distinct domain terms, in order of first addition
    pub domain_terms: Vec<String>,
}

impl LanguageMetadata {
    pub fn new(language_code: &str, text: &str, script: &str, language_family: &str) -> (r: Self)
        ensures
            r.language_code@ == language_code@,
            r.text@ == text@,
            r.script@ == script@,
            r.language_family@ == language_family@,
            r.formality@ == "neutral"@,
            r.domain_terms.len() == 0,
    {
        LanguageMetadata {
            language_code: String::from_str(language_code),
            text: String::from_str(text),
            script: String::from_str(script),
            language_family: String::from_str(language_family),
            formality: String::from_str("neutral"),
            domain_terms: Vec::new(),
        }
    }

    pub fn set_formality(&mut self, formality: &str)
        ensures
            final(self).formality@ == formality@,
            final(self).language_code == old(self).language_code,
            final(self).text == old(self).text,
            final(self).script == old(self).script,
            final(self).language_family == old(self).language_family,
            final(self).domain_terms == old(self).domain_terms,
    {
        self.formality = String::from_str(formality);
    }

    /// Adds a domain term unless it is already listed.
    pub fn add_domain_term(&mut self, term: &str)
        ensures
            if texts(old(self).domain_terms@).contains(term@) {
                final(self).domain_terms@ == old(self).domain_terms@
            } else {
                texts(final(self).domain_terms@) == texts(old(self).domain_terms@).push(term@)
            },
            final(self).language_code == old(self).language_code,
            final(self).text == old(self).text,
            final(self).script == old(self).script,
            final(self).language_family == old(self).language_family,
            final(self).formality == old(self).formality,
    {
        if !contains_text(&self.domain_terms, term) {
            let ghost before = self.domain_terms@;
            self.domain_terms.push(String::from_str(term));
            assert(texts(self.domain_terms@) =~= texts(before).push(term@));
        }
    }
}

/// An agent step annotated with its languages and optional quality scores.
/// Scores are in thousandths.
#[derive(Debug)]
pub struct LanguageAwareAgentEvent {
    /// Label of the acting agent
    pub agent_type: String,
    pub input: String,
    pub output: String,
    pub primary_language: String,
    pub confidence: u32,
    /// Further languages of the step, distinct from each other and from the primary one
    pub secondary_languages: Vec<String>,
    pub alignment_score: Option<u32>,
    pub translation_quality: Option<u32>,
    pub semantic_similarity: Option<u32>,
    pub cultural_context_score: Option<u32>,
    pub language_metadata: Vec<LanguageMetadata>,
}

/// The event touches more than its primary language.
pub open spec fn is_multilingual(e: LanguageAwareAgentEvent) -> bool {
    e.secondary_languages.len() > 0
}

/// The primary language followed by the secondary ones.
pub open spec fn all_langs(e: LanguageAwareAgentEvent) -> Seq<Seq<char>> {
    seq![e.primary_language@] + texts(e.secondary_languages@)
}

/// Sum and number of the optional quality scores that are present.
pub open spec fn present_scores(e: LanguageAwareAgentEvent) -> (nat, nat) {
    let a = match e.alignment_score { Some(v) => (v as nat, 1nat), None => (0nat, 0nat) };
    let t = match e.translation_quality { Some(v) => (v as nat, 1nat), None => (0nat, 0nat) };
    let s = match e.semantic_similarity { Some(v) => (v as nat, 1nat), None => (0nat, 0nat) };
    let c = match e.cultural_context_score { Some(v) => (v as nat, 1nat), None => (0nat, 0nat) };
    (a.0 + t.0 + s.0 + c.0, a.1 + t.1 + s.1 + c.1)
}

/// The event's text, languages and confidence are those of `b`.
pub open spec fn same_core(a: LanguageAwareAgentEvent, b: LanguageAwareAgentEvent) -> bool {
    &&& a.agent_type == b.agent_type
    &&& a.input == b.input
    &&& a.output == b.output
    &&& a.primary_language == b.primary_language
    &&& a.confidence == b.confidence
}

impl LanguageAwareAgentEvent {
    pub fn new(
        agent_type: &str,
        input: &str,
        output: &str,
        primary_language: &str,
        confidence: u32,
    ) -> (r: Self)
        ensures
            r.agent_type@ == agent_type@,
            r.input@ == input@,
            r.output@ == output@,
            r.primary_language@ == primary_language@,
            r.confidence == confidence,
            r.secondary_languages.len() == 0,
            r.alignment_score is None,
            r.translation_quality is None,
            r.semantic_similarity is None,
            r.cultural_context_score is None,
            r.language_metadata.len() == 0,
    {
        LanguageAwareAgentEvent {
            agent_type: String::from_str(agent_type),
            input: String::from_str(input),
            output: String::from_str(output),
            primary_language: String::from_str(primary_language),
            confidence,
            secondary_languages: Vec::new(),
            alignment_score: None,
            translation_quality: None,
            semantic_similarity: None,
            cultural_context_score: None,
            language_metadata: Vec::new(),
        }
    }

    /// Adds a secondary language unless the event already has it.
    pub fn add_secondary_language(&mut self, language: &str)
        ensures
            if all_langs(*old(self)).contains(language@) {
                final(self).secondary_languages@ == old(self).secondary_languages@
            } else {
                texts(final(self).secondary_languages@) == texts(
                    old(self).secondary_languages@,
                ).push(language@)
            },
            same_core(*final(self), *old(self)),
            final(self).alignment_score == old(self).alignment_score,
            final(self).translation_quality == old(self).translation_quality,
            final(self).semantic_similarity == old(self).semantic_similarity,
            final(self).cultural_context_score == old(self).cultural_context_score,
    {
        let ghost before = self.secondary_languages@;
        let known = self.has_language(language);
        if !known {
            self.secondary_languages.push(String::from_str(language));
            assert(texts(self.secondary_languages@) =~= texts(before).push(language@));
        }
    }

    pub fn set_alignment_score(&mut self, score: u32)
        ensures
            final(self).alignment_score == Some(score),
            same_core(*final(self), *old(self)),
            final(self).secondary_languages == old(self).secondary_languages,
            final(self).translation_quality == old(self).translation_quality,
            final(self).semantic_similarity == old(self).semantic_similarity,
            final(self).cultural_context_score == old(self).cultural_context_score,
    {
        self.alignment_score = Some(score);
    }

    pub fn set_translation_quality(&mut self, score: u32)
        ensures
            final(self).translation_quality == Some(score),
            same_core(*final(self), *old(self)),
            final(self).secondary_languages == old(self).secondary_languages,
            final(self).alignment_score == old(self).alignment_score,
            final(self).semantic_similarity == old(self).semantic_similarity,
            final(self).cultural_context_score == old(self).cultural_context_score,
    {
        self.translation_quality = Some(score);
    }

    pub fn set_semantic_similarity(&mut self, score: u32)
        ensures
            final(self).semantic_similarity == Some(score),
            same_core(*final(self), *old(self)),
            final(self).secondary_languages == old(self).secondary_languages,
            final(self).alignment_score == old(self).alignment_score,
            final(self).translation_quality == old(self).translation_quality,
            final(self).cultural_context_score == old(self).cultural_context_score,
    {
        self.semantic_similarity = Some(score);
    }

    pub fn set_cultural_context_score(&mut self, score: u32)
        ensures
            final(self).cultural_context_score == Some(score),
            same_core(*final(self), *old(self)),
            final(self).secondary_languages == old(self).secondary_languages,
            final(self).alignment_score == old(self).alignment_score,
            final(self).translation_quality == old(self).translation_quality,
            final(self).semantic_similarity == old(self).semantic_similarity,
    {
        self.cultural_context_score = Some(score);
    }

    pub fn add_language_metadata(&mut self, metadata: LanguageMetadata)
        ensures
            final(self).language_metadata@ == old(self).language_metadata@.push(metadata),
            same_core(*final(self), *old(self)),
            final(self).secondary_languages == old(self).secondary_languages,
            final(self).alignment_score == old(self).alignment_score,
            final(self).translation_quality == old(self).translation_quality,
            final(self).semantic_similarity == old(self).semantic_similarity,
            final(self).cultural_context_score == old(self).cultural_context_score,
    {
        self.language_metadata.push(metadata);
    }

    /// Whether the event touches `language`, as primary or secondary language.
    pub fn has_language(&self, language: &str) -> (r: bool)
        ensures
            r == all_langs(*self).contains(language@),
    {
        let lang = String::from_str(language);
        let r = self.primary_language == lang || contains_text(&self.secondary_languages, language);
        proof {
            let all = all_langs(*self);
            let rest = texts(self.secondary_languages@);
            assert(all =~= seq![self.primary_language@] + rest);
            if all.contains(language@) {
                let k = choose|k: int| 0 <= k < all.len() && all[k] == language@;
                if k > 0 {
                    assert(rest[k - 1] == language@);
                }
            }
            if rest.contains(language@) {
                let k = choose|k: int| 0 <= k < rest.len() && rest[k] == language@;
                assert(all[k + 1] == language@);
            }
            if self.primary_language@ == language@ {
                assert(all[0] == language@);
            }
        }
        r
    }

    /// Whether the event has a secondary language.
    pub fn is_multilingual(&self) -> (r: bool)
        ensures
            r == is_multilingual(*self),
    {
        self.secondary_languages.len() > 0
    }

    /// The primary language followed by the secondary ones.
    pub fn all_languages(&self) -> (r: Vec<String>)
        ensures
            texts(r@) == all_langs(*self),
    {
        let mut r: Vec<String> = Vec::new();
        r.push(self.primary_language.clone());
        let rest = copy_texts(&self.secondary_languages);
        let mut i: usize = 0;
        while i < rest.len()
            invariant
                i <= rest.len(),
                texts(rest@) == texts(self.secondary_languages@),
                texts(r@) == seq![self.primary_language@] + texts(rest@).take(i as int),
            decreases rest.len() - i,
        {
            let ghost before = r@;
            r.push(rest[i].clone());
            assert(texts(r@) =~= texts(before).push(texts(rest@)[i as int]));
            assert(texts(rest@).take(i + 1) =~= texts(rest@).take(i as int).push(
                texts(rest@)[i as int],
            ));
            i = i + 1;
        }
        assert(texts(rest@).take(rest.len() as int) =~= texts(rest@));
        r
    }

    /// Mean of the quality scores that are present (alignment, translation
    /// quality, semantic similarity, cultural context), rounded down; 0 when
    /// none is.
    pub fn language_quality_score(&self) -> (r: u32)
        ensures
            r == if present_scores(*self).1 == 0 {
                0
            } else {
                present_scores(*self).0 / present_scores(*self).1
            },
    {
        let mut sum: u64 = 0;
        let mut count: u64 = 0;
        match self.alignment_score {
            Some(v) => {
                sum = sum + v as u64;
                count = count + 1;
            },
            None => {},
        }
        match self.translation_quality {
            Some(v) => {
                sum = sum + v as u64;
                count = count + 1;
            },
            None => {},
        }
        match self.semantic_similarity {
            Some(v) => {
                sum = sum + v as u64;
                count = count + 1;
            },
            None => {},
        }
        match self.cultural_context_score {
            Some(v) => {
                sum = sum + v as u64;
                count = count + 1;
            },
            None => {},
        }
        if count == 0 {
            0
        } else {
            assert(sum / count <= 0xFFFF_FFFFu64) by (nonlinear_arith)
                requires
                    sum <= count * 0xFFFF_FFFFu64,
                    count > 0,
            ;
            (sum / count) as u32
        }
    }
}

/// Builds a `LanguageAwareAgentEvent` step by step; confidence is 0 until set.
pub struct LanguageAwareEventBuilder {
    pub event: LanguageAwareAgentEvent,
}

impl LanguageAwareEventBuilder {
    pub fn new(agent_type: &str, input: &str, output: &str, primary_language: &str) -> (r: Self)
        ensures
            r.event.agent_type@ == agent_type@,
            r.event.input@ == input@,
            r.event.output@ == output@,
            r.event.primary_language@ == primary_language@,
            r.event.confidence == 0,
            r.event.secondary_languages.len() == 0,
            r.event.alignment_score is None,
            r.event.translation_quality is None,
            r.event.semantic_similarity is None,
            r.event.cultural_context_score is None,
    {
        LanguageAwareEventBuilder {
            event: LanguageAwareAgentEvent::new(agent_type, input, output, primary_language, 0),
        }
    }

    pub fn confidence(self, confidence: u32) -> (r: Self)
        ensures
            r.event.confidence == confidence,
            r.event.agent_type == self.event.agent_type,
            r.event.input == self.event.input,
            r.event.output == self.event.output,
            r.event.primary_language == self.event.primary_language,
            r.event.secondary_languages == self.event.secondary_languages,
            r.event.alignment_score == self.event.alignment_score,
            r.event.translation_quality == self.event.translation_quality,
            r.event.semantic_similarity == self.event.semantic_similarity,
            r.event.cultural_context_score == self.event.cultural_context_score,
    {
        let mut b = self;
        b.event.confidence = confidence;
        b
    }

    /// Adds a secondary language unless the event already has it.
    pub fn add_language(self, language: &str) -> (r: Self)
        ensures
            if all_langs(self.event).contains(language@) {
                r.event.secondary_languages@ == self.event.secondary_languages@
            } else {
                texts(r.event.secondary_languages@) == texts(
                    self.event.secondary_languages@,
                ).push(language@)
            },
            same_core(r.event, self.event),
            r.event.alignment_score == self.event.alignment_score,
            r.event.translation_quality == self.event.translation_quality,
            r.event.semantic_similarity == self.event.semantic_similarity,
            r.event.cultural_context_score == self.event.cultural_context_score,
    {
        let mut b = self;
        b.event.add_secondary_language(language);
        b
    }

    pub fn alignment_score(self, score: u32) -> (r: Self)
        ensures
            r.event.alignment_score == Some(score),
            same_core(r.event, self.event),
            r.event.secondary_languages == self.event.secondary_languages,
            r.event.translation_quality == self.event.translation_quality,
            r.event.semantic_similarity == self.event.semantic_similarity,
            r.event.cultural_context_score == self.event.cultural_context_score,
    {
        let mut b = self;
        b.event.set_alignment_score(score);
        b
    }

    pub fn translation_quality(self, score: u32) -> (r: Self)
        ensures
            r.event.translation_quality == Some(score),
            same_core(r.event, self.event),
            r.event.secondary_languages == self.event.secondary_languages,
            r.event.alignment_score == self.event.alignment_score,
            r.event.semantic_similarity == self.event.semantic_similarity,
            r.event.cultural_context_score == self.event.cultural_context_score,
    {
        let mut b = self;
        b.event.set_translation_quality(score);
        b
    }

    pub fn semantic_similarity(self, score: u32) -> (r: Self)
        ensures
            r.event.semantic_similarity == Some(score),
            same_core(r.event, self.event),
            r.event.secondary_languages == self.event.secondary_languages,
            r.event.alignment_score == self.event.alignment_score,
            r.event.translation_quality == self.event.translation_quality,
            r.event.cultural_context_score == self.event.cultural_context_score,
    {
        let mut b = self;
        b.event.set_semantic_similarity(score);
        b
    }

    pub fn cultural_context(self, score: u32) -> (r: Self)
        ensures
            r.event.cultural_context_score == Some(score),
            same_core(r.event, self.event),
            r.event.secondary_languages == self.event.secondary_languages,
            r.event.alignment_score == self.event.alignment_score,
            r.event.translation_quality == self.event.translation_quality,
            r.event.semantic_similarity == self.event.semantic_similarity,
    {
        let mut b = self;
        b.event.set_cultural_context_score(score);
        b
    }

    pub fn build(self) -> (r: LanguageAwareAgentEvent)
        ensures
            r == self.event,
    {
        self.event
    }
}

} // verus!
