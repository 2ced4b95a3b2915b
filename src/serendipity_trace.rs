//! An append-only trace of discovery events, the transitions between them,
//! its provenance digest, its folded summary and its diversity score.
use crate::text::{
    contains_text, copy_texts, digits, push_digits, push_score, score_text, texts,
};
use sha2::{Digest, Sha256};
use vstd::prelude::*;
use vstd::string::*;

verus! {

/// Stage of the discovery process.
#[derive(Debug, Clone, Copy, PartialEq, Eq, Structural)]
pub enum SerendipityStage {
    /// Initial exploration phase
    Exploration,
    /// Unexpected connection discovered
    UnexpectedConnection,
    /// Hypothesis formation from a serendipitous finding
    HypothesisFormation,
    /// Validation of the discovery
    Validation,
    /// Integration into existing knowledge
    Integration,
    /// Publication or sharing of the discovery
    Publication,
}

/// Number of discovery stages.
pub const STAGE_KINDS: usize = 6;

/// Number of agent kinds.
pub const AGENT_KINDS: usize = 7;

impl SerendipityStage {
    pub open spec fn spec_name(self) -> Seq<char> {
        match self {
            SerendipityStage::Exploration => "Exploration"@,
            SerendipityStage::UnexpectedConnection => "UnexpectedConnection"@,
            SerendipityStage::HypothesisFormation => "HypothesisFormation"@,
            SerendipityStage::Validation => "Validation"@,
            SerendipityStage::Integration => "Integration"@,
            SerendipityStage::Publication => "Publication"@,
        }
    }

    pub open spec fn spec_index(self) -> nat {
        match self {
            SerendipityStage::Exploration => 0,
            SerendipityStage::UnexpectedConnection => 1,
            SerendipityStage::HypothesisFormation => 2,
            SerendipityStage::Validation => 3,
            SerendipityStage::Integration => 4,
            SerendipityStage::Publication => 5,
        }
    }

    /// The stage's name.
    pub fn name(&self) -> (r: &'static str)
        ensures
            r@ == self.spec_name(),
    {
        match self {
            SerendipityStage::Exploration => "Exploration",
            SerendipityStage::UnexpectedConnection => "UnexpectedConnection",
            SerendipityStage::HypothesisFormation => "HypothesisFormation",
            SerendipityStage::Validation => "Validation",
            SerendipityStage::Integration => "Integration",
            SerendipityStage::Publication => "Publication",
        }
    }

    /// The stage's position in the enumeration, below `STAGE_KINDS`.
    pub fn index(&self) -> (r: usize)
        ensures
            r == self.spec_index(),
            r < STAGE_KINDS,
    {
        match self {
            SerendipityStage::Exploration => 0,
            SerendipityStage::UnexpectedConnection => 1,
            SerendipityStage::HypothesisFormation => 2,
            SerendipityStage::Validation => 3,
            SerendipityStage::Integration => 4,
            SerendipityStage::Publication => 5,
        }
    }
}

/// Kind of agent acting in a discovery step.
#[derive(Debug, Clone, Copy, PartialEq, Eq, Structural)]
pub enum SerendipityAgent {
    /// Explores diverse information sources
    Explorer,
    /// Identifies unexpected patterns
    PatternRecognizer,
    /// Forms hypotheses from discoveries
    HypothesisGenerator,
    /// Validates findings
    Validator,
    /// Synthesizes discoveries into knowledge
    Synthesizer,
    /// Translates across languages
    Translator,
    /// Meta-level orchestration
    MetaOrchestrator,
}

impl SerendipityAgent {
    pub open spec fn spec_name(self) -> Seq<char> {
        match self {
            SerendipityAgent::Explorer => "Explorer"@,
            SerendipityAgent::PatternRecognizer => "PatternRecognizer"@,
            SerendipityAgent::HypothesisGenerator => "HypothesisGenerator"@,
            SerendipityAgent::Validator => "Validator"@,
            SerendipityAgent::Synthesizer => "Synthesizer"@,
            SerendipityAgent::Translator => "Translator"@,
            SerendipityAgent::MetaOrchestrator => "MetaOrchestrator"@,
        }
    }

    pub open spec fn spec_index(self) -> nat {
        match self {
            SerendipityAgent::Explorer => 0,
            SerendipityAgent::PatternRecognizer => 1,
            SerendipityAgent::HypothesisGenerator => 2,
            SerendipityAgent::Validator => 3,
            SerendipityAgent::Synthesizer => 4,
            SerendipityAgent::Translator => 5,
            SerendipityAgent::MetaOrchestrator => 6,
        }
    }

    /// The agent kind's name.
    pub fn name(&self) -> (r: &'static str)
        ensures
            r@ == self.spec_name(),
    {
        match self {
            SerendipityAgent::Explorer => "Explorer",
            SerendipityAgent::PatternRecognizer => "PatternRecognizer",
            SerendipityAgent::HypothesisGenerator => "HypothesisGenerator",
            SerendipityAgent::Validator => "Validator",
            SerendipityAgent::Synthesizer => "Synthesizer",
            SerendipityAgent::Translator => "Translator",
            SerendipityAgent::MetaOrchestrator => "MetaOrchestrator",
        }
    }

    /// The agent kind's position in the enumeration, below `AGENT_KINDS`.
    pub fn index(&self) -> (r: usize)
        ensures
            r == self.spec_index(),
            r < AGENT_KINDS,
    {
        match self {
            SerendipityAgent::Explorer => 0,
            SerendipityAgent::PatternRecognizer => 1,
            SerendipityAgent::HypothesisGenerator => 2,
            SerendipityAgent::Validator => 3,
            SerendipityAgent::Synthesizer => 4,
            SerendipityAgent::Translator => 5,
            SerendipityAgent::MetaOrchestrator => 6,
        }
    }
}

/// One discovery step. Scores are in thousandths.
#[derive(Debug)]
pub struct SerendipityEvent {
    /// Identifier, unique within the trace: `event_<position>_<milliseconds>`
    pub event_id: String,
    /// Milliseconds since the Unix epoch
    pub timestamp: u64,
    pub stage: SerendipityStage,
    pub agent: SerendipityAgent,
    pub input: String,
    pub output: String,
    /// Language code of the step
    pub language: String,
    /// How unexpected the step was
    pub serendipity_score: u32,
    pub confidence: u32,
    /// Free-form key/value annotations
    pub metadata: Vec<(String, String)>,
}

/// The link between two consecutive events of a trace.
#[derive(Debug)]
pub struct SerendipityTransition {
    pub from_event: String,
    pub to_event: String,
    pub from_agent: SerendipityAgent,
    pub to_agent: SerendipityAgent,
    /// Mean of the two events' confidences, in thousandths
    pub transition_score: u32,
    /// `<from stage> -> <to stage>`
    pub reason: String,
    /// The two language codes when they differ
    pub language_shift: Option<(String, String)>,
}

/// The trace of one discovery.
#[derive(Debug)]
pub struct SerendipityTrace {
    pub trace_id: String,
    pub contributor_id: String,
    pub backend: String,
    pub discovery_name: String,
    pub events: Vec<SerendipityEvent>,
    pub transitions: Vec<SerendipityTransition>,
    /// Distinct language codes, in order of first use
    pub languages: Vec<String>,
    /// Mean serendipity score of all events, in thousandths
    pub overall_serendipity: u32,
    /// Milliseconds since the Unix epoch
    pub created_at: u64,
}

/// Compressed summary of a trace.
#[derive(Debug)]
pub struct FoldedSerendipityTrace {
    pub trace_id: String,
    pub discovery_name: String,
    pub total_events: usize,
    pub key_discoveries: Vec<String>,
    pub language_transitions: Vec<String>,
    pub overall_serendipity: u32,
    /// Share of events that are key discoveries, in thousandths
    pub compression_ratio: u32,
    pub languages: Vec<String>,
}

/// Serendipity scores above this (0.7) make an event a key discovery.
pub const KEY_DISCOVERY_THRESHOLD: u32 = 700;

/// The name of the SHA-256 digest of the UTF-8 encoding of `text`, in lowercase hex.
pub uninterp spec fn sha256_hex(text: Seq<char>) -> Seq<char>;

/// Relies on sha2's `Sha256::digest` (0.10) over the UTF-8 bytes of `text`;
/// generic-array's `LowerHex` writes two lowercase hex digits per byte of the
/// 32-byte output.
#[verifier::external_body]
fn sha256_hex_of(text: &str) -> (r: String)
    ensures
        r@ == sha256_hex(text@),
        r@.len() == 64,
{
    format!("{:x}", Sha256::digest(text.as_bytes()))
}

/// Relies on chrono's `Utc::now().timestamp_millis()`: the current time in
/// milliseconds since the Unix epoch. `Utc::now` panics rather than return a
/// time before the epoch, so the value is never negative.
#[verifier::external_body]
fn utc_now_millis() -> (r: i64)
    ensures
        r >= 0,
{
    chrono::Utc::now().timestamp_millis()
}

pub open spec fn event_id_text(position: nat, now: nat) -> Seq<char> {
    "event_"@ + digits(position) + "_"@ + digits(now)
}

pub open spec fn trace_id_text(contributor: Seq<char>, now: nat) -> Seq<char> {
    "seren_"@ + contributor + "_"@ + digits(now / 1000)
}

/// Sum of the serendipity scores of `evs`.
pub open spec fn serendipity_total(evs: Seq<SerendipityEvent>) -> nat
    decreases evs.len(),
{
    if evs.len() == 0 {
        0
    } else {
        serendipity_total(evs.drop_last()) + evs.last().serendipity_score as nat
    }
}

/// Mean serendipity score of `evs`, rounded down; 0 when there is none.
pub open spec fn mean_serendipity(evs: Seq<SerendipityEvent>) -> nat {
    if evs.len() == 0 {
        0
    } else {
        serendipity_total(evs) / evs.len() as nat
    }
}

/// `t` is the transition that logging `b` right after `a` creates.
pub open spec fn links(t: SerendipityTransition, a: SerendipityEvent, b: SerendipityEvent) -> bool {
    &&& t.from_event@ == a.event_id@
    &&& t.to_event@ == b.event_id@
    &&& t.from_agent == a.agent
    &&& t.to_agent == b.agent
    &&& t.transition_score == (a.confidence + b.confidence) / 2
    &&& t.reason@ == a.stage.spec_name() + " -> "@ + b.stage.spec_name()
    &&& if a.language@ != b.language@ {
        &&& t.language_shift is Some
        &&& t.language_shift->Some_0.0@ == a.language@
        &&& t.language_shift->Some_0.1@ == b.language@
    } else {
        t.language_shift is None
    }
}

pub open spec fn language_used(evs: Seq<SerendipityEvent>, l: Seq<char>) -> bool {
    exists|i: int| 0 <= i < evs.len() && #[trigger] evs[i].language@ == l
}

/// The event that `log_event` appends at position `n`.
pub open spec fn logged_event(
    e: SerendipityEvent,
    n: nat,
    stage: SerendipityStage,
    agent: SerendipityAgent,
    input: Seq<char>,
    output: Seq<char>,
    language: Seq<char>,
    serendipity_score: u32,
    confidence: u32,
    now: u64,
) -> bool {
    &&& e.event_id@ == event_id_text(n, now as nat)
    &&& e.timestamp == now
    &&& e.stage == stage
    &&& e.agent == agent
    &&& e.input@ == input
    &&& e.output@ == output
    &&& e.language@ == language
    &&& e.serendipity_score == serendipity_score
    &&& e.confidence == confidence
    &&& e.metadata@.len() == 0
}

/// `post` is `pre` after logging one event at time `now`.
pub open spec fn logged(
    pre: SerendipityTrace,
    post: SerendipityTrace,
    stage: SerendipityStage,
    agent: SerendipityAgent,
    input: Seq<char>,
    output: Seq<char>,
    language: Seq<char>,
    serendipity_score: u32,
    confidence: u32,
    now: u64,
) -> bool {
    let n = pre.events.len();
    &&& post.events.len() == n + 1
    &&& post.events@.take(n as int) == pre.events@
    &&& logged_event(
        post.events@[n as int],
        n as nat,
        stage,
        agent,
        input,
        output,
        language,
        serendipity_score,
        confidence,
        now,
    )
    &&& if n == 0 {
        post.transitions@ == pre.transitions@
    } else {
        &&& post.transitions.len() == pre.transitions.len() + 1
        &&& post.transitions@.take(pre.transitions.len() as int) == pre.transitions@
        &&& links(post.transitions@.last(), pre.events@.last(), post.events@[n as int])
    }
    &&& if texts(pre.languages@).contains(language) {
        post.languages@ == pre.languages@
    } else {
        texts(post.languages@) == texts(pre.languages@).push(language)
    }
    &&& post.overall_serendipity == mean_serendipity(post.events@)
    &&& post.trace_id@ == pre.trace_id@
    &&& post.contributor_id@ == pre.contributor_id@
    &&& post.backend@ == pre.backend@
    &&& post.discovery_name@ == pre.discovery_name@
    &&& post.created_at == pre.created_at
}

/// Text of the events that the provenance digest covers, in order.
pub open spec fn events_material(evs: Seq<SerendipityEvent>) -> Seq<char>
    decreases evs.len(),
{
    if evs.len() == 0 {
        Seq::empty()
    } else {
        let e = evs.last();
        events_material(evs.drop_last()) + e.event_id@ + e.input@ + e.output@ + e.language@
            + score_text(e.serendipity_score as nat)
    }
}

/// Text of the transitions that the provenance digest covers, in order.
pub open spec fn transitions_material(ts: Seq<SerendipityTransition>) -> Seq<char>
    decreases ts.len(),
{
    if ts.len() == 0 {
        Seq::empty()
    } else {
        let t = ts.last();
        transitions_material(ts.drop_last()) + t.from_event@ + t.to_event@ + score_text(
            t.transition_score as nat,
        )
    }
}

/// The canonical text that the provenance digest is taken over.
pub open spec fn provenance_material(t: SerendipityTrace) -> Seq<char> {
    t.trace_id@ + t.contributor_id@ + t.backend@ + t.discovery_name@ + events_material(t.events@)
        + transitions_material(t.transitions@)
}

/// Descriptions of the events whose serendipity exceeds the key-discovery threshold.
pub open spec fn key_discoveries(evs: Seq<SerendipityEvent>) -> Seq<Seq<char>>
    decreases evs.len(),
{
    if evs.len() == 0 {
        Seq::empty()
    } else {
        let e = evs.last();
        if e.serendipity_score > KEY_DISCOVERY_THRESHOLD {
            key_discoveries(evs.drop_last()).push(e.stage.spec_name() + ": "@ + e.output@)
        } else {
            key_discoveries(evs.drop_last())
        }
    }
}

/// `<from> -> <to>` for each transition that changes language.
pub open spec fn language_shifts(ts: Seq<SerendipityTransition>) -> Seq<Seq<char>>
    decreases ts.len(),
{
    if ts.len() == 0 {
        Seq::empty()
    } else {
        match ts.last().language_shift {
            Some(p) => language_shifts(ts.drop_last()).push(p.0@ + " -> "@ + p.1@),
            None => language_shifts(ts.drop_last()),
        }
    }
}

/// `part / whole` in thousandths, rounded down; 0 when `whole` is 0.
pub open spec fn ratio(part: nat, whole: nat) -> nat {
    if whole == 0 {
        0
    } else {
        part * 1000 / whole
    }
}

pub open spec fn agent_present(evs: Seq<SerendipityEvent>, k: nat) -> bool {
    exists|i: int| 0 <= i < evs.len() && (#[trigger] evs[i].agent).spec_index() == k
}

pub open spec fn stage_present(evs: Seq<SerendipityEvent>, k: nat) -> bool {
    exists|i: int| 0 <= i < evs.len() && (#[trigger] evs[i].stage).spec_index() == k
}

/// How many of the first `k` agent kinds occur in `evs`.
pub open spec fn agents_present_below(evs: Seq<SerendipityEvent>, k: nat) -> nat
    decreases k,
{
    if k == 0 {
        0
    } else {
        agents_present_below(evs, (k - 1) as nat) + if agent_present(evs, (k - 1) as nat) {
            1nat
        } else {
            0nat
        }
    }
}

/// How many of the first `k` stages occur in `evs`.
pub open spec fn stages_present_below(evs: Seq<SerendipityEvent>, k: nat) -> nat
    decreases k,
{
    if k == 0 {
        0
    } else {
        stages_present_below(evs, (k - 1) as nat) + if stage_present(evs, (k - 1) as nat) {
            1nat
        } else {
            0nat
        }
    }
}

/// Number of distinct agent kinds in `evs`.
pub open spec fn distinct_agents(evs: Seq<SerendipityEvent>) -> nat {
    agents_present_below(evs, AGENT_KINDS as nat)
}

/// Number of distinct stages in `evs`.
pub open spec fn distinct_stages(evs: Seq<SerendipityEvent>) -> nat {
    stages_present_below(evs, STAGE_KINDS as nat)
}

/// `0.4·agents/7 + 0.3·min(languages, 5)/5 + 0.3·stages/6` in thousandths, rounded down.
pub open spec fn uniqueness(agents: nat, languages: nat, stages: nat) -> nat {
    400 * agents / 7 + 60 * (if languages < 5 {
        languages
    } else {
        5
    }) + 50 * stages
}

/// A well-formed trace (as `new` makes it and `log_event` keeps it) has one
/// transition fewer than events, none when it has no events, and transition
/// `i` links events `i` and `i + 1`.
pub proof fn lemma_transition_count(t: SerendipityTrace)
    requires
        t.wf(),
    ensures
        t.transitions.len() == if t.events.len() == 0 {
            0
        } else {
            t.events.len() - 1
        },
        forall|i: int|
            0 <= i < t.transitions.len() ==> links(
                #[trigger] t.transitions@[i],
                t.events@[i],
                t.events@[i + 1],
            ),
{
}

/// The provenance digest depends on the trace's content alone: traces with the
/// same identifiers, the same events (identifier, input, output, language,
/// serendipity) and the same transitions (endpoints, score) have the same digest.
pub proof fn lemma_provenance_deterministic(a: SerendipityTrace, b: SerendipityTrace)
    requires
        a.trace_id@ == b.trace_id@,
        a.contributor_id@ == b.contributor_id@,
        a.backend@ == b.backend@,
        a.discovery_name@ == b.discovery_name@,
        a.events.len() == b.events.len(),
        forall|i: int|
            0 <= i < a.events.len() ==> {
                &&& (#[trigger] a.events@[i]).event_id@ == b.events@[i].event_id@
                &&& a.events@[i].input@ == b.events@[i].input@
                &&& a.events@[i].output@ == b.events@[i].output@
                &&& a.events@[i].language@ == b.events@[i].language@
                &&& a.events@[i].serendipity_score == b.events@[i].serendipity_score
            },
        a.transitions.len() == b.transitions.len(),
        forall|i: int|
            0 <= i < a.transitions.len() ==> {
                &&& (#[trigger] a.transitions@[i]).from_event@ == b.transitions@[i].from_event@
                &&& a.transitions@[i].to_event@ == b.transitions@[i].to_event@
                &&& a.transitions@[i].transition_score == b.transitions@[i].transition_score
            },
    ensures
        provenance_material(a) == provenance_material(b),
        sha256_hex(provenance_material(a)) == sha256_hex(provenance_material(b)),
{
    lemma_events_material_same(a.events@, b.events@);
    lemma_transitions_material_same(a.transitions@, b.transitions@);
}

proof fn lemma_events_material_same(a: Seq<SerendipityEvent>, b: Seq<SerendipityEvent>)
    requires
        a.len() == b.len(),
        forall|i: int|
            0 <= i < a.len() ==> {
                &&& (#[trigger] a[i]).event_id@ == b[i].event_id@
                &&& a[i].input@ == b[i].input@
                &&& a[i].output@ == b[i].output@
                &&& a[i].language@ == b[i].language@
                &&& a[i].serendipity_score == b[i].serendipity_score
            },
    ensures
        events_material(a) == events_material(b),
    decreases a.len(),
{
    if a.len() > 0 {
        let n = a.len() - 1;
        assert(a[n].event_id@ == b[n].event_id@);
        lemma_events_material_same(a.drop_last(), b.drop_last());
    }
}

proof fn lemma_transitions_material_same(a: Seq<SerendipityTransition>, b: Seq<SerendipityTransition>)
    requires
        a.len() == b.len(),
        forall|i: int|
            0 <= i < a.len() ==> {
                &&& (#[trigger] a[i]).from_event@ == b[i].from_event@
                &&& a[i].to_event@ == b[i].to_event@
                &&& a[i].transition_score == b[i].transition_score
            },
    ensures
        transitions_material(a) == transitions_material(b),
    decreases a.len(),
{
    if a.len() > 0 {
        let n = a.len() - 1;
        assert(a[n].from_event@ == b[n].from_event@);
        lemma_transitions_material_same(a.drop_last(), b.drop_last());
    }
}

fn count_agents(events: &Vec<SerendipityEvent>) -> (r: usize)
    ensures
        r == distinct_agents(events@),
        r <= AGENT_KINDS,
{
    let mut count: usize = 0;
    let mut k: usize = 0;
    while k < AGENT_KINDS
        invariant
            k <= AGENT_KINDS,
            count == agents_present_below(events@, k as nat),
            count <= k,
        decreases AGENT_KINDS - k,
    {
        let mut found = false;
        let mut i: usize = 0;
        while i < events.len()
            invariant
                i <= events.len(),
                found == exists|j: int|
                    0 <= j < i && (#[trigger] events@[j].agent).spec_index() == k,
            decreases events.len() - i,
        {
            if events[i].agent.index() == k {
                found = true;
            }
            i = i + 1;
        }
        if found {
            count = count + 1;
        }
        k = k + 1;
    }
    count
}

fn count_stages(events: &Vec<SerendipityEvent>) -> (r: usize)
    ensures
        r == distinct_stages(events@),
        r <= STAGE_KINDS,
{
    let mut count: usize = 0;
    let mut k: usize = 0;
    while k < STAGE_KINDS
        invariant
            k <= STAGE_KINDS,
            count == stages_present_below(events@, k as nat),
            count <= k,
        decreases STAGE_KINDS - k,
    {
        let mut found = false;
        let mut i: usize = 0;
        while i < events.len()
            invariant
                i <= events.len(),
                found == exists|j: int|
                    0 <= j < i && (#[trigger] events@[j].stage).spec_index() == k,
            decreases events.len() - i,
        {
            if events[i].stage.index() == k {
                found = true;
            }
            i = i + 1;
        }
        if found {
            count = count + 1;
        }
        k = k + 1;
    }
    count
}

impl SerendipityTrace {
    /// The trace's invariant: one transition per consecutive pair of events,
    /// the language list is the set of the events' languages, and the overall
    /// serendipity is the mean of the events' scores.
    pub open spec fn wf(&self) -> bool {
        &&& self.transitions.len() == if self.events.len() == 0 {
            0
        } else {
            self.events.len() - 1
        }
        &&& forall|i: int|
            0 <= i < self.transitions.len() ==> links(
                #[trigger] self.transitions@[i],
                self.events@[i],
                self.events@[i + 1],
            )
        &&& texts(self.languages@).no_duplicates()
        &&& forall|l: Seq<char>|
            #[trigger] texts(self.languages@).contains(l) <==> language_used(self.events@, l)
        &&& self.overall_serendipity == mean_serendipity(self.events@)
    }

    /// An empty trace created at `now` (milliseconds since the Unix epoch).
    pub fn new_at(contributor_id: &str, backend: &str, discovery_name: &str, now: u64) -> (r: Self)
        ensures
            r.wf(),
            r.trace_id@ == trace_id_text(contributor_id@, now as nat),
            r.contributor_id@ == contributor_id@,
            r.backend@ == backend@,
            r.discovery_name@ == discovery_name@,
            r.events.len() == 0,
            r.transitions.len() == 0,
            r.languages.len() == 0,
            r.overall_serendipity == 0,
            r.created_at == now,
    {
        let mut trace_id = String::from_str("seren_");
        trace_id.append(contributor_id);
        trace_id.append("_");
        push_digits(&mut trace_id, now / 1000);
        let r = SerendipityTrace {
            trace_id,
            contributor_id: String::from_str(contributor_id),
            backend: String::from_str(backend),
            discovery_name: String::from_str(discovery_name),
            events: Vec::new(),
            transitions: Vec::new(),
            languages: Vec::new(),
            overall_serendipity: 0,
            created_at: now,
        };
        assert(texts(r.languages@) =~= Seq::<Seq<char>>::empty());
        r
    }

    /// An empty trace created now.
    pub fn new(contributor_id: &str, backend: &str, discovery_name: &str) -> (r: Self)
        ensures
            r.wf(),
            r.trace_id@ == trace_id_text(contributor_id@, r.created_at as nat),
            r.contributor_id@ == contributor_id@,
            r.backend@ == backend@,
            r.discovery_name@ == discovery_name@,
            r.events.len() == 0,
            r.transitions.len() == 0,
            r.languages.len() == 0,
            r.overall_serendipity == 0,
    {
        let now = utc_now_millis() as u64;
        Self::new_at(contributor_id, backend, discovery_name, now)
    }

    /// Appends an event logged at `now` (milliseconds since the Unix epoch),
    /// with the transition from the previous event if there is one.
    /// Scores are not checked against the range [0, 1000].
    pub fn log_event_at(
        &mut self,
        stage: SerendipityStage,
        agent: SerendipityAgent,
        input: &str,
        output: &str,
        language: &str,
        serendipity_score: u32,
        confidence: u32,
        now: u64,
    )
        ensures
            logged(
                *old(self),
                *final(self),
                stage,
                agent,
                input@,
                output@,
                language@,
                serendipity_score,
                confidence,
                now,
            ),
            old(self).wf() ==> final(self).wf(),
    {
        let ghost pre = *self;
        let n = self.events.len();
        let mut event_id = String::from_str("event_");
        push_digits(&mut event_id, n as u64);
        event_id.append("_");
        push_digits(&mut event_id, now);
        let lang = String::from_str(language);
        if !contains_text(&self.languages, language) {
            self.languages.push(lang.clone());
            assert(texts(self.languages@) =~= texts(pre.languages@).push(language@));
        }
        if n > 0 {
            let prev = &self.events[n - 1];
            let language_shift = if prev.language != lang {
                Some((prev.language.clone(), lang.clone()))
            } else {
                None
            };
            let mut reason = String::from_str(prev.stage.name());
            reason.append(" -> ");
            reason.append(stage.name());
            let t = SerendipityTransition {
                from_event: prev.event_id.clone(),
                to_event: event_id.clone(),
                from_agent: prev.agent,
                to_agent: agent,
                transition_score: ((prev.confidence as u64 + confidence as u64) / 2) as u32,
                reason,
                language_shift,
            };
            self.transitions.push(t);
        }
        let event = SerendipityEvent {
            event_id,
            timestamp: now,
            stage,
            agent,
            input: String::from_str(input),
            output: String::from_str(output),
            language: lang,
            serendipity_score,
            confidence,
            metadata: Vec::new(),
        };
        self.events.push(event);
        assert(self.events@.take(n as int) =~= pre.events@);
        assert(n > 0 ==> self.transitions@.take(pre.transitions.len() as int) =~= pre.transitions@);
        self.update_overall_serendipity();
        proof {
            if pre.wf() {
                let post = *self;
                assert forall|l: Seq<char>|
                    #[trigger] texts(post.languages@).contains(l) <==> language_used(
                        post.events@,
                        l,
                    ) by {
                    let pre_t = texts(pre.languages@);
                    let post_t = texts(post.languages@);
                    assert(forall|x: Seq<char>| pre_t.contains(x) ==> post_t.contains(x)) by {
                        assert forall|x: Seq<char>| pre_t.contains(x) implies post_t.contains(x) by {
                            let k = choose|k: int| 0 <= k < pre_t.len() && pre_t[k] == x;
                            assert(post_t[k] == x);
                        }
                    }
                    assert(post_t.contains(language@)) by {
                        if !pre_t.contains(language@) {
                            assert(post_t[pre_t.len() as int] == language@);
                        }
                    }
                    if language_used(post.events@, l) {
                        let i = choose|i: int|
                            0 <= i < post.events.len() && #[trigger] post.events@[i].language@
                                == l;
                        if i < n {
                            assert(pre.events@[i] == post.events@[i]);
                            assert(language_used(pre.events@, l));
                            assert(pre_t.contains(l));
                        } else {
                            assert(l == language@);
                        }
                    }
                    if post_t.contains(l) {
                        if pre_t.contains(l) {
                            let i = choose|i: int|
                                0 <= i < pre.events.len() && #[trigger] pre.events@[i].language@
                                    == l;
                            assert(post.events@[i] == pre.events@[i]);
                            assert(language_used(post.events@, l));
                        } else {
                            let k = choose|k: int| 0 <= k < post_t.len() && post_t[k] == l;
                            assert(k == pre_t.len());
                            assert(l == language@);
                            assert(post.events@[n as int].language@ == l);
                            assert(language_used(post.events@, l));
                        }
                    }
                }
                assert forall|i: int| 0 <= i < post.transitions.len() implies links(
                    #[trigger] post.transitions@[i],
                    post.events@[i],
                    post.events@[i + 1],
                ) by {
                    if i < pre.transitions.len() {
                        assert(post.transitions@[i] == pre.transitions@[i]);
                        assert(post.events@[i] == pre.events@[i]);
                        assert(post.events@[i + 1] == pre.events@[i + 1]);
                    }
                }
            }
        }
    }

    /// Appends an event logged now, with the transition from the previous
    /// event if there is one.
    pub fn log_event(
        &mut self,
        stage: SerendipityStage,
        agent: SerendipityAgent,
        input: &str,
        output: &str,
        language: &str,
        serendipity_score: u32,
        confidence: u32,
    )
        ensures
            logged(
                *old(self),
                *final(self),
                stage,
                agent,
                input@,
                output@,
                language@,
                serendipity_score,
                confidence,
                final(self).events@.last().timestamp,
            ),
            old(self).wf() ==> final(self).wf(),
    {
        let now = utc_now_millis() as u64;
        self.log_event_at(stage, agent, input, output, language, serendipity_score, confidence, now);
    }

    /// The canonical text that the provenance digest is taken over: the trace's
    /// identifiers, then each event's identifier, input, output, language and
    /// serendipity score, then each transition's endpoints and score.
    pub fn provenance_text(&self) -> (r: String)
        ensures
            r@ == provenance_material(*self),
    {
        let mut r = self.trace_id.clone();
        r.append(self.contributor_id.as_str());
        r.append(self.backend.as_str());
        r.append(self.discovery_name.as_str());
        let ghost head = r@;
        let mut i: usize = 0;
        while i < self.events.len()
            invariant
                i <= self.events.len(),
                r@ == head + events_material(self.events@.take(i as int)),
            decreases self.events.len() - i,
        {
            assert(self.events@.take(i + 1).drop_last() =~= self.events@.take(i as int));
            let e = &self.events[i];
            r.append(e.event_id.as_str());
            r.append(e.input.as_str());
            r.append(e.output.as_str());
            r.append(e.language.as_str());
            push_score(&mut r, e.serendipity_score);
            i = i + 1;
        }
        assert(self.events@.take(self.events.len() as int) =~= self.events@);
        let ghost mid = r@;
        let mut j: usize = 0;
        while j < self.transitions.len()
            invariant
                j <= self.transitions.len(),
                r@ == mid + transitions_material(self.transitions@.take(j as int)),
            decreases self.transitions.len() - j,
        {
            assert(self.transitions@.take(j + 1).drop_last() =~= self.transitions@.take(j as int));
            let t = &self.transitions[j];
            r.append(t.from_event.as_str());
            r.append(t.to_event.as_str());
            push_score(&mut r, t.transition_score);
            j = j + 1;
        }
        assert(self.transitions@.take(self.transitions.len() as int) =~= self.transitions@);
        r
    }

    /// SHA-256 of the provenance text, as 64 lowercase hex digits.
    pub fn compute_provenance_hash(&self) -> (r: String)
        ensures
            r@ == sha256_hex(provenance_material(*self)),
            r@.len() == 64,
    {
        let text = self.provenance_text();
        sha256_hex_of(text.as_str())
    }

    /// The trace's summary: key discoveries, language shifts and compression ratio.
    pub fn fold_memory(&self) -> (r: FoldedSerendipityTrace)
        ensures
            r.trace_id@ == self.trace_id@,
            r.discovery_name@ == self.discovery_name@,
            r.total_events == self.events.len(),
            texts(r.key_discoveries@) == key_discoveries(self.events@),
            texts(r.language_transitions@) == language_shifts(self.transitions@),
            r.overall_serendipity == self.overall_serendipity,
            r.compression_ratio == ratio(key_discoveries(self.events@).len(), self.events.len() as nat),
            texts(r.languages@) == texts(self.languages@),
    {
        let mut key: Vec<String> = Vec::new();
        let mut i: usize = 0;
        while i < self.events.len()
            invariant
                i <= self.events.len(),
                texts(key@) == key_discoveries(self.events@.take(i as int)),
                key.len() <= i,
            decreases self.events.len() - i,
        {
            assert(self.events@.take(i + 1).drop_last() =~= self.events@.take(i as int));
            let e = &self.events[i];
            if e.serendipity_score > KEY_DISCOVERY_THRESHOLD {
                let mut d = String::from_str(e.stage.name());
                d.append(": ");
                d.append(e.output.as_str());
                let ghost before = key@;
                key.push(d);
                assert(texts(key@) =~= texts(before).push(d@));
            }
            i = i + 1;
        }
        assert(self.events@.take(self.events.len() as int) =~= self.events@);
        let mut shifts: Vec<String> = Vec::new();
        let mut j: usize = 0;
        while j < self.transitions.len()
            invariant
                j <= self.transitions.len(),
                texts(shifts@) == language_shifts(self.transitions@.take(j as int)),
            decreases self.transitions.len() - j,
        {
            assert(self.transitions@.take(j + 1).drop_last() =~= self.transitions@.take(j as int));
            match &self.transitions[j].language_shift {
                Some(p) => {
                    let mut d = p.0.clone();
                    d.append(" -> ");
                    d.append(p.1.as_str());
                    let ghost before = shifts@;
                    shifts.push(d);
                    assert(texts(shifts@) =~= texts(before).push(d@));
                },
                None => {},
            }
            j = j + 1;
        }
        assert(self.transitions@.take(self.transitions.len() as int) =~= self.transitions@);
        let n = self.events.len();
        let compression_ratio: u32 = if n == 0 {
            0
        } else {
            let k = key.len() as u128;
            let total = n as u128;
            assert((k * 1000) / (total as int) <= 1000) by (nonlinear_arith)
                requires
                    k <= total,
                    total > 0,
            ;
            (k * 1000 / total) as u32
        };
        FoldedSerendipityTrace {
            trace_id: self.trace_id.clone(),
            discovery_name: self.discovery_name.clone(),
            total_events: n,
            key_discoveries: key,
            language_transitions: shifts,
            overall_serendipity: self.overall_serendipity,
            compression_ratio,
            languages: copy_texts(&self.languages),
        }
    }

    /// Number of events.
    pub fn depth(&self) -> (r: usize)
        ensures
            r == self.events.len(),
    {
        self.events.len()
    }

    /// Diversity of the trace:
    /// `0.4·agents/7 + 0.3·min(languages, 5)/5 + 0.3·stages/6`, in thousandths,
    /// counting distinct agent kinds, languages and stages. Never above 1000.
    pub fn uniqueness_score(&self) -> (r: u32)
        ensures
            r == uniqueness(
                distinct_agents(self.events@),
                self.languages.len() as nat,
                distinct_stages(self.events@),
            ),
            r <= 1000,
    {
        let agents = count_agents(&self.events) as u32;
        let stages = count_stages(&self.events) as u32;
        let languages: u32 = if self.languages.len() < 5 {
            self.languages.len() as u32
        } else {
            5
        };
        assert(400 * agents / 7 <= 400) by (nonlinear_arith)
            requires
                agents <= 7,
        ;
        400 * agents / 7 + 60 * languages + 50 * stages
    }

    /// Recomputes the overall serendipity from all events.
    fn update_overall_serendipity(&mut self)
        ensures
            final(self).overall_serendipity == mean_serendipity(final(self).events@),
            final(self).trace_id == old(self).trace_id,
            final(self).contributor_id == old(self).contributor_id,
            final(self).backend == old(self).backend,
            final(self).discovery_name == old(self).discovery_name,
            final(self).events == old(self).events,
            final(self).transitions == old(self).transitions,
            final(self).languages == old(self).languages,
            final(self).created_at == old(self).created_at,
    {
        let n = self.events.len();
        if n == 0 {
            self.overall_serendipity = 0;
            return;
        }
        let mut sum: u128 = 0;
        let mut i: usize = 0;
        while i < n
            invariant
                n == self.events.len(),
                i <= n,
                sum == serendipity_total(self.events@.take(i as int)),
                sum <= i * 0xFFFF_FFFFu128,
            decreases n - i,
        {
            assert(self.events@.take(i + 1).drop_last() =~= self.events@.take(i as int));
            sum = sum + self.events[i].serendipity_score as u128;
            i = i + 1;
        }
        assert(self.events@.take(n as int) =~= self.events@);
        assert(sum / (n as u128) <= 0xFFFF_FFFFu128) by (nonlinear_arith)
            requires
                sum <= n * 0xFFFF_FFFFu128,
                n > 0,
        ;
        self.overall_serendipity = (sum / (n as u128)) as u32;
    }
}

} // verus!
