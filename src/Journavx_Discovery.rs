//! The Journavx discovery: a nine-step research trace alternating between
//! English and Indonesian.
use crate::text::texts;
use crate::serendipity_trace::{SerendipityAgent, SerendipityStage, SerendipityTrace};
use vstd::prelude::*;

verus! {

/// Builds the trace of the Journavx discovery by contributor `dr_sari_wijaya`.
pub fn simulate_journavx_discovery() -> (r: SerendipityTrace)
    ensures
        r.wf(),
        r.discovery_name@ == "Journavx"@,
        r.contributor_id@ == "dr_sari_wijaya"@,
        r.events.len() == 9,
        r.transitions.len() == 8,
        texts(r.languages@) == seq!["en"@, "id"@],
        r.overall_serendipity == 846,
{
    proof {
        reveal_strlit("en");
        reveal_strlit("id");
    }
    let mut trace = SerendipityTrace::new("dr_sari_wijaya", "quantum_serenqa_v1", "Journavx");
    trace.log_event(
        SerendipityStage::Exploration,
        SerendipityAgent::Explorer,
        "Research quantum navigation algorithms for autonomous systems",
        "Found interesting patterns in quantum walk algorithms for graph traversal",
        "en",
        650,
        880,
    );
    assert(texts(trace.languages@) =~= seq!["en"@]);
    assert(!texts(trace.languages@).contains("id"@)) by {
        assert("en"@[0] != "id"@[0]);
    }
    trace.log_event(
        SerendipityStage::UnexpectedConnection,
        SerendipityAgent::PatternRecognizer,
        "Analisis pola navigasi dalam konteks budaya Indonesia",
        "Menemukan kesamaan antara navigasi tradisional Jawa dan algoritma quantum walk",
        "id",
        920,
        850,
    );
    assert(texts(trace.languages@) =~= seq!["en"@, "id"@]) by {
        assert(texts(trace.languages@)[0] == "en"@);
        assert(texts(trace.languages@)[1] == "id"@);
    }
    trace.log_event(
        SerendipityStage::HypothesisFormation,
        SerendipityAgent::Translator,
        "Translate Indonesian findings: Traditional Javanese navigation patterns",
        "Javanese navigation principles align with quantum superposition concepts",
        "en",
        880,
        900,
    );
    assert(texts(trace.languages@) =~= seq!["en"@, "id"@]) by {
        assert(texts(trace.languages@)[0] == "en"@);
        assert(texts(trace.languages@)[1] == "id"@);
    }
    trace.log_event(
        SerendipityStage::HypothesisFormation,
        SerendipityAgent::HypothesisGenerator,
        "Formulate hypothesis combining quantum navigation and Javanese principles",
        "Hypothesis: 'Journavx' - Java-inspired quantum navigation using cultural wayfinding",
        "en",
        950,
        920,
    );
    assert(texts(trace.languages@) =~= seq!["en"@, "id"@]) by {
        assert(texts(trace.languages@)[0] == "en"@);
        assert(texts(trace.languages@)[1] == "id"@);
    }
    trace.log_event(
        SerendipityStage::Validation,
        SerendipityAgent::Validator,
        "Validasi konsep Journavx dengan ahli navigasi tradisional",
        "Konfirmasi: Prinsip 'ngelmu titen' dalam navigasi Jawa cocok dengan quantum sensing",
        "id",
        870,
        890,
    );
    assert(texts(trace.languages@) =~= seq!["en"@, "id"@]) by {
        assert(texts(trace.languages@)[0] == "en"@);
        assert(texts(trace.languages@)[1] == "id"@);
    }
    trace.log_event(
        SerendipityStage::Validation,
        SerendipityAgent::Validator,
        "Test Journavx algorithm on quantum simulator",
        "Results: 23% improvement in navigation efficiency vs standard quantum walk",
        "en",
        780,
        940,
    );
    assert(texts(trace.languages@) =~= seq!["en"@, "id"@]) by {
        assert(texts(trace.languages@)[0] == "en"@);
        assert(texts(trace.languages@)[1] == "id"@);
    }
    trace.log_event(
        SerendipityStage::Integration,
        SerendipityAgent::Synthesizer,
        "Integrate Journavx into quantum navigation framework",
        "Successfully integrated cultural wayfinding principles into quantum algorithm",
        "en",
        820,
        910,
    );
    assert(texts(trace.languages@) =~= seq!["en"@, "id"@]) by {
        assert(texts(trace.languages@)[0] == "en"@);
        assert(texts(trace.languages@)[1] == "id"@);
    }
    trace.log_event(
        SerendipityStage::Publication,
        SerendipityAgent::Synthesizer,
        "Persiapan publikasi: Journavx - Algoritma Navigasi Quantum berbasis Budaya Jawa",
        "Draft paper menggabungkan quantum computing dan kearifan lokal Indonesia",
        "id",
        850,
        880,
    );
    assert(texts(trace.languages@) =~= seq!["en"@, "id"@]) by {
        assert(texts(trace.languages@)[0] == "en"@);
        assert(texts(trace.languages@)[1] == "id"@);
    }
    trace.log_event(
        SerendipityStage::Publication,
        SerendipityAgent::MetaOrchestrator,
        "Submit to Nature Quantum Information: Journavx discovery",
        "Paper accepted: 'Cultural Wayfinding Principles in Quantum Navigation Algorithms'",
        "en",
        900,
        950,
    );
    assert(texts(trace.languages@)[1] == "id"@);
    proof {
        let evs = trace.events@;
        reveal_with_fuel(crate::serendipity_trace::serendipity_total, 10);
        assert(evs.take(8).take(7) =~= evs.take(7));
        assert(evs.take(1)[0] == evs[0]);
    }
    trace
}

} // verus!
