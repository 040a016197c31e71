//! The analysis agent: builds an observation prompt from a record, hands it
//! to the model collaborator, and structures the result.
use vstd::prelude::*;
use crate::error::AgentError;
use crate::metadata::{prompt_spec, TrackMetadata, TrackMetadataView};

verus! {

/// The model collaborator. Implementors send a prompt to their provider and
/// return the response text, or an error; nothing more is assumed of them.
pub trait LLMClient {
    /// Sends `prompt` to the model and returns its response text.
    fn generate(&self, prompt: &str) -> Result<String, AgentError>;

    /// The provider's display name.
    fn provider_name(&self) -> &str;
}

/// The agent around one model client.
pub struct MusicAgent {
    llm: Box<dyn LLMClient>,
}

/// The structured result of one analysis.
pub struct AnalysisReport {
    pub metadata: TrackMetadata,
    pub analysis: String,
    pub has_issues: bool,
}

/// The full observation handed to the model: the fixed instructions, a
/// blank line, then the record's prompt rendering.
pub open spec fn observation_spec(m: TrackMetadataView) -> Seq<char> {
    "You are a music metadata expert. Analyze the provided MP3 file metadata and provide:\n\n1. **Assessment**: Evaluate the quality and completeness of the metadata\n2. **Issues**: Identify any missing, incorrect, or suspicious data\n3. **Suggestions**: Recommend specific corrections or improvements\n4. **Confidence**: Rate your confidence in the current metadata (Low/Medium/High)\n\nBe concise but thorough. Focus on actionable insights."@
        + "\n\n"@ + prompt_spec(m)
}

impl MusicAgent {
    /// An agent that consults the given model client.
    pub fn new(llm: Box<dyn LLMClient>) -> MusicAgent {
        MusicAgent { llm }
    }

    /// Observe: renders the record into the prompt handed to the model.
    fn observe(&self, metadata: &TrackMetadata) -> (r: String)
        ensures
            r@ == observation_spec(metadata.deep_view()),
    {
        let mut out = crate::text::str_chars(
            "You are a music metadata expert. Analyze the provided MP3 file metadata and provide:\n\n1. **Assessment**: Evaluate the quality and completeness of the metadata\n2. **Issues**: Identify any missing, incorrect, or suspicious data\n3. **Suggestions**: Recommend specific corrections or improvements\n4. **Confidence**: Rate your confidence in the current metadata (Low/Medium/High)\n\nBe concise but thorough. Focus on actionable insights.",
        );
        crate::text::push_str(&mut out, "\n\n");
        let rendered = metadata.to_prompt_format();
        crate::text::push_str(&mut out, rendered.as_str());
        crate::text::chars_string(&out)
    }

    /// Think: hands the observation to the model.
    fn think(&self, observation: &str) -> Result<String, AgentError> {
        self.llm.generate(observation)
    }

    /// The agent workflow: observe, think, report. Whatever text the model
    /// returns, a successful report carries an unchanged copy of the record
    /// and flags it when a critical field is missing; a model failure is
    /// passed through.
    pub fn analyze_track(&self, metadata: &TrackMetadata) -> (r: Result<AnalysisReport, AgentError>)
        ensures
            match r {
                Ok(rep) => rep.metadata.deep_view() == metadata.deep_view() && rep.has_issues == (
                metadata.artist is None || metadata.title is None),
                Err(_) => true,
            },
    {
        let observation = self.observe(metadata);
        match self.think(observation.as_str()) {
            Ok(text) => Ok(
                AnalysisReport {
                    metadata: metadata.duplicate(),
                    analysis: text,
                    has_issues: metadata.has_missing_critical_fields(),
                },
            ),
            Err(e) => Err(e),
        }
    }
}

} // verus!
