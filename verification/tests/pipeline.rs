use music_agent::agent::{LLMClient, MusicAgent};
use music_agent::error::AgentError;
use music_agent::metadata::TrackMetadata;
use music_agent::parser::parse_suggestions;
use music_agent::paths::{create_output_path, suggestions_file_path};
use music_agent::suggestions::{MetadataSuggestion, SuggestionsReport};

fn sample_metadata() -> TrackMetadata {
    TrackMetadata {
        file_path: String::from("public/originals/song.mp3"),
        artist: Some(String::from("Grateful Dead")),
        title: None,
        album: Some(String::from("American Beauty")),
        year: Some(1970),
        genre: None,
        track_number: Some(2),
        album_artist: None,
        duration_seconds: Some(341),
    }
}

fn suggestion(field: &str, value: &str) -> MetadataSuggestion {
    MetadataSuggestion {
        field: String::from(field),
        current_value: None,
        suggested_value: String::from(value),
        confidence: String::from("Medium"),
        reason: String::new(),
    }
}

#[test]
fn test_sentinel_short_circuit() {
    let context = sample_metadata();
    let text = "SUGGESTION: title\nCURRENT: None\nSUGGESTED: Ripple\n---\nNO_SUGGESTIONS_NEEDED";
    let edits = parse_suggestions(text, &context);
    assert_eq!(edits.len(), 0);
}

#[test]
fn test_parse_end_to_end_example() {
    let context = sample_metadata();
    let text = "SUGGESTION: title\nCURRENT: None\nSUGGESTED: Friend of the Devil\nCONFIDENCE: High\nREASON: tag missing\n---";
    let edits = parse_suggestions(text, &context);
    assert_eq!(edits.len(), 1);
    assert_eq!(edits[0].field, "title");
    assert_eq!(edits[0].current_value, None);
    assert_eq!(edits[0].suggested_value, "Friend of the Devil");
    assert_eq!(edits[0].confidence, "High");
    assert_eq!(edits[0].reason, "tag missing");

    let report = SuggestionsReport::new(
        String::from("public/originals/song.mp3"),
        sample_metadata(),
        edits,
        String::from(text),
    );
    let updated = report.apply_suggestions();
    assert_eq!(updated.title.as_deref(), Some("Friend of the Devil"));
    assert_eq!(updated.artist.as_deref(), Some("Grateful Dead"));
}

#[test]
fn test_malformed_block_leniency() {
    let context = sample_metadata();
    let text = "SUGGESTION: year\nCURRENT: None\n---\nSUGGESTION: genre\nSUGGESTED: Folk Rock\n---";
    let edits = parse_suggestions(text, &context);
    assert_eq!(edits.len(), 1);
    assert_eq!(edits[0].field, "genre");
    assert_eq!(edits[0].suggested_value, "Folk Rock");
}

#[test]
fn test_parse_defaults_and_order() {
    let context = sample_metadata();
    let text = "SUGGESTION: artist\nSUGGESTED: A\n---\nSUGGESTION: artist\nCURRENT: Gratefull Dead\nSUGGESTED: B\nnoise line ignored\n---";
    let edits = parse_suggestions(text, &context);
    assert_eq!(edits.len(), 2);
    assert_eq!(edits[0].suggested_value, "A");
    assert_eq!(edits[0].confidence, "Medium");
    assert_eq!(edits[0].reason, "");
    assert_eq!(edits[0].current_value, None);
    assert_eq!(edits[1].suggested_value, "B");
    assert_eq!(edits[1].current_value.as_deref(), Some("Gratefull Dead"));
}

#[test]
fn test_parse_single_block_without_separator() {
    let context = sample_metadata();
    let text = "SUGGESTION: album\nSUGGESTED: Workingman's Dead";
    let edits = parse_suggestions(text, &context);
    assert_eq!(edits.len(), 1);
    assert_eq!(edits[0].field, "album");
    assert_eq!(edits[0].suggested_value, "Workingman's Dead");
}

#[test]
fn test_apply_last_write_wins() {
    let report = SuggestionsReport::new(
        String::from("song.mp3"),
        sample_metadata(),
        vec![suggestion("artist", "A"), suggestion("artist", "B")],
        String::new(),
    );
    let updated = report.apply_suggestions();
    assert_eq!(updated.artist.as_deref(), Some("B"));
}

#[test]
fn test_apply_numeric_guard() {
    let report = SuggestionsReport::new(
        String::from("song.mp3"),
        sample_metadata(),
        vec![
            suggestion("year", "not-a-number"),
            suggestion("track_number", "-3"),
        ],
        String::new(),
    );
    let updated = report.apply_suggestions();
    assert_eq!(updated.year, Some(1970));
    assert_eq!(updated.track_number, Some(2));
}

#[test]
fn test_apply_numeric_edits() {
    let report = SuggestionsReport::new(
        String::from("song.mp3"),
        sample_metadata(),
        vec![
            suggestion("year", "1971"),
            suggestion("track_number", "5"),
            suggestion("unknown_field", "ignored"),
        ],
        String::new(),
    );
    let updated = report.apply_suggestions();
    assert_eq!(updated.year, Some(1971));
    assert_eq!(updated.track_number, Some(5));
    assert_eq!(updated.album.as_deref(), Some("American Beauty"));
}

#[test]
fn test_apply_does_not_touch_snapshot() {
    let report = SuggestionsReport::new(
        String::from("song.mp3"),
        sample_metadata(),
        vec![suggestion("artist", "Replaced")],
        String::new(),
    );
    let _updated = report.apply_suggestions();
    assert_eq!(report.current_metadata.artist.as_deref(), Some("Grateful Dead"));
}

#[test]
fn test_save_load_round_trip() {
    let edits = vec![
        MetadataSuggestion {
            field: String::from("title"),
            current_value: Some(String::from("old \"quoted\" name")),
            suggested_value: String::from("Friend of the Devil"),
            confidence: String::from("High"),
            reason: String::from("line one\nline two\ttabbed"),
        },
        suggestion("year", "1970"),
    ];
    let mut report = SuggestionsReport::new(
        String::from("public/originals/song.mp3"),
        sample_metadata(),
        edits,
        String::from("raw model text with \\ backslash and --- separator"),
    );
    report.should_apply = true;
    let json = report.to_json();
    let loaded = SuggestionsReport::from_json(json.as_str()).expect("round trip failed");
    assert_eq!(loaded.file_path, report.file_path);
    assert_eq!(loaded.timestamp, report.timestamp);
    assert_eq!(loaded.llm_analysis, report.llm_analysis);
    assert_eq!(loaded.should_apply, true);
    assert_eq!(loaded.suggestions.len(), 2);
    assert_eq!(loaded.suggestions[0].field, "title");
    assert_eq!(
        loaded.suggestions[0].current_value.as_deref(),
        Some("old \"quoted\" name")
    );
    assert_eq!(loaded.suggestions[0].reason, "line one\nline two\ttabbed");
    assert_eq!(loaded.suggestions[1].field, "year");
    assert_eq!(loaded.current_metadata.artist.as_deref(), Some("Grateful Dead"));
    assert_eq!(loaded.current_metadata.title, None);
    assert_eq!(loaded.current_metadata.year, Some(1970));
    assert_eq!(loaded.current_metadata.duration_seconds, Some(341));
}

#[test]
fn test_from_json_rejects_malformed_text() {
    let result = SuggestionsReport::from_json("{\"file_path\": 42}");
    match result {
        Err(AgentError::MetadataParse(_)) => {}
        _ => panic!("expected a parse error"),
    }
}

#[test]
fn test_empty_suggestions_round_trip() {
    let report = SuggestionsReport::new(
        String::from("song.mp3"),
        sample_metadata(),
        Vec::new(),
        String::new(),
    );
    let loaded = SuggestionsReport::from_json(report.to_json().as_str()).unwrap();
    assert_eq!(loaded.suggestions.len(), 0);
    assert_eq!(loaded.should_apply, false);
}

#[test]
fn test_directory_derivation() {
    assert_eq!(
        suggestions_file_path("/lib/public/originals/song.mp3"),
        "/lib/public/suggestions/song.suggestions.json"
    );
    let taken: Vec<String> = Vec::new();
    assert_eq!(
        create_output_path("/lib/public/originals/song.mp3", &taken),
        "/lib/public/updated/song.mp3"
    );
    assert_eq!(
        suggestions_file_path("public/song.mp3"),
        "public/suggestions/song.suggestions.json"
    );
    assert_eq!(
        suggestions_file_path("elsewhere/song.mp3"),
        "elsewhere/suggestions/song.suggestions.json"
    );
    assert_eq!(suggestions_file_path("song.mp3"), "suggestions/song.suggestions.json");
}

#[test]
fn test_collision_avoidance() {
    let taken: Vec<String> = Vec::new();
    let first = create_output_path("test/song.mp3", &taken);
    assert_eq!(first, "test/updated/song.mp3");
    let taken = vec![first.clone()];
    let second = create_output_path("test/song.mp3", &taken);
    assert_eq!(second, "test/updated/song-1.mp3");
    let taken = vec![first.clone(), second.clone()];
    let third = create_output_path("test/song.mp3", &taken);
    assert_eq!(third, "test/updated/song-2.mp3");
}

#[test]
fn test_output_path_creation() {
    let taken: Vec<String> = Vec::new();
    let output = create_output_path("test/song.mp3", &taken);
    assert!(output.contains("updated"));
    assert!(output.ends_with("song.mp3"));
}

#[test]
fn test_mp3_extension_check() {
    assert!(music_agent::paths::is_mp3_path("test/song.mp3"));
    assert!(!music_agent::paths::is_mp3_path("Cargo.toml"));
    assert!(!music_agent::paths::is_mp3_path("song.mp3.bak"));
    assert!(!music_agent::paths::is_mp3_path(".mp3"));
    assert!(!music_agent::paths::is_mp3_path("noext"));
}

#[test]
fn test_missing_fields() {
    let m = sample_metadata();
    assert_eq!(m.missing_fields(), vec!["title", "genre"]);
    assert!(m.has_missing_critical_fields());
    let full = TrackMetadata {
        artist: Some(String::from("a")),
        title: Some(String::from("t")),
        album: Some(String::from("al")),
        year: Some(2000),
        genre: Some(String::from("g")),
        ..sample_metadata()
    };
    assert_eq!(full.missing_fields(), Vec::<&str>::new());
    assert!(!full.has_missing_critical_fields());
}

#[test]
fn test_prompt_format() {
    let m = sample_metadata();
    let expected = "File: public/originals/song.mp3\n\nCurrent Metadata:\n- Artist: Grateful Dead\n- Title: (missing)\n- Album: American Beauty\n- Year: 1970\n- Genre: (missing)\n- Track Number: 2\n- Album Artist: (missing)\n- Duration: 341 seconds\n\nMissing Fields: title, genre";
    assert_eq!(m.to_prompt_format(), expected);
}

#[test]
fn test_prompt_format_negative_year_and_empty() {
    let m = TrackMetadata {
        file_path: String::from("x.mp3"),
        artist: None,
        title: None,
        album: None,
        year: Some(-1),
        genre: None,
        track_number: None,
        album_artist: None,
        duration_seconds: None,
    };
    let expected = "File: x.mp3\n\nCurrent Metadata:\n- Artist: (missing)\n- Title: (missing)\n- Album: (missing)\n- Year: -1\n- Genre: (missing)\n- Track Number: (missing)\n- Album Artist: (missing)\n- Duration: unknown seconds\n\nMissing Fields: artist, title, album, genre";
    assert_eq!(m.to_prompt_format(), expected);
}

struct CannedClient {
    response: String,
}

impl LLMClient for CannedClient {
    fn generate(&self, _prompt: &str) -> Result<String, AgentError> {
        Ok(self.response.clone())
    }

    fn provider_name(&self) -> &str {
        "Canned"
    }
}

struct FailingClient;

impl LLMClient for FailingClient {
    fn generate(&self, _prompt: &str) -> Result<String, AgentError> {
        Err(AgentError::LlmRequest(String::from("connection refused")))
    }

    fn provider_name(&self) -> &str {
        "Failing"
    }
}

#[test]
fn test_analyze_track_reports_issues() {
    let agent = MusicAgent::new(Box::new(CannedClient {
        response: String::from("looks sparse"),
    }));
    let report = agent.analyze_track(&sample_metadata()).unwrap();
    assert!(report.has_issues);
    assert_eq!(report.analysis, "looks sparse");
    assert_eq!(report.metadata.artist.as_deref(), Some("Grateful Dead"));
}

#[test]
fn test_analyze_track_propagates_model_error() {
    let agent = MusicAgent::new(Box::new(FailingClient));
    let result = agent.analyze_track(&sample_metadata());
    match result {
        Err(AgentError::LlmRequest(msg)) => assert_eq!(msg, "connection refused"),
        _ => panic!("expected a model-request error"),
    }
}

#[test]
fn test_error_message_accessor() {
    let e = AgentError::FileRead(String::from("missing file"));
    assert_eq!(e.message(), "missing file");
}

#[test]
fn test_new_report_defaults() {
    let report = SuggestionsReport::new(
        String::from("song.mp3"),
        sample_metadata(),
        Vec::new(),
        String::from("analysis"),
    );
    assert_eq!(report.file_path, "song.mp3");
    assert_eq!(report.llm_analysis, "analysis");
    assert!(!report.should_apply);
}
