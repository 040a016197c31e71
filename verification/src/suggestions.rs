//! The suggestions report: a metadata snapshot, the parsed field edits, the
//! raw model text, and the deterministic apply step that replays the edits
//! onto a copy of the snapshot.
use vstd::prelude::*;
use crate::metadata::{TrackMetadata, TrackMetadataView};
use crate::num::{i32_parse_spec, u32_parse_spec};

verus! {

/// One suggested change to a single metadata field.
pub struct MetadataSuggestion {
    pub field: String,
    pub current_value: Option<String>,
    pub suggested_value: String,
    pub confidence: String,
    pub reason: String,
}

/// The mathematical value of a `MetadataSuggestion`.
pub struct SuggestionView {
    pub field: Seq<char>,
    pub current_value: Option<Seq<char>>,
    pub suggested_value: Seq<char>,
    pub confidence: Seq<char>,
    pub reason: Seq<char>,
}

impl DeepView for MetadataSuggestion {
    type V = SuggestionView;

    open spec fn deep_view(&self) -> SuggestionView {
        SuggestionView {
            field: self.field@,
            current_value: self.current_value.deep_view(),
            suggested_value: self.suggested_value@,
            confidence: self.confidence@,
            reason: self.reason@,
        }
    }
}

/// The durable bundle of one analysis: snapshot, edits, raw model text.
pub struct SuggestionsReport {
    pub file_path: String,
    pub timestamp: String,
    pub current_metadata: TrackMetadata,
    pub suggestions: Vec<MetadataSuggestion>,
    pub llm_analysis: String,
    pub should_apply: bool,
}

/// The mathematical value of a `SuggestionsReport`.
pub struct ReportView {
    pub file_path: Seq<char>,
    pub timestamp: Seq<char>,
    pub current_metadata: TrackMetadataView,
    pub suggestions: Seq<SuggestionView>,
    pub llm_analysis: Seq<char>,
    pub should_apply: bool,
}

impl DeepView for SuggestionsReport {
    type V = ReportView;

    open spec fn deep_view(&self) -> ReportView {
        ReportView {
            file_path: self.file_path@,
            timestamp: self.timestamp@,
            current_metadata: self.current_metadata.deep_view(),
            suggestions: self.suggestions.deep_view(),
            llm_analysis: self.llm_analysis@,
            should_apply: self.should_apply,
        }
    }
}

/// Relies on `chrono::Local::now` and `chrono::DateTime::to_rfc3339`: the
/// current local time rendered in RFC 3339 form. The result depends on the
/// clock, so nothing is promised of it.
#[verifier::external_body]
fn now_rfc3339() -> String {
    chrono::Local::now().to_rfc3339()
}

/// One edit replayed onto a record: a recognized string field is overwritten
/// outright; `year` and `track_number` are overwritten only when the
/// proposed value parses as an integer of the right range; any other field
/// name has no effect.
pub open spec fn apply_edit(m: TrackMetadataView, e: SuggestionView) -> TrackMetadataView {
    if e.field == "artist"@ {
        TrackMetadataView { artist: Some(e.suggested_value), ..m }
    } else if e.field == "title"@ {
        TrackMetadataView { title: Some(e.suggested_value), ..m }
    } else if e.field == "album"@ {
        TrackMetadataView { album: Some(e.suggested_value), ..m }
    } else if e.field == "year"@ {
        match i32_parse_spec(e.suggested_value) {
            Some(v) => if i32::MIN <= v <= i32::MAX {
                TrackMetadataView { year: Some(v as i32), ..m }
            } else {
                m
            },
            None => m,
        }
    } else if e.field == "genre"@ {
        TrackMetadataView { genre: Some(e.suggested_value), ..m }
    } else if e.field == "album_artist"@ {
        TrackMetadataView { album_artist: Some(e.suggested_value), ..m }
    } else if e.field == "track_number"@ {
        match u32_parse_spec(e.suggested_value) {
            Some(v) => if v <= u32::MAX {
                TrackMetadataView { track_number: Some(v as u32), ..m }
            } else {
                m
            },
            None => m,
        }
    } else {
        m
    }
}

/// The edits replayed in stored order, each overwriting unconditionally, so
/// the last edit for a field wins.
pub open spec fn apply_edits(m: TrackMetadataView, edits: Seq<SuggestionView>) -> TrackMetadataView
    decreases edits.len(),
{
    if edits.len() == 0 {
        m
    } else {
        apply_edit(apply_edits(m, edits.drop_last()), edits.last())
    }
}

impl SuggestionsReport {
    /// A fresh report around the given snapshot and edits; the timestamp is
    /// taken from the clock and `should_apply` starts false.
    pub fn new(
        file_path: String,
        current_metadata: TrackMetadata,
        suggestions: Vec<MetadataSuggestion>,
        llm_analysis: String,
    ) -> (r: SuggestionsReport)
        ensures
            r.file_path@ == file_path@,
            r.current_metadata.deep_view() == current_metadata.deep_view(),
            r.suggestions.deep_view() == suggestions.deep_view(),
            r.llm_analysis@ == llm_analysis@,
            r.should_apply == false,
    {
        SuggestionsReport {
            file_path,
            timestamp: now_rfc3339(),
            current_metadata,
            suggestions,
            llm_analysis,
            should_apply: false,
        }
    }

    /// Replays the stored edits, in order, onto a copy of the snapshot; the
    /// report itself is left untouched.
    pub fn apply_suggestions(&self) -> (r: TrackMetadata)
        ensures
            r.deep_view() == apply_edits(
                self.current_metadata.deep_view(),
                self.suggestions.deep_view(),
            ),
    {
        let ghost m0 = self.current_metadata.deep_view();
        let ghost dv = self.suggestions.deep_view();
        let mut updated = self.current_metadata.duplicate();
        let n: usize = self.suggestions.len();
        let mut i: usize = 0;
        while i < n
            invariant
                n == self.suggestions@.len(),
                dv == self.suggestions.deep_view(),
                m0 == self.current_metadata.deep_view(),
                i <= n,
                updated.deep_view() == apply_edits(m0, dv.subrange(0, i as int)),
            decreases n - i,
        {
            let s = &self.suggestions[i];
            proof {
                assert(s.deep_view() == dv[i as int]);
                reveal_strlit("artist");
                reveal_strlit("title");
                reveal_strlit("album");
                reveal_strlit("year");
                reveal_strlit("genre");
                reveal_strlit("album_artist");
                reveal_strlit("track_number");
            }
            if crate::text::str_eq(s.field.as_str(), "artist") {
                updated.artist = Some(crate::metadata::clone_string(&s.suggested_value));
            } else if crate::text::str_eq(s.field.as_str(), "title") {
                updated.title = Some(crate::metadata::clone_string(&s.suggested_value));
            } else if crate::text::str_eq(s.field.as_str(), "album") {
                updated.album = Some(crate::metadata::clone_string(&s.suggested_value));
            } else if crate::text::str_eq(s.field.as_str(), "year") {
                let chars = crate::text::str_chars(s.suggested_value.as_str());
                match crate::num::parse_i32(&chars) {
                    Some(y) => {
                        updated.year = Some(y);
                    },
                    None => {},
                }
            } else if crate::text::str_eq(s.field.as_str(), "genre") {
                updated.genre = Some(crate::metadata::clone_string(&s.suggested_value));
            } else if crate::text::str_eq(s.field.as_str(), "album_artist") {
                updated.album_artist = Some(crate::metadata::clone_string(&s.suggested_value));
            } else if crate::text::str_eq(s.field.as_str(), "track_number") {
                let chars = crate::text::str_chars(s.suggested_value.as_str());
                match crate::num::parse_u32(&chars) {
                    Some(t) => {
                        updated.track_number = Some(t);
                    },
                    None => {},
                }
            }
            i = i + 1;
            proof {
                assert(dv.subrange(0, i as int).drop_last() =~= dv.subrange(0, i - 1));
                assert(dv.subrange(0, i as int).last() == dv[i - 1]);
                assert(updated.deep_view() == apply_edit(
                    apply_edits(m0, dv.subrange(0, i - 1)),
                    dv[i - 1],
                ));
            }
        }
        proof {
            assert(dv.subrange(0, n as int) =~= dv);
        }
        updated
    }
}

/// The string field of a record that a recognized field name selects.
pub open spec fn string_field_of(m: TrackMetadataView, fname: Seq<char>) -> Option<Seq<char>> {
    if fname == "artist"@ {
        m.artist
    } else if fname == "title"@ {
        m.title
    } else if fname == "album"@ {
        m.album
    } else if fname == "genre"@ {
        m.genre
    } else {
        m.album_artist
    }
}

/// `fname` is one of the recognized string field names.
pub open spec fn is_string_field(fname: Seq<char>) -> bool {
    fname == "artist"@ || fname == "title"@ || fname == "album"@ || fname == "genre"@ || fname
        == "album_artist"@
}

/// Last write wins: when the edit at `i` targets a string field and no later
/// edit targets that field, replaying the whole sequence leaves the field at
/// that edit's proposed value.
pub proof fn lemma_last_write_wins(
    m: TrackMetadataView,
    edits: Seq<SuggestionView>,
    i: int,
    fname: Seq<char>,
)
    requires
        0 <= i < edits.len(),
        is_string_field(fname),
        edits[i].field == fname,
        forall|j: int| i < j < edits.len() ==> edits[j].field != fname,
    ensures
        string_field_of(apply_edits(m, edits), fname) == Some(edits[i].suggested_value),
    decreases edits.len(),
{
    reveal_strlit("artist");
    reveal_strlit("title");
    reveal_strlit("album");
    reveal_strlit("year");
    reveal_strlit("genre");
    reveal_strlit("album_artist");
    reveal_strlit("track_number");
    assert("artist"@.len() == 6);
    assert("title"@.len() == 5);
    assert("album"@.len() == 5);
    assert("year"@.len() == 4);
    assert("genre"@.len() == 5);
    assert("album_artist"@.len() == 12);
    assert("track_number"@.len() == 12);
    assert("title"@[0] == 't' && "album"@[0] == 'a' && "genre"@[0] == 'g');
    assert("album_artist"@[0] == 'a' && "track_number"@[0] == 't');
    assert("title"@ != "album"@ && "title"@ != "genre"@ && "album"@ != "genre"@);
    assert("album_artist"@ != "track_number"@);
    let prev = apply_edits(m, edits.drop_last());
    let e = edits.last();
    if i == edits.len() - 1 {
        assert(e.field == fname);
        if fname == "artist"@ {
            assert(apply_edit(prev, e).artist == Some(e.suggested_value));
        } else if fname == "title"@ {
            assert(apply_edit(prev, e).title == Some(e.suggested_value));
        } else if fname == "album"@ {
            assert(apply_edit(prev, e).album == Some(e.suggested_value));
        } else if fname == "genre"@ {
            assert(apply_edit(prev, e).genre == Some(e.suggested_value));
        } else {
            assert(fname == "album_artist"@);
            assert(apply_edit(prev, e).album_artist == Some(e.suggested_value));
        }
        assert(string_field_of(apply_edit(prev, e), fname) == Some(e.suggested_value));
    } else {
        assert(edits.drop_last()[i] == edits[i]);
        lemma_last_write_wins(m, edits.drop_last(), i, fname);
        assert(e.field != fname);
        assert(string_field_of(apply_edit(prev, e), fname) == string_field_of(prev, fname));
    }
}

} // verus!
