//! The metadata record read from an audio file's embedded tag: the known
//! fields, their presence, and the prompt rendering handed to the model.
use vstd::prelude::*;
use crate::num::{dec_digits, dec_i32};

verus! {

/// The metadata fields of one track; absent fields are `None`.
pub struct TrackMetadata {
    pub file_path: String,
    pub artist: Option<String>,
    pub title: Option<String>,
    pub album: Option<String>,
    pub year: Option<i32>,
    pub genre: Option<String>,
    pub track_number: Option<u32>,
    pub album_artist: Option<String>,
    pub duration_seconds: Option<u32>,
}

/// The mathematical value of a `TrackMetadata`: every text field as a
/// character sequence.
pub struct TrackMetadataView {
    pub file_path: Seq<char>,
    pub artist: Option<Seq<char>>,
    pub title: Option<Seq<char>>,
    pub album: Option<Seq<char>>,
    pub year: Option<i32>,
    pub genre: Option<Seq<char>>,
    pub track_number: Option<u32>,
    pub album_artist: Option<Seq<char>>,
    pub duration_seconds: Option<u32>,
}

impl DeepView for TrackMetadata {
    type V = TrackMetadataView;

    open spec fn deep_view(&self) -> TrackMetadataView {
        TrackMetadataView {
            file_path: self.file_path@,
            artist: self.artist.deep_view(),
            title: self.title.deep_view(),
            album: self.album.deep_view(),
            year: self.year,
            genre: self.genre.deep_view(),
            track_number: self.track_number,
            album_artist: self.album_artist.deep_view(),
            duration_seconds: self.duration_seconds,
        }
    }
}

/// The string `o` holds, or `d` when it holds none.
pub open spec fn opt_str_or(o: Option<Seq<char>>, d: Seq<char>) -> Seq<char> {
    match o {
        Some(s) => s,
        None => d,
    }
}

/// The names of the absent fields among artist, title, album, year and
/// genre, in that order.
pub open spec fn missing_fields_spec(m: TrackMetadataView) -> Seq<Seq<char>> {
    (if m.artist is None {
        seq!["artist"@]
    } else {
        Seq::empty()
    }) + (if m.title is None {
        seq!["title"@]
    } else {
        Seq::empty()
    }) + (if m.album is None {
        seq!["album"@]
    } else {
        Seq::empty()
    }) + (if m.year is None {
        seq!["year"@]
    } else {
        Seq::empty()
    }) + (if m.genre is None {
        seq!["genre"@]
    } else {
        Seq::empty()
    })
}

/// The parts joined by `sep`.
pub open spec fn join_spec(parts: Seq<Seq<char>>, sep: Seq<char>) -> Seq<char>
    decreases parts.len(),
{
    if parts.len() == 0 {
        Seq::empty()
    } else if parts.len() == 1 {
        parts[0]
    } else {
        join_spec(parts.subrange(0, parts.len() - 1), sep) + sep + parts[parts.len() - 1]
    }
}

/// Joins the parts with `sep` between them.
pub fn join(parts: &Vec<&str>, sep: &str) -> (r: Vec<char>)
    ensures
        r@ == join_spec(parts.deep_view(), sep@),
{
    let mut out: Vec<char> = Vec::new();
    let n: usize = parts.len();
    let mut i: usize = 0;
    while i < n
        invariant
            n == parts@.len(),
            i <= n,
            out@ == join_spec(parts.deep_view().subrange(0, i as int), sep@),
        decreases n - i,
    {
        if i > 0 {
            crate::text::push_str(&mut out, sep);
        }
        crate::text::push_str(&mut out, parts[i]);
        i = i + 1;
        proof {
            let dv = parts.deep_view();
            let p = dv.subrange(0, i as int);
            assert(p.subrange(0, p.len() - 1) =~= dv.subrange(0, i - 1));
            assert(parts@[i - 1].deep_view() == dv[i - 1]);
        }
    }
    proof {
        assert(parts.deep_view().subrange(0, n as int) =~= parts.deep_view());
    }
    out
}

/// The full prompt rendering of a record: every field, `(missing)` for an
/// absent one (`unknown` for an absent duration), and the list of missing
/// fields, or `None` when none is missing.
pub open spec fn prompt_spec(m: TrackMetadataView) -> Seq<char> {
    "File: "@ + m.file_path + "\n\nCurrent Metadata:\n- Artist: "@ + opt_str_or(
        m.artist,
        "(missing)"@,
    ) + "\n- Title: "@ + opt_str_or(m.title, "(missing)"@) + "\n- Album: "@ + opt_str_or(
        m.album,
        "(missing)"@,
    ) + "\n- Year: "@ + (match m.year {
        Some(y) => dec_i32(y as int),
        None => "(missing)"@,
    }) + "\n- Genre: "@ + opt_str_or(m.genre, "(missing)"@) + "\n- Track Number: "@ + (
    match m.track_number {
        Some(t) => dec_digits(t as nat),
        None => "(missing)"@,
    }) + "\n- Album Artist: "@ + opt_str_or(m.album_artist, "(missing)"@) + "\n- Duration: "@ + (
    match m.duration_seconds {
        Some(d) => dec_digits(d as nat),
        None => "unknown"@,
    }) + " seconds\n\nMissing Fields: "@ + (if missing_fields_spec(m).len() == 0 {
        "None"@
    } else {
        join_spec(missing_fields_spec(m), ", "@)
    })
}

impl TrackMetadata {
    /// A record is incomplete when either critical field (artist, title)
    /// is absent.
    pub fn has_missing_critical_fields(&self) -> (r: bool)
        ensures
            r == (self.artist is None || self.title is None),
    {
        self.artist.is_none() || self.title.is_none()
    }

    /// The names of the absent fields, in a fixed order.
    pub fn missing_fields(&self) -> (r: Vec<&'static str>)
        ensures
            r.deep_view() == missing_fields_spec(self.deep_view()),
    {
        let mut missing: Vec<&'static str> = Vec::new();
        if self.artist.is_none() {
            missing.push("artist");
        }
        if self.title.is_none() {
            missing.push("title");
        }
        if self.album.is_none() {
            missing.push("album");
        }
        if self.year.is_none() {
            missing.push("year");
        }
        if self.genre.is_none() {
            missing.push("genre");
        }
        proof {
            assert(missing.deep_view() =~~= missing_fields_spec(self.deep_view()));
        }
        missing
    }

    /// Renders the record for the model prompt.
    pub fn to_prompt_format(&self) -> (r: String)
        ensures
            r@ == prompt_spec(self.deep_view()),
    {
        let mut out: Vec<char> = Vec::new();
        crate::text::push_str(&mut out, "File: ");
        crate::text::push_str(&mut out, self.file_path.as_str());
        crate::text::push_str(&mut out, "\n\nCurrent Metadata:\n- Artist: ");
        push_opt_str(&mut out, &self.artist, "(missing)");
        crate::text::push_str(&mut out, "\n- Title: ");
        push_opt_str(&mut out, &self.title, "(missing)");
        crate::text::push_str(&mut out, "\n- Album: ");
        push_opt_str(&mut out, &self.album, "(missing)");
        crate::text::push_str(&mut out, "\n- Year: ");
        match &self.year {
            Some(y) => {
                let d = crate::num::i32_to_chars(*y);
                crate::text::push_chars(&mut out, &d);
            },
            None => {
                crate::text::push_str(&mut out, "(missing)");
            },
        }
        crate::text::push_str(&mut out, "\n- Genre: ");
        push_opt_str(&mut out, &self.genre, "(missing)");
        crate::text::push_str(&mut out, "\n- Track Number: ");
        match &self.track_number {
            Some(t) => {
                let d = crate::num::u32_to_chars(*t);
                crate::text::push_chars(&mut out, &d);
            },
            None => {
                crate::text::push_str(&mut out, "(missing)");
            },
        }
        crate::text::push_str(&mut out, "\n- Album Artist: ");
        push_opt_str(&mut out, &self.album_artist, "(missing)");
        crate::text::push_str(&mut out, "\n- Duration: ");
        match &self.duration_seconds {
            Some(d) => {
                let ds = crate::num::u32_to_chars(*d);
                crate::text::push_chars(&mut out, &ds);
            },
            None => {
                crate::text::push_str(&mut out, "unknown");
            },
        }
        crate::text::push_str(&mut out, " seconds\n\nMissing Fields: ");
        let missing = self.missing_fields();
        if missing.len() == 0 {
            crate::text::push_str(&mut out, "None");
        } else {
            let joined = join(&missing, ", ");
            crate::text::push_chars(&mut out, &joined);
        }
        proof {
            assert(out@ =~= prompt_spec(self.deep_view()));
        }
        crate::text::chars_string(&out)
    }

    /// A field-for-field copy of the record.
    pub fn duplicate(&self) -> (r: TrackMetadata)
        ensures
            r.deep_view() == self.deep_view(),
    {
        TrackMetadata {
            file_path: clone_string(&self.file_path),
            artist: clone_opt_string(&self.artist),
            title: clone_opt_string(&self.title),
            album: clone_opt_string(&self.album),
            year: self.year,
            genre: clone_opt_string(&self.genre),
            track_number: self.track_number,
            album_artist: clone_opt_string(&self.album_artist),
            duration_seconds: self.duration_seconds,
        }
    }
}

/// A copy of `s`.
pub fn clone_string(s: &String) -> (r: String)
    ensures
        r@ == s@,
{
    s.clone()
}

/// A copy of `o`.
pub fn clone_opt_string(o: &Option<String>) -> (r: Option<String>)
    ensures
        r.deep_view() == o.deep_view(),
{
    match o {
        Some(s) => Some(s.clone()),
        None => None,
    }
}

/// Appends the string `o` holds, or `d` when it holds none.
fn push_opt_str(out: &mut Vec<char>, o: &Option<String>, d: &str)
    ensures
        final(out)@ == old(out)@ + opt_str_or(o.deep_view(), d@),
{
    match o {
        Some(s) => crate::text::push_str(out, s.as_str()),
        None => crate::text::push_str(out, d),
    }
}

} // verus!
