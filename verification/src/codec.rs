//! The durable form of a suggestions report: a JSON rendering with a fixed
//! field order, written and read back by verified code. The decoder accepts
//! exactly what the encoder emits; reading anything else is a parse error.
//! The round trip — decoding an encoded report yields the same value — is
//! proved in `lemma_save_load_round_trip`.
use vstd::prelude::*;
use crate::metadata::{TrackMetadata, TrackMetadataView};
use crate::num::{dec_digits, dec_i32, is_digit, is_digits, str_to_nat};
use crate::suggestions::{MetadataSuggestion, ReportView, SuggestionView, SuggestionsReport};
use crate::text::{chars_string, push_chars, push_str, starts_with_spec, str_chars, sub_vec};

verus! {

// ---------------------------------------------------------------------------
// Encoding
// ---------------------------------------------------------------------------
/// The escape of one character inside a JSON string.
pub open spec fn esc_char(c: char) -> Seq<char> {
    if c == '"' {
        seq!['\\', '"']
    } else if c == '\\' {
        seq!['\\', '\\']
    } else if c == '\n' {
        seq!['\\', 'n']
    } else if c == '\r' {
        seq!['\\', 'r']
    } else if c == '\t' {
        seq!['\\', 't']
    } else {
        seq![c]
    }
}

/// The body of a JSON string: every character escaped.
pub open spec fn esc(s: Seq<char>) -> Seq<char>
    decreases s.len(),
{
    if s.len() == 0 {
        Seq::empty()
    } else {
        esc_char(s[0]) + esc(s.subrange(1, s.len() as int))
    }
}

/// A JSON string.
pub open spec fn enc_str(s: Seq<char>) -> Seq<char> {
    seq!['"'] + esc(s) + seq!['"']
}

/// A JSON string or `null`.
pub open spec fn enc_opt_str(o: Option<Seq<char>>) -> Seq<char> {
    match o {
        Some(s) => enc_str(s),
        None => "null"@,
    }
}

/// A JSON number or `null`.
pub open spec fn enc_opt_u32(o: Option<u32>) -> Seq<char> {
    match o {
        Some(n) => dec_digits(n as nat),
        None => "null"@,
    }
}

/// A JSON number or `null`.
pub open spec fn enc_opt_i32(o: Option<i32>) -> Seq<char> {
    match o {
        Some(n) => dec_i32(n as int),
        None => "null"@,
    }
}

/// A JSON boolean.
pub open spec fn enc_bool(b: bool) -> Seq<char> {
    if b {
        "true"@
    } else {
        "false"@
    }
}

/// The metadata snapshot as a JSON object with a fixed field order.
pub open spec fn enc_meta(m: TrackMetadataView) -> Seq<char> {
    "{\"file_path\":"@ + enc_str(m.file_path) + ",\"artist\":"@ + enc_opt_str(m.artist)
        + ",\"title\":"@ + enc_opt_str(m.title) + ",\"album\":"@ + enc_opt_str(m.album)
        + ",\"year\":"@ + enc_opt_i32(m.year) + ",\"genre\":"@ + enc_opt_str(m.genre)
        + ",\"track_number\":"@ + enc_opt_u32(m.track_number) + ",\"album_artist\":"@
        + enc_opt_str(m.album_artist) + ",\"duration_seconds\":"@ + enc_opt_u32(
        m.duration_seconds,
    ) + "}"@
}

/// One field edit as a JSON object with a fixed field order.
pub open spec fn enc_sugg(e: SuggestionView) -> Seq<char> {
    "{\"field\":"@ + enc_str(e.field) + ",\"current_value\":"@ + enc_opt_str(e.current_value)
        + ",\"suggested_value\":"@ + enc_str(e.suggested_value) + ",\"confidence\":"@ + enc_str(
        e.confidence,
    ) + ",\"reason\":"@ + enc_str(e.reason) + "}"@
}

/// The tail of a JSON array: `,` and an item for each remaining edit, then
/// the closing bracket.
pub open spec fn enc_more(es: Seq<SuggestionView>) -> Seq<char>
    decreases es.len(),
{
    if es.len() == 0 {
        "]"@
    } else {
        ","@ + enc_sugg(es[0]) + enc_more(es.subrange(1, es.len() as int))
    }
}

/// The edit sequence as a JSON array, in order.
pub open spec fn enc_suggs(es: Seq<SuggestionView>) -> Seq<char> {
    if es.len() == 0 {
        "[]"@
    } else {
        "["@ + enc_sugg(es[0]) + enc_more(es.subrange(1, es.len() as int))
    }
}

/// The whole report as a JSON object with a fixed field order.
pub open spec fn enc_report(v: ReportView) -> Seq<char> {
    "{\"file_path\":"@ + enc_str(v.file_path) + ",\"timestamp\":"@ + enc_str(v.timestamp)
        + ",\"current_metadata\":"@ + enc_meta(v.current_metadata) + ",\"suggestions\":"@
        + enc_suggs(v.suggestions) + ",\"llm_analysis\":"@ + enc_str(v.llm_analysis)
        + ",\"should_apply\":"@ + enc_bool(v.should_apply) + "}"@
}

// ---------------------------------------------------------------------------
// Decoding
// ---------------------------------------------------------------------------
/// The rest of `s` after the expected literal, when `s` starts with it.
pub open spec fn dec_lit(s: Seq<char>, lit: Seq<char>) -> Option<Seq<char>> {
    if starts_with_spec(s, lit) {
        Some(s.subrange(lit.len() as int, s.len() as int))
    } else {
        None
    }
}

/// The character an escape code stands for.
pub open spec fn unesc_char(c: char) -> Option<char> {
    if c == '"' {
        Some('"')
    } else if c == '\\' {
        Some('\\')
    } else if c == 'n' {
        Some('\n')
    } else if c == 'r' {
        Some('\r')
    } else if c == 't' {
        Some('\t')
    } else {
        None
    }
}

/// The body of a JSON string read up to its closing quote: the unescaped
/// characters and the rest of the input.
pub open spec fn dec_str_body(s: Seq<char>) -> Option<(Seq<char>, Seq<char>)>
    decreases s.len(),
{
    if s.len() == 0 {
        None
    } else if s[0] == '"' {
        Some((Seq::empty(), s.subrange(1, s.len() as int)))
    } else if s[0] == '\\' {
        if s.len() < 2 {
            None
        } else {
            match unesc_char(s[1]) {
                None => None,
                Some(c) => match dec_str_body(s.subrange(2, s.len() as int)) {
                    None => None,
                    Some((t, rest)) => Some((seq![c] + t, rest)),
                },
            }
        }
    } else {
        match dec_str_body(s.subrange(1, s.len() as int)) {
            None => None,
            Some((t, rest)) => Some((seq![s[0]] + t, rest)),
        }
    }
}

/// A JSON string read off the front of `s`.
pub open spec fn dec_str(s: Seq<char>) -> Option<(Seq<char>, Seq<char>)> {
    if s.len() > 0 && s[0] == '"' {
        dec_str_body(s.subrange(1, s.len() as int))
    } else {
        None
    }
}

/// The maximal run of digits at the front of `s`, and the rest.
pub open spec fn digits_run(s: Seq<char>) -> (Seq<char>, Seq<char>)
    decreases s.len(),
{
    if s.len() > 0 && is_digit(s[0]) {
        let (d, r) = digits_run(s.subrange(1, s.len() as int));
        (seq![s[0]] + d, r)
    } else {
        (Seq::empty(), s)
    }
}

/// An unsigned number read off the front of `s`, when its digits fit a
/// `u32`.
pub open spec fn dec_u32(s: Seq<char>) -> Option<(u32, Seq<char>)> {
    let (d, r) = digits_run(s);
    if is_digits(d) && str_to_nat(d) <= u32::MAX {
        Some((str_to_nat(d) as u32, r))
    } else {
        None
    }
}

/// A signed number read off the front of `s`, when it fits an `i32`.
pub open spec fn dec_i32_num(s: Seq<char>) -> Option<(i32, Seq<char>)> {
    if s.len() > 0 && s[0] == '-' {
        let (d, r) = digits_run(s.subrange(1, s.len() as int));
        if is_digits(d) && -(str_to_nat(d) as int) >= i32::MIN {
            Some(((-(str_to_nat(d) as int)) as i32, r))
        } else {
            None
        }
    } else {
        let (d, r) = digits_run(s);
        if is_digits(d) && str_to_nat(d) <= i32::MAX {
            Some((str_to_nat(d) as i32, r))
        } else {
            None
        }
    }
}

/// A JSON boolean read off the front of `s`.
pub open spec fn dec_bool(s: Seq<char>) -> Option<(bool, Seq<char>)> {
    if starts_with_spec(s, "true"@) {
        Some((true, s.subrange("true"@.len() as int, s.len() as int)))
    } else if starts_with_spec(s, "false"@) {
        Some((false, s.subrange("false"@.len() as int, s.len() as int)))
    } else {
        None
    }
}

/// A JSON string or `null` read off the front of `s`.
pub open spec fn dec_opt_str(s: Seq<char>) -> Option<(Option<Seq<char>>, Seq<char>)> {
    if starts_with_spec(s, "null"@) {
        Some((None, s.subrange("null"@.len() as int, s.len() as int)))
    } else {
        match dec_str(s) {
            Some((t, r)) => Some((Some(t), r)),
            None => None,
        }
    }
}

/// A JSON number or `null` read off the front of `s`.
pub open spec fn dec_opt_u32(s: Seq<char>) -> Option<(Option<u32>, Seq<char>)> {
    if starts_with_spec(s, "null"@) {
        Some((None, s.subrange("null"@.len() as int, s.len() as int)))
    } else {
        match dec_u32(s) {
            Some((n, r)) => Some((Some(n), r)),
            None => None,
        }
    }
}

/// A JSON number or `null` read off the front of `s`.
pub open spec fn dec_opt_i32(s: Seq<char>) -> Option<(Option<i32>, Seq<char>)> {
    if starts_with_spec(s, "null"@) {
        Some((None, s.subrange("null"@.len() as int, s.len() as int)))
    } else {
        match dec_i32_num(s) {
            Some((n, r)) => Some((Some(n), r)),
            None => None,
        }
    }
}

/// The metadata object read off the front of `s`.
pub open spec fn dec_meta(s: Seq<char>) -> Option<(TrackMetadataView, Seq<char>)> {
    match dec_lit(s, "{\"file_path\":"@) {
        None => None,
        Some(s1) => match dec_str(s1) {
            None => None,
            Some((file_path, s2)) => match dec_lit(s2, ",\"artist\":"@) {
                None => None,
                Some(s3) => match dec_opt_str(s3) {
                    None => None,
                    Some((artist, s4)) => match dec_lit(s4, ",\"title\":"@) {
                        None => None,
                        Some(s5) => match dec_opt_str(s5) {
                            None => None,
                            Some((title, s6)) => match dec_lit(s6, ",\"album\":"@) {
                                None => None,
                                Some(s7) => match dec_opt_str(s7) {
                                    None => None,
                                    Some((album, s8)) => match dec_lit(s8, ",\"year\":"@) {
                                        None => None,
                                        Some(s9) => match dec_opt_i32(s9) {
                                            None => None,
                                            Some((year, s10)) => match dec_lit(
                                                s10,
                                                ",\"genre\":"@,
                                            ) {
                                                None => None,
                                                Some(s11) => match dec_opt_str(s11) {
                                                    None => None,
                                                    Some((genre, s12)) => dec_meta_tail(
                                                        s12,
                                                        file_path,
                                                        artist,
                                                        title,
                                                        album,
                                                        year,
                                                        genre,
                                                    ),
                                                },
                                            },
                                        },
                                    },
                                },
                            },
                        },
                    },
                },
            },
        },
    }
}

/// The trailing fields of the metadata object.
pub open spec fn dec_meta_tail(
    s: Seq<char>,
    file_path: Seq<char>,
    artist: Option<Seq<char>>,
    title: Option<Seq<char>>,
    album: Option<Seq<char>>,
    year: Option<i32>,
    genre: Option<Seq<char>>,
) -> Option<(TrackMetadataView, Seq<char>)> {
    match dec_lit(s, ",\"track_number\":"@) {
        None => None,
        Some(s1) => match dec_opt_u32(s1) {
            None => None,
            Some((track_number, s2)) => match dec_lit(s2, ",\"album_artist\":"@) {
                None => None,
                Some(s3) => match dec_opt_str(s3) {
                    None => None,
                    Some((album_artist, s4)) => match dec_lit(s4, ",\"duration_seconds\":"@) {
                        None => None,
                        Some(s5) => match dec_opt_u32(s5) {
                            None => None,
                            Some((duration_seconds, s6)) => match dec_lit(s6, "}"@) {
                                None => None,
                                Some(s7) => Some(
                                    (
                                        TrackMetadataView {
                                            file_path,
                                            artist,
                                            title,
                                            album,
                                            year,
                                            genre,
                                            track_number,
                                            album_artist,
                                            duration_seconds,
                                        },
                                        s7,
                                    ),
                                ),
                            },
                        },
                    },
                },
            },
        },
    }
}

/// One edit object read off the front of `s`.
pub open spec fn dec_sugg(s: Seq<char>) -> Option<(SuggestionView, Seq<char>)> {
    match dec_lit(s, "{\"field\":"@) {
        None => None,
        Some(s1) => match dec_str(s1) {
            None => None,
            Some((field, s2)) => match dec_lit(s2, ",\"current_value\":"@) {
                None => None,
                Some(s3) => match dec_opt_str(s3) {
                    None => None,
                    Some((current_value, s4)) => match dec_lit(s4, ",\"suggested_value\":"@) {
                        None => None,
                        Some(s5) => match dec_str(s5) {
                            None => None,
                            Some((suggested_value, s6)) => match dec_lit(s6, ",\"confidence\":"@) {
                                None => None,
                                Some(s7) => match dec_str(s7) {
                                    None => None,
                                    Some((confidence, s8)) => match dec_lit(s8, ",\"reason\":"@) {
                                        None => None,
                                        Some(s9) => match dec_str(s9) {
                                            None => None,
                                            Some((reason, s10)) => match dec_lit(s10, "}"@) {
                                                None => None,
                                                Some(s11) => Some(
                                                    (
                                                        SuggestionView {
                                                            field,
                                                            current_value,
                                                            suggested_value,
                                                            confidence,
                                                            reason,
                                                        },
                                                        s11,
                                                    ),
                                                ),
                                            },
                                        },
                                    },
                                },
                            },
                        },
                    },
                },
            },
        },
    }
}

/// The remaining items of the edit array: either the closing bracket, or a
/// comma and one more item before the rest.
pub open spec fn dec_more(s: Seq<char>) -> Option<(Seq<SuggestionView>, Seq<char>)>
    decreases s.len(),
{
    if starts_with_spec(s, "]"@) {
        Some((Seq::empty(), s.subrange(1, s.len() as int)))
    } else if starts_with_spec(s, ","@) {
        match dec_sugg(s.subrange(1, s.len() as int)) {
            None => None,
            Some((e, r)) => if r.len() < s.len() {
                match dec_more(r) {
                    None => None,
                    Some((t, r2)) => Some((seq![e] + t, r2)),
                }
            } else {
                None
            },
        }
    } else {
        None
    }
}

/// The edit array read off the front of `s`.
pub open spec fn dec_suggs(s: Seq<char>) -> Option<(Seq<SuggestionView>, Seq<char>)> {
    match dec_lit(s, "["@) {
        None => None,
        Some(s1) => if starts_with_spec(s1, "]"@) {
            Some((Seq::empty(), s1.subrange(1, s1.len() as int)))
        } else {
            match dec_sugg(s1) {
                None => None,
                Some((e, r)) => if r.len() < s.len() {
                    match dec_more(r) {
                        None => None,
                        Some((t, r2)) => Some((seq![e] + t, r2)),
                    }
                } else {
                    None
                },
            }
        },
    }
}

/// The report object read off the front of `s`.
pub open spec fn dec_report(s: Seq<char>) -> Option<(ReportView, Seq<char>)> {
    match dec_lit(s, "{\"file_path\":"@) {
        None => None,
        Some(s1) => match dec_str(s1) {
            None => None,
            Some((file_path, s2)) => match dec_lit(s2, ",\"timestamp\":"@) {
                None => None,
                Some(s3) => match dec_str(s3) {
                    None => None,
                    Some((timestamp, s4)) => match dec_lit(s4, ",\"current_metadata\":"@) {
                        None => None,
                        Some(s5) => match dec_meta(s5) {
                            None => None,
                            Some((current_metadata, s6)) => match dec_lit(s6, ",\"suggestions\":"@) {
                                None => None,
                                Some(s7) => match dec_suggs(s7) {
                                    None => None,
                                    Some((suggestions, s8)) => match dec_lit(
                                        s8,
                                        ",\"llm_analysis\":"@,
                                    ) {
                                        None => None,
                                        Some(s9) => match dec_str(s9) {
                                            None => None,
                                            Some((llm_analysis, s10)) => match dec_lit(
                                                s10,
                                                ",\"should_apply\":"@,
                                            ) {
                                                None => None,
                                                Some(s11) => match dec_bool(s11) {
                                                    None => None,
                                                    Some((should_apply, s12)) => match dec_lit(
                                                        s12,
                                                        "}"@,
                                                    ) {
                                                        None => None,
                                                        Some(s13) => Some(
                                                            (
                                                                ReportView {
                                                                    file_path,
                                                                    timestamp,
                                                                    current_metadata,
                                                                    suggestions,
                                                                    llm_analysis,
                                                                    should_apply,
                                                                },
                                                                s13,
                                                            ),
                                                        ),
                                                    },
                                                },
                                            },
                                        },
                                    },
                                },
                            },
                        },
                    },
                },
            },
        },
    }
}

/// What a serialized report denotes: the decoded value, when the whole text
/// is consumed.
pub open spec fn spec_from_json(s: Seq<char>) -> Option<ReportView> {
    match dec_report(s) {
        Some((v, rest)) => if rest.len() == 0 {
            Some(v)
        } else {
            None
        },
        None => None,
    }
}


// ---------------------------------------------------------------------------
// Round trip
// ---------------------------------------------------------------------------
/// Reading an expected literal off a text that starts with it leaves the
/// rest.
proof fn lemma_lit_rt(lit: Seq<char>, rest: Seq<char>)
    ensures
        dec_lit(lit + rest, lit) == Some(rest),
{
    let w = lit + rest;
    assert(w.subrange(0, lit.len() as int) =~= lit);
    assert(w.subrange(lit.len() as int, w.len() as int) =~= rest);
}

/// Decoding an escaped body up to its closing quote yields the original
/// characters and the rest.
proof fn lemma_esc_rt(s: Seq<char>, rest: Seq<char>)
    ensures
        dec_str_body(esc(s) + (seq!['"'] + rest)) == Some((s, rest)),
    decreases s.len(),
{
    let w = esc(s) + (seq!['"'] + rest);
    if s.len() == 0 {
        assert(w =~= seq!['"'] + rest);
        assert(w[0] == '"');
        assert(w.subrange(1, w.len() as int) =~= rest);
        assert(s =~= Seq::<char>::empty());
    } else {
        let c = s[0];
        let tail = s.subrange(1, s.len() as int);
        lemma_esc_rt(tail, rest);
        if c == '"' || c == '\\' || c == '\n' || c == '\r' || c == '\t' {
            let e = if c == '"' {
                '"'
            } else if c == '\\' {
                '\\'
            } else if c == '\n' {
                'n'
            } else if c == '\r' {
                'r'
            } else {
                't'
            };
            assert(esc_char(c) =~= seq!['\\', e]);
            assert(w =~= seq!['\\', e] + (esc(tail) + (seq!['"'] + rest)));
            assert(w[0] == '\\');
            assert(w[1] == e);
            assert(unesc_char(e) == Some(c));
            assert(w.subrange(2, w.len() as int) =~= esc(tail) + (seq!['"'] + rest));
            assert(seq![c] + tail =~= s);
        } else {
            assert(esc_char(c) =~= seq![c]);
            assert(w =~= seq![c] + (esc(tail) + (seq!['"'] + rest)));
            assert(w[0] == c);
            assert(w.subrange(1, w.len() as int) =~= esc(tail) + (seq!['"'] + rest));
            assert(seq![c] + tail =~= s);
        }
    }
}

/// Decoding an encoded string yields the original value and the rest.
proof fn lemma_str_rt(s: Seq<char>, rest: Seq<char>)
    ensures
        dec_str(enc_str(s) + rest) == Some((s, rest)),
{
    let w = enc_str(s) + rest;
    assert(w =~= seq!['"'] + (esc(s) + (seq!['"'] + rest)));
    assert(w[0] == '"');
    assert(w.subrange(1, w.len() as int) =~= esc(s) + (seq!['"'] + rest));
    lemma_esc_rt(s, rest);
}

/// The maximal digit run of a digit string followed by a non-digit is that
/// string.
proof fn lemma_digits_run_split(d: Seq<char>, rest: Seq<char>)
    requires
        forall|i: int| 0 <= i < d.len() ==> is_digit(d[i]),
        rest.len() == 0 || !is_digit(rest[0]),
    ensures
        digits_run(d + rest) == (d, rest),
    decreases d.len(),
{
    let w = d + rest;
    if d.len() == 0 {
        assert(w =~= rest);
        assert(d =~= Seq::<char>::empty());
    } else {
        assert(w[0] == d[0]);
        let dt = d.subrange(1, d.len() as int);
        lemma_digits_run_split(dt, rest);
        assert(w.subrange(1, w.len() as int) =~= dt + rest);
        assert(seq![w[0]] + dt =~= d);
    }
}

/// Decoding an encoded unsigned number followed by a non-digit yields the
/// original value and the rest.
proof fn lemma_u32_rt(n: u32, rest: Seq<char>)
    requires
        rest.len() > 0,
        !is_digit(rest[0]),
    ensures
        dec_u32(dec_digits(n as nat) + rest) == Some((n, rest)),
{
    crate::num::lemma_dec_digits_all_digits(n as nat);
    lemma_digits_run_split(dec_digits(n as nat), rest);
    crate::num::lemma_dec_round_trip(n as nat);
}

/// Decoding an encoded signed number followed by a non-digit yields the
/// original value and the rest.
proof fn lemma_i32_rt(n: i32, rest: Seq<char>)
    requires
        rest.len() > 0,
        !is_digit(rest[0]),
    ensures
        dec_i32_num(dec_i32(n as int) + rest) == Some((n, rest)),
{
    if n < 0 {
        let mag = (-(n as int)) as nat;
        crate::num::lemma_dec_digits_all_digits(mag);
        crate::num::lemma_dec_round_trip(mag);
        let w = dec_i32(n as int) + rest;
        assert(w =~= seq!['-'] + (dec_digits(mag) + rest));
        assert(w[0] == '-');
        assert(w.subrange(1, w.len() as int) =~= dec_digits(mag) + rest);
        lemma_digits_run_split(dec_digits(mag), rest);
    } else {
        crate::num::lemma_dec_digits_all_digits(n as nat);
        crate::num::lemma_dec_round_trip(n as nat);
        let w = dec_digits(n as nat) + rest;
        assert(w[0] == dec_digits(n as nat)[0]);
        assert(is_digit(w[0]));
        assert(w[0] != '-');
        lemma_digits_run_split(dec_digits(n as nat), rest);
    }
}

/// Decoding an encoded optional string yields the original value and the
/// rest.
proof fn lemma_opt_str_rt(o: Option<Seq<char>>, rest: Seq<char>)
    ensures
        dec_opt_str(enc_opt_str(o) + rest) == Some((o, rest)),
{
    reveal_strlit("null");
    match o {
        None => {
            let w = "null"@ + rest;
            assert(w.subrange(0, "null"@.len() as int) =~= "null"@);
            assert(w.subrange("null"@.len() as int, w.len() as int) =~= rest);
        },
        Some(s) => {
            let w = enc_str(s) + rest;
            assert(w =~= seq!['"'] + (esc(s) + (seq!['"'] + rest)));
            assert(w[0] == '"');
            if starts_with_spec(w, "null"@) {
                assert(w.subrange(0, "null"@.len() as int)[0] == 'n');
                assert(false);
            }
            lemma_str_rt(s, rest);
        },
    }
}

/// Decoding an encoded optional unsigned number followed by a non-digit
/// yields the original value and the rest.
proof fn lemma_opt_u32_rt(o: Option<u32>, rest: Seq<char>)
    requires
        rest.len() > 0,
        !is_digit(rest[0]),
    ensures
        dec_opt_u32(enc_opt_u32(o) + rest) == Some((o, rest)),
{
    reveal_strlit("null");
    match o {
        None => {
            let w = "null"@ + rest;
            assert(w.subrange(0, "null"@.len() as int) =~= "null"@);
            assert(w.subrange("null"@.len() as int, w.len() as int) =~= rest);
        },
        Some(n) => {
            let w = dec_digits(n as nat) + rest;
            crate::num::lemma_dec_digits_all_digits(n as nat);
            assert(w[0] == dec_digits(n as nat)[0]);
            assert(is_digit(w[0]));
            if starts_with_spec(w, "null"@) {
                assert(w.subrange(0, "null"@.len() as int)[0] == 'n');
                assert(false);
            }
            lemma_u32_rt(n, rest);
        },
    }
}

/// Decoding an encoded optional signed number followed by a non-digit
/// yields the original value and the rest.
proof fn lemma_opt_i32_rt(o: Option<i32>, rest: Seq<char>)
    requires
        rest.len() > 0,
        !is_digit(rest[0]),
    ensures
        dec_opt_i32(enc_opt_i32(o) + rest) == Some((o, rest)),
{
    reveal_strlit("null");
    match o {
        None => {
            let w = "null"@ + rest;
            assert(w.subrange(0, "null"@.len() as int) =~= "null"@);
            assert(w.subrange("null"@.len() as int, w.len() as int) =~= rest);
        },
        Some(n) => {
            let w = dec_i32(n as int) + rest;
            if n < 0 {
                assert(w =~= seq!['-'] + (dec_digits((-(n as int)) as nat) + rest));
                assert(w[0] == '-');
            } else {
                crate::num::lemma_dec_digits_all_digits(n as nat);
                assert(w[0] == dec_digits(n as nat)[0]);
                assert(is_digit(w[0]));
            }
            if starts_with_spec(w, "null"@) {
                assert(w.subrange(0, "null"@.len() as int)[0] == 'n');
                assert(false);
            }
            lemma_i32_rt(n, rest);
        },
    }
}

/// Concatenation is associative.
proof fn lemma_assoc(a: Seq<char>, b: Seq<char>, c: Seq<char>)
    ensures
        (a + b) + c == a + (b + c),
{
    assert((a + b) + c =~= a + (b + c));
}

/// Decoding the encoded trailing fields of a metadata object yields the
/// original record and the rest.
#[verifier::rlimit(100)]
proof fn lemma_meta_tail_rt(m: TrackMetadataView, rest: Seq<char>)
    ensures
        dec_meta_tail(
            ",\"track_number\":"@ + (enc_opt_u32(m.track_number) + (",\"album_artist\":"@ + (
            enc_opt_str(m.album_artist) + (",\"duration_seconds\":"@ + (enc_opt_u32(
                m.duration_seconds,
            ) + ("}"@ + rest)))))),
            m.file_path,
            m.artist,
            m.title,
            m.album,
            m.year,
            m.genre,
        ) == Some((m, rest)),
{
    reveal_strlit(",\"album_artist\":");
    reveal_strlit("}");
    let r10 = "}"@ + rest;
    let r9 = enc_opt_u32(m.duration_seconds) + r10;
    let r8 = ",\"duration_seconds\":"@ + r9;
    let r7b = enc_opt_str(m.album_artist) + r8;
    let r7 = ",\"album_artist\":"@ + r7b;
    let r6b = enc_opt_u32(m.track_number) + r7;
    lemma_lit_rt(",\"track_number\":"@, r6b);
    assert(r7[0] == ',');
    lemma_opt_u32_rt(m.track_number, r7);
    lemma_lit_rt(",\"album_artist\":"@, r7b);
    lemma_opt_str_rt(m.album_artist, r8);
    lemma_lit_rt(",\"duration_seconds\":"@, r9);
    assert(r10[0] == '}');
    lemma_opt_u32_rt(m.duration_seconds, r10);
    lemma_lit_rt("}"@, rest);
}

/// Decoding an encoded metadata object yields the original record and the
/// rest.
#[verifier::rlimit(100)]
proof fn lemma_meta_rt(m: TrackMetadataView, rest: Seq<char>)
    ensures
        dec_meta(enc_meta(m) + rest) == Some((m, rest)),
{
    reveal_strlit(",\"genre\":");
    let r10 = "}"@ + rest;
    let r9 = enc_opt_u32(m.duration_seconds) + r10;
    let r8 = ",\"duration_seconds\":"@ + r9;
    let r7b = enc_opt_str(m.album_artist) + r8;
    let r7 = ",\"album_artist\":"@ + r7b;
    let r6b = enc_opt_u32(m.track_number) + r7;
    let r6 = ",\"track_number\":"@ + r6b;
    let r5b = enc_opt_str(m.genre) + r6;
    let r5 = ",\"genre\":"@ + r5b;
    let r4b = enc_opt_i32(m.year) + r5;
    let r4 = ",\"year\":"@ + r4b;
    let r3b = enc_opt_str(m.album) + r4;
    let r3 = ",\"album\":"@ + r3b;
    let r2b = enc_opt_str(m.title) + r3;
    let r2 = ",\"title\":"@ + r2b;
    let r1b = enc_opt_str(m.artist) + r2;
    let r1 = ",\"artist\":"@ + r1b;
    let r0b = enc_str(m.file_path) + r1;
    let x1 = "{\"file_path\":"@ + enc_str(m.file_path);
    let x2 = x1 + ",\"artist\":"@;
    let x3 = x2 + enc_opt_str(m.artist);
    let x4 = x3 + ",\"title\":"@;
    let x5 = x4 + enc_opt_str(m.title);
    let x6 = x5 + ",\"album\":"@;
    let x7 = x6 + enc_opt_str(m.album);
    let x8 = x7 + ",\"year\":"@;
    let x9 = x8 + enc_opt_i32(m.year);
    let x10 = x9 + ",\"genre\":"@;
    let x11 = x10 + enc_opt_str(m.genre);
    let x12 = x11 + ",\"track_number\":"@;
    let x13 = x12 + enc_opt_u32(m.track_number);
    let x14 = x13 + ",\"album_artist\":"@;
    let x15 = x14 + enc_opt_str(m.album_artist);
    let x16 = x15 + ",\"duration_seconds\":"@;
    let x17 = x16 + enc_opt_u32(m.duration_seconds);
    assert(enc_meta(m) == x17 + "}"@);
    lemma_assoc(x17, "}"@, rest);
    lemma_assoc(x16, enc_opt_u32(m.duration_seconds), r10);
    lemma_assoc(x15, ",\"duration_seconds\":"@, r9);
    lemma_assoc(x14, enc_opt_str(m.album_artist), r8);
    lemma_assoc(x13, ",\"album_artist\":"@, r7b);
    lemma_assoc(x12, enc_opt_u32(m.track_number), r7);
    lemma_assoc(x11, ",\"track_number\":"@, r6b);
    lemma_assoc(x10, enc_opt_str(m.genre), r6);
    lemma_assoc(x9, ",\"genre\":"@, r5b);
    lemma_assoc(x8, enc_opt_i32(m.year), r5);
    lemma_assoc(x7, ",\"year\":"@, r4b);
    lemma_assoc(x6, enc_opt_str(m.album), r4);
    lemma_assoc(x5, ",\"album\":"@, r3b);
    lemma_assoc(x4, enc_opt_str(m.title), r3);
    lemma_assoc(x3, ",\"title\":"@, r2b);
    lemma_assoc(x2, enc_opt_str(m.artist), r2);
    lemma_assoc(x1, ",\"artist\":"@, r1b);
    lemma_assoc("{\"file_path\":"@, enc_str(m.file_path), r1);
    assert(enc_meta(m) + rest == "{\"file_path\":"@ + r0b);
    lemma_lit_rt("{\"file_path\":"@, r0b);
    lemma_str_rt(m.file_path, r1);
    lemma_lit_rt(",\"artist\":"@, r1b);
    lemma_opt_str_rt(m.artist, r2);
    lemma_lit_rt(",\"title\":"@, r2b);
    lemma_opt_str_rt(m.title, r3);
    lemma_lit_rt(",\"album\":"@, r3b);
    lemma_opt_str_rt(m.album, r4);
    lemma_lit_rt(",\"year\":"@, r4b);
    assert(r5[0] == ',');
    lemma_opt_i32_rt(m.year, r5);
    lemma_lit_rt(",\"genre\":"@, r5b);
    lemma_opt_str_rt(m.genre, r6);
    lemma_meta_tail_rt(m, rest);
}

/// Decoding an encoded edit object yields the original edit and the rest.
#[verifier::rlimit(100)]
proof fn lemma_sugg_rt(e: SuggestionView, rest: Seq<char>)
    ensures
        dec_sugg(enc_sugg(e) + rest) == Some((e, rest)),
{
    let r5b = "}"@ + rest;
    let r5 = enc_str(e.reason) + r5b;
    let r4b = ",\"reason\":"@ + r5;
    let r4 = enc_str(e.confidence) + r4b;
    let r3b = ",\"confidence\":"@ + r4;
    let r3 = enc_str(e.suggested_value) + r3b;
    let r2b = ",\"suggested_value\":"@ + r3;
    let r2 = enc_opt_str(e.current_value) + r2b;
    let r1b = ",\"current_value\":"@ + r2;
    let r1 = enc_str(e.field) + r1b;
    assert(enc_sugg(e) + rest =~= "{\"field\":"@ + r1);
    lemma_lit_rt("{\"field\":"@, r1);
    lemma_str_rt(e.field, r1b);
    lemma_lit_rt(",\"current_value\":"@, r2);
    lemma_opt_str_rt(e.current_value, r2b);
    lemma_lit_rt(",\"suggested_value\":"@, r3);
    lemma_str_rt(e.suggested_value, r3b);
    lemma_lit_rt(",\"confidence\":"@, r4);
    lemma_str_rt(e.confidence, r4b);
    lemma_lit_rt(",\"reason\":"@, r5);
    lemma_str_rt(e.reason, r5b);
    lemma_lit_rt("}"@, rest);
}

/// Decoding the encoded tail of an edit array yields the remaining edits
/// and the rest.
#[verifier::rlimit(100)]
proof fn lemma_more_rt(es: Seq<SuggestionView>, rest: Seq<char>)
    ensures
        dec_more(enc_more(es) + rest) == Some((es, rest)),
    decreases es.len(),
{
    reveal_strlit("]");
    reveal_strlit(",");
    reveal_strlit("{\"field\":");
    let w = enc_more(es) + rest;
    if es.len() == 0 {
        assert(w =~= "]"@ + rest);
        assert(w.subrange(0, 1) =~= "]"@);
        assert(w.subrange(1, w.len() as int) =~= rest);
        assert(es =~= Seq::<SuggestionView>::empty());
    } else {
        let tail = es.subrange(1, es.len() as int);
        let after = enc_more(tail) + rest;
        assert(w =~= ","@ + (enc_sugg(es[0]) + after));
        assert(w[0] == ',');
        if starts_with_spec(w, "]"@) {
            assert(w.subrange(0, 1)[0] == ']');
            assert(false);
        }
        assert(w.subrange(0, 1) =~= ","@);
        assert(w.subrange(1, w.len() as int) =~= enc_sugg(es[0]) + after);
        lemma_sugg_rt(es[0], after);
        lemma_more_rt(tail, rest);
        assert(after.len() < w.len());
        assert(seq![es[0]] + tail =~= es);
    }
}

/// Decoding an encoded edit array yields the original edits and the rest.
#[verifier::rlimit(100)]
proof fn lemma_suggs_rt(es: Seq<SuggestionView>, rest: Seq<char>)
    ensures
        dec_suggs(enc_suggs(es) + rest) == Some((es, rest)),
{
    reveal_strlit("[");
    reveal_strlit("]");
    reveal_strlit("[]");
    reveal_strlit("{\"field\":");
    let w = enc_suggs(es) + rest;
    if es.len() == 0 {
        assert(w =~= "["@ + ("]"@ + rest));
        lemma_lit_rt("["@, "]"@ + rest);
        let s1 = "]"@ + rest;
        assert(s1.subrange(0, 1) =~= "]"@);
        assert(s1.subrange(1, s1.len() as int) =~= rest);
        assert(es =~= Seq::<SuggestionView>::empty());
    } else {
        let tail = es.subrange(1, es.len() as int);
        let after = enc_more(tail) + rest;
        let s1 = enc_sugg(es[0]) + after;
        assert(w =~= "["@ + s1);
        lemma_lit_rt("["@, s1);
        assert(s1 =~= enc_sugg(es[0]) + after);
        assert(enc_sugg(es[0])[0] == '{');
        assert(s1[0] == '{');
        if starts_with_spec(s1, "]"@) {
            assert(s1.subrange(0, 1)[0] == ']');
            assert(false);
        }
        lemma_sugg_rt(es[0], after);
        lemma_more_rt(tail, rest);
        assert(after.len() < w.len());
        assert(seq![es[0]] + tail =~= es);
    }
}

/// Decoding an encoded report yields the original value and the rest.
#[verifier::rlimit(100)]
proof fn lemma_report_rt(v: ReportView, rest: Seq<char>)
    ensures
        dec_report(enc_report(v) + rest) == Some((v, rest)),
{
    reveal_strlit("}");
    reveal_strlit(",\"should_apply\":");
    reveal_strlit("true");
    reveal_strlit("false");
    let r7 = "}"@ + rest;
    let r6b = enc_bool(v.should_apply) + r7;
    let r6 = ",\"should_apply\":"@ + r6b;
    let r5b = enc_str(v.llm_analysis) + r6;
    let r5 = ",\"llm_analysis\":"@ + r5b;
    let r4b = enc_suggs(v.suggestions) + r5;
    let r4 = ",\"suggestions\":"@ + r4b;
    let r3b = enc_meta(v.current_metadata) + r4;
    let r3 = ",\"current_metadata\":"@ + r3b;
    let r2b = enc_str(v.timestamp) + r3;
    let r2 = ",\"timestamp\":"@ + r2b;
    let r1 = enc_str(v.file_path) + r2;
    let x1 = "{\"file_path\":"@ + enc_str(v.file_path);
    let x2 = x1 + ",\"timestamp\":"@;
    let x3 = x2 + enc_str(v.timestamp);
    let x4 = x3 + ",\"current_metadata\":"@;
    let x5 = x4 + enc_meta(v.current_metadata);
    let x6 = x5 + ",\"suggestions\":"@;
    let x7 = x6 + enc_suggs(v.suggestions);
    let x8 = x7 + ",\"llm_analysis\":"@;
    let x9 = x8 + enc_str(v.llm_analysis);
    let x10 = x9 + ",\"should_apply\":"@;
    let x11 = x10 + enc_bool(v.should_apply);
    assert(enc_report(v) == x11 + "}"@);
    lemma_assoc(x11, "}"@, rest);
    lemma_assoc(x10, enc_bool(v.should_apply), r7);
    lemma_assoc(x9, ",\"should_apply\":"@, r6b);
    lemma_assoc(x8, enc_str(v.llm_analysis), r6);
    lemma_assoc(x7, ",\"llm_analysis\":"@, r5b);
    lemma_assoc(x6, enc_suggs(v.suggestions), r5);
    lemma_assoc(x5, ",\"suggestions\":"@, r4b);
    lemma_assoc(x4, enc_meta(v.current_metadata), r4);
    lemma_assoc(x3, ",\"current_metadata\":"@, r3b);
    lemma_assoc(x2, enc_str(v.timestamp), r3);
    lemma_assoc(x1, ",\"timestamp\":"@, r2b);
    lemma_assoc("{\"file_path\":"@, enc_str(v.file_path), r2);
    assert(enc_report(v) + rest == "{\"file_path\":"@ + r1);
    lemma_lit_rt("{\"file_path\":"@, r1);
    lemma_str_rt(v.file_path, r2);
    lemma_lit_rt(",\"timestamp\":"@, r2b);
    lemma_str_rt(v.timestamp, r3);
    lemma_lit_rt(",\"current_metadata\":"@, r3b);
    lemma_meta_rt(v.current_metadata, r4);
    lemma_lit_rt(",\"suggestions\":"@, r4b);
    lemma_suggs_rt(v.suggestions, r5);
    lemma_lit_rt(",\"llm_analysis\":"@, r5b);
    lemma_str_rt(v.llm_analysis, r6);
    lemma_lit_rt(",\"should_apply\":"@, r6b);
    if v.should_apply {
        let wb = "true"@ + r7;
        assert(wb.subrange(0, "true"@.len() as int) =~= "true"@);
        assert(wb.subrange("true"@.len() as int, wb.len() as int) =~= r7);
        if starts_with_spec(wb, "false"@) {
            assert(wb.subrange(0, "false"@.len() as int)[0] == 'f');
            assert(false);
        }
    } else {
        let wb = "false"@ + r7;
        if starts_with_spec(wb, "true"@) {
            assert(wb.subrange(0, "true"@.len() as int)[0] == 't');
            assert(false);
        }
        assert(wb.subrange(0, "false"@.len() as int) =~= "false"@);
        assert(wb.subrange("false"@.len() as int, wb.len() as int) =~= r7);
    }
    lemma_lit_rt("}"@, rest);
}

/// The persistence round trip: reading back an encoded report yields the
/// value that was written, in every field, including edit order and the raw
/// model text.
pub proof fn lemma_save_load_round_trip(v: ReportView)
    ensures
        spec_from_json(enc_report(v)) == Some(v),
{
    lemma_report_rt(v, Seq::empty());
    assert(enc_report(v) + Seq::<char>::empty() =~= enc_report(v));
}


// ---------------------------------------------------------------------------
// The executable encoder
// ---------------------------------------------------------------------------
/// Escaping distributes over appending one character.
proof fn lemma_esc_snoc(a: Seq<char>, c: char)
    ensures
        esc(a.push(c)) == esc(a) + esc_char(c),
    decreases a.len(),
{
    if a.len() == 0 {
        assert(a.push(c).len() == 1);
        assert(a.push(c)[0] == c);
        assert(a.push(c).subrange(1, 1) =~= Seq::<char>::empty());
        assert(esc(a.push(c)) == esc_char(c) + esc(a.push(c).subrange(1, 1)));
        assert(esc(a.push(c).subrange(1, 1)) == Seq::<char>::empty());
        assert(esc_char(c) + Seq::<char>::empty() =~= esc_char(c));
        assert(esc(a) == Seq::<char>::empty());
        assert(Seq::<char>::empty() + esc_char(c) =~= esc_char(c));
    } else {
        let t = a.subrange(1, a.len() as int);
        lemma_esc_snoc(t, c);
        assert(a.push(c)[0] == a[0]);
        assert(a.push(c).subrange(1, a.push(c).len() as int) =~= t.push(c));
        assert(esc_char(a[0]) + (esc(t) + esc_char(c)) =~= (esc_char(a[0]) + esc(t)) + esc_char(
            c,
        ));
        assert(a.subrange(0, 1).push(c) =~= a.subrange(0, 1) + seq![c]);
    }
}

/// Appends the escape of one character.
fn push_esc_char(out: &mut Vec<char>, c: char)
    ensures
        final(out)@ == old(out)@ + esc_char(c),
{
    if c == '"' {
        out.push('\\');
        out.push('"');
    } else if c == '\\' {
        out.push('\\');
        out.push('\\');
    } else if c == '\n' {
        out.push('\\');
        out.push('n');
    } else if c == '\r' {
        out.push('\\');
        out.push('r');
    } else if c == '\t' {
        out.push('\\');
        out.push('t');
    } else {
        out.push(c);
    }
    proof {
        assert(out@ =~= old(out)@ + esc_char(c));
    }
}

/// Appends `s` as a JSON string.
fn push_enc_str(out: &mut Vec<char>, s: &str)
    ensures
        final(out)@ == old(out)@ + enc_str(s@),
{
    let cs = str_chars(s);
    out.push('"');
    let n: usize = cs.len();
    let mut i: usize = 0;
    while i < n
        invariant
            n == cs@.len(),
            cs@ == s@,
            i <= n,
            out@ == old(out)@ + seq!['"'] + esc(cs@.subrange(0, i as int)),
        decreases n - i,
    {
        push_esc_char(out, cs[i]);
        i = i + 1;
        proof {
            lemma_esc_snoc(cs@.subrange(0, i - 1), cs@[i - 1]);
            assert(cs@.subrange(0, i - 1).push(cs@[i - 1]) =~= cs@.subrange(0, i as int));
            assert(old(out)@ + seq!['"'] + esc(cs@.subrange(0, i - 1)) + esc_char(cs@[i - 1])
                =~= old(out)@ + seq!['"'] + esc(cs@.subrange(0, i as int)));
        }
    }
    out.push('"');
    proof {
        assert(cs@.subrange(0, n as int) =~= s@);
        assert(out@ =~= old(out)@ + enc_str(s@));
    }
}

/// Appends `o` as a JSON string or `null`.
fn push_enc_opt_str(out: &mut Vec<char>, o: &Option<String>)
    ensures
        final(out)@ == old(out)@ + enc_opt_str(o.deep_view()),
{
    match o {
        Some(s) => push_enc_str(out, s.as_str()),
        None => push_str(out, "null"),
    }
}

/// Appends `o` as a JSON number or `null`.
fn push_enc_opt_u32(out: &mut Vec<char>, o: &Option<u32>)
    ensures
        final(out)@ == old(out)@ + enc_opt_u32(*o),
{
    match o {
        Some(n) => {
            let d = crate::num::u32_to_chars(*n);
            push_chars(out, &d);
        },
        None => push_str(out, "null"),
    }
}

/// Appends `o` as a JSON number or `null`.
fn push_enc_opt_i32(out: &mut Vec<char>, o: &Option<i32>)
    ensures
        final(out)@ == old(out)@ + enc_opt_i32(*o),
{
    match o {
        Some(n) => {
            let d = crate::num::i32_to_chars(*n);
            push_chars(out, &d);
        },
        None => push_str(out, "null"),
    }
}

/// The metadata snapshot rendered as JSON.
fn enc_meta_exec(m: &TrackMetadata) -> (r: Vec<char>)
    ensures
        r@ == enc_meta(m.deep_view()),
{
    let mut out = str_chars("{\"file_path\":");
    push_enc_str(&mut out, m.file_path.as_str());
    push_str(&mut out, ",\"artist\":");
    push_enc_opt_str(&mut out, &m.artist);
    push_str(&mut out, ",\"title\":");
    push_enc_opt_str(&mut out, &m.title);
    push_str(&mut out, ",\"album\":");
    push_enc_opt_str(&mut out, &m.album);
    push_str(&mut out, ",\"year\":");
    push_enc_opt_i32(&mut out, &m.year);
    push_str(&mut out, ",\"genre\":");
    push_enc_opt_str(&mut out, &m.genre);
    push_str(&mut out, ",\"track_number\":");
    push_enc_opt_u32(&mut out, &m.track_number);
    push_str(&mut out, ",\"album_artist\":");
    push_enc_opt_str(&mut out, &m.album_artist);
    push_str(&mut out, ",\"duration_seconds\":");
    push_enc_opt_u32(&mut out, &m.duration_seconds);
    push_str(&mut out, "}");
    out
}

/// One edit rendered as JSON.
fn enc_sugg_exec(e: &MetadataSuggestion) -> (r: Vec<char>)
    ensures
        r@ == enc_sugg(e.deep_view()),
{
    let mut out = str_chars("{\"field\":");
    push_enc_str(&mut out, e.field.as_str());
    push_str(&mut out, ",\"current_value\":");
    push_enc_opt_str(&mut out, &e.current_value);
    push_str(&mut out, ",\"suggested_value\":");
    push_enc_str(&mut out, e.suggested_value.as_str());
    push_str(&mut out, ",\"confidence\":");
    push_enc_str(&mut out, e.confidence.as_str());
    push_str(&mut out, ",\"reason\":");
    push_enc_str(&mut out, e.reason.as_str());
    push_str(&mut out, "}");
    out
}

/// The edit sequence rendered as a JSON array.
fn enc_suggs_exec(es: &Vec<MetadataSuggestion>) -> (r: Vec<char>)
    ensures
        r@ == enc_suggs(es.deep_view()),
{
    let ghost dv = es.deep_view();
    let n: usize = es.len();
    if n == 0 {
        let out = str_chars("[]");
        proof {
            assert(dv.len() == 0);
        }
        return out;
    }
    let mut out = str_chars("[");
    let first = enc_sugg_exec(&es[0]);
    push_chars(&mut out, &first);
    proof {
        assert(es@[0].deep_view() == dv[0]);
    }
    let mut i: usize = 1;
    while i < n
        invariant
            n == es@.len(),
            dv == es.deep_view(),
            1 <= i <= n,
            out@ + enc_more(dv.subrange(i as int, n as int)) == enc_suggs(dv),
        decreases n - i,
    {
        let ghost out0 = out@;
        push_str(&mut out, ",");
        let item = enc_sugg_exec(&es[i]);
        push_chars(&mut out, &item);
        i = i + 1;
        proof {
            assert(es@[i - 1].deep_view() == dv[i - 1]);
            let tail = dv.subrange(i - 1, n as int);
            assert(tail[0] == dv[i - 1]);
            assert(tail.subrange(1, tail.len() as int) =~= dv.subrange(i as int, n as int));
            assert(enc_more(tail) == ","@ + enc_sugg(dv[i - 1]) + enc_more(
                dv.subrange(i as int, n as int),
            ));
            assert(out@ + enc_more(dv.subrange(i as int, n as int)) =~= (out@ + enc_more(
                dv.subrange(i as int, n as int),
            )));
            assert((((out0 + ","@) + enc_sugg(dv[i - 1])) + enc_more(
                dv.subrange(i as int, n as int),
            )) =~= out0 + ((","@ + enc_sugg(dv[i - 1])) + enc_more(
                dv.subrange(i as int, n as int),
            )));
            assert((","@ + enc_sugg(dv[i - 1])) + enc_more(dv.subrange(i as int, n as int)) =~= ","@
                + enc_sugg(dv[i - 1]) + enc_more(dv.subrange(i as int, n as int)));
        }
    }
    push_str(&mut out, "]");
    proof {
        assert(dv.subrange(n as int, n as int).len() == 0);
        assert(enc_more(dv.subrange(n as int, n as int)) == "]"@);
    }
    out
}

impl SuggestionsReport {
    /// The report rendered as JSON, every attribute included, the edits in
    /// stored order, and the raw model text unabridged.
    pub fn to_json(&self) -> (r: String)
        ensures
            r@ == enc_report(self.deep_view()),
    {
        let mut out = str_chars("{\"file_path\":");
        push_enc_str(&mut out, self.file_path.as_str());
        push_str(&mut out, ",\"timestamp\":");
        push_enc_str(&mut out, self.timestamp.as_str());
        push_str(&mut out, ",\"current_metadata\":");
        let meta = enc_meta_exec(&self.current_metadata);
        push_chars(&mut out, &meta);
        push_str(&mut out, ",\"suggestions\":");
        let suggs = enc_suggs_exec(&self.suggestions);
        push_chars(&mut out, &suggs);
        push_str(&mut out, ",\"llm_analysis\":");
        push_enc_str(&mut out, self.llm_analysis.as_str());
        push_str(&mut out, ",\"should_apply\":");
        if self.should_apply {
            push_str(&mut out, "true");
        } else {
            push_str(&mut out, "false");
        }
        push_str(&mut out, "}");
        chars_string(&out)
    }
}


// ---------------------------------------------------------------------------
// The executable decoder
// ---------------------------------------------------------------------------
/// Reads the expected literal at position `i`, returning the position after
/// it.
fn dexp_lit(v: &Vec<char>, i: usize, lit: &str) -> (r: Option<usize>)
    requires
        i <= v@.len(),
    ensures
        match r {
            Some(j) => dec_lit(v@.skip(i as int), lit@) == Some(v@.skip(j as int)) && i <= j
                <= v@.len(),
            None => dec_lit(v@.skip(i as int), lit@) is None,
        },
{
    let ghost s = v@.skip(i as int);
    let lv = str_chars(lit);
    let n: usize = v.len();
    let m: usize = lv.len();
    if m > n - i {
        proof {
            assert(!starts_with_spec(s, lit@));
        }
        return None;
    }
    let mut k: usize = 0;
    while k < m
        invariant
            n == v@.len(),
            m == lv@.len(),
            lv@ == lit@,
            i + m <= n,
            k <= m,
            s == v@.skip(i as int),
            forall|j: int| 0 <= j < k ==> s[j] == lit@[j],
        decreases m - k,
    {
        if v[i + k] != lv[k] {
            proof {
                assert(s[k as int] == v@[i + k]);
                if starts_with_spec(s, lit@) {
                    assert(s.subrange(0, m as int)[k as int] == lit@[k as int]);
                }
            }
            return None;
        }
        k = k + 1;
        proof {
            assert(s[k - 1] == v@[i + k - 1]);
        }
    }
    proof {
        assert(s.subrange(0, m as int) =~= lit@);
        assert(s.subrange(m as int, s.len() as int) =~= v@.skip(i + m));
    }
    Some(i + m)
}

/// Reads an escaped string body up to its closing quote, starting at `i`.
fn dstr_body(v: &Vec<char>, i: usize) -> (r: Option<(Vec<char>, usize)>)
    requires
        i <= v@.len(),
    ensures
        match r {
            Some(p) => dec_str_body(v@.skip(i as int)) == Some((p.0@, v@.skip(p.1 as int))) && i
                <= p.1 <= v@.len(),
            None => dec_str_body(v@.skip(i as int)) is None,
        },
    decreases v@.len() - i,
{
    let ghost s = v@.skip(i as int);
    let n: usize = v.len();
    if i >= n {
        return None;
    }
    let c = v[i];
    proof {
        assert(s[0] == c);
    }
    if c == '"' {
        proof {
            assert(s.subrange(1, s.len() as int) =~= v@.skip(i + 1));
        }
        return Some((Vec::new(), i + 1));
    }
    if c == '\\' {
        if i + 1 >= n {
            return None;
        }
        let e = v[i + 1];
        proof {
            assert(s[1] == e);
        }
        let u: Option<char> = if e == '"' {
            Some('"')
        } else if e == '\\' {
            Some('\\')
        } else if e == 'n' {
            Some('\n')
        } else if e == 'r' {
            Some('\r')
        } else if e == 't' {
            Some('\t')
        } else {
            None
        };
        match u {
            None => {
                return None;
            },
            Some(uc) => {
                proof {
                    assert(unesc_char(e) == Some(uc));
                    assert(s.subrange(2, s.len() as int) =~= v@.skip(i + 2));
                }
                match dstr_body(v, i + 2) {
                    None => {
                        return None;
                    },
                    Some((t, j)) => {
                        let mut out = t;
                        out.insert(0, uc);
                        proof {
                            assert(out@ =~= seq![uc] + out@.subrange(1, out@.len() as int));
                            assert(out@.subrange(1, out@.len() as int) =~= out@.skip(1));
                        }
                        return Some((out, j));
                    },
                }
            },
        }
    }
    proof {
        assert(s.subrange(1, s.len() as int) =~= v@.skip(i + 1));
    }
    match dstr_body(v, i + 1) {
        None => None,
        Some((t, j)) => {
            let mut out = t;
            out.insert(0, c);
            proof {
                assert(out@ =~= seq![c] + out@.subrange(1, out@.len() as int));
            }
            Some((out, j))
        },
    }
}

/// Reads a JSON string at position `i`.
fn dstr(v: &Vec<char>, i: usize) -> (r: Option<(String, usize)>)
    requires
        i <= v@.len(),
    ensures
        match r {
            Some(p) => dec_str(v@.skip(i as int)) == Some((p.0@, v@.skip(p.1 as int))) && i <= p.1
                <= v@.len(),
            None => dec_str(v@.skip(i as int)) is None,
        },
{
    let ghost s = v@.skip(i as int);
    let n: usize = v.len();
    if i >= n || v[i] != '"' {
        proof {
            if s.len() > 0 {
                assert(s[0] == v@[i as int]);
            }
        }
        return None;
    }
    proof {
        assert(s[0] == '"');
        assert(s.subrange(1, s.len() as int) =~= v@.skip(i + 1));
    }
    match dstr_body(v, i + 1) {
        None => None,
        Some((t, j)) => Some((chars_string(&t), j)),
    }
}

/// Reads an unsigned number at position `i`.
fn du32(v: &Vec<char>, i: usize) -> (r: Option<(u32, usize)>)
    requires
        i <= v@.len(),
    ensures
        match r {
            Some(p) => dec_u32(v@.skip(i as int)) == Some((p.0, v@.skip(p.1 as int))) && i <= p.1
                <= v@.len(),
            None => dec_u32(v@.skip(i as int)) is None,
        },
{
    let ghost s = v@.skip(i as int);
    let n: usize = v.len();
    let mut j: usize = i;
    while j < n && crate::num::is_digit_exec(v[j])
        invariant
            n == v@.len(),
            i <= j <= n,
            forall|k: int| i <= k < j ==> is_digit(v@[k]),
        decreases n - j,
    {
        j = j + 1;
    }
    proof {
        let d = v@.subrange(i as int, j as int);
        let rest = v@.skip(j as int);
        assert forall|k: int| 0 <= k < d.len() implies is_digit(d[k]) by {
            assert(d[k] == v@[i + k]);
        }
        if rest.len() > 0 {
            assert(rest[0] == v@[j as int]);
        }
        lemma_digits_run_split(d, rest);
        assert(s =~= d + rest);
        assert(digits_run(s) == (d, rest));
    }
    let d = sub_vec(v, i, j);
    match crate::num::parse_digits(&d) {
        Some(val) => Some((val, j)),
        None => None,
    }
}

/// Reads a signed number at position `i`.
fn di32(v: &Vec<char>, i: usize) -> (r: Option<(i32, usize)>)
    requires
        i <= v@.len(),
    ensures
        match r {
            Some(p) => dec_i32_num(v@.skip(i as int)) == Some((p.0, v@.skip(p.1 as int))) && i
                <= p.1 <= v@.len(),
            None => dec_i32_num(v@.skip(i as int)) is None,
        },
{
    let ghost s = v@.skip(i as int);
    let n: usize = v.len();
    if i < n && v[i] == '-' {
        proof {
            assert(s[0] == '-');
            assert(s.subrange(1, s.len() as int) =~= v@.skip(i + 1));
        }
        let ghost s1 = v@.skip(i + 1);
        let n2: usize = v.len();
        let mut j: usize = i + 1;
        while j < n2 && crate::num::is_digit_exec(v[j])
            invariant
                n2 == v@.len(),
                i + 1 <= j <= n2,
                forall|k: int| i + 1 <= k < j ==> is_digit(v@[k]),
            decreases n2 - j,
        {
            j = j + 1;
        }
        proof {
            let d = v@.subrange(i + 1, j as int);
            let rest = v@.skip(j as int);
            assert forall|k: int| 0 <= k < d.len() implies is_digit(d[k]) by {
                assert(d[k] == v@[i + 1 + k]);
            }
            if rest.len() > 0 {
                assert(rest[0] == v@[j as int]);
            }
            lemma_digits_run_split(d, rest);
            assert(s1 =~= d + rest);
            assert(digits_run(s1) == (d, rest));
        }
        let d = sub_vec(v, i + 1, j);
        match crate::num::parse_digits(&d) {
            Some(val) => {
                if val > 2147483648 {
                    return None;
                }
                let wide: i64 = -(val as i64);
                return Some((wide as i32, j));
            },
            None => {
                proof {
                    if is_digits(d@) {
                        assert(str_to_nat(d@) > u32::MAX);
                    }
                }
                return None;
            },
        }
    }
    proof {
        if s.len() > 0 {
            assert(s[0] == v@[i as int]);
        }
    }
    match du32(v, i) {
        Some((val, j)) => {
            if val > 2147483647 {
                proof {
                    let (d, r) = digits_run(s);
                    assert(dec_u32(s) == Some((val, v@.skip(j as int))));
                }
                return None;
            }
            Some((val as i32, j))
        },
        None => {
            proof {
                let (d, r) = digits_run(s);
                if is_digits(d) {
                    assert(str_to_nat(d) > u32::MAX);
                }
            }
            None
        },
    }
}

/// Reads a JSON string or `null` at position `i`.
fn dopt_str(v: &Vec<char>, i: usize) -> (r: Option<(Option<String>, usize)>)
    requires
        i <= v@.len(),
    ensures
        match r {
            Some(p) => dec_opt_str(v@.skip(i as int)) == Some((p.0.deep_view(), v@.skip(
                p.1 as int,
            ))) && i <= p.1 <= v@.len(),
            None => dec_opt_str(v@.skip(i as int)) is None,
        },
{
    match dexp_lit(v, i, "null") {
        Some(j) => Some((None, j)),
        None => match dstr(v, i) {
            Some((t, j)) => Some((Some(t), j)),
            None => None,
        },
    }
}

/// Reads a JSON number or `null` at position `i`.
fn dopt_u32(v: &Vec<char>, i: usize) -> (r: Option<(Option<u32>, usize)>)
    requires
        i <= v@.len(),
    ensures
        match r {
            Some(p) => dec_opt_u32(v@.skip(i as int)) == Some((p.0, v@.skip(p.1 as int))) && i
                <= p.1 <= v@.len(),
            None => dec_opt_u32(v@.skip(i as int)) is None,
        },
{
    match dexp_lit(v, i, "null") {
        Some(j) => Some((None, j)),
        None => match du32(v, i) {
            Some((t, j)) => Some((Some(t), j)),
            None => None,
        },
    }
}

/// Reads a JSON number or `null` at position `i`.
fn dopt_i32(v: &Vec<char>, i: usize) -> (r: Option<(Option<i32>, usize)>)
    requires
        i <= v@.len(),
    ensures
        match r {
            Some(p) => dec_opt_i32(v@.skip(i as int)) == Some((p.0, v@.skip(p.1 as int))) && i
                <= p.1 <= v@.len(),
            None => dec_opt_i32(v@.skip(i as int)) is None,
        },
{
    match dexp_lit(v, i, "null") {
        Some(j) => Some((None, j)),
        None => match di32(v, i) {
            Some((t, j)) => Some((Some(t), j)),
            None => None,
        },
    }
}

/// Reads a JSON boolean at position `i`.
fn dbool(v: &Vec<char>, i: usize) -> (r: Option<(bool, usize)>)
    requires
        i <= v@.len(),
    ensures
        match r {
            Some(p) => dec_bool(v@.skip(i as int)) == Some((p.0, v@.skip(p.1 as int))) && i <= p.1
                <= v@.len(),
            None => dec_bool(v@.skip(i as int)) is None,
        },
{
    match dexp_lit(v, i, "true") {
        Some(j) => Some((true, j)),
        None => match dexp_lit(v, i, "false") {
            Some(j) => Some((false, j)),
            None => None,
        },
    }
}

/// Reads the metadata object at position `i`.
fn dmeta(v: &Vec<char>, i: usize) -> (r: Option<(TrackMetadata, usize)>)
    requires
        i <= v@.len(),
    ensures
        match r {
            Some(p) => dec_meta(v@.skip(i as int)) == Some((p.0.deep_view(), v@.skip(
                p.1 as int,
            ))) && i <= p.1 <= v@.len(),
            None => dec_meta(v@.skip(i as int)) is None,
        },
{
    let j0 = match dexp_lit(v, i, "{\"file_path\":") {
        Some(j) => j,
        None => {
            return None;
        },
    };
    let (file_path, j1) = match dstr(v, j0) {
        Some(p) => p,
        None => {
            return None;
        },
    };
    let j2 = match dexp_lit(v, j1, ",\"artist\":") {
        Some(j) => j,
        None => {
            return None;
        },
    };
    let (artist, j3) = match dopt_str(v, j2) {
        Some(p) => p,
        None => {
            return None;
        },
    };
    let j4 = match dexp_lit(v, j3, ",\"title\":") {
        Some(j) => j,
        None => {
            return None;
        },
    };
    let (title, j5) = match dopt_str(v, j4) {
        Some(p) => p,
        None => {
            return None;
        },
    };
    let j6 = match dexp_lit(v, j5, ",\"album\":") {
        Some(j) => j,
        None => {
            return None;
        },
    };
    let (album, j7) = match dopt_str(v, j6) {
        Some(p) => p,
        None => {
            return None;
        },
    };
    let j8 = match dexp_lit(v, j7, ",\"year\":") {
        Some(j) => j,
        None => {
            return None;
        },
    };
    let (year, j9) = match dopt_i32(v, j8) {
        Some(p) => p,
        None => {
            return None;
        },
    };
    let j10 = match dexp_lit(v, j9, ",\"genre\":") {
        Some(j) => j,
        None => {
            return None;
        },
    };
    let (genre, j11) = match dopt_str(v, j10) {
        Some(p) => p,
        None => {
            return None;
        },
    };
    let j12 = match dexp_lit(v, j11, ",\"track_number\":") {
        Some(j) => j,
        None => {
            return None;
        },
    };
    let (track_number, j13) = match dopt_u32(v, j12) {
        Some(p) => p,
        None => {
            return None;
        },
    };
    let j14 = match dexp_lit(v, j13, ",\"album_artist\":") {
        Some(j) => j,
        None => {
            return None;
        },
    };
    let (album_artist, j15) = match dopt_str(v, j14) {
        Some(p) => p,
        None => {
            return None;
        },
    };
    let j16 = match dexp_lit(v, j15, ",\"duration_seconds\":") {
        Some(j) => j,
        None => {
            return None;
        },
    };
    let (duration_seconds, j17) = match dopt_u32(v, j16) {
        Some(p) => p,
        None => {
            return None;
        },
    };
    let j18 = match dexp_lit(v, j17, "}") {
        Some(j) => j,
        None => {
            return None;
        },
    };
    let m = TrackMetadata {
        file_path,
        artist,
        title,
        album,
        year,
        genre,
        track_number,
        album_artist,
        duration_seconds,
    };
    Some((m, j18))
}

/// Reads one edit object at position `i`.
fn dsugg(v: &Vec<char>, i: usize) -> (r: Option<(MetadataSuggestion, usize)>)
    requires
        i <= v@.len(),
    ensures
        match r {
            Some(p) => dec_sugg(v@.skip(i as int)) == Some((p.0.deep_view(), v@.skip(
                p.1 as int,
            ))) && i <= p.1 <= v@.len(),
            None => dec_sugg(v@.skip(i as int)) is None,
        },
{
    let j0 = match dexp_lit(v, i, "{\"field\":") {
        Some(j) => j,
        None => {
            return None;
        },
    };
    let (field, j1) = match dstr(v, j0) {
        Some(p) => p,
        None => {
            return None;
        },
    };
    let j2 = match dexp_lit(v, j1, ",\"current_value\":") {
        Some(j) => j,
        None => {
            return None;
        },
    };
    let (current_value, j3) = match dopt_str(v, j2) {
        Some(p) => p,
        None => {
            return None;
        },
    };
    let j4 = match dexp_lit(v, j3, ",\"suggested_value\":") {
        Some(j) => j,
        None => {
            return None;
        },
    };
    let (suggested_value, j5) = match dstr(v, j4) {
        Some(p) => p,
        None => {
            return None;
        },
    };
    let j6 = match dexp_lit(v, j5, ",\"confidence\":") {
        Some(j) => j,
        None => {
            return None;
        },
    };
    let (confidence, j7) = match dstr(v, j6) {
        Some(p) => p,
        None => {
            return None;
        },
    };
    let j8 = match dexp_lit(v, j7, ",\"reason\":") {
        Some(j) => j,
        None => {
            return None;
        },
    };
    let (reason, j9) = match dstr(v, j8) {
        Some(p) => p,
        None => {
            return None;
        },
    };
    let j10 = match dexp_lit(v, j9, "}") {
        Some(j) => j,
        None => {
            return None;
        },
    };
    let e = MetadataSuggestion { field, current_value, suggested_value, confidence, reason };
    Some((e, j10))
}

/// Reads the tail of the edit array at position `i`.
fn dmore(v: &Vec<char>, i: usize) -> (r: Option<(Vec<MetadataSuggestion>, usize)>)
    requires
        i <= v@.len(),
    ensures
        match r {
            Some(p) => dec_more(v@.skip(i as int)) == Some((p.0.deep_view(), v@.skip(
                p.1 as int,
            ))) && i <= p.1 <= v@.len(),
            None => dec_more(v@.skip(i as int)) is None,
        },
    decreases v@.len() - i,
{
    let ghost s = v@.skip(i as int);
    proof {
        reveal_strlit("]");
        reveal_strlit(",");
    }
    match dexp_lit(v, i, "]") {
        Some(j) => {
            proof {
                assert(starts_with_spec(s, "]"@));
                assert(s.subrange(1, s.len() as int) =~= s.subrange("]"@.len() as int, s.len() as int));
            }
            let out: Vec<MetadataSuggestion> = Vec::new();
            proof {
                assert(out.deep_view() =~~= Seq::<SuggestionView>::empty());
            }
            Some((out, j))
        },
        None => {
            proof {
                assert(!starts_with_spec(s, "]"@));
            }
            match dexp_lit(v, i, ",") {
                None => {
                    proof {
                        assert(!starts_with_spec(s, ","@));
                    }
                    None
                },
                Some(j1) => {
                    proof {
                        assert(starts_with_spec(s, ","@));
                        assert(s.subrange(1, s.len() as int) =~= s.subrange(
                            ","@.len() as int,
                            s.len() as int,
                        ));
                        reveal_strlit(",");
                    }
                    match dsugg(v, j1) {
                        None => None,
                        Some((e, j2)) => {
                            proof {
                                assert(j2 > i);
                                assert(v@.skip(j2 as int).len() < s.len());
                            }
                            match dmore(v, j2) {
                                None => None,
                                Some((t, j3)) => {
                                    let ghost tdv = t.deep_view();
                                    let mut out = t;
                                    out.insert(0, e);
                                    proof {
                                        assert(out.deep_view() =~= seq![e.deep_view()] + tdv);
                                    }
                                    Some((out, j3))
                                },
                            }
                        },
                    }
                },
            }
        },
    }
}

/// Reads the edit array at position `i`.
fn dsuggs(v: &Vec<char>, i: usize) -> (r: Option<(Vec<MetadataSuggestion>, usize)>)
    requires
        i <= v@.len(),
    ensures
        match r {
            Some(p) => dec_suggs(v@.skip(i as int)) == Some((p.0.deep_view(), v@.skip(
                p.1 as int,
            ))) && i <= p.1 <= v@.len(),
            None => dec_suggs(v@.skip(i as int)) is None,
        },
{
    let ghost s = v@.skip(i as int);
    proof {
        reveal_strlit("[");
        reveal_strlit("]");
    }
    let j0 = match dexp_lit(v, i, "[") {
        Some(j) => j,
        None => {
            return None;
        },
    };
    let ghost s1 = v@.skip(j0 as int);
    match dexp_lit(v, j0, "]") {
        Some(j) => {
            proof {
                assert(starts_with_spec(s1, "]"@));
                assert(s1.subrange(1, s1.len() as int) =~= s1.subrange(
                    "]"@.len() as int,
                    s1.len() as int,
                ));
            }
            let out: Vec<MetadataSuggestion> = Vec::new();
            proof {
                assert(out.deep_view() =~~= Seq::<SuggestionView>::empty());
            }
            Some((out, j))
        },
        None => {
            proof {
                assert(!starts_with_spec(s1, "]"@));
            }
            match dsugg(v, j0) {
                None => None,
                Some((e, j2)) => {
                    proof {
                        reveal_strlit("[");
                        assert(j2 > i);
                        assert(v@.skip(j2 as int).len() < s.len());
                    }
                    match dmore(v, j2) {
                        None => None,
                        Some((t, j3)) => {
                            let ghost tdv = t.deep_view();
                            let mut out = t;
                            out.insert(0, e);
                            proof {
                                assert(out.deep_view() =~= seq![e.deep_view()] + tdv);
                            }
                            Some((out, j3))
                        },
                    }
                },
            }
        },
    }
}

/// Reads the report object at position `i`.
fn dreport(v: &Vec<char>, i: usize) -> (r: Option<(SuggestionsReport, usize)>)
    requires
        i <= v@.len(),
    ensures
        match r {
            Some(p) => dec_report(v@.skip(i as int)) == Some((p.0.deep_view(), v@.skip(
                p.1 as int,
            ))) && i <= p.1 <= v@.len(),
            None => dec_report(v@.skip(i as int)) is None,
        },
{
    let j0 = match dexp_lit(v, i, "{\"file_path\":") {
        Some(j) => j,
        None => {
            return None;
        },
    };
    let (file_path, j1) = match dstr(v, j0) {
        Some(p) => p,
        None => {
            return None;
        },
    };
    let j2 = match dexp_lit(v, j1, ",\"timestamp\":") {
        Some(j) => j,
        None => {
            return None;
        },
    };
    let (timestamp, j3) = match dstr(v, j2) {
        Some(p) => p,
        None => {
            return None;
        },
    };
    let j4 = match dexp_lit(v, j3, ",\"current_metadata\":") {
        Some(j) => j,
        None => {
            return None;
        },
    };
    let (current_metadata, j5) = match dmeta(v, j4) {
        Some(p) => p,
        None => {
            return None;
        },
    };
    let j6 = match dexp_lit(v, j5, ",\"suggestions\":") {
        Some(j) => j,
        None => {
            return None;
        },
    };
    let (suggestions, j7) = match dsuggs(v, j6) {
        Some(p) => p,
        None => {
            return None;
        },
    };
    let j8 = match dexp_lit(v, j7, ",\"llm_analysis\":") {
        Some(j) => j,
        None => {
            return None;
        },
    };
    let (llm_analysis, j9) = match dstr(v, j8) {
        Some(p) => p,
        None => {
            return None;
        },
    };
    let j10 = match dexp_lit(v, j9, ",\"should_apply\":") {
        Some(j) => j,
        None => {
            return None;
        },
    };
    let (should_apply, j11) = match dbool(v, j10) {
        Some(p) => p,
        None => {
            return None;
        },
    };
    let j12 = match dexp_lit(v, j11, "}") {
        Some(j) => j,
        None => {
            return None;
        },
    };
    let rep = SuggestionsReport {
        file_path,
        timestamp,
        current_metadata,
        suggestions,
        llm_analysis,
        should_apply,
    };
    Some((rep, j12))
}

impl SuggestionsReport {
    /// Reads a report back from its JSON rendering. Exactly the texts the
    /// encoder emits are accepted; anything else is a parse error.
    pub fn from_json(text: &str) -> (r: Result<SuggestionsReport, crate::error::AgentError>)
        ensures
            match r {
                Ok(rep) => spec_from_json(text@) == Some(rep.deep_view()),
                Err(e) => spec_from_json(text@) is None && e is MetadataParse,
            },
    {
        let v = str_chars(text);
        proof {
            assert(v@.skip(0) =~= text@);
        }
        match dreport(&v, 0) {
            Some((rep, j)) => {
                if j == v.len() {
                    proof {
                        assert(v@.skip(j as int).len() == 0);
                    }
                    Ok(rep)
                } else {
                    proof {
                        assert(v@.skip(j as int).len() > 0);
                    }
                    Err(
                        crate::error::AgentError::MetadataParse(
                            crate::text::string_lit("unexpected trailing content"),
                        ),
                    )
                }
            },
            None => Err(
                crate::error::AgentError::MetadataParse(
                    crate::text::string_lit("malformed suggestions artifact"),
                ),
            ),
        }
    }
}

} // verus!
