//! The suggestion parser: turns free-form model text into an ordered
//! sequence of field edits under a fixed block convention. It is deliberately
//! lenient — malformed input yields fewer edits, never an error.
//!
//! The convention: a text containing the sentinel `NO_SUGGESTIONS_NEEDED`
//! yields no edits at all. Otherwise the text is split on `---` into blocks;
//! a block is kept only when, trimmed, it is non-empty and mentions
//! `SUGGESTION:`. Within a block, each line is trimmed and matched against
//! the prefixes `SUGGESTION:`, `CURRENT:`, `SUGGESTED:`, `CONFIDENCE:` and
//! `REASON:`; the trimmed remainder is the value, and the last value per key
//! wins. A block contributes an edit only when both the field name and the
//! proposed value end up non-empty.
use vstd::prelude::*;
use crate::metadata::TrackMetadata;
use crate::suggestions::{MetadataSuggestion, SuggestionView};
use crate::text::{
    contains_sub, has_sub, split_on, split_spec, starts_with, starts_with_spec, str_chars,
    sub_vec, trim, trim_spec, vec_eq,
};

verus! {

/// The per-block accumulator: what the scanned lines have assigned so far.
pub struct BlockAcc {
    pub field: Seq<char>,
    pub current: Option<Seq<char>>,
    pub suggested: Seq<char>,
    pub confidence: Seq<char>,
    pub reason: Seq<char>,
}

/// The accumulator a block starts from: nothing assigned, confidence at its
/// default `Medium`, reason empty.
pub open spec fn init_acc() -> BlockAcc {
    BlockAcc {
        field: Seq::empty(),
        current: None,
        suggested: Seq::empty(),
        confidence: "Medium"@,
        reason: Seq::empty(),
    }
}

/// One line folded into the accumulator: the line is trimmed, matched
/// against the recognized prefixes, and the trimmed remainder assigned;
/// a `CURRENT:` value of exactly `None` or nothing leaves the prior value
/// absent, and an unrecognized line changes nothing.
pub open spec fn line_update(acc: BlockAcc, line: Seq<char>) -> BlockAcc {
    let l = trim_spec(line);
    if starts_with_spec(l, "SUGGESTION:"@) {
        BlockAcc { field: trim_spec(l.subrange("SUGGESTION:"@.len() as int, l.len() as int)), ..acc }
    } else if starts_with_spec(l, "CURRENT:"@) {
        let v = trim_spec(l.subrange("CURRENT:"@.len() as int, l.len() as int));
        if v == "None"@ || v.len() == 0 {
            acc
        } else {
            BlockAcc { current: Some(v), ..acc }
        }
    } else if starts_with_spec(l, "SUGGESTED:"@) {
        BlockAcc { suggested: trim_spec(l.subrange("SUGGESTED:"@.len() as int, l.len() as int)), ..acc }
    } else if starts_with_spec(l, "CONFIDENCE:"@) {
        BlockAcc { confidence: trim_spec(l.subrange("CONFIDENCE:"@.len() as int, l.len() as int)), ..acc }
    } else if starts_with_spec(l, "REASON:"@) {
        BlockAcc { reason: trim_spec(l.subrange("REASON:"@.len() as int, l.len() as int)), ..acc }
    } else {
        acc
    }
}

/// The lines folded into the accumulator in order.
pub open spec fn scan_lines(acc: BlockAcc, lines: Seq<Seq<char>>) -> BlockAcc
    decreases lines.len(),
{
    if lines.len() == 0 {
        acc
    } else {
        line_update(scan_lines(acc, lines.drop_last()), lines.last())
    }
}

/// The edit one block contributes, if any: none when the trimmed block is
/// empty or lacks `SUGGESTION:`, and none when the scan leaves the field
/// name or the proposed value empty.
pub open spec fn block_edit(b: Seq<char>) -> Option<SuggestionView> {
    let t = trim_spec(b);
    if t.len() == 0 || !has_sub(t, "SUGGESTION:"@) {
        None
    } else {
        let acc = scan_lines(init_acc(), split_spec(b, "\n"@));
        if acc.field.len() > 0 && acc.suggested.len() > 0 {
            Some(
                SuggestionView {
                    field: acc.field,
                    current_value: acc.current,
                    suggested_value: acc.suggested,
                    confidence: acc.confidence,
                    reason: acc.reason,
                },
            )
        } else {
            None
        }
    }
}

/// The edits of all blocks, in block order.
pub open spec fn parse_blocks(blocks: Seq<Seq<char>>) -> Seq<SuggestionView>
    decreases blocks.len(),
{
    if blocks.len() == 0 {
        Seq::empty()
    } else {
        parse_blocks(blocks.drop_last()) + (match block_edit(blocks.last()) {
            Some(e) => seq![e],
            None => Seq::empty(),
        })
    }
}

/// What the parser extracts from `text`: nothing when the sentinel
/// `NO_SUGGESTIONS_NEEDED` occurs anywhere, else the edits of the blocks
/// between `---` separators, in order.
pub open spec fn parse_spec(text: Seq<char>) -> Seq<SuggestionView> {
    if has_sub(text, "NO_SUGGESTIONS_NEEDED"@) {
        Seq::empty()
    } else {
        parse_blocks(split_spec(text, "---"@))
    }
}

/// Scans one block and returns its edit, if the block yields one.
fn parse_block(b: &Vec<char>) -> (r: Option<MetadataSuggestion>)
    ensures
        r.deep_view() == block_edit(b@),
{
    let t = trim(b);
    let sugg_tag = str_chars("SUGGESTION:");
    if t.len() == 0 || !contains_sub(&t, &sugg_tag) {
        return None;
    }
    let newline = str_chars("\n");
    proof {
        reveal_strlit("\n");
    }
    let lines = split_on(b, &newline);
    let curr_tag = str_chars("CURRENT:");
    let sugd_tag = str_chars("SUGGESTED:");
    let conf_tag = str_chars("CONFIDENCE:");
    let reas_tag = str_chars("REASON:");
    let none_word = str_chars("None");
    let mut field: Vec<char> = Vec::new();
    let mut current: Option<Vec<char>> = None;
    let mut suggested: Vec<char> = Vec::new();
    let mut confidence: Vec<char> = str_chars("Medium");
    let mut reason: Vec<char> = Vec::new();
    let n: usize = lines.len();
    let mut i: usize = 0;
    while i < n
        invariant
            n == lines@.len(),
            i <= n,
            mk_acc(field@, current.deep_view(), suggested@, confidence@, reason@) == scan_lines(
                init_acc(),
                lines.deep_view().subrange(0, i as int),
            ),
            sugg_tag@ == "SUGGESTION:"@,
            curr_tag@ == "CURRENT:"@,
            sugd_tag@ == "SUGGESTED:"@,
            conf_tag@ == "CONFIDENCE:"@,
            reas_tag@ == "REASON:"@,
            none_word@ == "None"@,
            lines.deep_view() == split_spec(b@, "\n"@),
        decreases n - i,
    {
        let l = trim(&lines[i]);
        proof {
            crate::text::lemma_deep_view_is_view(lines@[i as int]);
            assert(lines@[i as int]@ == lines.deep_view()[i as int]);
        }
        if starts_with(&l, &sugg_tag) {
            let v = sub_vec(&l, sugg_tag.len(), l.len());
            field = trim(&v);
        } else if starts_with(&l, &curr_tag) {
            let v0 = sub_vec(&l, curr_tag.len(), l.len());
            let v = trim(&v0);
            if !(vec_eq(&v, &none_word) || v.len() == 0) {
                current = Some(v);
            }
        } else if starts_with(&l, &sugd_tag) {
            let v = sub_vec(&l, sugd_tag.len(), l.len());
            suggested = trim(&v);
        } else if starts_with(&l, &conf_tag) {
            let v = sub_vec(&l, conf_tag.len(), l.len());
            confidence = trim(&v);
        } else if starts_with(&l, &reas_tag) {
            let v = sub_vec(&l, reas_tag.len(), l.len());
            reason = trim(&v);
        }
        i = i + 1;
        proof {
            crate::text::lemma_opt_deep_view_is_view(current);
            let dv = lines.deep_view();
            assert(dv.subrange(0, i as int).drop_last() =~= dv.subrange(0, i - 1));
            assert(dv.subrange(0, i as int).last() == dv[i - 1]);
            assert(mk_acc(field@, current.deep_view(), suggested@, confidence@, reason@)
                == line_update(scan_lines(init_acc(), dv.subrange(0, i - 1)), dv[i - 1]));
        }
    }
    proof {
        assert(lines.deep_view().subrange(0, n as int) =~= lines.deep_view());
    }
    proof {
        crate::text::lemma_opt_deep_view_is_view(current);
    }
    if field.len() > 0 && suggested.len() > 0 {
        let current_value = match current {
            Some(v) => Some(crate::text::chars_string(&v)),
            None => None,
        };
        Some(
            MetadataSuggestion {
                field: crate::text::chars_string(&field),
                current_value,
                suggested_value: crate::text::chars_string(&suggested),
                confidence: crate::text::chars_string(&confidence),
                reason: crate::text::chars_string(&reason),
            },
        )
    } else {
        None
    }
}

/// The accumulator with the given parts.
pub open spec fn mk_acc(
    field: Seq<char>,
    current: Option<Seq<char>>,
    suggested: Seq<char>,
    confidence: Seq<char>,
    reason: Seq<char>,
) -> BlockAcc {
    BlockAcc { field, current, suggested, confidence, reason }
}

/// Extracts the ordered field edits from free-form model text; the record
/// the text was produced about is passed along as context for callers. The
/// parser never fails: malformed text yields fewer edits, and any text
/// containing the sentinel yields none.
pub fn parse_suggestions(model_text: &str, _context: &TrackMetadata) -> (r: Vec<
    MetadataSuggestion,
>)
    ensures
        r.deep_view() == parse_spec(model_text@),
        has_sub(model_text@, "NO_SUGGESTIONS_NEEDED"@) ==> r@.len() == 0,
{
    let text = str_chars(model_text);
    let sentinel = str_chars("NO_SUGGESTIONS_NEEDED");
    if contains_sub(&text, &sentinel) {
        let r: Vec<MetadataSuggestion> = Vec::new();
        proof {
            assert(r.deep_view() =~~= parse_spec(model_text@));
        }
        return r;
    }
    let sep = str_chars("---");
    proof {
        reveal_strlit("---");
    }
    let blocks = split_on(&text, &sep);
    let mut r: Vec<MetadataSuggestion> = Vec::new();
    let n: usize = blocks.len();
    let mut i: usize = 0;
    proof {
        assert(r.deep_view() =~~= parse_blocks(blocks.deep_view().subrange(0, 0)));
    }
    while i < n
        invariant
            n == blocks@.len(),
            i <= n,
            blocks.deep_view() == split_spec(model_text@, "---"@),
            r.deep_view() == parse_blocks(blocks.deep_view().subrange(0, i as int)),
        decreases n - i,
    {
        proof {
            crate::text::lemma_deep_view_is_view(blocks@[i as int]);
            assert(blocks@[i as int]@ == blocks.deep_view()[i as int]);
        }
        match parse_block(&blocks[i]) {
            Some(e) => {
                r.push(e);
            },
            None => {},
        }
        i = i + 1;
        proof {
            let dv = blocks.deep_view();
            assert(dv.subrange(0, i as int).drop_last() =~= dv.subrange(0, i - 1));
            assert(dv.subrange(0, i as int).last() == dv[i - 1]);
            assert(r.deep_view() =~~= parse_blocks(dv.subrange(0, i as int)));
        }
    }
    proof {
        assert(blocks.deep_view().subrange(0, n as int) =~= blocks.deep_view());
        assert(!has_sub(model_text@, "NO_SUGGESTIONS_NEEDED"@));
    }
    r
}

} // verus!
