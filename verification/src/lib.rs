//! Merging several iCalendar (`.ics`) feeds into one, with privacy options.
//!
//! Each source calendar of a merge configuration is filtered line by line:
//! the header lines that would break the merged calendar are dropped, and a
//! private calendar also loses its descriptions and locations while each of its
//! event summaries is replaced by the calendar's name.
use std::io::BufReader;

use stringreader::StringReader;
use vstd::prelude::*;
use vstd::string::*;

use crate::db::IcsCal;
use crate::text::{has_prefix, starts_with};

pub mod db;
pub mod service;
pub mod text;

verus! {

/// iCalendar keywords
pub const BEGIN_VTIMEZONE: &'static str = "BEGIN:VTIMEZONE";
pub const BEGIN_VCALENDAR: &'static str = "BEGIN:VCALENDAR";
pub const END_VCALENDAR: &'static str = "END:VCALENDAR";
pub const LOCATION: &'static str = "LOCATION:";
pub const SUMMARY: &'static str = "SUMMARY:";
pub const DESCRIPTION: &'static str = "DESCRIPTION:";
pub const METHOD: &'static str = "METHOD:";
pub const PRODID: &'static str = "PRODID:";
pub const VERSION: &'static str = "VERSION:";
pub const X_WR_CALNAME: &'static str = "X-WR-CALNAME:";
pub const CALSCALE: &'static str = "CALSCALE:";

pub const NEW_LINE: &'static str = "\n";

/// The keywords whose lines are dropped from every calendar so that the
/// calendars can be merged into one.
pub open spec fn merge_keywords() -> Seq<Seq<char>> {
    seq![
        BEGIN_VCALENDAR@,
        END_VCALENDAR@,
        METHOD@,
        PRODID@,
        VERSION@,
        X_WR_CALNAME@,
        CALSCALE@,
    ]
}

/// The keywords whose lines are also dropped from a private calendar:
/// the details of its events.
pub open spec fn private_keywords() -> Seq<Seq<char>> {
    seq![DESCRIPTION@, LOCATION@, PRODID@]
}

/// The keywords filtered out of a calendar, private or not.
pub open spec fn filtered_keywords(is_private: bool) -> Seq<Seq<char>> {
    if is_private {
        merge_keywords() + private_keywords()
    } else {
        merge_keywords()
    }
}

/// Whether `line` begins with one of `keywords`.
pub open spec fn starts_with_any(line: Seq<char>, keywords: Seq<Seq<char>>) -> bool {
    exists|k: int| 0 <= k < keywords.len() && has_prefix(line, #[trigger] keywords[k])
}

/// What the filter emits for one unfolded line of `calendar`.
pub open spec fn filtered_line(calendar: IcsCal, line: Seq<char>) -> Seq<char> {
    if starts_with_any(line, filtered_keywords(calendar.is_private)) {
        Seq::empty()
    } else if calendar.is_private && has_prefix(line, SUMMARY@) {
        SUMMARY@ + calendar.name@ + NEW_LINE@
    } else {
        line + NEW_LINE@
    }
}

/// What the filter emits for a sequence of unfolded lines of `calendar`.
pub open spec fn filtered_calendar(calendar: IcsCal, lines: Seq<Seq<char>>) -> Seq<char>
    decreases lines.len(),
{
    if lines.len() == 0 {
        Seq::empty()
    } else {
        filtered_calendar(calendar, lines.drop_last()) + filtered_line(calendar, lines.last())
    }
}

/// Filtering works line by line: the lines of two texts filtered one after the
/// other give the two filtered texts one after the other.
pub proof fn law_filter_is_line_by_line(calendar: IcsCal, a: Seq<Seq<char>>, b: Seq<Seq<char>>)
    ensures
        filtered_calendar(calendar, a + b) == filtered_calendar(calendar, a) + filtered_calendar(
            calendar,
            b,
        ),
    decreases b.len(),
{
    if b.len() == 0 {
        assert(a + b =~= a);
    } else {
        law_filter_is_line_by_line(calendar, a, b.drop_last());
        assert((a + b).drop_last() =~= a + b.drop_last());
        assert((a + b).last() == b.last());
    }
}

/// A line that begins with `prefix` begins with its first character.
proof fn lemma_prefix_first_char(line: Seq<char>, prefix: Seq<char>)
    requires
        has_prefix(line, prefix),
        prefix.len() > 0,
    ensures
        line[0] == prefix[0],
{
    assert(line.subrange(0, prefix.len() as int)[0] == line[0]);
}

/// The texts of the keywords, as the filter sees them.
proof fn lemma_keyword_texts()
    ensures
        BEGIN_VCALENDAR@ == "BEGIN:VCALENDAR"@,
        END_VCALENDAR@ == "END:VCALENDAR"@,
        METHOD@ == "METHOD:"@,
        PRODID@ == "PRODID:"@,
        VERSION@ == "VERSION:"@,
        X_WR_CALNAME@ == "X-WR-CALNAME:"@,
        CALSCALE@ == "CALSCALE:"@,
        DESCRIPTION@ == "DESCRIPTION:"@,
        LOCATION@ == "LOCATION:"@,
        SUMMARY@ == "SUMMARY:"@,
        NEW_LINE@ == "\n"@,
{
}

/// In a private calendar, the descriptions, locations and producer id of the
/// source are dropped, and every event summary is replaced by the calendar's
/// name.
pub proof fn law_private_calendar_hides_details(calendar: IcsCal, line: Seq<char>)
    requires
        calendar.is_private,
    ensures
        has_prefix(line, DESCRIPTION@) || has_prefix(line, LOCATION@) || has_prefix(line, PRODID@)
            ==> filtered_line(calendar, line) == Seq::<char>::empty(),
        has_prefix(line, SUMMARY@) ==> filtered_line(calendar, line) == SUMMARY@ + calendar.name@
            + NEW_LINE@,
{
    let keys = filtered_keywords(true);
    lemma_keyword_texts();
    reveal_strlit("BEGIN:VCALENDAR");
    reveal_strlit("END:VCALENDAR");
    reveal_strlit("METHOD:");
    reveal_strlit("PRODID:");
    reveal_strlit("VERSION:");
    reveal_strlit("X-WR-CALNAME:");
    reveal_strlit("CALSCALE:");
    reveal_strlit("DESCRIPTION:");
    reveal_strlit("LOCATION:");
    reveal_strlit("SUMMARY:");
    if has_prefix(line, DESCRIPTION@) {
        assert(keys[7] == DESCRIPTION@);
    }
    if has_prefix(line, LOCATION@) {
        assert(keys[8] == LOCATION@);
    }
    if has_prefix(line, PRODID@) {
        assert(keys[9] == PRODID@);
    }
    if has_prefix(line, SUMMARY@) {
        lemma_prefix_first_char(line, SUMMARY@);
        assert forall|k: int| 0 <= k < keys.len() implies !has_prefix(line, #[trigger] keys[k]) by {
            if has_prefix(line, keys[k]) {
                lemma_prefix_first_char(line, keys[k]);
            }
        }
    }
}

/// No line that the filter emits, for any calendar, begins with one of the
/// keywords that would break the merged calendar (the calendar's own header and
/// footer, method, producer id, version, name and scale).
pub proof fn law_filtered_lines_keep_no_header(calendar: IcsCal, line: Seq<char>)
    ensures
        !starts_with_any(filtered_line(calendar, line), merge_keywords()),
{
    let out = filtered_line(calendar, line);
    let merge = merge_keywords();
    let keys = filtered_keywords(calendar.is_private);
    lemma_keyword_texts();
    reveal_strlit("BEGIN:VCALENDAR");
    reveal_strlit("END:VCALENDAR");
    reveal_strlit("METHOD:");
    reveal_strlit("PRODID:");
    reveal_strlit("VERSION:");
    reveal_strlit("X-WR-CALNAME:");
    reveal_strlit("CALSCALE:");
    reveal_strlit("SUMMARY:");
    reveal_strlit("\n");
    assert forall|k: int| 0 <= k < merge.len() implies !has_prefix(out, #[trigger] merge[k]) by {
        let key = merge[k];
        assert(keys[k] == key);
        assert(forall|i: int| 0 <= i < key.len() ==> key[i] != '\n');
        if has_prefix(out, key) {
            lemma_prefix_first_char(out, key);
            if starts_with_any(line, keys) {
            } else if calendar.is_private && has_prefix(line, SUMMARY@) {
                assert(out[0] == 'S');
            } else {
                assert(out == line + NEW_LINE@);
                if key.len() > line.len() {
                    assert(out[line.len() as int] == '\n');
                    assert(out.subrange(0, key.len() as int)[line.len() as int] == key[line.len() as int]);
                } else {
                    assert(line.subrange(0, key.len() as int) =~= out.subrange(0, key.len() as int));
                    assert(has_prefix(line, keys[k]));
                }
            }
        }
    }
}

/// A public calendar is passed through unchanged but for the dropped header
/// lines: every other line is kept as it is.
pub proof fn law_public_calendar_kept_verbatim(calendar: IcsCal, line: Seq<char>)
    requires
        !calendar.is_private,
    ensures
        filtered_line(calendar, line) == if starts_with_any(line, merge_keywords()) {
            Seq::<char>::empty()
        } else {
            line + NEW_LINE@
        },
{
}

/// Every line is non-empty and holds no line break.
pub open spec fn is_line_list(lines: Seq<Seq<char>>) -> bool {
    forall|i: int| 0 <= i < lines.len() ==> #[trigger] lines[i].len() > 0 && !lines[i].contains('\n')
}

/// The lines that the filter writes for the unfolded `lines` of `calendar`,
/// without their line breaks.
pub open spec fn kept_lines(calendar: IcsCal, lines: Seq<Seq<char>>) -> Seq<Seq<char>>
    decreases lines.len(),
{
    if lines.len() == 0 {
        Seq::empty()
    } else {
        let rest = kept_lines(calendar, lines.drop_last());
        let line = lines.last();
        if starts_with_any(line, filtered_keywords(calendar.is_private)) {
            rest
        } else if calendar.is_private && has_prefix(line, SUMMARY@) {
            rest.push(SUMMARY@ + calendar.name@)
        } else {
            rest.push(line)
        }
    }
}

/// Lines, each followed by a line break.
pub open spec fn joined_lines(lines: Seq<Seq<char>>) -> Seq<char>
    decreases lines.len(),
{
    if lines.len() == 0 {
        Seq::empty()
    } else {
        joined_lines(lines.drop_last()) + lines.last() + NEW_LINE@
    }
}

/// What a kept line of `calendar` satisfies: no line break, no header keyword at
/// its start, and, for a private calendar, no description, location or producer
/// id, and a summary only as the calendar's name.
pub open spec fn is_filtered_output_line(calendar: IcsCal, line: Seq<char>) -> bool {
    &&& !line.contains('\n')
    &&& !starts_with_any(line, merge_keywords())
    &&& calendar.is_private ==> {
        &&& !has_prefix(line, DESCRIPTION@)
        &&& !has_prefix(line, LOCATION@)
        &&& !has_prefix(line, PRODID@)
        &&& has_prefix(line, SUMMARY@) ==> line == SUMMARY@ + calendar.name@
    }
}

/// A line that the filter keeps satisfies `is_filtered_output_line`.
proof fn lemma_kept_line(calendar: IcsCal, line: Seq<char>)
    requires
        !line.contains('\n'),
        !calendar.name@.contains('\n'),
    ensures
        !starts_with_any(line, filtered_keywords(calendar.is_private)) ==> if calendar.is_private
            && has_prefix(line, SUMMARY@) {
            is_filtered_output_line(calendar, SUMMARY@ + calendar.name@)
        } else {
            is_filtered_output_line(calendar, line)
        },
{
    let keys = filtered_keywords(calendar.is_private);
    let merge = merge_keywords();
    lemma_keyword_texts();
    reveal_strlit("BEGIN:VCALENDAR");
    reveal_strlit("END:VCALENDAR");
    reveal_strlit("METHOD:");
    reveal_strlit("PRODID:");
    reveal_strlit("VERSION:");
    reveal_strlit("X-WR-CALNAME:");
    reveal_strlit("CALSCALE:");
    reveal_strlit("DESCRIPTION:");
    reveal_strlit("LOCATION:");
    reveal_strlit("SUMMARY:");
    if !starts_with_any(line, keys) {
        if calendar.is_private && has_prefix(line, SUMMARY@) {
            let out = SUMMARY@ + calendar.name@;
            assert(out[0] == 'S');
            assert(!out.contains('\n')) by {
                if out.contains('\n') {
                    let i = choose|i: int| 0 <= i < out.len() && out[i] == '\n';
                    if i >= SUMMARY@.len() {
                        assert(calendar.name@[i - SUMMARY@.len()] == '\n');
                    }
                }
            }
            assert forall|k: int| 0 <= k < merge.len() implies !has_prefix(out, #[trigger] merge[k]) by {
                if has_prefix(out, merge[k]) {
                    lemma_prefix_first_char(out, merge[k]);
                }
            }
            if has_prefix(out, DESCRIPTION@) {
                lemma_prefix_first_char(out, DESCRIPTION@);
            }
            if has_prefix(out, LOCATION@) {
                lemma_prefix_first_char(out, LOCATION@);
            }
            if has_prefix(out, PRODID@) {
                lemma_prefix_first_char(out, PRODID@);
            }
        } else {
            assert forall|k: int| 0 <= k < merge.len() implies !has_prefix(line, #[trigger] merge[k]) by {
                assert(keys[k] == merge[k]);
            }
            if calendar.is_private {
                assert(keys[7] == DESCRIPTION@);
                assert(keys[8] == LOCATION@);
                assert(keys[9] == PRODID@);
            }
        }
    }
}

/// The filtered text is the kept lines, each followed by a line break.
proof fn lemma_filtered_is_joined(calendar: IcsCal, lines: Seq<Seq<char>>)
    ensures
        filtered_calendar(calendar, lines) == joined_lines(kept_lines(calendar, lines)),
    decreases lines.len(),
{
    if lines.len() > 0 {
        lemma_filtered_is_joined(calendar, lines.drop_last());
        let rest = kept_lines(calendar, lines.drop_last());
        let out = kept_lines(calendar, lines);
        if out != rest {
            assert(out.drop_last() =~= rest);
        }
    }
}

/// The lines kept of two sequences of lines, one after the other, are the lines
/// kept of each, one after the other.
proof fn lemma_kept_lines_append(calendar: IcsCal, a: Seq<Seq<char>>, b: Seq<Seq<char>>)
    ensures
        kept_lines(calendar, a + b) == kept_lines(calendar, a) + kept_lines(calendar, b),
    decreases b.len(),
{
    if b.len() == 0 {
        assert(a + b =~= a);
        assert(kept_lines(calendar, a) + kept_lines(calendar, b) =~= kept_lines(calendar, a));
    } else {
        lemma_kept_lines_append(calendar, a, b.drop_last());
        assert((a + b).drop_last() =~= a + b.drop_last());
        assert((a + b).last() == b.last());
        let ka = kept_lines(calendar, a);
        let kb = kept_lines(calendar, b.drop_last());
        assert((ka + kb).push(SUMMARY@ + calendar.name@) =~= ka + kb.push(SUMMARY@ + calendar.name@));
        assert((ka + kb).push(b.last()) =~= ka + kb.push(b.last()));
    }
}

/// A line kept by the filter is kept as it is by a second filtering.
proof fn lemma_kept_line_kept_again(calendar: IcsCal, line: Seq<char>)
    ensures
        kept_lines(calendar, kept_lines(calendar, seq![line])) == kept_lines(calendar, seq![line]),
{
    let keys = filtered_keywords(calendar.is_private);
    let one = seq![line];
    assert(one.drop_last() =~= Seq::<Seq<char>>::empty());
    assert(one.last() == line);
    assert(kept_lines(calendar, Seq::<Seq<char>>::empty()) == Seq::<Seq<char>>::empty());
    let k = kept_lines(calendar, one);
    if !starts_with_any(line, keys) {
        let out = if calendar.is_private && has_prefix(line, SUMMARY@) {
            SUMMARY@ + calendar.name@
        } else {
            line
        };
        assert(k =~= seq![out]);
        assert(k.drop_last() =~= Seq::<Seq<char>>::empty());
        if calendar.is_private && has_prefix(line, SUMMARY@) {
            lemma_keyword_texts();
            reveal_strlit("BEGIN:VCALENDAR");
            reveal_strlit("END:VCALENDAR");
            reveal_strlit("METHOD:");
            reveal_strlit("PRODID:");
            reveal_strlit("VERSION:");
            reveal_strlit("X-WR-CALNAME:");
            reveal_strlit("CALSCALE:");
            reveal_strlit("DESCRIPTION:");
            reveal_strlit("LOCATION:");
            reveal_strlit("SUMMARY:");
            assert(out == SUMMARY@ + calendar.name@);
            assert(out[0] == 'S');
            assert forall|i: int| 0 <= i < keys.len() implies !has_prefix(out, #[trigger] keys[i]) by {
                if has_prefix(out, keys[i]) {
                    lemma_prefix_first_char(out, keys[i]);
                }
            }
            assert(out.subrange(0, SUMMARY@.len() as int) =~= SUMMARY@);
        }
    } else {
        assert(k =~= Seq::<Seq<char>>::empty());
    }
}

/// Filtering is idempotent: filtering the lines that the filter kept keeps them
/// all, as they are, and so writes the same text again.
pub proof fn law_filter_is_idempotent(calendar: IcsCal, lines: Seq<Seq<char>>)
    ensures
        kept_lines(calendar, kept_lines(calendar, lines)) == kept_lines(calendar, lines),
        filtered_calendar(calendar, kept_lines(calendar, lines)) == filtered_calendar(calendar, lines),
    decreases lines.len(),
{
    if lines.len() > 0 {
        let init = lines.drop_last();
        let line = lines.last();
        law_filter_is_idempotent(calendar, init);
        assert(lines =~= init + seq![line]);
        lemma_kept_lines_append(calendar, init, seq![line]);
        lemma_kept_lines_append(
            calendar,
            kept_lines(calendar, init),
            kept_lines(calendar, seq![line]),
        );
        lemma_kept_line_kept_again(calendar, line);
    }
    lemma_filtered_is_joined(calendar, kept_lines(calendar, lines));
    lemma_filtered_is_joined(calendar, lines);
}

/// The filtered text of a calendar is made of whole lines: it is the kept lines,
/// each followed by a line break, none of which holds a line break of its own
/// (so these are exactly the lines of the text). No such line begins with a
/// header keyword, and in a private calendar none is a description, a location or
/// the producer id, and every summary is the calendar's name. This holds when the
/// unfolded lines hold no line break (as the reader's lines never do) and the
/// calendar's name holds none.
pub proof fn law_filtered_output_lines(calendar: IcsCal, lines: Seq<Seq<char>>)
    requires
        is_line_list(lines),
        !calendar.name@.contains('\n'),
    ensures
        filtered_calendar(calendar, lines) == joined_lines(kept_lines(calendar, lines)),
        forall|k: int|
            0 <= k < kept_lines(calendar, lines).len() ==> is_filtered_output_line(
                calendar,
                #[trigger] kept_lines(calendar, lines)[k],
            ),
    decreases lines.len(),
{
    if lines.len() > 0 {
        let init = lines.drop_last();
        assert(is_line_list(init)) by {
            assert forall|i: int| 0 <= i < init.len() implies #[trigger] init[i].len() > 0
                && !init[i].contains('\n') by {
                assert(init[i] == lines[i]);
            }
        }
        law_filtered_output_lines(calendar, init);
        let line = lines.last();
        assert(lines[lines.len() - 1] == line);
        lemma_kept_line(calendar, line);
        let rest = kept_lines(calendar, init);
        let out = kept_lines(calendar, lines);
        lemma_keyword_texts();
        if starts_with_any(line, filtered_keywords(calendar.is_private)) {
            assert(out == rest);
        } else {
            assert(out.drop_last() =~= rest);
            assert(forall|k: int| 0 <= k < rest.len() ==> out[k] == rest[k]);
        }
    }
}

/// A line that begins with none of the keywords the filter drops is written as it
/// is, followed by a line break; for a private calendar that also holds for a
/// line that is neither a description, a location nor a summary. Only the header
/// keywords, and for a private calendar the description, location and producer
/// id, take a line out; only a private summary is rewritten.
pub proof fn law_other_lines_kept_verbatim(calendar: IcsCal, line: Seq<char>)
    requires
        !has_prefix(line, BEGIN_VCALENDAR@),
        !has_prefix(line, END_VCALENDAR@),
        !has_prefix(line, METHOD@),
        !has_prefix(line, PRODID@),
        !has_prefix(line, VERSION@),
        !has_prefix(line, X_WR_CALNAME@),
        !has_prefix(line, CALSCALE@),
        calendar.is_private ==> !has_prefix(line, DESCRIPTION@) && !has_prefix(line, LOCATION@)
            && !has_prefix(line, SUMMARY@),
    ensures
        filtered_line(calendar, line) == line + NEW_LINE@,
{
    let keys = filtered_keywords(calendar.is_private);
    assert forall|k: int| 0 <= k < keys.len() implies !has_prefix(line, #[trigger] keys[k]) by {
        if k == 0 {
            assert(keys[k] == BEGIN_VCALENDAR@);
        } else if k == 1 {
            assert(keys[k] == END_VCALENDAR@);
        } else if k == 2 {
            assert(keys[k] == METHOD@);
        } else if k == 3 {
            assert(keys[k] == PRODID@);
        } else if k == 4 {
            assert(keys[k] == VERSION@);
        } else if k == 5 {
            assert(keys[k] == X_WR_CALNAME@);
        } else if k == 6 {
            assert(keys[k] == CALSCALE@);
        } else if k == 7 {
            assert(keys[k] == DESCRIPTION@);
        } else if k == 8 {
            assert(keys[k] == LOCATION@);
        } else {
            assert(keys[k] == PRODID@);
        }
    }
}

/// A calendar whose lines all begin with none of the dropped keywords (nor, when
/// private, with a summary) comes out as its lines, each followed by a line
/// break, in order.
pub proof fn law_unfiltered_calendar_kept(calendar: IcsCal, lines: Seq<Seq<char>>)
    requires
        forall|i: int|
            0 <= i < lines.len() ==> {
                let l = #[trigger] lines[i];
                &&& !has_prefix(l, BEGIN_VCALENDAR@)
                &&& !has_prefix(l, END_VCALENDAR@)
                &&& !has_prefix(l, METHOD@)
                &&& !has_prefix(l, PRODID@)
                &&& !has_prefix(l, VERSION@)
                &&& !has_prefix(l, X_WR_CALNAME@)
                &&& !has_prefix(l, CALSCALE@)
                &&& calendar.is_private ==> !has_prefix(l, DESCRIPTION@) && !has_prefix(l, LOCATION@)
                    && !has_prefix(l, SUMMARY@)
            },
    ensures
        filtered_calendar(calendar, lines) == joined_lines(lines),
    decreases lines.len(),
{
    if lines.len() > 0 {
        let init = lines.drop_last();
        assert forall|i: int| 0 <= i < init.len() implies init[i] == lines[i] by {}
        law_unfiltered_calendar_kept(calendar, init);
        assert(lines[lines.len() - 1] == lines.last());
        law_other_lines_kept_verbatim(calendar, lines.last());
    }
}

/// The logical (unfolded) lines that `ical::LineReader` reads from an iCalendar text.
pub uninterp spec fn ical_unfolded_lines(content: Seq<char>) -> Seq<Seq<char>>;

/// The content that `parse_calendar_content` produces for `calendar` and the
/// text `ical_str` of its `.ics` file.
pub open spec fn parsed_calendar(calendar: IcsCal, ical_str: Seq<char>) -> Seq<char> {
    filtered_calendar(calendar, ical_unfolded_lines(ical_str))
}

/// Reads the logical lines of an iCalendar text with `ical::LineReader`, over a
/// `BufReader` of a `StringReader` of the text. The line reader joins folded
/// continuation lines and trims them; the contract does not restate that
/// algorithm: it names the result `ical_unfolded_lines`, a function of the text.
/// What the reader's source shows of every line is stated: it is not empty (the
/// reader stops on an empty line) and holds no line break (it is built from the
/// lines of `BufRead::lines`, which holds none).
#[verifier::external_body]
pub(crate) fn read_unfolded_lines(content: &str) -> (lines: Vec<String>)
    ensures
        lines@.map_values(|l: String| l@) == ical_unfolded_lines(content@),
        is_line_list(lines@.map_values(|l: String| l@)),
{
    let reader = ical::LineReader::new(BufReader::new(StringReader::new(content)));
    reader.map(|line| line.as_str().to_string()).collect()
}

/// The keywords filtered out of a calendar, private or not, in the order the
/// filter tries them.
pub fn calendar_keywords(is_private: bool) -> (keywords: Vec<&'static str>)
    ensures
        keywords@.map_values(|k: &str| k@) == filtered_keywords(is_private),
{
    let mut keywords = vec![
        BEGIN_VCALENDAR,
        END_VCALENDAR,
        METHOD,
        PRODID,
        VERSION,
        X_WR_CALNAME,
        CALSCALE,
    ];
    if is_private {
        keywords.push(DESCRIPTION);
        keywords.push(LOCATION);
        keywords.push(PRODID);
    }
    assert(keywords@.map_values(|k: &str| k@) =~= filtered_keywords(is_private));
    keywords
}

/// Whether `cal_line` begins with none of `keywords`.
pub fn not_filtered_keywords(cal_line: &str, keywords: &Vec<&str>) -> (keep: bool)
    ensures
        keep == !starts_with_any(cal_line@, keywords@.map_values(|k: &str| k@)),
{
    let ghost ks = keywords@.map_values(|k: &str| k@);
    let mut i: usize = 0;
    while i < keywords.len()
        invariant
            i <= keywords.len(),
            ks == keywords@.map_values(|k: &str| k@),
            forall|k: int| 0 <= k < i ==> !has_prefix(cal_line@, #[trigger] ks[k]),
        decreases keywords.len() - i,
    {
        if starts_with(cal_line, keywords[i]) {
            assert(has_prefix(cal_line@, ks[i as int]));
            return false;
        }
        i += 1;
    }
    true
}

/// Filters the unfolded lines of `calendar`: drops the lines that begin with a
/// filtered keyword, replaces the summary of a private calendar's events by the
/// calendar's name, and ends every kept line with a new line.
pub fn filter_calendar_lines(calendar: &IcsCal, lines: &Vec<String>) -> (content: String)
    ensures
        content@ == filtered_calendar(*calendar, lines@.map_values(|l: String| l@)),
{
    let ghost all = lines@.map_values(|l: String| l@);
    let keywords = calendar_keywords(calendar.is_private);
    let mut content = String::new();
    let mut i: usize = 0;
    while i < lines.len()
        invariant
            i <= lines.len(),
            all == lines@.map_values(|l: String| l@),
            keywords@.map_values(|k: &str| k@) == filtered_keywords(calendar.is_private),
            content@ == filtered_calendar(*calendar, all.take(i as int)),
        decreases lines.len() - i,
    {
        let line = lines[i].as_str();
        if not_filtered_keywords(line, &keywords) {
            if calendar.is_private && starts_with(line, SUMMARY) {
                content.append(SUMMARY);
                content.append(calendar.name.as_str());
                content.append(NEW_LINE);
            } else {
                content.append(line);
                content.append(NEW_LINE);
            }
        }
        assert(all.take(i + 1).drop_last() =~= all.take(i as int));
        i += 1;
    }
    assert(all.take(lines.len() as int) =~= all);
    content
}

/// Parses an iCalendar stream: reads its unfolded lines and filters them
/// according to the privacy of `calendar`.
/// calendar: the detailed information about the calendar
/// ical_str: the content of the file
pub fn parse_calendar_content(calendar: IcsCal, ical_str: String) -> (content: String)
    ensures
        content@ == parsed_calendar(calendar, ical_str@),
        is_line_list(ical_unfolded_lines(ical_str@)),
{
    parse_calendar_text(&calendar, ical_str.as_str())
}

/// `parse_calendar_content` on borrowed arguments.
pub fn parse_calendar_text(calendar: &IcsCal, ical_str: &str) -> (content: String)
    ensures
        content@ == parsed_calendar(*calendar, ical_str@),
        is_line_list(ical_unfolded_lines(ical_str@)),
{
    let lines = read_unfolded_lines(ical_str);
    filter_calendar_lines(calendar, &lines)
}

} // verus!
