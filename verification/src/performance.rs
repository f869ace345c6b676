//! The reports of the performance snapshot: its JSON form, and its text form, around
//! the floating-point figures that the caller rounds and formats.

use vstd::prelude::*;
use vstd::string::StringExecFns;
use crate::console::{get_int, get_member, get_text, member_int, member_of, member_text, owned};
use crate::json::{pretty_json, pretty_text, Json, JsonV};
use crate::text::{chars_of, signed_decimal, signed_decimal_string, string_of, trim_chars, trim_end, trim_start};

verus! {

/// The text that the snapshot script returned: the string `result.value` of the reply.
pub fn snapshot_source(reply: &Json) -> (t: Option<&String>)
    ensures
        match t {
            Some(s) => member_text(member_of(Some(*reply), "result"@), "value"@) == Some(s@),
            None => member_text(member_of(Some(*reply), "result"@), "value"@) is None,
        },
{
    get_text(get_member(Some(reply), "result"), "value")
}

/// The JSON report of the snapshot: the document parsed from the script's text,
/// pretty-printed, or `{}` when there is none.
pub fn performance_json(parsed: Option<&Json>) -> (t: String)
    ensures
        t@ == pretty_text(
            match owned(parsed) {
                Some(d) => d@,
                None => JsonV::Object(Seq::empty()),
            },
        ),
{
    match parsed {
        Some(d) => pretty_json(d),
        None => {
            let empty = Json::Object(Vec::new());
            proof {
                crate::json::lemma_members_view(Seq::<(String, Json)>::empty());
                assert(empty@ =~= JsonV::Object(Seq::empty()));
            }
            pretty_json(&empty)
        },
    }
}

/// The figures of the text report that are floating-point measurements, as the caller
/// wrote them.
pub struct PerfFigures {
    /// TTFB, first paint, first contentful paint, DOM interactive, DOMContentLoaded and
    /// load, in that order.
    pub timings: Vec<String>,
    /// The transfer size, when the snapshot gives a positive one.
    pub transfer_size: Option<String>,
    /// The used JS heap, read when the snapshot's `jsHeapUsed` is a number.
    pub heap_used: String,
    /// The total JS heap, read when the snapshot's `jsHeapTotal` is a number.
    pub heap_total: String,
}

/// The figures with their texts as characters.
pub struct PerfFiguresView {
    pub timings: Seq<Seq<char>>,
    pub transfer_size: Option<Seq<char>>,
    pub heap_used: Seq<char>,
    pub heap_total: Seq<char>,
}

impl View for PerfFigures {
    type V = PerfFiguresView;

    open spec fn view(&self) -> PerfFiguresView {
        PerfFiguresView {
            timings: Seq::new(self.timings@.len(), |i: int| self.timings@[i]@),
            transfer_size: match &self.transfer_size {
                Some(t) => Some(t@),
                None => None,
            },
            heap_used: self.heap_used@,
            heap_total: self.heap_total@,
        }
    }
}

/// Whether an optional value is a number.
pub open spec fn is_number(j: Option<Json>) -> bool {
    j matches Some(Json::Number(_))
}

/// The timing lines, one per figure.
pub open spec fn timing_lines(t: Seq<Seq<char>>) -> Seq<char> {
    "  TTFB:                    "@ + t[0] + "\n"@ + "  First Paint:             "@ + t[1] + "\n"@
        + "  First Contentful Paint:  "@ + t[2] + "\n"@ + "  DOM Interactive:         "@ + t[3]
        + "\n"@ + "  DOMContentLoaded:        "@ + t[4] + "\n"@ + "  Load:                    "@
        + t[5] + "\n"@
}

/// A line of the page weight when there is something to show.
pub open spec fn optional_line(label: Seq<char>, value: Option<Seq<char>>) -> Seq<char> {
    match value {
        Some(v) => label + v + "\n"@,
        None => Seq::empty(),
    }
}

/// The decimal text of an optional integer.
pub open spec fn int_text(i: Option<i64>) -> Option<Seq<char>> {
    match i {
        Some(n) => Some(signed_decimal(n as int)),
        None => None,
    }
}

/// The page weight lines: the resource count and the DOM node count when the snapshot
/// gives them as integers, the transfer size when there is one, and the heap figures
/// when the snapshot gives them as numbers.
pub open spec fn weight_lines(snap: Option<Json>, f: PerfFiguresView) -> Seq<char> {
    optional_line("  Resources:               "@, int_text(member_int(snap, "resources"@)))
        + optional_line("  Transfer size:           "@, f.transfer_size)
        + optional_line("  DOM nodes:               "@, int_text(member_int(snap, "domNodes"@)))
        + optional_line(
        "  JS heap used:            "@,
        if is_number(member_of(snap, "jsHeapUsed"@)) { Some(f.heap_used) } else { None },
    ) + optional_line(
        "  JS heap total:           "@,
        if is_number(member_of(snap, "jsHeapTotal"@)) { Some(f.heap_total) } else { None },
    )
}

/// The lines of the text report, before trailing white space is trimmed.
pub open spec fn performance_lines(snap: Option<Json>, f: PerfFiguresView) -> Seq<char> {
    "Page timings:\n"@ + timing_lines(f.timings) + "Page weight:\n"@ + weight_lines(snap, f)
}

/// Appends `label`, `value` and a line end.
fn push_line(out: &mut String, label: &str, value: &str)
    ensures
        final(out)@ == old(out)@ + (label@ + value@ + "\n"@),
{
    out.append(label);
    out.append(value);
    out.append("\n");
    proof {
        assert(final(out)@ =~= old(out)@ + (label@ + value@ + "\n"@));
    }
}

/// Appends the line of an integer member of the snapshot, when it is one.
fn push_int_line(out: &mut String, label: &str, snapshot: Option<&Json>, key: &str)
    ensures
        final(out)@ == old(out)@ + optional_line(label@, int_text(member_int(owned(snapshot), key@))),
{
    match get_int(snapshot, key) {
        Some(n) => {
            let t = signed_decimal_string(n);
            push_line(out, label, t.as_str());
        },
        None => {
            proof {
                assert(old(out)@ + Seq::<char>::empty() =~= old(out)@);
            }
        },
    }
}

/// Appends the line of a figure when the snapshot's member `key` is a number.
fn push_number_line(out: &mut String, label: &str, snapshot: Option<&Json>, key: &str, figure: &String)
    ensures
        final(out)@ == old(out)@ + optional_line(
            label@,
            if is_number(member_of(owned(snapshot), key@)) { Some(figure@) } else { None },
        ),
{
    match get_member(snapshot, key) {
        Some(Json::Number(_)) => push_line(out, label, figure.as_str()),
        _ => {
            proof {
                assert(old(out)@ + Seq::<char>::empty() =~= old(out)@);
            }
        },
    }
}

/// Appends the timing lines.
fn push_timings(out: &mut String, t: &Vec<String>)
    requires
        t@.len() == 6,
    ensures
        final(out)@ == old(out)@ + timing_lines(Seq::new(t@.len(), |i: int| t@[i]@)),
{
    let ghost ts = Seq::new(t@.len(), |i: int| t@[i]@);
    push_line(out, "  TTFB:                    ", t[0].as_str());
    push_line(out, "  First Paint:             ", t[1].as_str());
    push_line(out, "  First Contentful Paint:  ", t[2].as_str());
    push_line(out, "  DOM Interactive:         ", t[3].as_str());
    push_line(out, "  DOMContentLoaded:        ", t[4].as_str());
    push_line(out, "  Load:                    ", t[5].as_str());
    proof {
        assert(final(out)@ =~= old(out)@ + timing_lines(ts));
    }
}

/// Appends the page weight lines.
fn push_weight(out: &mut String, snapshot: Option<&Json>, figures: &PerfFigures)
    ensures
        final(out)@ == old(out)@ + weight_lines(owned(snapshot), figures@),
{
    let ghost start = out@;
    push_int_line(out, "  Resources:               ", snapshot, "resources");
    let ghost a = out@;
    match &figures.transfer_size {
        Some(t) => push_line(out, "  Transfer size:           ", t.as_str()),
        None => {},
    }
    let ghost b = out@;
    proof {
        assert(b =~= a + optional_line("  Transfer size:           "@, figures@.transfer_size));
    }
    push_int_line(out, "  DOM nodes:               ", snapshot, "domNodes");
    push_number_line(out, "  JS heap used:            ", snapshot, "jsHeapUsed", &figures.heap_used);
    push_number_line(out, "  JS heap total:           ", snapshot, "jsHeapTotal", &figures.heap_total);
    proof {
        assert(final(out)@ =~= start + weight_lines(owned(snapshot), figures@));
    }
}

/// The text report of the snapshot (none when the script's text was not a JSON
/// document): the six timings, then the page weight, with trailing white space trimmed.
pub fn performance_text(snapshot: Option<&Json>, figures: &PerfFigures) -> (t: String)
    requires
        figures.timings@.len() == 6,
    ensures
        t@ == trim_end(performance_lines(owned(snapshot), figures@)),
{
    let mut out = String::from_str("Page timings:\n");
    push_timings(&mut out, &figures.timings);
    out.append("Page weight:\n");
    push_weight(&mut out, snapshot, figures);
    let ghost text = performance_lines(owned(snapshot), figures@);
    proof {
        assert(out@ =~= text);
        reveal_strlit("Page timings:\n");
        assert(text[0] == "Page timings:\n"@[0]);
        assert(trim_start(text) == text);
    }
    let cs = chars_of(out.as_str());
    let trimmed = trim_chars(cs.as_slice());
    string_of(trimmed.as_slice())
}

} // verus!
