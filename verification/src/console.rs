//! The console capture: which protocol events become console entries, how they read,
//! which are kept for a level, and the report.

use vstd::prelude::*;
use vstd::string::StringExecFns;
use crate::json::{
    compact_json, compact_text, elements_view, json_view, lemma_elements_view, lemma_members_view,
    members_view, pretty_json, pretty_text, Json, JsonV,
};
use crate::text::{decimal, push_decimal, push_successor_decimal, signed_decimal, str_eq};

verus! {

/// What to capture.
pub struct ConsoleParams {
    /// Navigate here first, then capture the resulting console output.
    pub navigate: Option<String>,
    /// How long to capture console output for.
    pub duration_secs: u64,
    /// Only keep entries at this level or worse: all | warn | error.
    pub level: String,
}

/// One captured console message.
pub struct ConsoleEntry {
    pub level: String,
    pub text: String,
    pub location: Option<String>,
}

/// A console message as characters.
pub struct EntryView {
    pub level: Seq<char>,
    pub text: Seq<char>,
    pub location: Option<Seq<char>>,
}

/// The characters of an optional string.
pub open spec fn opt_view(s: Option<String>) -> Option<Seq<char>> {
    match s {
        Some(t) => Some(t@),
        None => None,
    }
}

impl View for ConsoleEntry {
    type V = EntryView;

    open spec fn view(&self) -> EntryView {
        EntryView { level: self.level@, text: self.text@, location: opt_view(self.location) }
    }
}

/// The level names of the protocol folded onto warning, error, debug, info and log.
pub open spec fn normalized_level(l: Seq<char>) -> Seq<char> {
    if l == "warning"@ || l == "warn"@ {
        "warning"@
    } else if l == "error"@ || l == "assert"@ {
        "error"@
    } else if l == "debug"@ || l == "verbose"@ {
        "debug"@
    } else if l == "info"@ {
        "info"@
    } else {
        "log"@
    }
}

/// Folds a protocol level name onto warning, error, debug, info or log.
pub fn normalize_level(level: &str) -> (r: String)
    ensures
        r@ == normalized_level(level@),
{
    if str_eq(level, "warning") || str_eq(level, "warn") {
        String::from_str("warning")
    } else if str_eq(level, "error") || str_eq(level, "assert") {
        String::from_str("error")
    } else if str_eq(level, "debug") || str_eq(level, "verbose") {
        String::from_str("debug")
    } else if str_eq(level, "info") {
        String::from_str("info")
    } else {
        String::from_str("log")
    }
}

/// The severity of a normalized level: error 3, warning 2, anything else 1.
pub open spec fn rank_of(level: Seq<char>) -> u8 {
    if level == "error"@ {
        3
    } else if level == "warning"@ {
        2
    } else {
        1
    }
}

/// The severity of a normalized level.
pub fn level_rank(level: &str) -> (r: u8)
    ensures
        r == rank_of(level@),
{
    if str_eq(level, "error") {
        3
    } else if str_eq(level, "warning") {
        2
    } else {
        1
    }
}

/// The least severity that a `--level` setting keeps: error 3, warn or warning 2, else 1.
pub open spec fn min_rank_of(setting: Seq<char>) -> u8 {
    if setting == "error"@ {
        3
    } else if setting == "warn"@ || setting == "warning"@ {
        2
    } else {
        1
    }
}

/// The least severity that a `--level` setting keeps.
pub fn min_rank(setting: &str) -> (r: u8)
    ensures
        r == min_rank_of(setting@),
{
    if str_eq(setting, "error") {
        3
    } else if str_eq(setting, "warn") || str_eq(setting, "warning") {
        2
    } else {
        1
    }
}

/// The member `key` of an optional value.
pub open spec fn member_of(j: Option<Json>, key: Seq<char>) -> Option<Json> {
    match j {
        Some(v) => v.field(key),
        None => None,
    }
}

/// The text of the string member `key` of an optional value.
pub open spec fn member_text(j: Option<Json>, key: Seq<char>) -> Option<Seq<char>> {
    match member_of(j, key) {
        Some(v) => v.text(),
        None => None,
    }
}

/// The value of the integer member `key` of an optional value.
pub open spec fn member_int(j: Option<Json>, key: Seq<char>) -> Option<i64> {
    match member_of(j, key) {
        Some(v) => v.integer(),
        None => None,
    }
}

/// The value behind an optional reference.
pub open spec fn owned(j: Option<&Json>) -> Option<Json> {
    match j {
        Some(x) => Some(*x),
        None => None,
    }
}

/// The member `key` of an optional value.
pub fn get_member<'a>(j: Option<&'a Json>, key: &str) -> (r: Option<&'a Json>)
    ensures
        owned(r) == member_of(owned(j), key@),
{
    match j {
        Some(v) => v.get(key),
        None => None,
    }
}

/// The string member `key` of an optional value.
pub fn get_text<'a>(j: Option<&'a Json>, key: &str) -> (r: Option<&'a String>)
    ensures
        match r {
            Some(t) => member_text(owned(j), key@) == Some(t@),
            None => member_text(owned(j), key@) is None,
        },
{
    match get_member(j, key) {
        Some(v) => v.as_str(),
        None => None,
    }
}

/// The integer member `key` of an optional value.
pub fn get_int(j: Option<&Json>, key: &str) -> (r: Option<i64>)
    ensures
        r == member_int(owned(j), key@),
{
    match get_member(j, key) {
        Some(v) => v.as_i64(),
        None => None,
    }
}

/// How a console call argument reads: its string value as it is, any other value as
/// compact JSON; without a value, its description (or else its unserializable value)
/// when that is a string; otherwise its type, or `?`.
pub open spec fn rendered_arg(arg: Json) -> Seq<char> {
    match arg.field("value"@) {
        Some(v) => match v {
            Json::Str(t) => t@,
            _ => compact_text(v@),
        },
        None => {
            let d = match arg.field("description"@) {
                Some(d) => Some(d),
                None => arg.field("unserializableValue"@),
            };
            if d is Some && d->0.text() is Some {
                d->0.text()->0
            } else {
                match member_text(Some(arg), "type"@) {
                    Some(t) => t,
                    None => "?"@,
                }
            }
        },
    }
}

/// Renders one argument of a console call.
pub fn render_remote_object(arg: &Json) -> (r: String)
    ensures
        r@ == rendered_arg(*arg),
{
    if let Some(v) = arg.get("value") {
        return match v {
            Json::Str(t) => t.clone(),
            _ => compact_json(v),
        };
    }
    let d = match arg.get("description") {
        Some(d) => Some(d),
        None => arg.get("unserializableValue"),
    };
    if let Some(dv) = d {
        if let Some(t) = dv.as_str() {
            return t.clone();
        }
    }
    match get_text(Some(arg), "type") {
        Some(t) => t.clone(),
        None => String::from_str("?"),
    }
}

/// The rendered arguments joined by single spaces.
pub open spec fn joined_args(args: Seq<Json>) -> Seq<char>
    decreases args.len(),
{
    if args.len() == 0 {
        Seq::empty()
    } else if args.len() == 1 {
        rendered_arg(args[0])
    } else {
        joined_args(args.drop_last()) + " "@ + rendered_arg(args.last())
    }
}

/// The text of a console call: its arguments rendered and joined by spaces.
pub fn join_args(args: &Vec<Json>) -> (r: String)
    ensures
        r@ == joined_args(args@),
{
    let mut r = String::new();
    let mut i: usize = 0;
    proof {
        assert(args@.take(0) =~= Seq::<Json>::empty());
    }
    while i < args.len()
        invariant
            i <= args@.len(),
            r@ == joined_args(args@.take(i as int)),
        decreases args@.len() - i,
    {
        if i > 0 {
            r.append(" ");
        }
        let part = render_remote_object(&args[i]);
        r.append(part.as_str());
        proof {
            let t = args@.take(i + 1);
            assert(t.drop_last() == args@.take(i as int));
            assert(t.last() == args@[i as int]);
            if i == 0 {
                assert(t.len() == 1 && t[0] == args@[0]);
            }
        }
        i = i + 1;
    }
    proof {
        assert(args@.take(args@.len() as int) == args@);
    }
    r
}

/// `url:line` with the protocol's zero-based line number shown one-based.
pub open spec fn at_line(url: Seq<char>, line: i64) -> Seq<char> {
    url + ":"@ + signed_decimal(line + 1)
}

/// Writes `url:line` with the zero-based `line` shown one-based.
pub fn format_at_line(url: &str, line: i64) -> (r: String)
    ensures
        r@ == at_line(url@, line),
{
    let mut r = String::from_str(url);
    r.append(":");
    push_successor_decimal(&mut r, line);
    r
}

/// Where a console call was made: the first frame of its stack trace, when that frame
/// has a non-empty URL; its line is that of the frame, or 0 when it has none.
pub open spec fn stack_location_of(stack: Option<Json>) -> Option<Seq<char>> {
    match member_of(stack, "callFrames"@) {
        Some(cf) => match cf.elements() {
            Some(frames) => if frames.len() == 0 {
                None
            } else {
                match member_text(Some(frames[0]), "url"@) {
                    Some(u) => if u.len() == 0 {
                        None
                    } else {
                        Some(
                            at_line(
                                u,
                                match member_int(Some(frames[0]), "lineNumber"@) {
                                    Some(l) => l,
                                    None => 0,
                                },
                            ),
                        )
                    },
                    None => None,
                }
            },
            None => None,
        },
        None => None,
    }
}

/// The location of a console call from its stack trace.
pub fn stack_location(stack: Option<&Json>) -> (r: Option<String>)
    ensures
        opt_view(r) == stack_location_of(owned(stack)),
{
    let frames = match get_member(stack, "callFrames") {
        Some(cf) => match cf.as_array() {
            Some(frames) => frames,
            None => return None,
        },
        None => return None,
    };
    if frames.len() == 0 {
        return None;
    }
    let frame = &frames[0];
    let url = match get_text(Some(frame), "url") {
        Some(u) => u,
        None => return None,
    };
    if url.as_str().is_empty() {
        return None;
    }
    let line = match get_int(Some(frame), "lineNumber") {
        Some(l) => l,
        None => 0,
    };
    Some(format_at_line(url.as_str(), line))
}

/// The text, or `default` when there is none.
pub open spec fn text_or(t: Option<Seq<char>>, default: Seq<char>) -> Seq<char> {
    match t {
        Some(x) => x,
        None => default,
    }
}

/// The console entry that a protocol message carries, if any: console API calls,
/// uncaught exceptions (always at level `error`) and browser log entries.
pub open spec fn entry_of(msg: Json) -> Option<EntryView> {
    let method = text_or(member_text(Some(msg), "method"@), ""@);
    match msg.field("params"@) {
        None => None,
        Some(p) => if method == "Runtime.consoleAPICalled"@ {
            Some(
                EntryView {
                    level: normalized_level(text_or(member_text(Some(p), "type"@), "log"@)),
                    text: match member_of(Some(p), "args"@) {
                        Some(a) => match a.elements() {
                            Some(args) => joined_args(args),
                            None => Seq::empty(),
                        },
                        None => Seq::empty(),
                    },
                    location: stack_location_of(member_of(Some(p), "stackTrace"@)),
                },
            )
        } else if method == "Runtime.exceptionThrown"@ {
            let details = member_of(Some(p), "exceptionDetails"@);
            Some(
                EntryView {
                    level: "error"@,
                    text: match member_text(member_of(details, "exception"@), "description"@) {
                        Some(t) => t,
                        None => text_or(member_text(details, "text"@), "Uncaught exception"@),
                    },
                    location: match (member_text(details, "url"@), member_int(details, "lineNumber"@)) {
                        (Some(u), Some(l)) => Some(at_line(u, l)),
                        _ => None,
                    },
                },
            )
        } else if method == "Log.entryAdded"@ {
            let entry = member_of(Some(p), "entry"@);
            Some(
                EntryView {
                    level: normalized_level(text_or(member_text(entry, "level"@), "info"@)),
                    text: text_or(member_text(entry, "text"@), ""@),
                    location: match member_text(entry, "url"@) {
                        Some(u) => Some(
                            match member_int(entry, "lineNumber"@) {
                                Some(l) => at_line(u, l),
                                None => u,
                            },
                        ),
                        None => None,
                    },
                },
            )
        } else {
            None
        },
    }
}

/// The string, or `default` when there is none.
pub fn string_or(t: Option<&String>, default: &str) -> (r: String)
    ensures
        r@ == text_or(
            match t {
                Some(x) => Some(x@),
                None => None,
            },
            default@,
        ),
{
    match t {
        Some(x) => x.clone(),
        None => String::from_str(default),
    }
}

/// Reads one protocol message into a console entry, if it carries one.
pub fn console_entry(msg: &Json) -> (r: Option<ConsoleEntry>)
    ensures
        match r {
            Some(e) => entry_of(*msg) == Some(e@),
            None => entry_of(*msg) is None,
        },
{
    let method = string_or(get_text(Some(msg), "method"), "");
    let p = match msg.get("params") {
        Some(p) => p,
        None => return None,
    };
    if str_eq(method.as_str(), "Runtime.consoleAPICalled") {
        let level = normalize_level(string_or(get_text(Some(p), "type"), "log").as_str());
        let text = match get_member(Some(p), "args") {
            Some(a) => match a.as_array() {
                Some(args) => join_args(args),
                None => String::new(),
            },
            None => String::new(),
        };
        let location = stack_location(get_member(Some(p), "stackTrace"));
        Some(ConsoleEntry { level, text, location })
    } else if str_eq(method.as_str(), "Runtime.exceptionThrown") {
        let details = get_member(Some(p), "exceptionDetails");
        let text = match get_text(get_member(details, "exception"), "description") {
            Some(t) => t.clone(),
            None => string_or(get_text(details, "text"), "Uncaught exception"),
        };
        let location = match (get_text(details, "url"), get_int(details, "lineNumber")) {
            (Some(u), Some(l)) => Some(format_at_line(u.as_str(), l)),
            _ => None,
        };
        Some(ConsoleEntry { level: String::from_str("error"), text, location })
    } else if str_eq(method.as_str(), "Log.entryAdded") {
        let entry = get_member(Some(p), "entry");
        let level = normalize_level(string_or(get_text(entry, "level"), "info").as_str());
        let text = string_or(get_text(entry, "text"), "");
        let location = match get_text(entry, "url") {
            Some(u) => Some(
                match get_int(entry, "lineNumber") {
                    Some(l) => format_at_line(u.as_str(), l),
                    None => u.clone(),
                },
            ),
            None => None,
        };
        Some(ConsoleEntry { level, text, location })
    } else {
        None
    }
}

/// The views of a sequence of entries.
pub open spec fn entry_views(es: Seq<ConsoleEntry>) -> Seq<EntryView> {
    Seq::new(es.len(), |i: int| es[i]@)
}

/// The entries whose level is at least `min` severe, in order.
pub open spec fn kept(es: Seq<EntryView>, min: u8) -> Seq<EntryView>
    decreases es.len(),
{
    if es.len() == 0 {
        Seq::empty()
    } else {
        let before = kept(es.drop_last(), min);
        if rank_of(es.last().level) >= min {
            before.push(es.last())
        } else {
            before
        }
    }
}

/// One line of the report: `[level] text`, then `  (location)` when there is one.
pub open spec fn entry_line(e: EntryView) -> Seq<char> {
    match e.location {
        Some(loc) => "["@ + e.level + "] "@ + e.text + "  ("@ + loc + ")\n"@,
        None => "["@ + e.level + "] "@ + e.text + "\n"@,
    }
}

/// The lines of the report, in order.
pub open spec fn entry_lines(es: Seq<EntryView>) -> Seq<char>
    decreases es.len(),
{
    if es.len() == 0 {
        Seq::empty()
    } else {
        entry_lines(es.drop_last()) + entry_line(es.last())
    }
}

/// The text report of the kept entries: a line each and their count, or a notice that
/// nothing was captured.
pub open spec fn console_text(es: Seq<EntryView>) -> Seq<char> {
    if es.len() == 0 {
        "No console output captured."@
    } else {
        entry_lines(es) + "\n"@ + decimal(es.len()) + " message(s)"@
    }
}

/// A copy of an entry.
fn copy_entry(e: &ConsoleEntry) -> (c: ConsoleEntry)
    ensures
        c@ == e@,
{
    ConsoleEntry {
        level: e.level.clone(),
        text: e.text.clone(),
        location: match &e.location {
            Some(l) => Some(l.clone()),
            None => None,
        },
    }
}

/// Appends the report line of one entry.
fn push_entry_line(out: &mut String, e: &ConsoleEntry)
    ensures
        final(out)@ == old(out)@ + entry_line(e@),
{
    out.append("[");
    out.append(e.level.as_str());
    out.append("] ");
    out.append(e.text.as_str());
    match &e.location {
        Some(loc) => {
            out.append("  (");
            out.append(loc.as_str());
            out.append(")\n");
        },
        None => {
            out.append("\n");
        },
    }
    proof {
        assert(final(out)@ =~= old(out)@ + entry_line(e@));
    }
}

/// The JSON form of an entry: its level, text and location (null when there is none).
pub open spec fn entry_json(e: EntryView) -> JsonV {
    JsonV::Object(
        seq![
            ("level"@, JsonV::Str(e.level)),
            ("text"@, JsonV::Str(e.text)),
            ("location"@, match e.location {
                Some(l) => JsonV::Str(l),
                None => JsonV::Null,
            }),
        ],
    )
}

/// The JSON report of the entries: `{"messages": [...]}`.
pub open spec fn messages_json(es: Seq<EntryView>) -> JsonV {
    JsonV::Object(seq![("messages"@, JsonV::Array(Seq::new(es.len(), |i: int| entry_json(es[i]))))])
}

/// The report of a console capture: the kept entries as pretty-printed JSON, or as text.
pub open spec fn console_report(es: Seq<EntryView>, min: u8, json_output: bool) -> Seq<char> {
    if json_output {
        pretty_text(messages_json(kept(es, min)))
    } else {
        console_text(kept(es, min))
    }
}

/// The entries whose level is at least `min` severe, in order.
fn kept_entries(entries: &Vec<ConsoleEntry>, min: u8) -> (keep: Vec<ConsoleEntry>)
    ensures
        entry_views(keep@) == kept(entry_views(entries@), min),
{
    let mut keep: Vec<ConsoleEntry> = Vec::new();
    let mut i: usize = 0;
    proof {
        assert(entry_views(entries@).take(0) =~= Seq::<EntryView>::empty());
        assert(entry_views(keep@) =~= Seq::<EntryView>::empty());
    }
    while i < entries.len()
        invariant
            i <= entries@.len(),
            entry_views(keep@) == kept(entry_views(entries@).take(i as int), min),
        decreases entries@.len() - i,
    {
        let ghost before = entry_views(keep@);
        let e = &entries[i];
        proof {
            let t = entry_views(entries@).take(i + 1);
            assert(t.drop_last() == entry_views(entries@).take(i as int));
            assert(t.last() == e@);
        }
        if level_rank(e.level.as_str()) >= min {
            keep.push(copy_entry(e));
            proof {
                assert(entry_views(keep@) =~= before.push(e@));
            }
        }
        i = i + 1;
    }
    proof {
        assert(entry_views(entries@).take(entries@.len() as int) == entry_views(entries@));
    }
    keep
}

/// The text report of the entries.
fn console_text_of(keep: &Vec<ConsoleEntry>) -> (t: String)
    ensures
        t@ == console_text(entry_views(keep@)),
{
    if keep.len() == 0 {
        return String::from_str("No console output captured.");
    }
    let mut out = String::new();
    let mut k: usize = 0;
    proof {
        assert(entry_views(keep@).take(0) =~= Seq::<EntryView>::empty());
    }
    while k < keep.len()
        invariant
            k <= keep@.len(),
            out@ == entry_lines(entry_views(keep@).take(k as int)),
        decreases keep@.len() - k,
    {
        push_entry_line(&mut out, &keep[k]);
        proof {
            let t = entry_views(keep@).take(k + 1);
            assert(t.drop_last() == entry_views(keep@).take(k as int));
            assert(t.last() == keep@[k as int]@);
        }
        k = k + 1;
    }
    proof {
        assert(entry_views(keep@).take(keep@.len() as int) == entry_views(keep@));
    }
    out.append("\n");
    push_decimal(&mut out, keep.len() as u64);
    out.append(" message(s)");
    out
}

/// The JSON value of an optional string: the string, or null.
fn opt_string_json(s: &Option<String>) -> (j: Json)
    ensures
        j@ == match s {
            Some(t) => JsonV::Str(t@),
            None => JsonV::Null,
        },
{
    match s {
        Some(t) => Json::Str(t.clone()),
        None => Json::Null,
    }
}

/// The JSON form of an entry.
fn entry_to_json(e: &ConsoleEntry) -> (j: Json)
    ensures
        j@ == entry_json(e@),
{
    let members = vec![
        (String::from_str("level"), Json::Str(e.level.clone())),
        (String::from_str("text"), Json::Str(e.text.clone())),
        (String::from_str("location"), opt_string_json(&e.location)),
    ];
    proof {
        lemma_members_view(members@);
        let expected = seq![
            ("level"@, JsonV::Str(e.level@)),
            ("text"@, JsonV::Str(e.text@)),
            ("location"@, match e@.location {
                Some(l) => JsonV::Str(l),
                None => JsonV::Null,
            }),
        ];
        assert(members_view(members@) =~= expected);
        assert(expected =~= entry_json(e@)->Object_0);
    }
    let j = Json::Object(members);
    proof {
        assert(j@ == JsonV::Object(members_view(members@)));
    }
    j
}

/// The kept entries as the pretty-printed JSON document `{"messages": [...]}`.
pub fn console_json(kept: &Vec<ConsoleEntry>) -> (s: String)
    ensures
        s@ == pretty_text(messages_json(entry_views(kept@))),
{
    let mut items: Vec<Json> = Vec::new();
    let mut i: usize = 0;
    while i < kept.len()
        invariant
            i <= kept@.len(),
            items@.len() == i,
            forall|k: int| 0 <= k < i ==> json_view(#[trigger] items@[k]) == entry_json(kept@[k]@),
        decreases kept@.len() - i,
    {
        let item = entry_to_json(&kept[i]);
        items.push(item);
        i = i + 1;
    }
    let ghost es = entry_views(kept@);
    proof {
        lemma_elements_view(items@);
        assert(elements_view(items@) =~= Seq::new(es.len(), |k: int| entry_json(es[k])));
    }
    let members = vec![(String::from_str("messages"), Json::Array(items))];
    proof {
        lemma_members_view(members@);
        assert(members_view(members@) =~= seq![("messages"@, JsonV::Array(Seq::new(es.len(), |k: int| entry_json(es[k]))))]);
    }
    let doc = Json::Object(members);
    pretty_json(&doc)
}

/// Keeps the captured entries at the level that `params` asks for, and reports them as
/// pretty-printed JSON or as text.
pub fn console(entries: &Vec<ConsoleEntry>, params: &ConsoleParams, json_output: bool) -> (r: String)
    ensures
        r@ == console_report(entry_views(entries@), min_rank_of(params.level@), json_output),
{
    let min = min_rank(params.level.as_str());
    let keep = kept_entries(entries, min);
    if json_output {
        console_json(&keep)
    } else {
        console_text_of(&keep)
    }
}

/// Every kept entry is at least as severe as asked, and no entry is invented.
pub proof fn lemma_kept_severity(es: Seq<EntryView>, min: u8)
    ensures
        kept(es, min).len() <= es.len(),
        forall|i: int| 0 <= i < kept(es, min).len() ==> rank_of(#[trigger] kept(es, min)[i].level) >= min,
        forall|i: int| 0 <= i < kept(es, min).len() ==> es.contains(#[trigger] kept(es, min)[i]),
    decreases es.len(),
{
    if es.len() > 0 {
        lemma_kept_severity(es.drop_last(), min);
        let before = kept(es.drop_last(), min);
        assert forall|i: int| 0 <= i < kept(es, min).len() implies es.contains(#[trigger] kept(es, min)[i]) by {
            if i < before.len() {
                let k = choose|k: int| 0 <= k < es.drop_last().len() && es.drop_last()[k] == before[i];
                assert(es[k] == before[i]);
            } else {
                assert(es[es.len() - 1] == es.last());
            }
        }
    }
}

/// The level names differ from one another.
proof fn lemma_level_names_distinct()
    ensures
        "error"@ != "warning"@,
        "error"@ != "debug"@,
        "error"@ != "info"@,
        "error"@ != "log"@,
        "warning"@ != "debug"@,
        "warning"@ != "info"@,
        "warning"@ != "log"@,
        "error"@ != "warn"@,
        "assert"@ != "warn"@,
        "assert"@ != "warning"@,
        "all"@ != "error"@,
        "all"@ != "warn"@,
        "all"@ != "warning"@,
{
    reveal_strlit("all");
    reveal_strlit("error");
    reveal_strlit("warn");
    reveal_strlit("warning");
    reveal_strlit("debug");
    reveal_strlit("info");
    reveal_strlit("log");
    reveal_strlit("assert");
    assert("error"@.len() != "warn"@.len());
    assert("assert"@.len() != "warn"@.len());
    assert("assert"@.len() != "warning"@.len());
    assert("error"@.len() != "warning"@.len());
    assert("error"@[0] != "debug"@[0]);
    assert("error"@.len() != "info"@.len());
    assert("error"@.len() != "log"@.len());
    assert("warning"@.len() != "debug"@.len());
    assert("warning"@.len() != "info"@.len());
    assert("warning"@.len() != "log"@.len());
    assert("all"@.len() != "error"@.len());
    assert("all"@.len() != "warn"@.len());
    assert("all"@.len() != "warning"@.len());
}

/// The level `all` (and any setting other than error, warn and warning) keeps every entry.
pub proof fn lemma_all_keeps_everything(es: Seq<EntryView>)
    ensures
        min_rank_of("all"@) == 1,
        kept(es, 1) == es,
    decreases es.len(),
{
    lemma_level_names_distinct();
    if es.len() > 0 {
        lemma_all_keeps_everything(es.drop_last());
        assert(es.drop_last().push(es.last()) == es);
    }
}

/// The severity of a protocol level: error for `error` and `assert`, warning for `warn`
/// and `warning`, and the lowest for every other level.
pub proof fn lemma_level_severity(l: Seq<char>)
    ensures
        rank_of(normalized_level(l)) == 3 <==> (l == "error"@ || l == "assert"@),
        rank_of(normalized_level(l)) == 2 <==> (l == "warn"@ || l == "warning"@),
{
    lemma_level_names_distinct();
}

/// A `--level` setting keeps, in their order, exactly: for `error`, the entries of level
/// `error`; for `warn` or `warning`, those of level `error` or `warning`; for any other
/// setting (such as `all`), every entry.
pub proof fn lemma_level_setting_keeps(es: Seq<EntryView>, setting: Seq<char>)
    ensures
        kept(es, min_rank_of(setting)) == es.filter(
            |e: EntryView|
                if setting == "error"@ {
                    e.level == "error"@
                } else if setting == "warn"@ || setting == "warning"@ {
                    e.level == "error"@ || e.level == "warning"@
                } else {
                    true
                },
        ),
    decreases es.len(),
{
    reveal(Seq::filter);
    lemma_level_names_distinct();
    if es.len() > 0 {
        lemma_level_setting_keeps(es.drop_last(), setting);
    }
}

/// The protocol's level names fold onto five: `warn` and `warning` give warning, `error`
/// and `assert` give error, `debug` and `verbose` give debug, `info` gives info, and every
/// other name gives log.
pub proof fn lemma_normalized_levels(l: Seq<char>)
    ensures
        normalized_level(l) == "warning"@ <==> (l == "warning"@ || l == "warn"@),
        normalized_level(l) == "error"@ <==> (l == "error"@ || l == "assert"@),
        normalized_level(l) == "debug"@ <==> (l == "debug"@ || l == "verbose"@),
        normalized_level(l) == "info"@ <==> l == "info"@,
        normalized_level(l) == "log"@ <==> !(l == "warning"@ || l == "warn"@ || l == "error"@ || l == "assert"@
            || l == "debug"@ || l == "verbose"@ || l == "info"@),
{
    lemma_level_names_distinct();
    reveal_strlit("warning");
    reveal_strlit("warn");
    reveal_strlit("error");
    reveal_strlit("assert");
    reveal_strlit("debug");
    reveal_strlit("verbose");
    reveal_strlit("info");
    reveal_strlit("log");
    assert("warning"@[0] == 'w' && "warn"@[0] == 'w' && "error"@[0] == 'e' && "assert"@[0] == 'a');
    assert("debug"@[0] == 'd' && "verbose"@[0] == 'v' && "info"@[0] == 'i' && "log"@[0] == 'l');
}

} // verus!
