//! Structured logging: the log formats, the level filter and what a request
//! log line records.

use crate::text::same_text;
use crate::text::split_text;
use crate::text::white_space;
use std::str::FromStr;
use tracing_subscriber::EnvFilter;
use vstd::prelude::*;

verus! {

/// Supported structured log formats.
#[derive(Debug, Clone, Copy, PartialEq, Eq, Structural)]
pub enum LogFormat {
    /// Structured newline-delimited JSON format.
    Json,
    /// Key=value logfmt format.
    Logfmt,
    /// Human-readable compact format.
    Compact,
    /// Pretty multi-line format.
    Pretty,
}

impl Default for LogFormat {
    fn default() -> (r: LogFormat)
        ensures
            r == LogFormat::Json,
    {
        LogFormat::Json
    }
}

/// The format that a configuration value asks for: surrounding white space and
/// letter case do not matter, and an unknown name means the compact format.
pub open spec fn format_named(s: Seq<char>) -> LogFormat {
    let name = crate::text::lowercase(crate::text::trimmed(s));
    if name == "json"@ {
        LogFormat::Json
    } else if name == "logfmt"@ {
        LogFormat::Logfmt
    } else if name == "pretty"@ {
        LogFormat::Pretty
    } else {
        LogFormat::Compact
    }
}

/// The name that a format is printed with.
pub open spec fn format_name(f: LogFormat) -> Seq<char> {
    match f {
        LogFormat::Json => "json"@,
        LogFormat::Logfmt => "logfmt"@,
        LogFormat::Compact => "compact"@,
        LogFormat::Pretty => "pretty"@,
    }
}

impl LogFormat {
    /// Reads a format from a configuration value. Every text names a format.
    pub fn parse(s: &str) -> (r: LogFormat)
        ensures
            r == format_named(s@),
    {
        let lowered = s.trim().to_lowercase();
        let name = lowered.as_str();
        if same_text(name, "json") {
            LogFormat::Json
        } else if same_text(name, "logfmt") {
            LogFormat::Logfmt
        } else if same_text(name, "pretty") {
            LogFormat::Pretty
        } else {
            LogFormat::Compact
        }
    }

    /// The name of the format, which `parse` reads back.
    pub fn to_string(&self) -> (r: String)
        ensures
            r@ == format_name(*self),
    {
        match self {
            LogFormat::Json => "json".to_owned(),
            LogFormat::Logfmt => "logfmt".to_owned(),
            LogFormat::Compact => "compact".to_owned(),
            LogFormat::Pretty => "pretty".to_owned(),
        }
    }
}

impl FromStr for LogFormat {
    type Err = std::convert::Infallible;

    fn from_str(s: &str) -> (r: Result<LogFormat, std::convert::Infallible>)
        ensures
            r matches Ok(format) && format == format_named(s@) && call_ensures(
                LogFormat::parse,
                (s,),
                format,
            ),
    {
        Ok(LogFormat::parse(s))
    }
}

/// Text of small ASCII letters is its own trimmed and lower-case form.
proof fn lemma_plain_name(s: Seq<char>)
    requires
        forall|i: int| 0 <= i < s.len() ==> 'a' <= #[trigger] s[i] <= 'z',
    ensures
        crate::text::lowercase(crate::text::trimmed(s)) == s,
{
    assert(crate::text::trimmed(s) == s) by {
        if s.len() > 0 {
            assert('a' <= s[0] <= 'z');
            assert('a' <= s[s.len() - 1] <= 'z');
        }
    }
    assert(vstd::utf8::is_ascii_chars(s));
    assert(crate::text::ascii_lowered(s) == s);
}

/// The name of a format reads back as that format.
pub proof fn format_round_trip(f: LogFormat)
    ensures
        format_named(format_name(f)) == f,
{
    reveal_strlit("json");
    reveal_strlit("logfmt");
    reveal_strlit("compact");
    reveal_strlit("pretty");
    lemma_plain_name("json"@);
    lemma_plain_name("logfmt"@);
    lemma_plain_name("compact"@);
    lemma_plain_name("pretty"@);
    assert("json"@[0] == 'j');
    assert("logfmt"@[0] == 'l');
    assert("compact"@[0] == 'c');
    assert("pretty"@[0] == 'p');
}

/// White space around a format name does not matter.
pub proof fn format_ignores_white_space(before: Seq<char>, name: Seq<char>, after: Seq<char>)
    requires
        crate::text::is_blank(before),
        crate::text::is_blank(after),
    ensures
        format_named(before + name + after) == format_named(name),
{
    crate::text::trimming_ignores_white_space(before, name, after);
}

/// The case of the ASCII letters in a format name does not matter.
pub proof fn format_ignores_letter_case(name: Seq<char>, other: Seq<char>)
    requires
        crate::text::ascii_lowered(name) == crate::text::ascii_lowered(other),
    ensures
        format_named(name) == format_named(other),
{
    crate::text::lowercase_ignores_letter_case(name, other);
}

/// A text that is not the name of a format, up to white space around it and letter
/// case, means the compact format.
pub proof fn unknown_names_mean_compact(name: Seq<char>)
    requires
        forall|f: LogFormat|
            crate::text::lowercase(crate::text::trimmed(name)) != #[trigger] format_name(f),
    ensures
        format_named(name) == LogFormat::Compact,
{
    assert(format_name(LogFormat::Json) == "json"@);
    assert(format_name(LogFormat::Logfmt) == "logfmt"@);
    assert(format_name(LogFormat::Pretty) == "pretty"@);
}

/// White space around a log directive does not matter.
pub proof fn directive_ignores_white_space(
    before: Seq<char>,
    directive: Seq<char>,
    after: Seq<char>,
)
    requires
        crate::text::is_blank(before),
        crate::text::is_blank(after),
    ensures
        requested_directive(before + directive + after) == requested_directive(directive),
{
    crate::text::trimming_ignores_white_space(before, directive, after);
}

/// An `EnvFilter` decides which spans and events are recorded.
#[verifier::external_type_specification]
#[verifier::external_body]
pub struct ExEnvFilter(tracing_subscriber::EnvFilter);

/// The directive text that a filter was built from.
pub uninterp spec fn filter_directives(f: EnvFilter) -> Seq<char>;

/// The message of the error that parsing a directive text fails with, or `None`
/// where the text parses.
pub uninterp spec fn directive_error(directives: Seq<char>) -> Option<Seq<char>>;

/// Whether a piece of a directive text can be handed to the parser. With white
/// space in front, the parser cuts a piece at the wrong places, one for each `=` or
/// `[` in it, and stops the program where such a place is inside a character.
pub open spec fn is_parsable_piece(piece: Seq<char>) -> bool {
    ||| vstd::utf8::is_ascii_chars(piece)
    ||| !crate::text::is_white_space(piece[0])
    ||| !piece.contains('=') && !piece.contains('[')
}

/// Whether a directive text can be handed to the parser: each piece of it can.
pub open spec fn is_parsable(directives: Seq<char>) -> bool {
    forall|i: int|
        0 <= i < crate::text::split_on(directives, ',').len() ==> is_parsable_piece(
            #[trigger] crate::text::split_on(directives, ',')[i],
        )
}

/// An ASCII text can always be handed to the parser.
proof fn lemma_ascii_is_parsable(directives: Seq<char>)
    requires
        vstd::utf8::is_ascii_chars(directives),
    ensures
        crate::text::split_on(directives, ',').len() > 0,
        forall|i: int|
            0 <= i < crate::text::split_on(directives, ',').len() ==> vstd::utf8::is_ascii_chars(
                #[trigger] crate::text::split_on(directives, ',')[i],
            ),
    decreases directives.len(),
{
    let pieces = crate::text::split_on(directives, ',');
    if directives.len() > 0 {
        let shorter = directives.drop_last();
        let before = crate::text::split_on(shorter, ',');
        assert(vstd::utf8::is_ascii_chars(shorter)) by {
            assert forall|i: int| 0 <= i < shorter.len() implies '\0' <= #[trigger] shorter[i]
                <= '\u{7f}' by {
                assert(shorter[i] == directives[i]);
            }
        }
        lemma_ascii_is_parsable(shorter);
        let last = directives[directives.len() - 1];
        assert('\0' <= last <= '\u{7f}');
        assert forall|i: int| 0 <= i < pieces.len() implies vstd::utf8::is_ascii_chars(
            #[trigger] pieces[i],
        ) by {
            if last == ',' {
                if i < before.len() {
                    assert(pieces[i] == before[i]);
                }
            } else if i < before.len() - 1 {
                assert(pieces[i] == before[i]);
            } else {
                let piece = before[before.len() - 1];
                assert(vstd::utf8::is_ascii_chars(piece));
                assert(pieces[i] == piece.push(last));
            }
        }
    }
}

/// Whether neither `=` nor `[` stands in a text.
fn holds_no_mark(piece: &str) -> (r: bool)
    ensures
        r == (!piece@.contains('=') && !piece@.contains('[')),
{
    for c in it: piece.chars()
        invariant
            it.seq() == piece@,
            forall|i: int| 0 <= i < it.index() ==> (#[trigger] piece@[i]) != '=' && piece@[i] != '[',
    {
        if c == '=' || c == '[' {
            assert(piece@[it.index() as int] == c);
            return false;
        }
    }
    true
}

/// Checks whether a directive text can be handed to the parser.
fn parsable(directives: &str) -> (r: bool)
    ensures
        r == is_parsable(directives@),
{
    let pieces = split_text(directives, ',');
    let ghost texts = crate::text::split_on(directives@, ',');
    for i in 0..pieces.len()
        invariant
            texts == crate::text::split_on(directives@, ','),
            texts == pieces@.map_values(|p: String| p@),
            forall|j: int| 0 <= j < i ==> is_parsable_piece(#[trigger] texts[j]),
    {
        let piece = pieces[i].as_str();
        assert(texts[i as int] == piece@);
        if !piece.is_ascii() && white_space(piece.get_char(0)) && !holds_no_mark(piece) {
            assert(!is_parsable_piece(texts[i as int]));
            return false;
        }
    }
    true
}

/// `EnvFilter::try_new` parses a comma-separated list of directives and rejects
/// the whole text when one of them is invalid. Whether it does, and with which
/// message, depends on the text alone. The error is handed out as its message. It
/// panics on some pieces outside ASCII with white space in front.
#[verifier::external_body]
fn try_env_filter(directives: &str) -> (r: Result<EnvFilter, String>)
    requires
        is_parsable(directives@),
    ensures
        match r {
            Ok(f) => directive_error(directives@) is None && filter_directives(f) == directives@,
            Err(message) => directive_error(directives@) == Some(message@),
        },
{
    EnvFilter::try_new(directives).map_err(|error| error.to_string())
}

/// `EnvFilter::new` builds a filter from a directive text and never fails: it
/// leaves out what does not parse. It panics where `EnvFilter::try_new` does.
#[verifier::external_body]
fn lossy_env_filter(directives: &str) -> (f: EnvFilter)
    requires
        is_parsable(directives@),
    ensures
        filter_directives(f) == directives@,
{
    EnvFilter::new(directives)
}

/// The directive that a configuration value asks for: the value without
/// surrounding white space, or `info` where nothing is left.
pub open spec fn requested_directive(directive: Seq<char>) -> Seq<char> {
    let wanted = crate::text::trimmed(directive);
    if wanted.len() == 0 {
        "info"@
    } else {
        wanted
    }
}

/// What is reported about a directive that does not parse.
pub open spec fn fallback_warning(directive: Seq<char>, error: Seq<char>) -> Seq<char> {
    "Invalid RUST_LOG directive '"@ + directive + "': "@ + error + ". Falling back to 'info'."@
}

/// A filter together with what there is to report about how it was chosen.
pub struct FilterChoice {
    /// The filter to install.
    pub filter: EnvFilter,
    /// Set when the requested directive did not parse and `info` stands in.
    pub warning: Option<String>,
}

/// Chooses the filter for a requested directive, given what parsing it came to:
/// the parsed filter, or the `info` filter with a warning that names the error.
pub fn choose_filter(requested: &str, parsed: Result<EnvFilter, String>) -> (r: FilterChoice)
    ensures
        match parsed {
            Ok(f) => r.filter == f && r.warning is None,
            Err(error) => {
                &&& filter_directives(r.filter) == "info"@
                &&& r.warning matches Some(w) && w@ == fallback_warning(requested@, error@)
            },
        },
{
    match parsed {
        Ok(filter) => FilterChoice { filter, warning: None },
        Err(error) => {
            let warning = "Invalid RUST_LOG directive '".to_owned().concat(requested).concat(
                "': ",
            ).concat(error.as_str()).concat(". Falling back to 'info'.");
            proof {
                reveal_strlit("info");
                assert(vstd::utf8::is_ascii_chars("info"@));
                lemma_ascii_is_parsable("info"@);
            }
            FilterChoice { filter: lossy_env_filter("info"), warning: Some(warning) }
        },
    }
}

/// What is wrong with a directive text, or `None` where it parses.
pub open spec fn directive_problem(directives: Seq<char>) -> Option<Seq<char>> {
    if is_parsable(directives) {
        directive_error(directives)
    } else {
        Some("white space in front of a directive"@)
    }
}

/// Builds the filter for a directive text, with `info` in place of an empty or
/// unparsable one, and tells when it had to fall back.
pub fn resolve_env_filter(directive: &str) -> (r: FilterChoice)
    ensures
        match directive_problem(requested_directive(directive@)) {
            None => {
                &&& filter_directives(r.filter) == requested_directive(directive@)
                &&& r.warning is None
            },
            Some(error) => {
                &&& filter_directives(r.filter) == "info"@
                &&& r.warning matches Some(w) && w@ == fallback_warning(
                    requested_directive(directive@),
                    error,
                )
            },
        },
{
    let trimmed = directive.trim();
    let requested = if trimmed.is_empty() {
        "info"
    } else {
        trimmed
    };
    let parsed = if parsable(requested) {
        try_env_filter(requested)
    } else {
        Err("white space in front of a directive".to_owned())
    };
    choose_filter(requested, parsed)
}

/// Parses a directive text into a filter, falling back to `info`.
///
/// The text follows the usual directive syntax, with per-module overrides such
/// as `soroscope_core=debug,tower_http=warn`. An empty or unparsable text gives
/// the `info` filter, so a typo at startup costs verbosity and not the server.
pub fn build_env_filter(directive: &str) -> (r: EnvFilter)
    ensures
        filter_directives(r) == (if directive_problem(requested_directive(directive@)) is None {
            requested_directive(directive@)
        } else {
            "info"@
        }),
{
    resolve_env_filter(directive).filter
}

/// How log lines are laid out.
#[derive(Debug, Clone, Copy, PartialEq, Eq, Structural)]
pub enum LayerStyle {
    /// One JSON object on each line.
    Json,
    /// Key=value pairs, one line for each event.
    Logfmt,
    /// One compact line for each event.
    Compact,
    /// Several indented lines for each event.
    Pretty,
}

/// The formatting layer that a log format asks for.
#[derive(Debug, Clone, Copy, PartialEq, Eq, Structural)]
pub struct LayerPlan {
    /// The layout of a line.
    pub style: LayerStyle,
    /// Whether a line carries the current span in a place of its own.
    pub current_span: bool,
    /// Whether a line carries the spans that the event occurred in.
    pub span_list: bool,
    /// Whether a line carries the target of the event.
    pub target: bool,
}

/// The formatting layer of a format: each format has a layout of its own; the
/// current span has a place of its own in JSON lines only; the target and the
/// spans of an event are always recorded.
pub open spec fn planned_layer(format: LogFormat) -> LayerPlan {
    LayerPlan {
        style: match format {
            LogFormat::Json => LayerStyle::Json,
            LogFormat::Logfmt => LayerStyle::Logfmt,
            LogFormat::Compact => LayerStyle::Compact,
            LogFormat::Pretty => LayerStyle::Pretty,
        },
        current_span: format == LogFormat::Json,
        span_list: true,
        target: true,
    }
}

/// The formatting layer to install for `format`.
pub fn layer_plan(format: LogFormat) -> (r: LayerPlan)
    ensures
        r == planned_layer(format),
{
    let style = match format {
        LogFormat::Json => LayerStyle::Json,
        LogFormat::Logfmt => LayerStyle::Logfmt,
        LogFormat::Compact => LayerStyle::Compact,
        LogFormat::Pretty => LayerStyle::Pretty,
    };
    LayerPlan { style, current_span: format == LogFormat::Json, span_list: true, target: true }
}

/// No two formats are laid out alike.
pub proof fn formats_have_distinct_layouts(format: LogFormat, other: LogFormat)
    requires
        planned_layer(format).style == planned_layer(other).style,
    ensures
        format == other,
{
}

/// A character that may stand in an unquoted logfmt value.
pub open spec fn is_bare_char(c: char) -> bool {
    ' ' < c && c != '=' && c != '"' && c != '\\' && c as u32 != 0x7f
}

/// A value that needs no quotes: not empty, and of bare characters alone.
pub open spec fn is_bare_value(value: Seq<char>) -> bool {
    &&& value.len() > 0
    &&& forall|i: int| 0 <= i < value.len() ==> is_bare_char(#[trigger] value[i])
}

/// How a character stands between quotes.
pub open spec fn escaped_char(c: char) -> Seq<char> {
    if c == '"' {
        seq!['\\', '"']
    } else if c == '\\' {
        seq!['\\', '\\']
    } else if c == '\n' {
        seq!['\\', 'n']
    } else if c == '\r' {
        seq!['\\', 'r']
    } else if c == '\t' {
        seq!['\\', 't']
    } else {
        seq![c]
    }
}

/// How a text stands between quotes.
pub open spec fn escaped(value: Seq<char>) -> Seq<char>
    decreases value.len(),
{
    if value.len() == 0 {
        Seq::empty()
    } else {
        escaped(value.drop_last()) + escaped_char(value.last())
    }
}

/// A logfmt value: the text itself where it is bare, else in quotes.
pub open spec fn logfmt_value(value: Seq<char>) -> Seq<char> {
    if is_bare_value(value) {
        value
    } else {
        seq!['"'] + escaped(value) + seq!['"']
    }
}

/// A logfmt line: key=value pairs separated by spaces.
pub open spec fn logfmt_text(pairs: Seq<(Seq<char>, Seq<char>)>) -> Seq<char>
    decreases pairs.len(),
{
    if pairs.len() == 0 {
        Seq::empty()
    } else {
        let before = logfmt_text(pairs.drop_last());
        let separated = if pairs.len() == 1 {
            before
        } else {
            before.push(' ')
        };
        separated + pairs.last().0 + seq!['='] + logfmt_value(pairs.last().1)
    }
}

/// The texts of a list of fields.
pub open spec fn field_texts(fields: Seq<(String, String)>) -> Seq<(Seq<char>, Seq<char>)> {
    fields.map_values(|f: (String, String)| (f.0@, f.1@))
}

/// Whether a value needs no quotes.
fn bare_value(value: &str) -> (r: bool)
    ensures
        r == is_bare_value(value@),
{
    for c in it: value.chars()
        invariant
            it.seq() == value@,
            forall|i: int| 0 <= i < it.index() ==> is_bare_char(#[trigger] value@[i]),
    {
        if !(' ' < c && c != '=' && c != '"' && c != '\\' && c as u32 != 0x7f) {
            assert(!is_bare_char(value@[it.index() as int]));
            return false;
        }
    }
    !value.is_empty()
}

/// Appends a value to a logfmt line.
fn push_logfmt_value(line: &mut String, value: &str)
    ensures
        final(line)@ == old(line)@ + logfmt_value(value@),
{
    if bare_value(value) {
        line.append(value);
        return;
    }
    let ghost start = line@;
    line.push('"');
    for c in it: value.chars()
        invariant
            it.seq() == value@,
            line@ == start.push('"') + escaped(value@.take(it.index() as int)),
    {
        let ghost n = it.index() as int;
        let ghost before = line@;
        assert(value@.take(n + 1).drop_last() == value@.take(n));
        assert(value@.take(n + 1).last() == c);
        if c == '"' || c == '\\' {
            line.push('\\');
            line.push(c);
        } else if c == '\n' {
            line.push('\\');
            line.push('n');
        } else if c == '\r' {
            line.push('\\');
            line.push('r');
        } else if c == '\t' {
            line.push('\\');
            line.push('t');
        } else {
            line.push(c);
        }
        assert(line@ == before + escaped_char(c));
    }
    assert(value@.take(value@.len() as int) == value@);
    line.push('"');
}

/// Writes key=value pairs as one logfmt line, without a line end.
pub fn logfmt_line(fields: &[(String, String)]) -> (r: String)
    ensures
        r@ == logfmt_text(field_texts(fields@)),
{
    let mut line = String::new();
    for i in 0..fields.len()
        invariant
            line@ == logfmt_text(field_texts(fields@).take(i as int)),
    {
        let ghost upto = field_texts(fields@).take(i + 1);
        assert(upto.drop_last() == field_texts(fields@).take(i as int));
        assert(upto.last() == (fields@[i as int].0@, fields@[i as int].1@));
        if i > 0 {
            line.push(' ');
        }
        line.append(fields[i].0.as_str());
        line.push('=');
        push_logfmt_value(&mut line, fields[i].1.as_str());
        assert(line@ == logfmt_text(upto));
    }
    assert(field_texts(fields@).take(fields@.len() as int) == field_texts(fields@));
    line
}

/// A span that an event occurred in.
pub struct SpanContext {
    /// Its name.
    pub name: String,
    /// Its fields.
    pub fields: Vec<(String, String)>,
}

/// The pairs of some spans, the outermost first: for each its name and then its
/// fields.
pub open spec fn span_pairs(spans: Seq<SpanContext>) -> Seq<(Seq<char>, Seq<char>)>
    decreases spans.len(),
{
    if spans.len() == 0 {
        Seq::empty()
    } else {
        span_pairs(spans.drop_last()).push(("span"@, spans.last().name@)) + field_texts(
            spans.last().fields@,
        )
    }
}

/// The pairs of an event: its time and level, its target if that is asked for, the
/// spans that it occurred in, and its fields in order.
pub open spec fn event_pairs(
    time: Seq<char>,
    level: Seq<char>,
    target: Option<Seq<char>>,
    spans: Seq<SpanContext>,
    fields: Seq<(Seq<char>, Seq<char>)>,
) -> Seq<(Seq<char>, Seq<char>)> {
    let stamp = seq![("ts"@, time), ("level"@, level)];
    match target {
        Some(target) => stamp.push(("target"@, target)) + span_pairs(spans) + fields,
        None => stamp + span_pairs(spans) + fields,
    }
}

/// Appends copies of some fields to others.
fn push_fields(pairs: &mut Vec<(String, String)>, fields: &[(String, String)])
    ensures
        field_texts(final(pairs)@) == field_texts(old(pairs)@) + field_texts(fields@),
{
    let ghost start = field_texts(pairs@);
    for i in 0..fields.len()
        invariant
            field_texts(pairs@) == start + field_texts(fields@).take(i as int),
    {
        let ghost before = pairs@;
        pairs.push((fields[i].0.clone(), fields[i].1.clone()));
        assert(field_texts(pairs@) == field_texts(before).push(field_texts(fields@)[i as int]));
        assert(field_texts(fields@).take(i + 1) == field_texts(fields@).take(i as int).push(
            field_texts(fields@)[i as int],
        ));
    }
    assert(field_texts(fields@).take(fields@.len() as int) == field_texts(fields@));
}

/// Writes a log event as one logfmt line.
pub fn logfmt_event(
    time: &str,
    level: &str,
    target: Option<&str>,
    spans: &[SpanContext],
    fields: &[(String, String)],
) -> (r: String)
    ensures
        r@ == logfmt_text(
            event_pairs(
                time@,
                level@,
                match target {
                    Some(target) => Some(target@),
                    None => None,
                },
                spans@,
                field_texts(fields@),
            ),
        ),
{
    let mut pairs: Vec<(String, String)> = Vec::new();
    pairs.push(("ts".to_owned(), time.to_owned()));
    pairs.push(("level".to_owned(), level.to_owned()));
    if let Some(target) = target {
        pairs.push(("target".to_owned(), target.to_owned()));
    }
    let ghost stamp = field_texts(pairs@);
    for i in 0..spans.len()
        invariant
            field_texts(pairs@) == stamp + span_pairs(spans@.take(i as int)),
    {
        let ghost before = pairs@;
        let ghost upto = spans@.take(i + 1);
        pairs.push(("span".to_owned(), spans[i].name.clone()));
        assert(field_texts(pairs@) == field_texts(before).push(
            ("span"@, spans@[i as int].name@),
        ));
        push_fields(&mut pairs, spans[i].fields.as_slice());
        assert(upto.drop_last() == spans@.take(i as int));
        assert(upto.last() == spans@[i as int]);
        assert(field_texts(pairs@) == stamp + span_pairs(upto));
    }
    assert(spans@.take(spans@.len() as int) == spans@);
    push_fields(&mut pairs, fields);
    proof {
        assert(event_pairs(
            time@,
            level@,
            match target {
                Some(target) => Some(target@),
                None => None,
            },
            spans@,
            field_texts(fields@),
        ) == field_texts(pairs@));
    }
    logfmt_line(pairs.as_slice())
}

/// Text between quotes holds no line feed.
proof fn lemma_escaped_has_no_line_feed(value: Seq<char>)
    ensures
        !escaped(value).contains('\n'),
    decreases value.len(),
{
    if value.len() > 0 {
        lemma_escaped_has_no_line_feed(value.drop_last());
        let before = escaped(value.drop_last());
        let tail = escaped_char(value.last());
        assert forall|i: int| 0 <= i < (before + tail).len() implies (before + tail)[i] != '\n' by {
            if i < before.len() {
                assert(before.contains(before[i]));
            }
        }
    }
}

/// An event is written on one line, whatever its values hold, if no key holds a
/// line feed.
pub proof fn logfmt_stays_on_one_line(pairs: Seq<(Seq<char>, Seq<char>)>)
    requires
        forall|i: int| 0 <= i < pairs.len() ==> !(#[trigger] pairs[i]).0.contains('\n'),
    ensures
        !logfmt_text(pairs).contains('\n'),
    decreases pairs.len(),
{
    if pairs.len() > 0 {
        let n = pairs.len() - 1;
        let prior = pairs.drop_last();
        assert forall|i: int| 0 <= i < prior.len() implies !(#[trigger] prior[i]).0.contains(
            '\n',
        ) by {
            assert(prior[i] == pairs[i]);
        }
        logfmt_stays_on_one_line(prior);
        let before = logfmt_text(prior);
        let separated = if pairs.len() == 1 {
            before
        } else {
            before.push(' ')
        };
        let key = pairs[n].0;
        let value = logfmt_value(pairs[n].1);
        assert(!value.contains('\n')) by {
            lemma_escaped_has_no_line_feed(pairs[n].1);
            let inner = escaped(pairs[n].1);
            assert forall|i: int| 0 <= i < value.len() implies value[i] != '\n' by {
                if is_bare_value(pairs[n].1) {
                    assert(is_bare_char(pairs[n].1[i]));
                } else if 0 < i < value.len() - 1 {
                    assert(value[i] == inner[i - 1]);
                    assert(inner.contains(inner[i - 1]));
                }
            }
        }
        let line = logfmt_text(pairs);
        assert(line == separated + key + seq!['='] + value);
        assert forall|i: int| 0 <= i < line.len() implies line[i] != '\n' by {
            if i < before.len() {
                assert(before.contains(before[i]));
            } else if separated.len() <= i < separated.len() + key.len() {
                assert(key.contains(key[i - separated.len()]));
            } else if i > separated.len() + key.len() {
                assert(value.contains(value[i - separated.len() - key.len() - 1]));
            }
        }
    }
}

/// The identifiers of the trace that a request belongs to and of the span that
/// sent it.
pub struct TraceIds {
    /// Trace identifier.
    pub trace_id: String,
    /// Span identifier.
    pub span_id: String,
}

/// The characters from `from` up to `to` are lower-case hexadecimal digits, not all
/// of them zero.
pub open spec fn is_identifier(s: Seq<char>, from: int, to: int) -> bool {
    &&& forall|i: int| from <= i < to ==> crate::tokens::is_lower_hex(#[trigger] s[i])
    &&& exists|i: int| from <= i < to && #[trigger] s[i] != '0'
}

/// A `traceparent` header value of the first version: `00`, the trace identifier
/// of 32 digits, the span identifier of 16 digits and two digits of flags,
/// separated by hyphens.
pub open spec fn is_trace_parent(s: Seq<char>) -> bool {
    &&& s.len() == 55
    &&& s[0] == '0' && s[1] == '0'
    &&& s[2] == '-' && s[35] == '-' && s[52] == '-'
    &&& is_identifier(s, 3, 35)
    &&& is_identifier(s, 36, 52)
    &&& crate::tokens::is_lower_hex(s[53]) && crate::tokens::is_lower_hex(s[54])
}

/// Whether a character is a lower-case hexadecimal digit.
fn lower_hex(c: char) -> (r: bool)
    ensures
        r == crate::tokens::is_lower_hex(c),
{
    '0' <= c && c <= '9' || 'a' <= c && c <= 'f'
}

/// Whether an identifier stands in a part of a text.
fn identifier(s: &str, from: usize, to: usize) -> (r: bool)
    requires
        from <= to <= s@.len(),
    ensures
        r == is_identifier(s@, from as int, to as int),
{
    let mut zero = true;
    for i in from..to
        invariant
            from <= to <= s@.len(),
            forall|j: int| from <= j < i ==> crate::tokens::is_lower_hex(#[trigger] s@[j]),
            zero == forall|j: int| from <= j < i ==> (#[trigger] s@[j]) == '0',
    {
        let c: char = s.get_char(i);
        if !lower_hex(c) {
            return false;
        }
        if c != '0' {
            zero = false;
        }
    }
    !zero
}

/// Reads the identifiers from the value of a `traceparent` header.
pub fn parse_trace_parent(value: &str) -> (r: Option<TraceIds>)
    ensures
        r is Some <==> is_trace_parent(value@),
        r matches Some(ids) ==> ids.trace_id@ == value@.subrange(3, 35) && ids.span_id@
            == value@.subrange(36, 52),
{
    if value.unicode_len() != 55 {
        return None;
    }
    let framed = value.get_char(0) == '0' && value.get_char(1) == '0' && value.get_char(2) == '-'
        && value.get_char(35) == '-' && value.get_char(52) == '-';
    if framed && identifier(value, 3, 35) && identifier(value, 36, 52) && lower_hex(
        value.get_char(53),
    ) && lower_hex(value.get_char(54)) {
        Some(
            TraceIds {
                trace_id: value.substring_char(3, 35).to_owned(),
                span_id: value.substring_char(36, 52).to_owned(),
            },
        )
    } else {
        None
    }
}

/// What the request log records about one handled request.
pub struct RequestRecord {
    /// HTTP method.
    pub method: String,
    /// Request URI.
    pub uri: String,
    /// Response status code.
    pub status: u16,
    /// Duration of the request in whole microseconds.
    pub duration_us: u64,
    /// The trace that the request belongs to, if it names one.
    pub trace: Option<TraceIds>,
}

/// The log record of a request that took `micros` microseconds, with the value of
/// its `traceparent` header if it has one. The recorded duration is the low 64 bits
/// of the count.
pub fn request_record(
    method: &str,
    uri: &str,
    status: u16,
    micros: u128,
    trace_parent: Option<&str>,
) -> (r: RequestRecord)
    ensures
        r.method@ == method@,
        r.uri@ == uri@,
        r.status == status,
        r.duration_us == micros % 0x1_0000_0000_0000_0000,
        r.trace is Some <==> trace_parent is Some && is_trace_parent(trace_parent->0@),
        r.trace matches Some(ids) ==> ids.trace_id@ == trace_parent->0@.subrange(3, 35)
            && ids.span_id@ == trace_parent->0@.subrange(36, 52),
{
    let low: u64 = (micros % 0x1_0000_0000_0000_0000u128) as u64;
    let trace = match trace_parent {
        Some(value) => parse_trace_parent(value),
        None => None,
    };
    RequestRecord {
        method: method.to_owned(),
        uri: uri.to_owned(),
        status,
        duration_us: low,
        trace,
    }
}

/// A format is named exactly by its own name, whatever the white space around it and
/// the case of its letters; any other text means the compact format. Reading the
/// printed name gives the format back.
pub proof fn formats_are_read_by_name(
    s: &str,
    r: LogFormat,
    f: LogFormat,
    name: String,
    printed: &str,
    back: LogFormat,
)
    requires
        call_ensures(LogFormat::parse, (s,), r),
        call_ensures(LogFormat::to_string, (&f,), name),
        printed@ == name@,
        call_ensures(LogFormat::parse, (printed,), back),
    ensures
        ({
            let named = crate::text::lowercase(crate::text::trimmed(s@));
            &&& r == LogFormat::Json <==> named == "json"@
            &&& r == LogFormat::Logfmt <==> named == "logfmt"@
            &&& r == LogFormat::Pretty <==> named == "pretty"@
        }),
        back == f,
{
    reveal_strlit("json");
    reveal_strlit("logfmt");
    reveal_strlit("pretty");
    assert("json"@.len() == 4 && "logfmt"@.len() == 6 && "pretty"@.len() == 6);
    assert("logfmt"@[0] != "pretty"@[0]);
    format_round_trip(f);
}

/// Two texts that are the same up to the white space around them and the case of
/// their ASCII letters name the same format.
pub proof fn white_space_and_case_do_not_matter(
    a: &str,
    b: &str,
    from_a: LogFormat,
    from_b: LogFormat,
    before: Seq<char>,
    core: Seq<char>,
    after: Seq<char>,
)
    requires
        call_ensures(LogFormat::parse, (a,), from_a),
        call_ensures(LogFormat::parse, (b,), from_b),
        crate::text::is_blank(before),
        crate::text::is_blank(after),
        a@ == before + core + after,
        crate::text::ascii_lowered(b@) == crate::text::ascii_lowered(core),
    ensures
        from_a == from_b,
{
    crate::text::trimming_ignores_white_space(before, core, after);
    crate::text::lowercase_ignores_letter_case(b@, core);
}

/// The filter is the one that was asked for, without white space around it, or
/// `info` where nothing was asked for or the text does not parse. There is a warning
/// exactly where the text does not parse: it quotes the text and what the parser says.
/// A piece outside ASCII with white space in front and a `=` or `[` in it is not given
/// to the parser and does not parse.
pub proof fn filters_are_as_asked(
    directive: &str,
    wanted: &str,
    pieces: Vec<String>,
    choice: FilterChoice,
    filter: EnvFilter,
)
    requires
        call_ensures(resolve_env_filter, (directive,), choice),
        call_ensures(build_env_filter, (directive,), filter),
        crate::text::trimmed(directive@).len() > 0 ==> wanted@ == crate::text::trimmed(directive@),
        crate::text::trimmed(directive@).len() == 0 ==> wanted@ == "info"@,
        call_ensures(split_text, (wanted, ','), pieces),
    ensures
        ({
            let accepted = forall|i: int|
                0 <= i < pieces@.len() ==> vstd::utf8::is_ascii_chars((#[trigger] pieces@[i])@)
                    || !crate::text::is_white_space(pieces@[i]@[0]) || (!pieces@[i]@.contains('=')
                    && !pieces@[i]@.contains('['));
            let front = "Invalid RUST_LOG directive '"@ + wanted@ + "': "@;
            let back = ". Falling back to 'info'."@;
            &&& filter_directives(filter) == filter_directives(choice.filter)
            &&& choice.warning is None <==> accepted && directive_error(wanted@) is None
            &&& choice.warning is None ==> filter_directives(choice.filter) == wanted@
            &&& choice.warning is Some ==> filter_directives(choice.filter) == "info"@
            &&& choice.warning matches Some(w) ==> w@ == if accepted {
                front + directive_error(wanted@)->0 + back
            } else {
                front + "white space in front of a directive"@ + back
            }
        }),
{
    assert(wanted@ == requested_directive(directive@));
    let texts = crate::text::split_on(wanted@, ',');
    assert(texts == pieces@.map_values(|p: String| p@));
    let accepted = forall|i: int|
        0 <= i < pieces@.len() ==> vstd::utf8::is_ascii_chars((#[trigger] pieces@[i])@)
            || !crate::text::is_white_space(pieces@[i]@[0]) || (!pieces@[i]@.contains('=')
            && !pieces@[i]@.contains('['));
    assert(accepted == is_parsable(wanted@)) by {
        if accepted {
            assert forall|i: int| 0 <= i < texts.len() implies is_parsable_piece(
                #[trigger] texts[i],
            ) by {
                assert(texts[i] == pieces@[i]@);
            }
        }
        if is_parsable(wanted@) {
            assert forall|i: int| 0 <= i < pieces@.len() implies vstd::utf8::is_ascii_chars(
                (#[trigger] pieces@[i])@,
            ) || !crate::text::is_white_space(pieces@[i]@[0]) || (!pieces@[i]@.contains('=')
                && !pieces@[i]@.contains('[')) by {
                assert(texts[i] == pieces@[i]@);
                assert(is_parsable_piece(texts[i]));
            }
        }
    }
}

/// A filter that was parsed is taken; else it is `info`, with a warning that quotes
/// the request and the error.
pub proof fn parsed_filters_are_taken(
    requested: &str,
    parsed: Result<EnvFilter, String>,
    choice: FilterChoice,
)
    requires
        call_ensures(choose_filter, (requested, parsed), choice),
    ensures
        parsed matches Ok(filter) ==> choice.filter == filter && choice.warning is None,
        parsed matches Err(error) ==> filter_directives(choice.filter) == "info"@ && (
        choice.warning matches Some(w) && w@ == "Invalid RUST_LOG directive '"@ + requested@
            + "': "@ + error@ + ". Falling back to 'info'."@),
{
}

/// The line of some pairs and then others is the line of the first, a space, and the
/// line of the others.
pub proof fn logfmt_lines_join(
    a: &[(String, String)],
    b: &[(String, String)],
    both: &[(String, String)],
    line_a: String,
    line_b: String,
    line_both: String,
)
    requires
        call_ensures(logfmt_line, (a,), line_a),
        call_ensures(logfmt_line, (b,), line_b),
        call_ensures(logfmt_line, (both,), line_both),
        both@ == a@ + b@,
    ensures
        a@.len() > 0 && b@.len() > 0 ==> line_both@ == line_a@.push(' ') + line_b@,
        a@.len() == 0 ==> line_both@ == line_b@ && line_a@.len() == 0,
        b@.len() == 0 ==> line_both@ == line_a@,
{
    let (x, y) = (field_texts(a@), field_texts(b@));
    assert(field_texts(both@) == x + y);
    if a@.len() == 0 {
        assert(x + y == y);
    } else if b@.len() == 0 {
        assert(x + y == x);
    } else {
        lemma_logfmt_joins(x, y);
    }
}

/// The text of some pairs and then others.
proof fn lemma_logfmt_joins(x: Seq<(Seq<char>, Seq<char>)>, y: Seq<(Seq<char>, Seq<char>)>)
    requires
        x.len() > 0,
        y.len() > 0,
    ensures
        logfmt_text(x + y) == logfmt_text(x).push(' ') + logfmt_text(y),
    decreases y.len(),
{
    let whole = x + y;
    assert(whole.drop_last() == x + y.drop_last());
    assert(whole.last() == y.last());
    if y.len() == 1 {
        assert(whole.drop_last() == x);
        assert(logfmt_text(y.drop_last()) == Seq::<char>::empty());
        assert(logfmt_text(whole) == logfmt_text(x).push(' ') + logfmt_text(y));
    } else {
        lemma_logfmt_joins(x, y.drop_last());
        assert(logfmt_text(whole) == logfmt_text(x).push(' ') + logfmt_text(y));
    }
}

/// A pair is written as key, `=` and value. A value that is not empty stands as it is
/// if it holds no white space or control characters of ASCII, no `=`, no quotes and no
/// backslashes; any other stands in quotes.
pub proof fn logfmt_pairs_are_written(pair: &[(String, String)], line: String, i: int)
    requires
        call_ensures(logfmt_line, (pair,), line),
        pair@.len() == 1,
    ensures
        ({
            let key = pair@[0].0@;
            let value = pair@[0].1@;
            let bare = value.len() > 0 && forall|k: int|
                0 <= k < value.len() ==> (#[trigger] value[k]) > ' ' && value[k] != '='
                    && value[k] != '"' && value[k] != '\\' && value[k] as u32 != 0x7f;
            &&& bare ==> line@ == key.push('=') + value
            &&& !bare ==> line@.len() >= key.len() + 3 && line@.take(key.len() as int + 2) == key.push(
                '=',
            ).push('"') && line@.last() == '"'
            &&& value.len() == 0 ==> line@ == key.push('=').push('"').push('"')
        }),
{
    lemma_single_pair(pair, line);
    let key = pair@[0].0@;
    let value = pair@[0].1@;
    let bare = value.len() > 0 && forall|k: int|
        0 <= k < value.len() ==> (#[trigger] value[k]) > ' ' && value[k] != '=' && value[k] != '"'
            && value[k] != '\\' && value[k] as u32 != 0x7f;
    assert(bare == is_bare_value(value)) by {
        if is_bare_value(value) {
            assert forall|k: int| 0 <= k < value.len() implies (#[trigger] value[k]) > ' '
                && value[k] != '=' && value[k] != '"' && value[k] != '\\' && value[k] as u32 != 0x7f by {
                assert(is_bare_char(value[k]));
            }
        }
        if bare {
            assert forall|k: int| 0 <= k < value.len() implies is_bare_char(#[trigger] value[k]) by {
                assert(value[k] > ' ' && value[k] as u32 != 0x7f);
            }
        }
    }
    if bare {
        assert(line@ == key.push('=') + value);
    } else {
        assert(line@.take(key.len() as int + 2) == key.push('=').push('"'));
        if value.len() == 0 {
            assert(line@ == key.push('=').push('"').push('"'));
        }
    }
}

/// The line of one pair.
proof fn lemma_single_pair(pair: &[(String, String)], line: String)
    requires
        call_ensures(logfmt_line, (pair,), line),
        pair@.len() == 1,
    ensures
        line@ == pair@[0].0@ + seq!['='] + logfmt_value(pair@[0].1@),
{
    let pairs = field_texts(pair@);
    assert(pairs.drop_last() == Seq::<(Seq<char>, Seq<char>)>::empty());
    assert(logfmt_text(pairs.drop_last()) == Seq::<char>::empty());
    assert(pairs.last() == (pair@[0].0@, pair@[0].1@));
    assert(line@ == pair@[0].0@ + seq!['='] + logfmt_value(pair@[0].1@));
}

/// Between quotes each character of a value stands for itself, in order, but quotes
/// and backslashes stand behind a backslash, and a line feed, a carriage return and a
/// tab are written as `n`, `r` and `t` behind a backslash: one more character of the
/// value adds just that to the line. A value that needed no quotes stands between them
/// as it was.
pub proof fn quoted_values_grow_by_characters(
    pair: &[(String, String)],
    longer: &[(String, String)],
    line: String,
    longer_line: String,
    c: char,
)
    requires
        call_ensures(logfmt_line, (pair,), line),
        call_ensures(logfmt_line, (longer,), longer_line),
        pair@.len() == 1,
        longer@.len() == 1,
        longer@[0].0@ == pair@[0].0@,
        longer@[0].1@ == pair@[0].1@.push(c),
        longer_line@.last() == '"',
    ensures
        ({
            let key = pair@[0].0@;
            let value = pair@[0].1@;
            let quoted = line@.len() > key.len() + 1 && line@[key.len() as int + 1] == '"';
            let opened = if quoted {
                line@.drop_last()
            } else {
                key.push('=').push('"') + value
            };
            longer_line@ == if c == '"' || c == '\\' {
                opened.push('\\').push(c).push('"')
            } else if c == '\n' {
                opened.push('\\').push('n').push('"')
            } else if c == '\r' {
                opened.push('\\').push('r').push('"')
            } else if c == '\t' {
                opened.push('\\').push('t').push('"')
            } else {
                opened.push(c).push('"')
            }
        }),
{
    lemma_single_pair(pair, line);
    lemma_single_pair(longer, longer_line);
    let key = pair@[0].0@;
    let value = pair@[0].1@;
    let grown = value.push(c);
    assert(grown.drop_last() == value);
    assert(grown.last() == c);
    let n = key.len() as int + 1;
    if is_bare_value(grown) {
        assert(is_bare_char(grown[grown.len() - 1]));
        assert(longer_line@.last() == grown.last());
    }
    if is_bare_value(value) {
        assert(is_bare_char(value[0]));
        assert(line@[n] == value[0]);
        lemma_bare_needs_no_escape(value);
    } else {
        assert(line@[n] == '"');
        assert(line@.drop_last() == key.push('=').push('"') + escaped(value));
    }
    assert(longer_line@ == key.push('=').push('"') + escaped(value) + escaped_char(c) + seq!['"']);
}

/// Text of bare characters stands between quotes as it is.
proof fn lemma_bare_needs_no_escape(value: Seq<char>)
    requires
        forall|i: int| 0 <= i < value.len() ==> is_bare_char(#[trigger] value[i]),
    ensures
        escaped(value) == value,
    decreases value.len(),
{
    if value.len() > 0 {
        assert(is_bare_char(value[value.len() - 1]));
        assert forall|i: int| 0 <= i < value.drop_last().len() implies is_bare_char(
            #[trigger] value.drop_last()[i],
        ) by {
            assert(value.drop_last()[i] == value[i]);
        }
        lemma_bare_needs_no_escape(value.drop_last());
        assert(value == value.drop_last().push(value.last()));
    }
}

/// An event outside of any span is the line of its time, its level, its target if that
/// is asked for, and its fields.
pub proof fn events_are_lines_of_pairs(
    time: &str,
    level: &str,
    target: Option<&str>,
    spans: &[SpanContext],
    fields: &[(String, String)],
    line: String,
    pairs: &[(String, String)],
    same: String,
)
    requires
        call_ensures(logfmt_event, (time, level, target, spans, fields), line),
        call_ensures(logfmt_line, (pairs,), same),
        spans@.len() == 0,
        ({
            let n: int = if target is Some {
                3
            } else {
                2
            };
            &&& pairs@.len() == n + fields@.len()
            &&& pairs@[0].0@ == "ts"@ && pairs@[0].1@ == time@
            &&& pairs@[1].0@ == "level"@ && pairs@[1].1@ == level@
            &&& target matches Some(t) ==> pairs@[2].0@ == "target"@ && pairs@[2].1@ == t@
            &&& forall|i: int|
                0 <= i < fields@.len() ==> pairs@[n + i].0@ == (#[trigger] fields@[i]).0@ && pairs@[n
                    + i].1@ == fields@[i].1@
        }),
    ensures
        line@ == same@,
{
    let texts = match target {
        Some(target) => Some(target@),
        None => None,
    };
    let expected = event_pairs(time@, level@, texts, spans@, field_texts(fields@));
    let n: int = if target is Some {
        3
    } else {
        2
    };
    let given = field_texts(pairs@);
    assert(span_pairs(spans@) == Seq::<(Seq<char>, Seq<char>)>::empty());
    assert forall|i: int| 0 <= i < given.len() implies given[i] == expected[i] by {
        if i >= n {
            let field = fields@[i - n];
            assert(pairs@[n + (i - n)].0@ == field.0@);
            assert(expected[i] == field_texts(fields@)[i - n]);
        }
    }
    assert(given =~= expected);
}

/// The innermost span of an event is written in front of the event's own fields, its
/// name first and then its fields, and behind the spans around it.
pub proof fn spans_stand_before_the_fields(
    time: &str,
    level: &str,
    target: Option<&str>,
    spans: &[SpanContext],
    outer: &[SpanContext],
    fields: &[(String, String)],
    all_fields: &[(String, String)],
    line: String,
    same: String,
)
    requires
        call_ensures(logfmt_event, (time, level, target, spans, fields), line),
        call_ensures(logfmt_event, (time, level, target, outer, all_fields), same),
        spans@.len() > 0,
        outer@ == spans@.drop_last(),
        all_fields@.len() > 0,
        all_fields@[0].0@ == "span"@,
        all_fields@[0].1@ == spans@.last().name@,
        all_fields@.skip(1) == spans@.last().fields@ + fields@,
    ensures
        line@ == same@,
{
    let inner = spans@.last();
    let name = seq![("span"@, inner.name@)];
    assert(field_texts(all_fields@) == name + field_texts(inner.fields@) + field_texts(fields@))
        by {
        let rest = all_fields@.skip(1);
        assert(field_texts(rest) == field_texts(inner.fields@) + field_texts(fields@));
        assert forall|i: int| 0 <= i < all_fields@.len() implies field_texts(all_fields@)[i] == (
        name + field_texts(rest))[i] by {
            if i > 0 {
                assert(rest[i - 1] == all_fields@[i]);
            }
        }
        assert(field_texts(all_fields@) =~= name + field_texts(rest));
    }
    let texts = match target {
        Some(target) => Some(target@),
        None => None,
    };
    assert(event_pairs(time@, level@, texts, spans@, field_texts(fields@)) =~= event_pairs(
        time@,
        level@,
        texts,
        outer@,
        field_texts(all_fields@),
    ));
}

/// A `traceparent` value names a trace exactly if it is `00-`, 32 lower-case
/// hexadecimal digits that are not all zero, a hyphen, 16 such digits, a hyphen and two
/// digits; the first group is the trace and the second the span. A request belongs to
/// the trace that its header names.
pub proof fn trace_parents_are_read(
    value: &str,
    r: Option<TraceIds>,
    method: &str,
    uri: &str,
    status: u16,
    micros: u128,
    record: RequestRecord,
    bare: RequestRecord,
    k: int,
)
    requires
        call_ensures(parse_trace_parent, (value,), r),
        call_ensures(request_record, (method, uri, status, micros, Some(value)), record),
        call_ensures(request_record, (method, uri, status, micros, None), bare),
    ensures
        r matches Some(ids) ==> {
            &&& value@.len() == 55
            &&& value@[0] == '0' && value@[1] == '0' && value@[2] == '-' && value@[35] == '-'
                && value@[52] == '-'
            &&& 3 <= k < 55 && k != 35 && k != 52 ==> '0' <= value@[k] <= '9' || 'a' <= value@[k]
                <= 'f'
            &&& ids.trace_id@ == value@.subrange(3, 35)
            &&& ids.span_id@ == value@.subrange(36, 52)
            &&& exists|i: int| 3 <= i < 35 && #[trigger] value@[i] != '0'
            &&& exists|i: int| 36 <= i < 52 && #[trigger] value@[i] != '0'
        },
        value@.len() == 55 && value@[0] == '0' && value@[1] == '0' && value@[2] == '-' && value@[35]
            == '-' && value@[52] == '-' && (forall|i: int|
            3 <= i < 55 && i != 35 && i != 52 ==> '0' <= #[trigger] value@[i] <= '9' || 'a'
                <= value@[i] <= 'f') && (exists|i: int| 3 <= i < 35 && #[trigger] value@[i] != '0')
            && (exists|i: int| 36 <= i < 52 && #[trigger] value@[i] != '0') ==> r is Some,
        record.trace is Some <==> r is Some,
        r matches Some(ids) ==> (record.trace matches Some(same) && same.trace_id@ == ids.trace_id@
            && same.span_id@ == ids.span_id@),
        bare.trace is None,
        record.method@ == method@ && record.uri@ == uri@ && record.status == status,
        record.duration_us == micros % 0x1_0000_0000_0000_0000,
        bare.method@ == method@ && bare.uri@ == uri@ && bare.status == status,
        bare.duration_us == micros % 0x1_0000_0000_0000_0000,
{
    if r is Some {
        if 3 <= k < 55 && k != 35 && k != 52 {
            assert(crate::tokens::is_lower_hex(value@[k]));
        }
    }
    if value@.len() == 55 && (forall|i: int|
        3 <= i < 55 && i != 35 && i != 52 ==> '0' <= #[trigger] value@[i] <= '9' || 'a' <= value@[i]
            <= 'f') {
        assert forall|i: int| 3 <= i < 35 implies crate::tokens::is_lower_hex(
            #[trigger] value@[i],
        ) by {}
        assert forall|i: int| 36 <= i < 52 implies crate::tokens::is_lower_hex(
            #[trigger] value@[i],
        ) by {}
        assert(crate::tokens::is_lower_hex(value@[53]));
        assert(crate::tokens::is_lower_hex(value@[54]));
    }
}

/// Every layer records the target and the spans of an event; JSON lines, and no
/// others, have a place for the current span; and no two formats are laid out alike.
pub proof fn layers_record_the_context(
    format: LogFormat,
    other: LogFormat,
    plan: LayerPlan,
    other_plan: LayerPlan,
)
    requires
        call_ensures(layer_plan, (format,), plan),
        call_ensures(layer_plan, (other,), other_plan),
    ensures
        plan.target && plan.span_list,
        plan.current_span <==> format == LogFormat::Json,
        plan.style == other_plan.style <==> format == other,
        format == LogFormat::Json ==> plan.style == LayerStyle::Json,
        format == LogFormat::Logfmt ==> plan.style == LayerStyle::Logfmt,
        format == LogFormat::Pretty ==> plan.style == LayerStyle::Pretty,
{
}

} // verus!
