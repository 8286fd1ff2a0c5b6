//! Redacted ADT call tracing: which bodies are logged, and how.
//!
//! The decorator itself only configures the body-logging limit. The decision
//! of whether and how a request or response body appears in a trace is made
//! here; emitting the events is left to the caller's tracing setup.
use vstd::prelude::*;
use vstd::string::StringExecFns;
use vstd::utf8::{decode_utf8, encode_utf8, valid_utf8};

use crate::std_specs::utf8_text;
use crate::text::{
    before_first, before_first_exec, chars_of, eq_ignore_ascii_case, eq_ignore_case, opt_view,
    split, split_exec, lemma_split_nonempty, lower, string_of, sub_chars, trim, trimmed,
};

verus! {

/// A transport decorator that emits structured, redacted ADT call traces.
///
/// Query values and sensitive header values are not logged. Request and
/// response bodies are omitted unless explicitly enabled with
/// [`Traced::with_body_logging`].
#[derive(Clone, Debug)]
pub struct Traced<T> {
    inner: T,
    body_log_limit: Option<usize>,
}

impl<T> Traced<T> {
    /// The body-logging limit, `None` while body logging is disabled.
    pub closed spec fn spec_body_log_limit(&self) -> Option<usize> {
        self.body_log_limit
    }

    /// The wrapped transport.
    pub closed spec fn spec_inner(&self) -> T {
        self.inner
    }

    /// Wraps a transport with structured ADT call tracing; body logging is off.
    pub fn new(inner: T) -> (r: Self)
        ensures
            r.spec_inner() == inner,
            r.spec_body_log_limit() is None,
    {
        Traced { inner, body_log_limit: None }
    }

    /// Enables request and XML response body logging up to `max_bytes`.
    pub fn with_body_logging(self, max_bytes: usize) -> (r: Self)
        ensures
            r.spec_inner() == self.spec_inner(),
            r.spec_body_log_limit() == Some(max_bytes),
    {
        Traced { inner: self.inner, body_log_limit: Some(max_bytes) }
    }

    /// Returns the body-logging limit, `None` while body logging is disabled.
    pub fn body_log_limit(&self) -> (r: Option<usize>)
        ensures
            r == self.spec_body_log_limit(),
    {
        self.body_log_limit
    }

    /// Returns the wrapped transport.
    pub fn inner(&self) -> (r: &T)
        ensures
            *r == self.spec_inner(),
    {
        &self.inner
    }

    /// Consumes the decorator and returns the wrapped transport.
    pub fn into_inner(self) -> (r: T)
        ensures
            r == self.spec_inner(),
    {
        self.inner
    }
}

/// How a body appears in a trace.
#[derive(Debug)]
pub enum BodyLog {
    /// The body is logged as this text.
    Text(String),
    /// The body is empty.
    Empty,
    /// The body exceeds the logging limit.
    TooLarge,
    /// The body's media type is not logged.
    Unsupported,
    /// The body is not UTF-8.
    InvalidUtf8,
}

/// How a body appears in a trace, as plain values.
pub enum LogDecision {
    Text(Seq<char>),
    Empty,
    TooLarge,
    Unsupported,
    InvalidUtf8,
}

impl BodyLog {
    /// The decision this value reports.
    pub open spec fn decision(self) -> LogDecision {
        match self {
            BodyLog::Text(t) => LogDecision::Text(t@),
            BodyLog::Empty => LogDecision::Empty,
            BodyLog::TooLarge => LogDecision::TooLarge,
            BodyLog::Unsupported => LogDecision::Unsupported,
            BodyLog::InvalidUtf8 => LogDecision::InvalidUtf8,
        }
    }
}

/// The text that `quick_xml` re-indents an XML document to, reading it with
/// trimmed text events and writing it with a four-space indentation; `None`
/// when the document is malformed.
pub uninterp spec fn formatted_xml(xml: Seq<char>) -> Option<Seq<char>>;

/// The media type of a `Content-Type` value, without parameters.
pub open spec fn base_media_type_spec(content_type: Seq<char>) -> Seq<char> {
    trim(before_first(content_type, ';'))
}

/// Whether a text ends with a suffix, ignoring ASCII case.
pub open spec fn ends_with_ignoring_case(value: Seq<char>, suffix: Seq<char>) -> bool {
    value.len() >= suffix.len() && eq_ignore_case(value.skip(value.len() - suffix.len()), suffix)
}

/// XML media types: `application/xml`, `text/xml` and any `+xml` type.
pub open spec fn is_xml_spec(content_type: Seq<char>) -> bool {
    let m = base_media_type_spec(content_type);
    eq_ignore_case(m, "application/xml"@) || eq_ignore_case(m, "text/xml"@)
        || ends_with_ignoring_case(m, "+xml"@)
}

/// Textual media types: `text/*`, JSON, form data and any `+json` type.
pub open spec fn is_text_spec(content_type: Seq<char>) -> bool {
    let m = base_media_type_spec(content_type);
    (m.len() >= 5 && eq_ignore_case(m.take(5), "text/"@)) || eq_ignore_case(
        m,
        "application/json"@,
    ) || eq_ignore_case(m, "application/x-www-form-urlencoded"@) || ends_with_ignoring_case(
        m,
        "+json"@,
    )
}

/// The decision for a body: empty bodies and unsupported media types are
/// skipped, bodies over the limit or not UTF-8 are omitted, text is logged as
/// is, and XML is logged re-indented when it is well formed and the
/// re-indented form (its UTF-8 length as a `usize`) still fits the limit.
pub open spec fn body_log_decision(
    body: Seq<u8>,
    content_type: Seq<char>,
    max_bytes: usize,
    include_text: bool,
) -> LogDecision {
    if body.len() == 0 {
        LogDecision::Empty
    } else if !(is_xml_spec(content_type) || include_text && is_text_spec(content_type)) {
        LogDecision::Unsupported
    } else if body.len() > max_bytes {
        LogDecision::TooLarge
    } else if !valid_utf8(body) {
        LogDecision::InvalidUtf8
    } else if !is_xml_spec(content_type) {
        LogDecision::Text(decode_utf8(body))
    } else {
        match formatted_xml(decode_utf8(body)) {
            None => LogDecision::Text(decode_utf8(body)),
            Some(f) => if (encode_utf8(f).len() as usize) > max_bytes {
                LogDecision::Text(decode_utf8(body))
            } else {
                LogDecision::Text(f)
            },
        }
    }
}

/// `quick_xml::Reader` with trimmed text events feeding a
/// `quick_xml::Writer` indenting by four spaces: the re-indented document,
/// named by [`formatted_xml`], or `None` when reading fails.
#[verifier::external_body]
fn pretty_xml(xml: &str) -> (r: Option<String>)
    ensures
        opt_view(r) == formatted_xml(xml@),
{
    let mut reader = quick_xml::Reader::from_str(xml);
    reader.config_mut().trim_text(true);
    let mut writer = quick_xml::Writer::new_with_indent(Vec::new(), b' ', 4);
    loop {
        match reader.read_event() {
            Ok(quick_xml::events::Event::Eof) => break,
            Ok(event) => writer.write_event(event).ok()?,
            Err(_) => return None,
        }
    }
    String::from_utf8(writer.into_inner()).ok()
}

/// Returns the media type of a `Content-Type` value, without parameters.
pub fn base_media_type(content_type: &str) -> (r: Vec<char>)
    ensures
        r@ == base_media_type_spec(content_type@),
{
    let cs = chars_of(content_type);
    let essence = before_first_exec(cs.as_slice(), ';');
    trimmed(essence.as_slice())
}

/// Whether a text ends with a suffix, ignoring ASCII case.
pub fn ends_with_ignore_ascii_case(value: &[char], suffix: &str) -> (r: bool)
    ensures
        r == ends_with_ignoring_case(value@, suffix@),
{
    let s = chars_of(suffix);
    if value.len() < s.len() {
        return false;
    }
    let tail = sub_chars(value, value.len() - s.len(), value.len());
    assert(tail@ =~= value@.skip(value@.len() - s@.len()));
    eq_ignore_ascii_case(tail.as_slice(), s.as_slice())
}

fn same_ignoring_case(a: &[char], b: &str) -> (r: bool)
    ensures
        r == eq_ignore_case(a@, b@),
{
    let bs = chars_of(b);
    eq_ignore_ascii_case(a, bs.as_slice())
}

/// Whether a `Content-Type` names an XML representation.
pub fn is_xml_media_type(content_type: &str) -> (r: bool)
    ensures
        r == is_xml_spec(content_type@),
{
    let m = base_media_type(content_type);
    same_ignoring_case(m.as_slice(), "application/xml") || same_ignoring_case(
        m.as_slice(),
        "text/xml",
    ) || ends_with_ignore_ascii_case(m.as_slice(), "+xml")
}

/// Whether a `Content-Type` names a textual representation.
pub fn is_text_media_type(content_type: &str) -> (r: bool)
    ensures
        r == is_text_spec(content_type@),
{
    let m = base_media_type(content_type);
    let prefix = if m.len() >= 5 {
        let head = sub_chars(m.as_slice(), 0, 5);
        assert(head@ =~= m@.take(5));
        same_ignoring_case(head.as_slice(), "text/")
    } else {
        false
    };
    prefix || same_ignoring_case(m.as_slice(), "application/json") || same_ignoring_case(
        m.as_slice(),
        "application/x-www-form-urlencoded",
    ) || ends_with_ignore_ascii_case(m.as_slice(), "+json")
}

/// Decides how a body appears in a trace.
pub fn body_for_log(body: &[u8], content_type: &str, max_bytes: usize, include_text: bool) -> (r:
    BodyLog)
    ensures
        r.decision() == body_log_decision(body@, content_type@, max_bytes, include_text),
{
    if body.len() == 0 {
        return BodyLog::Empty;
    }
    let xml = is_xml_media_type(content_type);
    if !(xml || include_text && is_text_media_type(content_type)) {
        return BodyLog::Unsupported;
    }
    if body.len() > max_bytes {
        return BodyLog::TooLarge;
    }
    let text = match utf8_text(body) {
        Some(t) => t,
        None => return BodyLog::InvalidUtf8,
    };
    if !xml {
        return BodyLog::Text(text);
    }
    assert(valid_utf8(body@) && text@ == decode_utf8(body@));
    assert(is_xml_spec(content_type@));
    match pretty_xml(text.as_str()) {
        None => BodyLog::Text(text),
        Some(formatted) => if formatted.as_str().len() > max_bytes {
            BodyLog::Text(text)
        } else {
            BodyLog::Text(formatted)
        },
    }
}

/// A line without a carriage return that preceded its line feed.
pub open spec fn strip_cr(line: Seq<char>) -> Seq<char> {
    if line.len() > 0 && line.last() == '\r' {
        line.drop_last()
    } else {
        line
    }
}

/// The lines of a text as `str::lines` yields them: split at `\n`, each
/// terminated line without a trailing `\r`, and no empty line after a final
/// line ending.
pub open spec fn text_lines(s: Seq<char>) -> Seq<Seq<char>> {
    let p = split(s, '\n');
    let body = p.drop_last().map_values(|l: Seq<char>| strip_cr(l));
    if p.last().len() == 0 {
        body
    } else {
        body.push(p.last())
    }
}

/// Lines indented by four spaces and joined by line feeds.
pub open spec fn indented_lines(lines: Seq<Seq<char>>) -> Seq<char>
    decreases lines.len(),
{
    if lines.len() == 0 {
        Seq::empty()
    } else if lines.len() == 1 {
        "    "@ + lines[0]
    } else {
        indented_lines(lines.drop_last()) + "\n"@ + "    "@ + lines.last()
    }
}

/// Indents every line of a logged body by four spaces, away from the event prefix.
pub fn indent_body(body: &str) -> (r: String)
    ensures
        r@ == indented_lines(text_lines(body@)),
{
    let cs = chars_of(body);
    let pieces = split_exec(cs.as_slice(), '\n');
    proof {
        lemma_split_nonempty(cs@, '\n');
    }
    let ghost p = split(cs@, '\n');
    let mut lines: Vec<Vec<char>> = Vec::new();
    let mut i: usize = 0;
    while i + 1 < pieces.len()
        invariant
            pieces@.len() == p.len(),
            p.len() >= 1,
            i + 1 <= pieces.len(),
            forall|k: int| 0 <= k < pieces@.len() ==> #[trigger] pieces@[k]@ == p[k],
            lines@.len() == i,
            forall|k: int|
                0 <= k < i ==> #[trigger] lines@[k]@ == strip_cr(p[k]),
        decreases pieces.len() - i,
    {
        let piece = &pieces[i];
        let line = if piece.len() > 0 && piece[piece.len() - 1] == '\r' {
            let l = sub_chars(piece.as_slice(), 0, piece.len() - 1);
            assert(l@ =~= piece@.drop_last());
            l
        } else {
            sub_chars(piece.as_slice(), 0, piece.len())
        };
        assert(piece@.subrange(0, piece@.len() as int) =~= piece@);
        lines.push(line);
        i += 1;
    }
    let last = &pieces[pieces.len() - 1];
    if last.len() > 0 {
        lines.push(sub_chars(last.as_slice(), 0, last.len()));
        assert(last@.subrange(0, last@.len() as int) =~= last@);
    }
    let ghost ls = text_lines(body@);
    assert(lines@.len() == ls.len());
    assert forall|k: int| 0 <= k < ls.len() implies #[trigger] lines@[k]@ == ls[k] by {
        if k < p.len() - 1 {
            assert(ls[k] == p.drop_last().map_values(|l: Seq<char>| strip_cr(l))[k]);
        }
    }
    let mut out = String::new();
    let mut j: usize = 0;
    while j < lines.len()
        invariant
            j <= lines.len(),
            lines@.len() == ls.len(),
            forall|k: int| 0 <= k < ls.len() ==> #[trigger] lines@[k]@ == ls[k],
            out@ == indented_lines(ls.take(j as int)),
        decreases lines.len() - j,
    {
        let ghost before = out@;
        if j > 0 {
            out.append("\n");
        }
        out.append("    ");
        let line = string_of(lines[j].as_slice());
        out.append(line.as_str());
        proof {
            let t = ls.take(j + 1);
            assert(t.drop_last() =~= ls.take(j as int));
            assert(t.last() == ls[j as int]);
            if j == 0 {
                assert(t.len() == 1);
                assert(out@ =~= "    "@ + ls[0]);
            } else {
                assert(out@ =~= before + "\n"@ + "    "@ + ls[j as int]);
            }
        }
        j += 1;
    }
    assert(ls.take(ls.len() as int) =~= ls);
    out
}

/// The trace message for a request body, if any is emitted.
pub fn log_request_body(body: &[u8], content_type: &str, max_bytes: usize) -> (r: Option<String>)
    ensures
        match body_log_decision(body@, content_type@, max_bytes, true) {
            LogDecision::Text(t) => r is Some && r->Some_0@ == "ADT request body:\n"@
                + indented_lines(text_lines(t)),
            LogDecision::TooLarge => r is Some && r->Some_0@
                == "ADT request body omitted because it exceeds the logging limit"@,
            LogDecision::InvalidUtf8 => r is Some && r->Some_0@
                == "ADT request body omitted because it is not UTF-8"@,
            _ => r is None,
        },
{
    match body_for_log(body, content_type, max_bytes, true) {
        BodyLog::Text(text) => {
            let mut message = String::new();
            message.append("ADT request body:\n");
            let indented = indent_body(text.as_str());
            message.append(indented.as_str());
            Some(message)
        },
        BodyLog::TooLarge => Some(
            "ADT request body omitted because it exceeds the logging limit".to_owned(),
        ),
        BodyLog::InvalidUtf8 => Some("ADT request body omitted because it is not UTF-8".to_owned()),
        BodyLog::Empty | BodyLog::Unsupported => None,
    }
}

/// The trace message for a response body, if any is emitted; only XML
/// response bodies are logged.
pub fn log_response_body(body: &[u8], content_type: &str, max_bytes: usize) -> (r: Option<String>)
    ensures
        match body_log_decision(body@, content_type@, max_bytes, false) {
            LogDecision::Text(t) => r is Some && r->Some_0@ == "ADT response body:\n"@
                + indented_lines(text_lines(t)),
            LogDecision::TooLarge => r is Some && r->Some_0@
                == "ADT response body omitted because it exceeds the logging limit"@,
            LogDecision::InvalidUtf8 => r is Some && r->Some_0@
                == "ADT response body omitted because it is not UTF-8"@,
            _ => r is None,
        },
{
    match body_for_log(body, content_type, max_bytes, false) {
        BodyLog::Text(text) => {
            let mut message = String::new();
            message.append("ADT response body:\n");
            let indented = indent_body(text.as_str());
            message.append(indented.as_str());
            Some(message)
        },
        BodyLog::TooLarge => Some(
            "ADT response body omitted because it exceeds the logging limit".to_owned(),
        ),
        BodyLog::InvalidUtf8 => Some("ADT response body omitted because it is not UTF-8".to_owned()),
        BodyLog::Empty | BodyLog::Unsupported => None,
    }
}

/// Response bodies are never logged for a media type that is not XML.
pub proof fn only_xml_responses_are_logged(body: Seq<u8>, content_type: Seq<char>, max_bytes: usize)
    requires
        !is_xml_spec(content_type),
        body.len() > 0,
    ensures
        body_log_decision(body, content_type, max_bytes, false) == LogDecision::Unsupported,
{
}

proof fn lemma_lower_skip(s: Seq<char>, k: int)
    requires
        0 <= k <= s.len(),
    ensures
        lower(s.skip(k)) == lower(s).skip(k),
{
    assert(lower(s.skip(k)) =~= lower(s).skip(k));
}

/// JSON is a textual media type: a `Content-Type` whose media type, without
/// parameters and surrounding whitespace, is `application/json` in any ASCII
/// case is textual and not XML, so with text logging on, a non-empty UTF-8
/// body within the limit is logged as its text, unchanged.
pub proof fn json_bodies_are_logged_as_text(body: Seq<u8>, content_type: Seq<char>, max_bytes: usize)
    requires
        eq_ignore_case(trim(before_first(content_type, ';')), "application/json"@),
    ensures
        is_text_spec(content_type),
        !is_xml_spec(content_type),
        0 < body.len() <= max_bytes && valid_utf8(body) ==> body_log_decision(
            body,
            content_type,
            max_bytes,
            true,
        ) == LogDecision::Text(decode_utf8(body)),
{
    reveal_strlit("application/json");
    reveal_strlit("application/xml");
    reveal_strlit("text/xml");
    reveal_strlit("+xml");
    let m = base_media_type_spec(content_type);
    let j = "application/json"@;
    assert(lower(m) == lower(j));
    assert(lower(m).len() == m.len() && lower(j).len() == j.len());
    assert(m.len() == 16);
    assert(lower(j)[12] == 'j');
    assert(lower("application/xml"@).len() == 15);
    assert(lower("text/xml"@).len() == 8);
    if ends_with_ignoring_case(m, "+xml"@) {
        lemma_lower_skip(m, 12);
        assert(lower(m.skip(12))[0] == lower(m)[12]);
        assert(lower("+xml"@)[0] == '+');
    }
}

/// The media types whose bodies can be logged, by the media type without
/// parameters and surrounding whitespace, in any ASCII case: `text/*`, form
/// data and any `+json` type are textual, and `application/xml`, `text/xml`
/// and any `+xml` type are XML.
pub proof fn loggable_media_types(content_type: Seq<char>)
    ensures
        ({
            let m = trim(before_first(content_type, ';'));
            &&& m.len() >= 5 && eq_ignore_case(m.take(5), "text/"@) ==> is_text_spec(content_type)
            &&& eq_ignore_case(m, "application/x-www-form-urlencoded"@) ==> is_text_spec(content_type)
            &&& ends_with_ignoring_case(m, "+json"@) ==> is_text_spec(content_type)
            &&& eq_ignore_case(m, "application/xml"@) ==> is_xml_spec(content_type)
            &&& eq_ignore_case(m, "text/xml"@) ==> is_xml_spec(content_type)
            &&& ends_with_ignoring_case(m, "+xml"@) ==> is_xml_spec(content_type)
        }),
{
}

/// A body over the limit is never logged, whatever its media type.
pub proof fn oversized_bodies_are_never_logged(
    body: Seq<u8>,
    content_type: Seq<char>,
    max_bytes: usize,
    include_text: bool,
)
    requires
        body.len() > max_bytes,
    ensures
        !(body_log_decision(body, content_type, max_bytes, include_text) is Text),
{
}

} // verus!
