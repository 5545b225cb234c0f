//! Classification of remote-service failures into a typed error.
//!
//! A failed remote call reaches the library as a [`RawFailure`]: either a
//! structured service error that the client already decoded, or an
//! unstructured transport-level body, or something with no service shape at
//! all. [`classify`] turns it into an [`Error`], recovering the service
//! error code from the body's two-field envelope when it has one.

use vstd::prelude::*;
use vstd::string::StrSliceExecFns;
use vstd::string::StringExecFns;

use crate::text::find_from;
use crate::text::lemma_find_from_some;
use crate::text::str_find_from;
use crate::text::str_eq;

verus! {

/// The remote operation a failure came from.
#[derive(Clone, Copy, Debug, PartialEq, Eq, Structural)]
pub enum Operation {
    GetTemplate,
    CreateChangeSet,
    DescribeChangeSet,
    DeleteChangeSet,
}

/// A raw remote-call failure, as the caller observed it.
#[derive(Debug, Clone, PartialEq)]
pub enum RawFailure {
    /// The client surfaced a structured service error code.
    Structured { code: String, message: String },
    /// Only an opaque response body is available.
    Unstructured { body: String },
    /// No service-shaped information at all (network, credentials, ...).
    Other { detail: String },
}

/// Mathematical image of a [`RawFailure`].
pub enum RawFailureView {
    Structured { code: Seq<char>, message: Seq<char> },
    Unstructured { body: Seq<char> },
    Other { detail: Seq<char> },
}

impl View for RawFailure {
    type V = RawFailureView;

    open spec fn view(&self) -> RawFailureView {
        match self {
            RawFailure::Structured { code, message } => RawFailureView::Structured {
                code: code@,
                message: message@,
            },
            RawFailure::Unstructured { body } => RawFailureView::Unstructured { body: body@ },
            RawFailure::Other { detail } => RawFailureView::Other { detail: detail@ },
        }
    }
}

/// The error taxonomy of the tool.
#[derive(Debug, Clone, PartialEq)]
pub enum Error {
    /// Transient rate-limit rejection; always safe to retry.
    Throttling(String),
    /// The service rejected the request as invalid.
    Validation(String),
    /// The service is still holding a changeset slot; retried on create.
    LimitExceeded,
    /// Any other service error, tagged with the operation it came from.
    ServiceError(Operation, String),
    /// A failure whose body could not be given any service shape.
    Unclassified(String),
    /// The configured external differ command is empty or unusable.
    Differ(String),
    /// Polling stopped without the changeset reaching a terminal status.
    Polling(String),
}

/// Mathematical image of an [`Error`].
pub enum ErrorView {
    Throttling(Seq<char>),
    Validation(Seq<char>),
    LimitExceeded,
    ServiceError(Operation, Seq<char>),
    Unclassified(Seq<char>),
    Differ(Seq<char>),
    Polling(Seq<char>),
}

impl View for Error {
    type V = ErrorView;

    open spec fn view(&self) -> ErrorView {
        match self {
            Error::Throttling(m) => ErrorView::Throttling(m@),
            Error::Validation(m) => ErrorView::Validation(m@),
            Error::LimitExceeded => ErrorView::LimitExceeded,
            Error::ServiceError(op, d) => ErrorView::ServiceError(*op, d@),
            Error::Unclassified(d) => ErrorView::Unclassified(d@),
            Error::Differ(t) => ErrorView::Differ(t@),
            Error::Polling(m) => ErrorView::Polling(m@),
        }
    }
}

/// Text enclosed between the first occurrence of `open_tag` at or after
/// `start` and the next occurrence of `close_tag` after it, if both are
/// present.
pub open spec fn tag_content(
    body: Seq<char>,
    open_tag: Seq<char>,
    close_tag: Seq<char>,
    start: int,
) -> Option<Seq<char>> {
    match find_from(body, open_tag, start) {
        Option::None => Option::None,
        Option::Some(i) => {
            match find_from(body, close_tag, i + open_tag.len()) {
                Option::None => Option::None,
                Option::Some(j) => Option::Some(body.subrange(i + open_tag.len(), j)),
            }
        },
    }
}

/// The XML character entity starting at position `i`, as its decoded
/// character and its encoded length, for the five standard entities.
pub open spec fn entity_at(s: Seq<char>, i: int) -> Option<(char, int)> {
    if 0 <= i && i + 5 <= s.len() && s[i] == '&' && s[i + 1] == 'a' && s[i + 2] == 'm' && s[i + 3]
        == 'p' && s[i + 4] == ';' {
        Option::Some(('&', 5))
    } else if 0 <= i && i + 4 <= s.len() && s[i] == '&' && s[i + 1] == 'l' && s[i + 2] == 't' && s[i
        + 3] == ';' {
        Option::Some(('<', 4))
    } else if 0 <= i && i + 4 <= s.len() && s[i] == '&' && s[i + 1] == 'g' && s[i + 2] == 't' && s[i
        + 3] == ';' {
        Option::Some(('>', 4))
    } else if 0 <= i && i + 6 <= s.len() && s[i] == '&' && s[i + 1] == 'q' && s[i + 2] == 'u' && s[i
        + 3] == 'o' && s[i + 4] == 't' && s[i + 5] == ';' {
        Option::Some(('"', 6))
    } else if 0 <= i && i + 6 <= s.len() && s[i] == '&' && s[i + 1] == 'a' && s[i + 2] == 'p' && s[i
        + 3] == 'o' && s[i + 4] == 's' && s[i + 5] == ';' {
        Option::Some(('\'', 6))
    } else {
        Option::None
    }
}

/// The text with the five standard XML character entities decoded; any
/// other text is kept as it stands.
pub open spec fn decode_entities(s: Seq<char>) -> Seq<char>
    decreases s.len(),
{
    if s.len() == 0 {
        Seq::empty()
    } else {
        match entity_at(s, 0) {
            Option::Some(e) => seq![e.0] + decode_entities(s.skip(e.1)),
            Option::None => seq![s[0]] + decode_entities(s.skip(1)),
        }
    }
}

/// The code field of the error envelope, searched after `start`.
pub open spec fn envelope_code(body: Seq<char>, start: int) -> Option<Seq<char>> {
    tag_content(body, "<Code>"@, "</Code>"@, start)
}

/// The message field of the error envelope, searched after `start`.
pub open spec fn envelope_message(body: Seq<char>, start: int) -> Option<Seq<char>> {
    tag_content(body, "<Message>"@, "</Message>"@, start)
}

/// The two-field error envelope of a response body: the code and message
/// inside its `Error` element, entities decoded.
pub open spec fn spec_envelope(body: Seq<char>) -> Option<(Seq<char>, Seq<char>)> {
    match find_from(body, "<Error>"@, 0) {
        Option::None => Option::None,
        Option::Some(a) => {
            let start = a + "<Error>"@.len();
            match (envelope_code(body, start), envelope_message(body, start)) {
                (Option::Some(c), Option::Some(m)) => Option::Some(
                    (decode_entities(c), decode_entities(m)),
                ),
                _ => Option::None,
            }
        },
    }
}

/// A parsed error envelope.
#[derive(Debug, Clone, PartialEq)]
pub struct ErrorEnvelope {
    pub code: String,
    pub message: String,
}

fn extract_tag_content(body: &str, open_tag: &str, close_tag: &str, start: usize) -> (r: Option<
    String,
>)
    requires
        start <= body@.len(),
    ensures
        match r {
            Option::Some(s) => tag_content(body@, open_tag@, close_tag@, start as int)
                == Option::Some(s@),
            Option::None => tag_content(body@, open_tag@, close_tag@, start as int) is None,
        },
{
    let n = body.unicode_len();
    match str_find_from(body, open_tag, start) {
        Option::None => Option::None,
        Option::Some(i) => {
            proof {
                lemma_find_from_some(body@, open_tag@, start as int, i as int);
            }
            let content_start = i + open_tag.unicode_len();
            match str_find_from(body, close_tag, content_start) {
                Option::None => Option::None,
                Option::Some(j) => {
                    proof {
                        lemma_find_from_some(
                            body@,
                            close_tag@,
                            content_start as int,
                            j as int,
                        );
                    }
                    Option::Some(body.substring_char(content_start, j).to_owned())
                },
            }
        },
    }
}

fn entity_at_exec(s: &str, i: usize, n: usize) -> (r: Option<(&'static str, usize)>)
    requires
        n == s@.len(),
        i < n,
    ensures
        match r {
            Option::Some(p) => {
                &&& (entity_at(s@, i as int) matches Option::Some(e) && p.0@ == seq![e.0] && p.1
                    == e.1)
                &&& i + p.1 <= n
                &&& 1 <= p.1
            },
            Option::None => entity_at(s@, i as int) is None,
        },
{
    if s.get_char(i) != '&' {
        return Option::None;
    }
    if n - i >= 5 && s.get_char(i + 1) == 'a' && s.get_char(i + 2) == 'm' && s.get_char(i + 3)
        == 'p' && s.get_char(i + 4) == ';' {
        proof {
            reveal_strlit("&");
        }
        return Option::Some(("&", 5));
    }
    if n - i >= 4 && s.get_char(i + 1) == 'l' && s.get_char(i + 2) == 't' && s.get_char(i + 3)
        == ';' {
        proof {
            reveal_strlit("<");
        }
        return Option::Some(("<", 4));
    }
    if n - i >= 4 && s.get_char(i + 1) == 'g' && s.get_char(i + 2) == 't' && s.get_char(i + 3)
        == ';' {
        proof {
            reveal_strlit(">");
        }
        return Option::Some((">", 4));
    }
    if n - i >= 6 && s.get_char(i + 1) == 'q' && s.get_char(i + 2) == 'u' && s.get_char(i + 3)
        == 'o' && s.get_char(i + 4) == 't' && s.get_char(i + 5) == ';' {
        proof {
            reveal_strlit("\"");
        }
        return Option::Some(("\"", 6));
    }
    if n - i >= 6 && s.get_char(i + 1) == 'a' && s.get_char(i + 2) == 'p' && s.get_char(i + 3)
        == 'o' && s.get_char(i + 4) == 's' && s.get_char(i + 5) == ';' {
        proof {
            reveal_strlit("'");
        }
        return Option::Some(("'", 6));
    }
    Option::None
}

proof fn lemma_decode_entity_free_run(s: Seq<char>, c: int, i: int)
    requires
        0 <= c <= i <= s.len(),
        forall|k: int| c <= k < i ==> entity_at(s, k) is None,
    ensures
        decode_entities(s.skip(c)) == s.subrange(c, i) + decode_entities(s.skip(i)),
    decreases i - c,
{
    if c == i {
        assert(s.subrange(c, i) + decode_entities(s.skip(i)) =~= decode_entities(s.skip(c)));
    } else {
        assert(entity_at(s.skip(c), 0) == entity_at(s, c));
        assert(s.skip(c).skip(1) =~= s.skip(c + 1));
        lemma_decode_entity_free_run(s, c + 1, i);
        assert(seq![s[c]] + (s.subrange(c + 1, i) + decode_entities(s.skip(i))) =~= s.subrange(
            c,
            i,
        ) + decode_entities(s.skip(i)));
    }
}

/// Decode the five standard XML character entities in a string.
fn decode_entities_str(s: &str) -> (r: String)
    ensures
        r@ == decode_entities(s@),
{
    let n = s.unicode_len();
    let mut out = String::new();
    let mut i: usize = 0;
    let mut chunk: usize = 0;
    proof {
        assert(s@.skip(0) =~= s@);
    }
    while i < n
        invariant
            chunk <= i <= n,
            n == s@.len(),
            out@ + decode_entities(s@.skip(chunk as int)) == decode_entities(s@),
            forall|k: int| chunk <= k < i ==> entity_at(s@, k) is None,
        decreases n - i,
    {
        match entity_at_exec(s, i, n) {
            Option::Some(rep) => {
                let ghost out0 = out@;
                let ghost e = entity_at(s@, i as int)->Some_0;
                out.append(s.substring_char(chunk, i));
                out.append(rep.0);
                proof {
                    lemma_decode_entity_free_run(s@, chunk as int, i as int);
                    assert(entity_at(s@.skip(i as int), 0) == entity_at(s@, i as int));
                    assert(s@.skip(i as int).skip(e.1) =~= s@.skip(i + e.1));
                    assert(decode_entities(s@.skip(i as int)) == seq![e.0] + decode_entities(
                        s@.skip(i + e.1),
                    ));
                    assert(out0 + (s@.subrange(chunk as int, i as int) + (seq![e.0]
                        + decode_entities(s@.skip(i + e.1)))) =~= out@ + decode_entities(
                        s@.skip(i + e.1),
                    ));
                }
                i = i + rep.1;
                chunk = i;
            },
            Option::None => {
                i = i + 1;
            },
        }
    }
    out.append(s.substring_char(chunk, n));
    proof {
        lemma_decode_entity_free_run(s@, chunk as int, n as int);
        assert(s@.skip(n as int).len() == 0);
        assert(decode_entities(s@.skip(n as int)) =~= Seq::<char>::empty());
        assert(out@ =~= decode_entities(s@));
    }
    out
}

/// Parse the minimal two-field error envelope `{code, message}` out of an
/// unstructured response body: the text of the `Code` and `Message` tags
/// inside its `Error` element, entities decoded.
pub fn parse_error_envelope(body: &str) -> (r: Option<ErrorEnvelope>)
    ensures
        match r {
            Option::Some(env) => spec_envelope(body@) == Option::Some((env.code@, env.message@)),
            Option::None => spec_envelope(body@) is None,
        },
{
    let n = body.unicode_len();
    match str_find_from(body, "<Error>", 0) {
        Option::None => Option::None,
        Option::Some(a) => {
            proof {
                lemma_find_from_some(body@, "<Error>"@, 0, a as int);
            }
            let start = a + "<Error>".unicode_len();
            match extract_tag_content(body, "<Code>", "</Code>", start) {
                Option::None => Option::None,
                Option::Some(code_raw) => {
                    match extract_tag_content(body, "<Message>", "</Message>", start) {
                        Option::None => Option::None,
                        Option::Some(message_raw) => Option::Some(
                            ErrorEnvelope {
                                code: decode_entities_str(code_raw.as_str()),
                                message: decode_entities_str(message_raw.as_str()),
                            },
                        ),
                    }
                },
            }
        },
    }
}

/// What classification returns for each shape of raw failure.
pub open spec fn spec_classify(op: Operation, raw: RawFailureView) -> ErrorView {
    match raw {
        RawFailureView::Structured { code, message } => {
            if code == "LimitExceeded"@ {
                ErrorView::LimitExceeded
            } else if code == "Throttling"@ {
                ErrorView::Throttling(message)
            } else if code == "ValidationError"@ {
                ErrorView::Validation(message)
            } else {
                ErrorView::ServiceError(op, message)
            }
        },
        RawFailureView::Unstructured { body } => {
            match spec_envelope(body) {
                Option::Some(env) => {
                    if env.0 == "Throttling"@ {
                        ErrorView::Throttling(env.1)
                    } else if env.0 == "ValidationError"@ {
                        ErrorView::Validation(env.1)
                    } else {
                        ErrorView::ServiceError(op, body)
                    }
                },
                Option::None => ErrorView::Unclassified(body),
            }
        },
        RawFailureView::Other { detail } => ErrorView::Unclassified(detail),
    }
}

/// Turn a raw remote-call failure into a typed [`Error`].
///
/// A structured code the client already understood maps directly
/// (limit-exceeded, throttling, validation); an unstructured body is
/// parsed as the two-field envelope, whose code selects throttling or
/// validation, while an unrecognized code keeps the body wrapped as a
/// service error; a body with no envelope at all stays unclassified.
pub fn classify(op: Operation, raw: RawFailure) -> (e: Error)
    ensures
        e@ == spec_classify(op, raw@),
{
    match raw {
        RawFailure::Structured { code, message } => {
            if str_eq(code.as_str(), "LimitExceeded") {
                Error::LimitExceeded
            } else if str_eq(code.as_str(), "Throttling") {
                Error::Throttling(message)
            } else if str_eq(code.as_str(), "ValidationError") {
                Error::Validation(message)
            } else {
                Error::ServiceError(op, message)
            }
        },
        RawFailure::Unstructured { body } => {
            match parse_error_envelope(body.as_str()) {
                Option::Some(env) => {
                    if str_eq(env.code.as_str(), "Throttling") {
                        Error::Throttling(env.message)
                    } else if str_eq(env.code.as_str(), "ValidationError") {
                        Error::Validation(env.message)
                    } else {
                        Error::ServiceError(op, body)
                    }
                },
                Option::None => Error::Unclassified(body),
            }
        },
        RawFailure::Other { detail } => Error::Unclassified(detail),
    }
}

/// Law: an envelope whose code is `Throttling` always classifies as
/// throttling, carrying the envelope's message.
pub proof fn lemma_classify_throttling(op: Operation, body: Seq<char>, message: Seq<char>)
    requires
        spec_envelope(body) == Option::Some(("Throttling"@, message)),
    ensures
        spec_classify(op, RawFailureView::Unstructured { body }) == ErrorView::Throttling(message),
{
}

/// Law: an envelope whose code is `ValidationError` always classifies as
/// validation, carrying the envelope's message.
pub proof fn lemma_classify_validation(op: Operation, body: Seq<char>, message: Seq<char>)
    requires
        spec_envelope(body) == Option::Some(("ValidationError"@, message)),
    ensures
        spec_classify(op, RawFailureView::Unstructured { body }) == ErrorView::Validation(message),
{
    reveal_strlit("ValidationError");
    reveal_strlit("Throttling");
    assert("ValidationError"@.len() != "Throttling"@.len());
}

/// Law: a body with an unrecognized or missing code never classifies as
/// throttling or validation, and is never dropped: it stays wrapped as a
/// service error or as unclassified.
pub proof fn lemma_classify_unrecognized(op: Operation, body: Seq<char>)
    requires
        match spec_envelope(body) {
            Option::Some(env) => env.0 != "Throttling"@ && env.0 != "ValidationError"@,
            Option::None => true,
        },
    ensures
        !(spec_classify(op, RawFailureView::Unstructured { body }) matches ErrorView::Throttling(
            _,
        )),
        !(spec_classify(op, RawFailureView::Unstructured { body }) matches ErrorView::Validation(
            _,
        )),
        spec_classify(op, RawFailureView::Unstructured { body }) matches ErrorView::ServiceError(
            o,
            d,
        ) ==> o == op && d == body,
        spec_classify(op, RawFailureView::Unstructured { body }) matches ErrorView::Unclassified(d)
            ==> d == body,
        (spec_classify(op, RawFailureView::Unstructured { body }) matches ErrorView::ServiceError(
            _,
            _,
        )) || (spec_classify(op, RawFailureView::Unstructured { body })
            matches ErrorView::Unclassified(_)),
{
}

impl Error {
    /// The user-facing message of this error.
    pub open spec fn spec_message(self) -> Seq<char> {
        match self@ {
            ErrorView::Throttling(m) => m,
            ErrorView::Validation(m) => "Error: "@ + m,
            ErrorView::LimitExceeded => "changeset limit exceeded"@,
            ErrorView::ServiceError(_, d) => d,
            ErrorView::Unclassified(d) => d,
            ErrorView::Differ(t) => "Invalid differ tool "@ + t,
            ErrorView::Polling(m) => m,
        }
    }

    /// Render the user-facing message.
    pub fn message(&self) -> (m: String)
        ensures
            m@ == self.spec_message(),
    {
        match self {
            Error::Throttling(m) => m.clone(),
            Error::Validation(m) => {
                let mut out = String::from_str("Error: ");
                out.append(m.as_str());
                out
            },
            Error::LimitExceeded => String::from_str("changeset limit exceeded"),
            Error::ServiceError(_, d) => d.clone(),
            Error::Unclassified(d) => d.clone(),
            Error::Differ(t) => {
                let mut out = String::from_str("Invalid differ tool ");
                out.append(t.as_str());
                out
            },
            Error::Polling(m) => m.clone(),
        }
    }
}

} // verus!
