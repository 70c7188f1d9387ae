//! Viewer sessions: SPICE `.vv` files built from `pvesh` JSON, Remmina profiles for the
//! VNC proxy, the names of generated files, and the steps of attaching a viewer.
use vstd::prelude::*;

use crate::assoc::assoc_insert;
use crate::assoc::assoc_map;
use crate::assoc::keys_ascending;
use crate::assoc::pairs_view;
use crate::assoc::text_less;
use crate::command::CommandError;
use crate::command::CommandInvocation;
use crate::command::ensure_command;
use crate::config::Config;
use crate::config::ViewerLaunchConfig;
use crate::config::path_join;
use crate::config::join_path;
use crate::config::strings_view;
use crate::text::chars_eq_str;
use crate::text::chars_of;
use crate::text::decimal;
use crate::text::decimal_string;
use crate::text::index_of_char;
use crate::text::push_char;
use crate::text::push_str;
use crate::text::trim;
use crate::text::trim_bounds;

verus! {

/// How a viewer attaches to a VM.
#[derive(Clone, Copy, Debug, PartialEq, Eq, Structural)]
pub enum Protocol {
    Auto,
    Spice,
    Vnc,
}

pub open spec fn protocol_label(p: Protocol) -> Seq<char> {
    match p {
        Protocol::Auto => "Auto"@,
        Protocol::Spice => "SPICE"@,
        Protocol::Vnc => "VNC"@,
    }
}

impl Protocol {
    pub fn label(self) -> (l: &'static str)
        ensures
            l@ == protocol_label(self),
    {
        match self {
            Protocol::Auto => "Auto",
            Protocol::Spice => "SPICE",
            Protocol::Vnc => "VNC",
        }
    }
}

/// A started viewer.
#[derive(Debug)]
pub struct ViewerSession {
    pub vmid: u32,
    pub protocol: Protocol,
    pub process_id: u32,
    pub temp_files: Vec<String>,
}

// ---------------------------------------------------------------------------
// JSON
// ---------------------------------------------------------------------------

/// A JSON value as far as viewer files read it: strings, numbers (their printed form
/// and their value when it is a non-negative integer that fits in `u64`), booleans, and
/// everything else.
#[derive(Debug)]
pub enum JsonScalar {
    Text(String),
    Number { text: String, as_u64: Option<u64> },
    Bool(bool),
    Other,
}

#[derive(Debug)]
pub struct JsonEntry {
    pub key: String,
    pub value: JsonScalar,
}

/// A parsed JSON text: an object with its entries, or some other value.
#[derive(Debug)]
pub enum JsonDocument {
    Object(Vec<JsonEntry>),
    NotObject,
}

pub enum JsonScalarView {
    Text(Seq<char>),
    Number { text: Seq<char>, as_u64: Option<u64> },
    Bool(bool),
    Other,
}

pub enum JsonDocumentView {
    Object(Seq<(Seq<char>, JsonScalarView)>),
    NotObject,
}

pub open spec fn scalar_view(v: JsonScalar) -> JsonScalarView {
    match v {
        JsonScalar::Text(s) => JsonScalarView::Text(s@),
        JsonScalar::Number { text, as_u64 } => JsonScalarView::Number { text: text@, as_u64 },
        JsonScalar::Bool(b) => JsonScalarView::Bool(b),
        JsonScalar::Other => JsonScalarView::Other,
    }
}

pub open spec fn entries_view(es: Seq<JsonEntry>) -> Seq<(Seq<char>, JsonScalarView)> {
    es.map_values(|e: JsonEntry| (e.key@, scalar_view(e.value)))
}

pub open spec fn document_view(d: JsonDocument) -> JsonDocumentView {
    match d {
        JsonDocument::Object(es) => JsonDocumentView::Object(entries_view(es@)),
        JsonDocument::NotObject => JsonDocumentView::NotObject,
    }
}

/// What `serde_json` reads from a text: the document, or the text of its error when the
/// text is not one JSON value.
pub uninterp spec fn json_document(text: Seq<char>) -> Result<JsonDocumentView, Seq<char>>;

pub open spec fn keys_distinct(es: Seq<(Seq<char>, JsonScalarView)>) -> bool {
    forall|i: int, j: int| 0 <= i < j < es.len() ==> es[i].0 != es[j].0
}

/// Parses `text` with `serde_json::from_str::<serde_json::Value>`. The result, or the
/// displayed `serde_json::Error`, is named `json_document`; the entries of an object
/// come from a `serde_json::Map`, whose keys are distinct. What the name is on a given
/// text is left to serde_json.
#[verifier::external_body]
fn parse_json(text: &str) -> (doc: Result<JsonDocument, String>)
    ensures
        match doc {
            Ok(d) => json_document(text@) == Ok::<JsonDocumentView, Seq<char>>(document_view(d)),
            Err(e) => json_document(text@) == Err::<JsonDocumentView, Seq<char>>(e@),
        },
        doc matches Ok(JsonDocument::Object(es)) ==> keys_distinct(entries_view(es@)),
{
    match serde_json::from_str::<serde_json::Value>(text) {
        Ok(serde_json::Value::Object(map)) => Ok(JsonDocument::Object(map.into_iter().map(|(key, value)| JsonEntry {
            key,
            value: match value {
                serde_json::Value::String(s) => JsonScalar::Text(s),
                serde_json::Value::Number(n) => JsonScalar::Number { text: n.to_string(), as_u64: n.as_u64() },
                serde_json::Value::Bool(b) => JsonScalar::Bool(b),
                serde_json::Value::Null => JsonScalar::Other,
                serde_json::Value::Array(_) => JsonScalar::Other,
                serde_json::Value::Object(_) => JsonScalar::Other,
            },
        }).collect())),
        Ok(_) => Ok(JsonDocument::NotObject),
        Err(e) => Err(e.to_string()),
    }
}

/// The value of the first entry with `key`.
pub open spec fn lookup(es: Seq<(Seq<char>, JsonScalarView)>, key: Seq<char>) -> Option<JsonScalarView>
    decreases es.len(),
{
    if es.len() == 0 {
        None
    } else if es[0].0 == key {
        Some(es[0].1)
    } else {
        lookup(es.drop_first(), key)
    }
}

fn find_entry(es: &Vec<JsonEntry>, key: &str) -> (r: Option<usize>)
    ensures
        match r {
            Some(i) => i < es@.len() && lookup(entries_view(es@), key@) == Some(scalar_view(es@[i as int].value)),
            None => lookup(entries_view(es@), key@) is None,
        },
{
    let k = chars_of(key);
    let mut i: usize = 0;
    assert(entries_view(es@).skip(0) =~= entries_view(es@));
    while i < es.len()
        invariant
            0 <= i <= es@.len(),
            k@ == key@,
            lookup(entries_view(es@), key@) == lookup(entries_view(es@).skip(i as int), key@),
        decreases es.len() - i,
    {
        let ki = chars_of(es[i].key.as_str());
        let ghost rest = entries_view(es@).skip(i as int);
        assert(rest[0] == (es@[i as int].key@, scalar_view(es@[i as int].value)));
        if crate::text::chars_eq(&ki, &k) {
            return Some(i);
        }
        assert(rest.drop_first() =~= entries_view(es@).skip(i + 1));
        i = i + 1;
    }
    None
}

// ---------------------------------------------------------------------------
// SPICE
// ---------------------------------------------------------------------------

/// Why a SPICE `.vv` file could not be made from `pvesh` output.
#[derive(Debug)]
pub enum SpiceError {
    /// The output was blank.
    EmptyOutput,
    /// The output neither parses as JSON nor holds a `{`.
    NotJson,
    /// The output from its first `{` on does not parse as JSON; the parser's message.
    InvalidJson(String),
    /// The JSON value is not an object.
    NotObject,
    /// A required string field is missing.
    MissingField(String),
}

pub enum SpiceErrorView {
    EmptyOutput,
    NotJson,
    InvalidJson(Seq<char>),
    NotObject,
    MissingField(Seq<char>),
}

pub open spec fn spice_error_view(e: SpiceError) -> SpiceErrorView {
    match e {
        SpiceError::EmptyOutput => SpiceErrorView::EmptyOutput,
        SpiceError::NotJson => SpiceErrorView::NotJson,
        SpiceError::InvalidJson(m) => SpiceErrorView::InvalidJson(m@),
        SpiceError::NotObject => SpiceErrorView::NotObject,
        SpiceError::MissingField(f) => SpiceErrorView::MissingField(f@),
    }
}

pub open spec fn spice_error_message(e: SpiceErrorView) -> Seq<char> {
    match e {
        SpiceErrorView::EmptyOutput => "SPICE proxy returned empty output"@,
        SpiceErrorView::NotJson => "spiceproxy output was not JSON"@,
        SpiceErrorView::InvalidJson(m) => "failed to parse spiceproxy JSON output: "@ + m,
        SpiceErrorView::NotObject => "spiceproxy JSON output was not an object"@,
        SpiceErrorView::MissingField(f) => "spiceproxy JSON output did not include `"@ + f + "`"@,
    }
}

impl SpiceError {
    pub fn message(&self) -> (m: String)
        ensures
            m@ == spice_error_message(spice_error_view(*self)),
    {
        let mut m = String::new();
        match self {
            SpiceError::EmptyOutput => push_str(&mut m, "SPICE proxy returned empty output"),
            SpiceError::NotJson => push_str(&mut m, "spiceproxy output was not JSON"),
            SpiceError::InvalidJson(cause) => {
                push_str(&mut m, "failed to parse spiceproxy JSON output: ");
                push_str(&mut m, cause.as_str());
            },
            SpiceError::NotObject => push_str(&mut m, "spiceproxy JSON output was not an object"),
            SpiceError::MissingField(f) => {
                push_str(&mut m, "spiceproxy JSON output did not include `");
                push_str(&mut m, f.as_str());
                push_str(&mut m, "`");
            },
        }
        m
    }
}

/// The JSON document in `pvesh` output: the trimmed output, or, when that does not
/// parse, the part from its first `{` on.
pub open spec fn spec_parse_json_object(stdout: Seq<char>) -> Result<JsonDocumentView, SpiceErrorView> {
    let t = trim(stdout);
    match json_document(t) {
        Ok(d) => Ok(d),
        Err(_) => {
            let s = crate::text::spec_index_of(t, '{');
            if s >= t.len() {
                Err(SpiceErrorView::NotJson)
            } else {
                match json_document(t.subrange(s, t.len() as int)) {
                    Ok(d) => Ok(d),
                    Err(m) => Err(SpiceErrorView::InvalidJson(m)),
                }
            }
        }
    }
}

fn parse_json_object(stdout: &str) -> (r: Result<JsonDocument, SpiceError>)
    ensures
        match r {
            Ok(d) => spec_parse_json_object(stdout@) == Ok::<JsonDocumentView, SpiceErrorView>(document_view(d))
                && (d matches JsonDocument::Object(es) ==> keys_distinct(entries_view(es@))),
            Err(e) => spec_parse_json_object(stdout@) == Err::<JsonDocumentView, SpiceErrorView>(spice_error_view(e)),
        },
{
    let v = chars_of(stdout);
    let (a, b) = trim_bounds(&v, 0, v.len());
    assert(v@.subrange(0, v@.len() as int) =~= v@);
    let t = crate::text::string_of(&v, a, b);
    if let Ok(d) = parse_json(t.as_str()) {
        return Ok(d);
    }
    let tv = chars_of(t.as_str());
    let s = index_of_char(&tv, '{');
    if s == tv.len() {
        return Err(SpiceError::NotJson);
    }
    let rest = crate::text::string_of(&tv, s, tv.len());
    match parse_json(rest.as_str()) {
        Ok(d) => Ok(d),
        Err(cause) => Err(SpiceError::InvalidJson(cause)),
    }
}

/// A string value as written into a `.vv` file: carriage returns dropped, line feeds
/// written as `\n`.
pub open spec fn spec_escape_vv(value: Seq<char>) -> Seq<char>
    decreases value.len(),
{
    if value.len() == 0 {
        Seq::empty()
    } else {
        let c = value.last();
        spec_escape_vv(value.drop_last()) + (if c == '\r' {
            Seq::empty()
        } else if c == '\n' {
            seq!['\\', 'n']
        } else {
            seq![c]
        })
    }
}

pub fn escape_vv_value(value: &str) -> (s: String)
    ensures
        s@ == spec_escape_vv(value@),
{
    let v = chars_of(value);
    let mut s = String::new();
    let mut i: usize = 0;
    while i < v.len()
        invariant
            0 <= i <= v@.len(),
            s@ == spec_escape_vv(v@.take(i as int)),
        decreases v.len() - i,
    {
        let c = v[i];
        if c == '\r' {
        } else if c == '\n' {
            push_char(&mut s, '\\');
            push_char(&mut s, 'n');
        } else {
            push_char(&mut s, c);
        }
        assert(v@.take(i + 1).drop_last() =~= v@.take(i as int));
        i = i + 1;
        assert(s@ =~= spec_escape_vv(v@.take(i as int)));
    }
    assert(v@.take(v@.len() as int) =~= v@);
    s
}

/// The `.vv` text of one value, if it has one: strings escaped, numbers as printed,
/// booleans as `1` or `0`; nothing for null, arrays and objects.
pub open spec fn spec_vv_value(v: JsonScalarView) -> Option<Seq<char>> {
    match v {
        JsonScalarView::Text(s) => Some(spec_escape_vv(s)),
        JsonScalarView::Number { text, .. } => Some(text),
        JsonScalarView::Bool(b) => Some(if b { "1"@ } else { "0"@ }),
        JsonScalarView::Other => None,
    }
}

/// The `key=value` line of `key`, or nothing.
pub open spec fn vv_line(es: Seq<(Seq<char>, JsonScalarView)>, key: Seq<char>) -> Seq<char> {
    match lookup(es, key) {
        Some(v) => match spec_vv_value(v) {
            Some(t) => key + "="@ + t + "\n"@,
            None => Seq::empty(),
        },
        None => Seq::empty(),
    }
}

/// The lines of `keys`, in order.
pub open spec fn vv_lines(es: Seq<(Seq<char>, JsonScalarView)>, keys: Seq<Seq<char>>) -> Seq<char>
    decreases keys.len(),
{
    if keys.len() == 0 {
        Seq::empty()
    } else {
        vv_lines(es, keys.drop_last()) + vv_line(es, keys.last())
    }
}

/// The keys written first, in this order.
pub open spec fn preferred_keys() -> Seq<Seq<char>> {
    seq![
        "type"@,
        "host"@,
        "port"@,
        "tls-port"@,
        "password"@,
        "proxy"@,
        "ca"@,
        "host-subject"@,
        "toggle-fullscreen"@,
        "release-cursor"@,
        "secure-attention"@,
        "title"@,
        "delete-this-file"@,
    ]
}

pub fn preferred_vv_keys() -> (keys: Vec<&'static str>)
    ensures
        crate::command::strs_view(keys@) == preferred_keys(),
{
    let keys = vec![
        "type",
        "host",
        "port",
        "tls-port",
        "password",
        "proxy",
        "ca",
        "host-subject",
        "toggle-fullscreen",
        "release-cursor",
        "secure-attention",
        "title",
        "delete-this-file",
    ];
    assert(crate::command::strs_view(keys@) =~= preferred_keys());
    keys
}

/// The keys of `es` that are not preferred.
pub open spec fn extra_key_set(es: Seq<(Seq<char>, JsonScalarView)>) -> Set<Seq<char>> {
    Set::new(|k: Seq<char>| exists|i: int| 0 <= i < es.len() && es[i].0 == k && !preferred_keys().contains(k))
}

pub open spec fn strictly_ascending(ks: Seq<Seq<char>>) -> bool {
    forall|i: int, j: int| 0 <= i < j < ks.len() ==> text_less(ks[i], ks[j])
}

/// The required string fields.
pub open spec fn required_keys() -> Seq<Seq<char>> {
    seq!["type"@, "host"@, "proxy"@, "password"@]
}

pub open spec fn is_text(v: Option<JsonScalarView>) -> bool {
    v matches Some(JsonScalarView::Text(_))
}

/// The first required field that is not a string.
pub open spec fn first_missing(es: Seq<(Seq<char>, JsonScalarView)>) -> Option<Seq<char>> {
    if !is_text(lookup(es, "type"@)) {
        Some("type"@)
    } else if !is_text(lookup(es, "host"@)) {
        Some("host"@)
    } else if !is_text(lookup(es, "proxy"@)) {
        Some("proxy"@)
    } else if !is_text(lookup(es, "password"@)) {
        Some("password"@)
    } else {
        None
    }
}

/// Why no `.vv` file comes from this output, or nothing when one does.
pub open spec fn document_failure(d: JsonDocumentView) -> Option<SpiceErrorView> {
    match d {
        JsonDocumentView::NotObject => Some(SpiceErrorView::NotObject),
        JsonDocumentView::Object(es) => match first_missing(es) {
            Some(f) => Some(SpiceErrorView::MissingField(f)),
            None => None,
        },
    }
}

pub open spec fn spice_failure(stdout: Seq<char>) -> Option<SpiceErrorView> {
    match spec_parse_json_object(stdout) {
        Err(e) => Some(e),
        Ok(d) => document_failure(d),
    }
}

/// The `.vv` text made from the entries `es`: the `[virt-viewer]` header, the
/// preferred keys in their order, then the other keys, sorted (`ks`).
pub open spec fn vv_text(es: Seq<(Seq<char>, JsonScalarView)>, ks: Seq<Seq<char>>) -> Seq<char> {
    "[virt-viewer]\n"@ + vv_lines(es, preferred_keys()) + vv_lines(es, ks)
}

fn append_vv_line(out: &mut String, es: &Vec<JsonEntry>, key: &str)
    ensures
        final(out)@ == old(out)@ + vv_line(entries_view(es@), key@),
{
    match find_entry(es, key) {
        None => {
            assert(old(out)@ + Seq::<char>::empty() =~= old(out)@);
        },
        Some(i) => {
            match &es[i].value {
                JsonScalar::Text(t) => {
                    push_str(out, key);
                    push_str(out, "=");
                    let e = escape_vv_value(t.as_str());
                    push_str(out, e.as_str());
                    push_str(out, "\n");
                },
                JsonScalar::Number { text, .. } => {
                    push_str(out, key);
                    push_str(out, "=");
                    push_str(out, text.as_str());
                    push_str(out, "\n");
                },
                JsonScalar::Bool(b) => {
                    push_str(out, key);
                    push_str(out, "=");
                    if *b {
                        push_str(out, "1");
                    } else {
                        push_str(out, "0");
                    }
                    push_str(out, "\n");
                },
                JsonScalar::Other => {
                    assert(old(out)@ + Seq::<char>::empty() =~= old(out)@);
                },
            }
        },
    }
}

fn is_preferred(key: &Vec<char>) -> (b: bool)
    ensures
        b == preferred_keys().contains(key@),
{
    let keys = preferred_vv_keys();
    let mut i: usize = 0;
    while i < keys.len()
        invariant
            0 <= i <= keys@.len(),
            crate::command::strs_view(keys@) == preferred_keys(),
            forall|j: int| 0 <= j < i ==> preferred_keys()[j] != key@,
        decreases keys.len() - i,
    {
        assert(crate::command::strs_view(keys@)[i as int] == keys@[i as int]@);
        if chars_eq_str(key, keys[i]) {
            assert(preferred_keys()[i as int] == key@);
            return true;
        }
        i = i + 1;
    }
    false
}

/// Renders the JSON that `pvesh create .../spiceproxy` prints as a `[virt-viewer]`
/// file: `type`, `host`, `proxy` and `password` must be strings; the preferred keys
/// come first in their order, the other keys after them in ascending order; values
/// that are null, arrays or objects are left out.
pub fn spice_vv_from_pvesh_json(stdout: &str) -> (r: Result<String, SpiceError>)
    ensures
        r is Ok <==> spice_failure(stdout@) is None,
        match r {
            Ok(vv) => match spec_parse_json_object(stdout@) {
                Ok(JsonDocumentView::Object(es)) => exists|ks: Seq<Seq<char>>|
                    strictly_ascending(ks) && ks.to_set() == extra_key_set(es) && vv@ == vv_text(es, ks),
                _ => false,
            },
            Err(e) => spice_failure(stdout@) == Some(spice_error_view(e)),
        },
{
    let doc = parse_json_object(stdout)?;
    vv_from_document(doc)
}

/// The `.vv` file for a parsed `spiceproxy` document (see `spice_vv_from_pvesh_json`).
pub fn vv_from_document(doc: JsonDocument) -> (r: Result<String, SpiceError>)
    ensures
        r is Ok <==> document_failure(document_view(doc)) is None,
        match r {
            Ok(vv) => match document_view(doc) {
                JsonDocumentView::Object(es) => exists|ks: Seq<Seq<char>>|
                    strictly_ascending(ks) && ks.to_set() == extra_key_set(es) && vv@ == vv_text(es, ks),
                _ => false,
            },
            Err(e) => document_failure(document_view(doc)) == Some(spice_error_view(e)),
        },
{
    let ghost dv = document_view(doc);
    let es = match doc {
        JsonDocument::NotObject => {
            return Err(SpiceError::NotObject);
        },
        JsonDocument::Object(es) => es,
    };
    let ghost ev = entries_view(es@);
    let required: Vec<&str> = vec!["type", "host", "proxy", "password"];
    let mut q: usize = 0;
    while q < 4
        invariant
            0 <= q <= 4,
            required@.len() == 4,
            crate::command::strs_view(required@) == required_keys(),
            ev == entries_view(es@),
            dv == document_view(doc),
            dv == JsonDocumentView::Object(ev),
            forall|j: int| 0 <= j < q ==> is_text(lookup(ev, #[trigger] required_keys()[j])),
        decreases 4 - q,
    {
        assert(crate::command::strs_view(required@)[q as int] == required@[q as int]@);
        let found = match find_entry(&es, required[q]) {
            Some(i) => match &es[i].value {
                JsonScalar::Text(_) => true,
                _ => false,
            },
            None => false,
        };
        if !found {
            let mut f = String::new();
            push_str(&mut f, required[q]);
            proof {
                assert(!is_text(lookup(ev, required_keys()[q as int])));
                assert(required_keys()[0] == "type"@);
                assert(required_keys()[1] == "host"@);
                assert(required_keys()[2] == "proxy"@);
                assert(required_keys()[3] == "password"@);
                if q == 0 {
                } else if q == 1 {
                    assert(is_text(lookup(ev, required_keys()[0])));
                } else if q == 2 {
                    assert(is_text(lookup(ev, required_keys()[0])));
                    assert(is_text(lookup(ev, required_keys()[1])));
                } else {
                    assert(is_text(lookup(ev, required_keys()[0])));
                    assert(is_text(lookup(ev, required_keys()[1])));
                    assert(is_text(lookup(ev, required_keys()[2])));
                }
                assert(first_missing(ev) == Some(required_keys()[q as int]));
            }
            return Err(SpiceError::MissingField(f));
        }
        q = q + 1;
    }
    assert(first_missing(ev) is None) by {
        assert(required_keys()[0] == "type"@);
        assert(required_keys()[1] == "host"@);
        assert(required_keys()[2] == "proxy"@);
        assert(required_keys()[3] == "password"@);
    }
    let mut out = String::new();
    push_str(&mut out, "[virt-viewer]\n");
    let preferred = preferred_vv_keys();
    let mut p: usize = 0;
    assert(preferred_keys().take(0) =~= Seq::<Seq<char>>::empty());
    while p < preferred.len()
        invariant
            0 <= p <= preferred@.len(),
            crate::command::strs_view(preferred@) == preferred_keys(),
            ev == entries_view(es@),
            out@ == "[virt-viewer]\n"@ + vv_lines(ev, preferred_keys().take(p as int)),
        decreases preferred.len() - p,
    {
        assert(crate::command::strs_view(preferred@)[p as int] == preferred@[p as int]@);
        append_vv_line(&mut out, &es, preferred[p]);
        assert(preferred_keys().take(p + 1).drop_last() =~= preferred_keys().take(p as int));
        p = p + 1;
    }
    assert(preferred_keys().take(preferred@.len() as int) =~= preferred_keys());
    // the other keys, kept ascending
    let mut extra: Vec<(String, String)> = Vec::new();
    assert(assoc_map(pairs_view(extra@)) =~= Map::<Seq<char>, Seq<char>>::empty());
    let mut i: usize = 0;
    while i < es.len()
        invariant
            0 <= i <= es@.len(),
            ev == entries_view(es@),
            keys_ascending(pairs_view(extra@)),
            forall|k: Seq<char>| #[trigger] assoc_map(pairs_view(extra@)).contains_key(k) <==>
                (exists|j: int| 0 <= j < i && ev[j].0 == k && !preferred_keys().contains(k)),
        decreases es.len() - i,
    {
        let kv = chars_of(es[i].key.as_str());
        assert(ev[i as int].0 == kv@);
        if !is_preferred(&kv) {
            let mut k = String::new();
            push_str(&mut k, es[i].key.as_str());
            let ghost before = assoc_map(pairs_view(extra@));
            assoc_insert(&mut extra, k, String::new());
            assert forall|key: Seq<char>| #[trigger] assoc_map(pairs_view(extra@)).contains_key(key) <==>
                (exists|j: int| 0 <= j < i + 1 && ev[j].0 == key && !preferred_keys().contains(key)) by {
                if key == kv@ {
                    assert(ev[i as int].0 == key);
                } else {
                    if exists|j: int| 0 <= j < i + 1 && ev[j].0 == key && !preferred_keys().contains(key) {
                        let j = choose|j: int| 0 <= j < i + 1 && ev[j].0 == key && !preferred_keys().contains(key);
                        assert(j < i);
                    }
                }
            }
        } else {
            assert forall|key: Seq<char>| #[trigger] assoc_map(pairs_view(extra@)).contains_key(key) <==>
                (exists|j: int| 0 <= j < i + 1 && ev[j].0 == key && !preferred_keys().contains(key)) by {
                if exists|j: int| 0 <= j < i + 1 && ev[j].0 == key && !preferred_keys().contains(key) {
                    let j = choose|j: int| 0 <= j < i + 1 && ev[j].0 == key && !preferred_keys().contains(key);
                    if j == i {
                        assert(ev[j].0 == kv@);
                    }
                }
            }
        }
        i = i + 1;
    }
    let ghost ks = pairs_view(extra@).map_values(|p: (Seq<char>, Seq<char>)| p.0);
    let mut x: usize = 0;
    let ghost head = out@;
    assert(ks.take(0) =~= Seq::<Seq<char>>::empty());
    while x < extra.len()
        invariant
            0 <= x <= extra@.len(),
            ev == entries_view(es@),
            ks == pairs_view(extra@).map_values(|p: (Seq<char>, Seq<char>)| p.0),
            out@ == head + vv_lines(ev, ks.take(x as int)),
        decreases extra.len() - x,
    {
        assert(ks[x as int] == extra@[x as int].0@);
        append_vv_line(&mut out, &es, extra[x].0.as_str());
        assert(ks.take(x + 1).drop_last() =~= ks.take(x as int));
        x = x + 1;
    }
    assert(ks.take(extra@.len() as int) =~= ks);
    proof {
        assert(strictly_ascending(ks)) by {
            assert forall|a: int, b: int| 0 <= a < b < ks.len() implies text_less(ks[a], ks[b]) by {
                assert(ks[a] == pairs_view(extra@)[a].0);
                assert(ks[b] == pairs_view(extra@)[b].0);
            }
        }
        assert(ks.to_set() =~= extra_key_set(ev)) by {
            assert forall|k: Seq<char>| ks.to_set().contains(k) <==> extra_key_set(ev).contains(k) by {
                crate::assoc::lemma_assoc_map_contains(pairs_view(extra@), k);
                if ks.to_set().contains(k) {
                    let a = choose|a: int| 0 <= a < ks.len() && ks[a] == k;
                    assert(pairs_view(extra@)[a].0 == k);
                }
                if assoc_map(pairs_view(extra@)).contains_key(k) {
                    let a = choose|a: int| 0 <= a < pairs_view(extra@).len() && (#[trigger] pairs_view(extra@)[a]).0 == k;
                    assert(ks[a] == k);
                }
            }
        }
        assert(out@ =~= vv_text(ev, ks));
    }
    Ok(out)
}

/// The `.vv` file for the output of the SPICE proxy command: blank output is refused
/// first, then the output is read as `spice_vv_from_pvesh_json` reads it.
pub fn vv_file_from_proxy_output(stdout: &str) -> (r: Result<String, SpiceError>)
    ensures
        trim(stdout@).len() == 0 ==> r matches Err(SpiceError::EmptyOutput),
        trim(stdout@).len() != 0 ==> {
            &&& (r is Ok <==> spice_failure(stdout@) is None)
            &&& match r {
                Ok(vv) => match spec_parse_json_object(stdout@) {
                    Ok(JsonDocumentView::Object(es)) => exists|ks: Seq<Seq<char>>|
                        strictly_ascending(ks) && ks.to_set() == extra_key_set(es) && vv@ == vv_text(es, ks),
                    _ => false,
                },
                Err(e) => spice_failure(stdout@) == Some(spice_error_view(e)),
            }
        },
{
    let v = chars_of(stdout);
    let (a, b) = trim_bounds(&v, 0, v.len());
    proof {
        assert(v@.subrange(0, v@.len() as int) =~= v@);
    }
    if a == b {
        return Err(SpiceError::EmptyOutput);
    }
    spice_vv_from_pvesh_json(stdout)
}

// ---------------------------------------------------------------------------
// VNC
// ---------------------------------------------------------------------------

/// Why the `vncproxy` output gives no connection.
#[derive(Debug, PartialEq, Eq)]
pub enum VncError {
    /// The output is not JSON; the parser's message.
    ParseFailed(String),
    /// No non-negative integer `port`.
    MissingPort,
    /// No string `ticket`.
    MissingTicket,
    /// The ticket holds a line break, which a profile line cannot carry.
    TicketNewline,
}

pub enum VncErrorView {
    ParseFailed(Seq<char>),
    MissingPort,
    MissingTicket,
    TicketNewline,
}

pub open spec fn vnc_error_view(e: VncError) -> VncErrorView {
    match e {
        VncError::ParseFailed(m) => VncErrorView::ParseFailed(m@),
        VncError::MissingPort => VncErrorView::MissingPort,
        VncError::MissingTicket => VncErrorView::MissingTicket,
        VncError::TicketNewline => VncErrorView::TicketNewline,
    }
}

pub open spec fn vnc_error_message(e: VncErrorView) -> Seq<char> {
    match e {
        VncErrorView::ParseFailed(m) => "failed to parse vncproxy JSON output: "@ + m,
        VncErrorView::MissingPort => "vncproxy output did not include `port`"@,
        VncErrorView::MissingTicket => "vncproxy output did not include `ticket`"@,
        VncErrorView::TicketNewline => "vncproxy ticket contains an unsupported newline"@,
    }
}

impl VncError {
    pub fn message(&self) -> (m: String)
        ensures
            m@ == vnc_error_message(vnc_error_view(*self)),
    {
        let mut m = String::new();
        match self {
            VncError::ParseFailed(cause) => {
                push_str(&mut m, "failed to parse vncproxy JSON output: ");
                push_str(&mut m, cause.as_str());
            },
            VncError::MissingPort => push_str(&mut m, "vncproxy output did not include `port`"),
            VncError::MissingTicket => push_str(&mut m, "vncproxy output did not include `ticket`"),
            VncError::TicketNewline => push_str(&mut m, "vncproxy ticket contains an unsupported newline"),
        }
        m
    }
}

pub open spec fn has_line_break(t: Seq<char>) -> bool {
    exists|i: int| 0 <= i < t.len() && (t[i] == '\n' || t[i] == '\r')
}

/// Whether `t` holds a line feed or a carriage return.
fn line_break_in(t: &str) -> (b: bool)
    ensures
        b == has_line_break(t@),
{
    let tv = chars_of(t);
    let mut k: usize = 0;
    while k < tv.len()
        invariant
            0 <= k <= tv@.len(),
            tv@ == t@,
            forall|j: int| 0 <= j < k ==> tv@[j] != '\n' && tv@[j] != '\r',
        decreases tv.len() - k,
    {
        if tv[k] == '\n' || tv[k] == '\r' {
            assert(t@[k as int] == '\n' || t@[k as int] == '\r');
            return true;
        }
        k = k + 1;
    }
    false
}

/// The port and ticket in the JSON that `pvesh create .../vncproxy` prints.
pub open spec fn spec_vnc_connection(stdout: Seq<char>) -> Result<(u64, Seq<char>), VncErrorView> {
    match json_document(stdout) {
        Err(m) => Err(VncErrorView::ParseFailed(m)),
        Ok(d) => document_connection(d),
    }
}

/// The port and ticket in a parsed `vncproxy` document.
pub open spec fn document_connection(d: JsonDocumentView) -> Result<(u64, Seq<char>), VncErrorView> {
    match d {
        JsonDocumentView::NotObject => Err(VncErrorView::MissingPort),
        JsonDocumentView::Object(es) => match lookup(es, "port"@) {
            Some(JsonScalarView::Number { as_u64: Some(port), .. }) => match lookup(es, "ticket"@) {
                Some(JsonScalarView::Text(t)) => if has_line_break(t) {
                    Err(VncErrorView::TicketNewline)
                } else {
                    Ok((port, t))
                },
                _ => Err(VncErrorView::MissingTicket),
            },
            _ => Err(VncErrorView::MissingPort),
        },
    }
}

/// Reads the port and ticket of a VNC proxy.
pub fn vnc_connection(stdout: &str) -> (r: Result<(u64, String), VncError>)
    ensures
        match r {
            Ok((port, ticket)) => spec_vnc_connection(stdout@) == Ok::<(u64, Seq<char>), VncErrorView>((port, ticket@)),
            Err(e) => spec_vnc_connection(stdout@) == Err::<(u64, Seq<char>), VncErrorView>(vnc_error_view(e)),
        },
{
    match parse_json(stdout) {
        Err(cause) => Err(VncError::ParseFailed(cause)),
        Ok(d) => connection_from_document(d),
    }
}

/// The port and ticket in a parsed `vncproxy` document (see `vnc_connection`).
pub fn connection_from_document(doc: JsonDocument) -> (r: Result<(u64, String), VncError>)
    ensures
        match r {
            Ok((port, ticket)) => document_connection(document_view(doc)) == Ok::<(u64, Seq<char>), VncErrorView>((port, ticket@)),
            Err(e) => document_connection(document_view(doc)) == Err::<(u64, Seq<char>), VncErrorView>(vnc_error_view(e)),
        },
{
    let es = match doc {
        JsonDocument::NotObject => {
            return Err(VncError::MissingPort);
        },
        JsonDocument::Object(es) => es,
    };
    let port = match find_entry(&es, "port") {
        Some(i) => match &es[i].value {
            JsonScalar::Number { as_u64: Some(p), .. } => *p,
            _ => {
                return Err(VncError::MissingPort);
            },
        },
        None => {
            return Err(VncError::MissingPort);
        },
    };
    let ticket = match find_entry(&es, "ticket") {
        Some(i) => match &es[i].value {
            JsonScalar::Text(t) => {
                let mut c = String::new();
                push_str(&mut c, t.as_str());
                c
            },
            _ => {
                return Err(VncError::MissingTicket);
            },
        },
        None => {
            return Err(VncError::MissingTicket);
        },
    };
    if line_break_in(ticket.as_str()) {
        return Err(VncError::TicketNewline);
    }
    Ok((port, ticket))
}

/// The Remmina profile that connects to the VNC proxy on `port` with `ticket`.
pub open spec fn spec_remmina_profile(vmid: nat, name: Seq<char>, port: nat, ticket: Seq<char>) -> Seq<char> {
    "[remmina]\nname=Proxmox VM "@ + decimal(vmid) + " "@ + name + "\nprotocol=VNC\nserver=127.0.0.1:"@
        + decimal(port) + "\npassword="@ + ticket
        + "\ndisableclipboard=0\nviewmode=1\nquality=9\ncolordepth=32\n"@
}

pub fn remmina_profile(vmid: u32, name: &str, port: u64, ticket: &str) -> (p: String)
    ensures
        p@ == spec_remmina_profile(vmid as nat, name@, port as nat, ticket@),
{
    let mut p = String::new();
    push_str(&mut p, "[remmina]\nname=Proxmox VM ");
    let id = decimal_string(vmid as u64);
    push_str(&mut p, id.as_str());
    push_str(&mut p, " ");
    push_str(&mut p, name);
    push_str(&mut p, "\nprotocol=VNC\nserver=127.0.0.1:");
    let port_s = decimal_string(port);
    push_str(&mut p, port_s.as_str());
    push_str(&mut p, "\npassword=");
    push_str(&mut p, ticket);
    push_str(&mut p, "\ndisableclipboard=0\nviewmode=1\nquality=9\ncolordepth=32\n");
    p
}

// ---------------------------------------------------------------------------
// Generated files and proxy commands
// ---------------------------------------------------------------------------

pub open spec fn starts_with(s: Seq<char>, p: Seq<char>) -> bool {
    p.len() <= s.len() && s.subrange(0, p.len() as int) == p
}

pub open spec fn ends_with(s: Seq<char>, p: Seq<char>) -> bool {
    p.len() <= s.len() && s.subrange(s.len() - p.len(), s.len() as int) == p
}

fn has_prefix(v: &Vec<char>, p: &str) -> (b: bool)
    ensures
        b == starts_with(v@, p@),
{
    let pv = chars_of(p);
    if pv.len() > v.len() {
        return false;
    }
    let head = crate::text::slice_of(v, 0, pv.len());
    crate::text::chars_eq(&head, &pv)
}

fn has_suffix(v: &Vec<char>, p: &str) -> (b: bool)
    ensures
        b == ends_with(v@, p@),
{
    let pv = chars_of(p);
    if pv.len() > v.len() {
        return false;
    }
    let tail = crate::text::slice_of(v, v.len() - pv.len(), v.len());
    crate::text::chars_eq(&tail, &pv)
}

/// The names of files that the launcher generates: `spice-*.vv` and
/// `remmina-*.remmina`, which startup cleanup removes.
pub open spec fn spec_is_generated_file(name: Seq<char>) -> bool {
    (starts_with(name, "spice-"@) && ends_with(name, ".vv"@)) || (starts_with(name, "remmina-"@)
        && ends_with(name, ".remmina"@))
}

pub fn is_generated_file_name(name: &str) -> (b: bool)
    ensures
        b == spec_is_generated_file(name@),
{
    let v = chars_of(name);
    (has_prefix(&v, "spice-") && has_suffix(&v, ".vv")) || (has_prefix(&v, "remmina-") && has_suffix(
        &v,
        ".remmina",
    ))
}

/// `prefix{vmid}-{millis}suffix`.
pub open spec fn spec_generated_name(prefix: Seq<char>, vmid: nat, millis: nat, suffix: Seq<char>) -> Seq<char> {
    prefix + decimal(vmid) + "-"@ + decimal(millis) + suffix
}

fn generated_name(prefix: &str, vmid: u32, millis: u64, suffix: &str) -> (s: String)
    ensures
        s@ == spec_generated_name(prefix@, vmid as nat, millis as nat, suffix@),
{
    let mut s = String::new();
    push_str(&mut s, prefix);
    let id = decimal_string(vmid as u64);
    push_str(&mut s, id.as_str());
    push_str(&mut s, "-");
    let m = decimal_string(millis);
    push_str(&mut s, m.as_str());
    push_str(&mut s, suffix);
    s
}

/// The `.vv` file for VM `vmid` made at `millis` (milliseconds since the Unix epoch).
pub fn spice_vv_path(dir: &str, vmid: u32, millis: u64) -> (p: String)
    ensures
        p@ == path_join(dir@, spec_generated_name("spice-"@, vmid as nat, millis as nat, ".vv"@)),
{
    let name = generated_name("spice-", vmid, millis, ".vv");
    join_path(dir, name.as_str())
}

/// The Remmina profile for VM `vmid` made at `millis`.
pub fn remmina_profile_path(dir: &str, vmid: u32, millis: u64) -> (p: String)
    ensures
        p@ == path_join(dir@, spec_generated_name("remmina-"@, vmid as nat, millis as nat, ".remmina"@)),
{
    let name = generated_name("remmina-", vmid, millis, ".remmina");
    join_path(dir, name.as_str())
}

/// `/nodes/{node}/qemu/{vmid}/{what}`.
pub open spec fn spec_qemu_api_path(node: Seq<char>, vmid: nat, what: Seq<char>) -> Seq<char> {
    "/nodes/"@ + node + "/qemu/"@ + decimal(vmid) + "/"@ + what
}

fn qemu_api_path(node: &str, vmid: u32, what: &str) -> (p: String)
    ensures
        p@ == spec_qemu_api_path(node@, vmid as nat, what@),
{
    let mut p = String::new();
    push_str(&mut p, "/nodes/");
    push_str(&mut p, node);
    push_str(&mut p, "/qemu/");
    let id = decimal_string(vmid as u64);
    push_str(&mut p, id.as_str());
    push_str(&mut p, "/");
    push_str(&mut p, what);
    p
}

fn owned(s: &str) -> (out: String)
    ensures
        out@ == s@,
{
    let mut out = String::new();
    push_str(&mut out, s);
    out
}

/// `pvesh create /nodes/{node}/qemu/{vmid}/spiceproxy --output-format json`, ten seconds.
pub fn spice_proxy_command(node: &str, vmid: u32) -> (c: CommandInvocation)
    ensures
        c.program@ == "pvesh"@,
        strings_view(c.args@) == seq![
            "create"@,
            spec_qemu_api_path(node@, vmid as nat, "spiceproxy"@),
            "--output-format"@,
            "json"@,
        ],
        c.timeout_secs == 10,
{
    let args: Vec<String> = vec![
        owned("create"),
        qemu_api_path(node, vmid, "spiceproxy"),
        owned("--output-format"),
        owned("json"),
    ];
    let c = CommandInvocation { program: owned("pvesh"), args, timeout_secs: 10 };
    assert(strings_view(c.args@) =~= seq![
        "create"@,
        spec_qemu_api_path(node@, vmid as nat, "spiceproxy"@),
        "--output-format"@,
        "json"@,
    ]);
    c
}

/// `pvesh create /nodes/{node}/qemu/{vmid}/vncproxy --websocket 0 --output-format json`,
/// ten seconds.
pub fn vnc_proxy_command(node: &str, vmid: u32) -> (c: CommandInvocation)
    ensures
        c.program@ == "pvesh"@,
        strings_view(c.args@) == seq![
            "create"@,
            spec_qemu_api_path(node@, vmid as nat, "vncproxy"@),
            "--websocket"@,
            "0"@,
            "--output-format"@,
            "json"@,
        ],
        c.timeout_secs == 10,
{
    let args: Vec<String> = vec![
        owned("create"),
        qemu_api_path(node, vmid, "vncproxy"),
        owned("--websocket"),
        owned("0"),
        owned("--output-format"),
        owned("json"),
    ];
    let c = CommandInvocation { program: owned("pvesh"), args, timeout_secs: 10 };
    assert(strings_view(c.args@) =~= seq![
        "create"@,
        spec_qemu_api_path(node@, vmid as nat, "vncproxy"@),
        "--websocket"@,
        "0"@,
        "--output-format"@,
        "json"@,
    ]);
    c
}

// ---------------------------------------------------------------------------
// Attaching
// ---------------------------------------------------------------------------

/// Why a viewer could not be attached.
#[derive(Debug)]
pub enum AttachError {
    /// The protocol is switched off in the configuration.
    Disabled(Protocol),
    /// The viewer program is not in `PATH`.
    Command(CommandError),
    /// The SPICE proxy output gave no `.vv` file.
    Spice(SpiceError),
    /// The VNC proxy output gave no connection.
    Vnc(VncError),
    /// The VM is no longer in the list.
    VmGone(u32),
    /// The VM was started but did not reach `running`.
    NotRunning(u32),
}

pub open spec fn spec_disabled_message(p: Protocol) -> Seq<char> {
    protocol_label(p) + " support is disabled"@
}

impl AttachError {
    pub fn message(&self) -> (m: String)
        ensures
            m@ == (match *self {
                AttachError::Disabled(p) => spec_disabled_message(p),
                AttachError::Command(e) => crate::command::spec_command_error_message(e),
                AttachError::Spice(e) => spice_error_message(spice_error_view(e)),
                AttachError::Vnc(e) => vnc_error_message(vnc_error_view(e)),
                AttachError::VmGone(vmid) => "VM "@ + decimal(vmid as nat) + " is no longer in the list"@,
                AttachError::NotRunning(vmid) => "VM "@ + decimal(vmid as nat) + " did not reach running state"@,
            }),
    {
        match self {
            AttachError::Disabled(p) => {
                let mut m = owned(p.label());
                push_str(&mut m, " support is disabled");
                m
            },
            AttachError::Command(e) => e.message(),
            AttachError::Spice(e) => e.message(),
            AttachError::Vnc(e) => e.message(),
            AttachError::VmGone(vmid) => {
                let mut m = owned("VM ");
                let id = decimal_string(*vmid as u64);
                push_str(&mut m, id.as_str());
                push_str(&mut m, " is no longer in the list");
                m
            },
            AttachError::NotRunning(vmid) => {
                let mut m = owned("VM ");
                let id = decimal_string(*vmid as u64);
                push_str(&mut m, id.as_str());
                push_str(&mut m, " did not reach running state");
                m
            },
        }
    }
}

/// The viewer settings of a protocol (VNC for `Vnc`, SPICE otherwise).
pub open spec fn launch_config_of(config: Config, protocol: Protocol) -> ViewerLaunchConfig {
    match protocol {
        Protocol::Vnc => config.viewer.vnc,
        _ => config.viewer.spice,
    }
}

pub open spec fn protocol_enabled(config: Config, protocol: Protocol) -> bool {
    match protocol {
        Protocol::Vnc => config.vnc.enabled,
        _ => config.spice.enabled,
    }
}

/// The first step of attaching with `Spice` or `Vnc`: the protocol must be enabled and
/// its viewer in `PATH` (`viewer_found`); then the proxy command to run follows.
pub fn attach_request(config: &Config, protocol: Protocol, node: &str, vmid: u32, viewer_found: bool) -> (r: Result<CommandInvocation, AttachError>)
    requires
        protocol != Protocol::Auto,
    ensures
        match r {
            Ok(c) => {
                &&& protocol_enabled(*config, protocol)
                &&& viewer_found
                &&& c.program@ == "pvesh"@
                &&& c.timeout_secs == 10
                &&& strings_view(c.args@) == if protocol == Protocol::Spice {
                    seq!["create"@, spec_qemu_api_path(node@, vmid as nat, "spiceproxy"@), "--output-format"@, "json"@]
                } else {
                    seq!["create"@, spec_qemu_api_path(node@, vmid as nat, "vncproxy"@), "--websocket"@, "0"@, "--output-format"@, "json"@]
                }
            },
            Err(AttachError::Disabled(p)) => p == protocol && !protocol_enabled(*config, protocol),
            Err(AttachError::Command(CommandError::NotFound { program })) => protocol_enabled(*config, protocol)
                && !viewer_found && program@ == launch_config_of(*config, protocol).command@,
            Err(_) => false,
        },
{
    let (enabled, launch) = match protocol {
        Protocol::Vnc => (config.vnc.enabled, &config.viewer.vnc),
        _ => (config.spice.enabled, &config.viewer.spice),
    };
    if !enabled {
        return Err(AttachError::Disabled(protocol));
    }
    match ensure_command(launch.command.as_str(), viewer_found) {
        Ok(()) => {},
        Err(e) => {
            return Err(AttachError::Command(e));
        },
    }
    match protocol {
        Protocol::Vnc => Ok(vnc_proxy_command(node, vmid)),
        _ => Ok(spice_proxy_command(node, vmid)),
    }
}

/// The viewer's arguments: the configured ones, then `<file.vv>` for SPICE or
/// `-c <profile.remmina>` for VNC.
pub open spec fn spec_viewer_args(protocol: Protocol, configured: Seq<Seq<char>>, file: Seq<char>) -> Seq<Seq<char>> {
    match protocol {
        Protocol::Vnc => configured + seq!["-c"@, file],
        _ => configured + seq![file],
    }
}

pub fn viewer_args(protocol: Protocol, launch: &ViewerLaunchConfig, file: &str) -> (args: Vec<String>)
    ensures
        strings_view(args@) == spec_viewer_args(protocol, launch@.args, file@),
{
    let mut args: Vec<String> = Vec::new();
    let mut i: usize = 0;
    while i < launch.args.len()
        invariant
            0 <= i <= launch.args@.len(),
            strings_view(args@) == strings_view(launch.args@).take(i as int),
        decreases launch.args.len() - i,
    {
        let ghost before = strings_view(args@);
        let a = owned(launch.args[i].as_str());
        args.push(a);
        assert(strings_view(args@) =~= before.push(launch.args@[i as int]@));
        i = i + 1;
        assert(strings_view(launch.args@).take(i as int) =~= strings_view(launch.args@).take(i - 1).push(launch.args@[i - 1]@));
    }
    assert(strings_view(launch.args@).take(i as int) =~= strings_view(launch.args@));
    let ghost head = strings_view(args@);
    match protocol {
        Protocol::Vnc => {
            args.push(owned("-c"));
            args.push(owned(file));
            assert(strings_view(args@) =~= head + seq!["-c"@, file@]);
        },
        _ => {
            args.push(owned(file));
            assert(strings_view(args@) =~= head + seq![file@]);
        },
    }
    args
}

impl ViewerSession {
    /// A session of one viewer process that was handed one generated file.
    pub fn started(vmid: u32, protocol: Protocol, process_id: u32, file: &str) -> (s: ViewerSession)
        ensures
            s.vmid == vmid,
            s.protocol == protocol,
            s.process_id == process_id,
            strings_view(s.temp_files@) == seq![file@],
    {
        let temp_files: Vec<String> = vec![owned(file)];
        assert(strings_view(temp_files@) =~= seq![file@]);
        ViewerSession { vmid, protocol, process_id, temp_files }
    }
}

/// A viewer gets its configured arguments first and unchanged, then the generated file:
/// `-c <profile>` for VNC, `<file.vv>` alone otherwise, and nothing else.
pub proof fn lemma_viewer_args_keep_configured(protocol: Protocol, configured: Seq<Seq<char>>, file: Seq<char>)
    ensures
        spec_viewer_args(protocol, configured, file).take(configured.len() as int) == configured,
        protocol == Protocol::Vnc ==> spec_viewer_args(protocol, configured, file).skip(configured.len() as int)
            == seq!["-c"@, file],
        protocol != Protocol::Vnc ==> spec_viewer_args(protocol, configured, file).skip(configured.len() as int)
            == seq![file],
        spec_viewer_args(protocol, configured, file).last() == file,
{
    let r = spec_viewer_args(protocol, configured, file);
    assert(r.take(configured.len() as int) =~= configured);
    if protocol == Protocol::Vnc {
        assert(r.skip(configured.len() as int) =~= seq!["-c"@, file]);
    } else {
        assert(r.skip(configured.len() as int) =~= seq![file]);
    }
}

/// An escaped `.vv` value holds no line break, so each setting stays on its own line.
pub proof fn lemma_escaped_vv_has_no_line_break(value: Seq<char>)
    ensures
        forall|k: int| 0 <= k < spec_escape_vv(value).len() ==> #[trigger] spec_escape_vv(value)[k] != '\n'
            && spec_escape_vv(value)[k] != '\r',
    decreases value.len(),
{
    if value.len() > 0 {
        let p = value.drop_last();
        lemma_escaped_vv_has_no_line_break(p);
        let e = spec_escape_vv(value);
        let ep = spec_escape_vv(p);
        assert forall|k: int| 0 <= k < e.len() implies #[trigger] e[k] != '\n' && e[k] != '\r' by {
            if k < ep.len() {
                assert(e[k] == ep[k]);
            }
        }
    }
}

/// Every file the launcher writes is one that startup cleanup removes.
pub proof fn lemma_generated_files_are_cleaned(vmid: nat, millis: nat)
    ensures
        spec_is_generated_file(spec_generated_name("spice-"@, vmid, millis, ".vv"@)),
        spec_is_generated_file(spec_generated_name("remmina-"@, vmid, millis, ".remmina"@)),
{
    let a = spec_generated_name("spice-"@, vmid, millis, ".vv"@);
    let b = spec_generated_name("remmina-"@, vmid, millis, ".remmina"@);
    let ma = decimal(vmid) + "-"@ + decimal(millis);
    assert(a =~= "spice-"@ + ma + ".vv"@);
    assert(b =~= "remmina-"@ + ma + ".remmina"@);
    assert(a.subrange(0, "spice-"@.len() as int) =~= "spice-"@);
    assert(a.subrange(a.len() - ".vv"@.len(), a.len() as int) =~= ".vv"@);
    assert(b.subrange(0, "remmina-"@.len() as int) =~= "remmina-"@);
    assert(b.subrange(b.len() - ".remmina"@.len(), b.len() as int) =~= ".remmina"@);
}

} // verus!
