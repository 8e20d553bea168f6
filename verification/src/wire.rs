//! The wire protocol: JSON encoding of the messages and API payloads this
//! library exchanges with its clients.
//!
//! Every outbound message is one JSON object with a single string field.
//! The inbound API request bodies have the same single-field shape, parsed
//! by a small verified reader with the standard escapes.

use vstd::prelude::*;
use crate::utils::hex_digit;

verus! {

/// JSON escaping of one character: quote, backslash and the common control
/// characters get two-character escapes, other control characters the
/// `\u00XX` form, everything else stands for itself.
pub open spec fn escape_char(c: char) -> Seq<char> {
    if c == '"' {
        seq!['\\', '"']
    } else if c == '\\' {
        seq!['\\', '\\']
    } else if c == '\n' {
        seq!['\\', 'n']
    } else if c == '\r' {
        seq!['\\', 'r']
    } else if c == '\t' {
        seq!['\\', 't']
    } else if (c as u32) < 32 {
        seq!['\\', 'u', '0', '0', hex_digit((c as u32 / 16) as u64), hex_digit(
            (c as u32 % 16) as u64,
        )]
    } else {
        seq![c]
    }
}

/// JSON escaping of a whole string.
pub open spec fn json_escape(s: Seq<char>) -> Seq<char>
    decreases s.len(),
{
    if s.len() == 0 {
        Seq::empty()
    } else {
        json_escape(s.drop_last()) + escape_char(s.last())
    }
}

fn escape_char_str(c: char) -> (r: Option<&'static str>)
    ensures
        match r {
            Some(e) => e@ == escape_char(c),
            None => c != '"' && c != '\\' && c != '\n' && c != '\r' && c != '\t',
        },
{
    proof {
        reveal_strlit("\\\"");
        reveal_strlit("\\\\");
        reveal_strlit("\\n");
        reveal_strlit("\\r");
        reveal_strlit("\\t");
    }
    if c == '"' {
        Some("\\\"")
    } else if c == '\\' {
        Some("\\\\")
    } else if c == '\n' {
        Some("\\n")
    } else if c == '\r' {
        Some("\\r")
    } else if c == '\t' {
        Some("\\t")
    } else {
        None
    }
}

fn escape_control(c: char) -> (r: String)
    requires
        (c as u32) < 32,
        c != '\n' && c != '\r' && c != '\t',
    ensures
        r@ == escape_char(c),
{
    proof {
        reveal_strlit("\\u00");
    }
    let mut out = "\\u00".to_owned();
    let hi = (c as u32) / 16;
    let lo = (c as u32) % 16;
    out.append(crate::utils::hex_digit_str(hi as u64));
    out.append(crate::utils::hex_digit_str(lo as u64));
    proof {
        assert(out@ =~= escape_char(c));
    }
    out
}

/// Escapes a string for inclusion inside a JSON string literal.
pub fn escape_json(s: &str) -> (r: String)
    ensures
        r@ == json_escape(s@),
{
    let len = s.unicode_len();
    let mut out = String::new();
    let mut i: usize = 0;
    while i < len
        invariant
            len == s@.len(),
            i <= len,
            out@ =~= json_escape(s@.take(i as int)),
        decreases len - i,
    {
        let c = s.get_char(i);
        proof {
            assert(s@.take(i + 1 as int).drop_last() =~= s@.take(i as int));
            assert(s@.take(i + 1 as int).last() == s@[i as int]);
        }
        match escape_char_str(c) {
            Some(e) => {
                out.append(e);
            },
            None => {
                if (c as u32) < 32 {
                    let e = escape_control(c);
                    out.append(e.as_str());
                } else {
                    let piece = s.substring_char(i, i + 1);
                    proof {
                        assert(piece@ =~= seq![s@[i as int]]);
                    }
                    out.append(piece);
                }
            },
        }
        i = i + 1;
    }
    proof {
        assert(s@.take(len as int) =~= s@);
    }
    out
}

/// The JSON body of a position message.
pub open spec fn position_payload(pos: Seq<char>) -> Seq<char> {
    "{\"sourcepos\":\""@ + json_escape(pos) + "\"}"@
}

/// The JSON body of a content-changed message.
pub open spec fn html_payload(html: Seq<char>) -> Seq<char> {
    "{\"html\":\""@ + json_escape(html) + "\"}"@
}

/// The JSON body of a document-created response.
pub open spec fn id_payload(id: Seq<char>) -> Seq<char> {
    "{\"id\":\""@ + json_escape(id) + "\"}"@
}

/// Builds the position message body.
pub fn position_json(pos: &str) -> (r: String)
    ensures
        r@ == position_payload(pos@),
{
    let mut out = "{\"sourcepos\":\"".to_owned();
    let esc = escape_json(pos);
    out.append(esc.as_str());
    out.append("\"}");
    proof {
        assert(out@ =~= position_payload(pos@));
    }
    out
}

/// Builds the content-changed message body.
pub fn html_json(html: &str) -> (r: String)
    ensures
        r@ == html_payload(html@),
{
    let mut out = "{\"html\":\"".to_owned();
    let esc = escape_json(html);
    out.append(esc.as_str());
    out.append("\"}");
    proof {
        assert(out@ =~= html_payload(html@));
    }
    out
}

/// JSON whitespace.
pub open spec fn is_json_ws(c: char) -> bool {
    c == ' ' || c == '\t' || c == '\n' || c == '\r'
}

/// The first index at or after `i` holding a non-whitespace character (the
/// length when only whitespace remains).
pub open spec fn skip_ws(s: Seq<char>, i: int) -> int
    decreases s.len() - i,
{
    if 0 <= i && i < s.len() && is_json_ws(s[i]) {
        skip_ws(s, i + 1)
    } else {
        i
    }
}

/// The character named by a JSON string escape, if the escape is one this
/// reader accepts.
pub open spec fn unescape_char(c: char) -> Option<char> {
    if c == '"' {
        Some('"')
    } else if c == '\\' {
        Some('\\')
    } else if c == '/' {
        Some('/')
    } else if c == 'n' {
        Some('\n')
    } else if c == 'r' {
        Some('\r')
    } else if c == 't' {
        Some('\t')
    } else if c == 'b' {
        Some('\u{8}')
    } else if c == 'f' {
        Some('\u{c}')
    } else {
        None
    }
}

/// Reads the body of a JSON string starting just after its opening quote:
/// the decoded characters and the index just past the closing quote.
/// Unescaped control characters and unknown escapes are rejected.
pub open spec fn parse_string_body(s: Seq<char>, i: int) -> Option<(Seq<char>, int)>
    decreases s.len() - i,
{
    if i < 0 || i >= s.len() {
        None
    } else if s[i] == '"' {
        Some((Seq::empty(), i + 1))
    } else if s[i] == '\\' {
        if i + 1 >= s.len() {
            None
        } else {
            match unescape_char(s[i + 1]) {
                None => None,
                Some(c) => match parse_string_body(s, i + 2) {
                    None => None,
                    Some((rest, j)) => Some((seq![c] + rest, j)),
                },
            }
        }
    } else if (s[i] as u32) < 32 {
        None
    } else {
        match parse_string_body(s, i + 1) {
            None => None,
            Some((rest, j)) => Some((seq![s[i]] + rest, j)),
        }
    }
}

/// A parse continuation: the characters read so far, prepended to whatever
/// the rest of the string decodes to.
pub open spec fn prepend_parsed(prefix: Seq<char>, r: Option<(Seq<char>, int)>) -> Option<
    (Seq<char>, int),
> {
    match r {
        None => None,
        Some((rest, j)) => Some((prefix + rest, j)),
    }
}

/// The value of the single string field of a JSON object `{ "key": value }`,
/// or nothing when the text has any other shape.
pub open spec fn parse_single_field(s: Seq<char>, key: Seq<char>) -> Option<Seq<char>> {
    let i0 = skip_ws(s, 0);
    if i0 < s.len() && s[i0] == '{' {
        let i1 = skip_ws(s, i0 + 1);
        if i1 < s.len() && s[i1] == '"' && i1 + 1 + key.len() < s.len() && s.subrange(
            i1 + 1,
            i1 + 1 + key.len(),
        ) == key && s[i1 + 1 + key.len()] == '"' {
            let i2 = skip_ws(s, i1 + key.len() + 2);
            if i2 < s.len() && s[i2] == ':' {
                let i3 = skip_ws(s, i2 + 1);
                if i3 < s.len() && s[i3] == '"' {
                    match parse_string_body(s, i3 + 1) {
                        None => None,
                        Some((val, j)) => {
                            let i4 = skip_ws(s, j);
                            if i4 < s.len() && s[i4] == '}' && skip_ws(s, i4 + 1) == s.len() {
                                Some(val)
                            } else {
                                None
                            }
                        },
                    }
                } else {
                    None
                }
            } else {
                None
            }
        } else {
            None
        }
    } else {
        None
    }
}

fn is_ws_exec(c: char) -> (r: bool)
    ensures
        r == is_json_ws(c),
{
    c == ' ' || c == '\t' || c == '\n' || c == '\r'
}

fn skip_ws_exec(s: &str, from: usize) -> (r: usize)
    requires
        from <= s@.len(),
    ensures
        r == skip_ws(s@, from as int),
        from <= r <= s@.len(),
{
    let len = s.unicode_len();
    let mut i = from;
    while i < len && is_ws_exec(s.get_char(i))
        invariant
            len == s@.len(),
            from <= i <= len,
            skip_ws(s@, from as int) == skip_ws(s@, i as int),
        decreases len - i,
    {
        i = i + 1;
    }
    i
}

fn unescape_str(c: char) -> (r: Option<&'static str>)
    ensures
        match r {
            Some(e) => unescape_char(c) matches Some(u) && e@ == seq![u],
            None => unescape_char(c) is None,
        },
{
    proof {
        reveal_strlit("\"");
        reveal_strlit("\\");
        reveal_strlit("/");
        reveal_strlit("\n");
        reveal_strlit("\r");
        reveal_strlit("\t");
        reveal_strlit("\u{8}");
        reveal_strlit("\u{c}");
    }
    if c == '"' {
        Some("\"")
    } else if c == '\\' {
        Some("\\")
    } else if c == '/' {
        Some("/")
    } else if c == 'n' {
        Some("\n")
    } else if c == 'r' {
        Some("\r")
    } else if c == 't' {
        Some("\t")
    } else if c == 'b' {
        Some("\u{8}")
    } else if c == 'f' {
        Some("\u{c}")
    } else {
        None
    }
}

fn parse_string_body_exec(s: &str, start: usize) -> (r: Option<(String, usize)>)
    requires
        start <= s@.len(),
    ensures
        match r {
            Some(v) => parse_string_body(s@, start as int) == Some((v.0@, v.1 as int)) && v.1
                <= s@.len(),
            None => parse_string_body(s@, start as int) is None,
        },
{
    let len = s.unicode_len();
    let mut acc = String::new();
    let mut i = start;
    loop
        invariant
            len == s@.len(),
            start <= i <= len,
            parse_string_body(s@, start as int) == prepend_parsed(
                acc@,
                parse_string_body(s@, i as int),
            ),
        decreases len - i,
    {
        if i >= len {
            return None;
        }
        let c = s.get_char(i);
        if c == '"' {
            proof {
                assert(acc@ + Seq::<char>::empty() =~= acc@);
            }
            return Some((acc, i + 1));
        } else if c == '\\' {
            if i + 1 >= len {
                return None;
            }
            let e = s.get_char(i + 1);
            match unescape_str(e) {
                None => {
                    return None;
                },
                Some(piece) => {
                    let ghost u = unescape_char(s@[i + 1])->Some_0;
                    let ghost acc0 = acc@;
                    acc.append(piece);
                    proof {
                        let pr = parse_string_body(s@, i + 2);
                        if pr is Some {
                            let rest = pr->Some_0.0;
                            assert(acc0 + (seq![u] + rest) =~= (acc0 + seq![u]) + rest);
                        }
                        assert(prepend_parsed(acc0, parse_string_body(s@, i as int))
                            == prepend_parsed(acc@, parse_string_body(s@, i + 2)));
                    }
                    i = i + 2;
                },
            }
        } else if (c as u32) < 32 {
            return None;
        } else {
            let piece = s.substring_char(i, i + 1);
            proof {
                assert(piece@ =~= seq![s@[i as int]]);
            }
            let ghost acc0 = acc@;
            acc.append(piece);
            proof {
                let pr = parse_string_body(s@, i + 1);
                if pr is Some {
                    let rest = pr->Some_0.0;
                    assert(acc0 + (seq![s@[i as int]] + rest) =~= (acc0 + seq![s@[i as int]])
                        + rest);
                }
                assert(prepend_parsed(acc0, parse_string_body(s@, i as int)) == prepend_parsed(
                    acc@,
                    parse_string_body(s@, i + 1),
                ));
            }
            i = i + 1;
        }
    }
}

fn parse_single_field_exec(s: &str, key: &str) -> (r: Option<String>)
    ensures
        match r {
            Some(v) => parse_single_field(s@, key@) == Some(v@),
            None => parse_single_field(s@, key@) is None,
        },
{
    let len = s.unicode_len();
    let klen = key.unicode_len();
    let i0 = skip_ws_exec(s, 0);
    if !(i0 < len && s.get_char(i0) == '{') {
        return None;
    }
    let i1 = skip_ws_exec(s, i0 + 1);
    if !(i1 < len) {
        return None;
    }
    if !(s.get_char(i1) == '"') {
        return None;
    }
    // i1 + 1 + klen < len, phrased to avoid overflow
    if !(klen < len - i1 && klen + 1 < len - i1) {
        return None;
    }
    if !crate::utils::str_eq(s.substring_char(i1 + 1, i1 + 1 + klen), key) {
        proof {
            assert(s@.subrange(i1 + 1, i1 + 1 + klen as int) != key@);
        }
        return None;
    }
    if !(s.get_char(i1 + 1 + klen) == '"') {
        return None;
    }
    let i2 = skip_ws_exec(s, i1 + klen + 2);
    if !(i2 < len && s.get_char(i2) == ':') {
        return None;
    }
    let i3 = skip_ws_exec(s, i2 + 1);
    if !(i3 < len && s.get_char(i3) == '"') {
        return None;
    }
    match parse_string_body_exec(s, i3 + 1) {
        None => None,
        Some((val, j)) => {
            let i4 = skip_ws_exec(s, j);
            if i4 < len && s.get_char(i4) == '}' && skip_ws_exec(s, i4 + 1) == len {
                Some(val)
            } else {
                None
            }
        },
    }
}

/// Parses a registration request body `{ "filepath": path }`.
pub fn parse_create_document_request(body: &str) -> (r: Option<CreateDocumentRequest>)
    ensures
        match r {
            Some(req) => parse_single_field(body@, "filepath"@) == Some(req.filepath@),
            None => parse_single_field(body@, "filepath"@) is None,
        },
{
    match parse_single_field_exec(body, "filepath") {
        Some(v) => Some(CreateDocumentRequest { filepath: v }),
        None => None,
    }
}

/// Parses a position-update request body `{ "sourcepos": pos }`.
pub fn parse_update_position_request(body: &str) -> (r: Option<UpdatePositionRequest>)
    ensures
        match r {
            Some(req) => parse_single_field(body@, "sourcepos"@) == Some(req.sourcepos@),
            None => parse_single_field(body@, "sourcepos"@) is None,
        },
{
    match parse_single_field_exec(body, "sourcepos") {
        Some(v) => Some(UpdatePositionRequest { sourcepos: v }),
        None => None,
    }
}

/// A registration request from a body of unknown shape: a malformed body
/// degrades to the sentinel path `unknown` instead of being rejected.
pub fn create_document_request_from_json(body: &str) -> (req: CreateDocumentRequest)
    ensures
        req.filepath@ == match parse_single_field(body@, "filepath"@) {
            Some(v) => v,
            None => "unknown"@,
        },
{
    match parse_create_document_request(body) {
        Some(req) => req,
        None => CreateDocumentRequest { filepath: "unknown".to_owned() },
    }
}

/// A position-update request from a body of unknown shape: a malformed body
/// degrades to the sentinel position `unknown` instead of being rejected.
pub fn update_position_request_from_json(body: &str) -> (req: UpdatePositionRequest)
    ensures
        req.sourcepos@ == match parse_single_field(body@, "sourcepos"@) {
            Some(v) => v,
            None => "unknown"@,
        },
{
    match parse_update_position_request(body) {
        Some(req) => req,
        None => UpdatePositionRequest { sourcepos: "unknown".to_owned() },
    }
}

/// A request to register the document at a path.
pub struct CreateDocumentRequest {
    pub filepath: String,
}

/// The response to a registration: the document's id.
pub struct CreateDocumentResponse {
    pub id: String,
}

/// A request to overwrite a document's cursor position.
pub struct UpdatePositionRequest {
    pub sourcepos: String,
}

/// Serializes a registration response.
pub fn create_document_response_json(resp: &CreateDocumentResponse) -> (r: String)
    ensures
        r@ == id_payload(resp.id@),
{
    let mut out = "{\"id\":\"".to_owned();
    let esc = escape_json(resp.id.as_str());
    out.append(esc.as_str());
    out.append("\"}");
    proof {
        assert(out@ =~= id_payload(resp.id@));
    }
    out
}

} // verus!
