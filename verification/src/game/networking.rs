//! The wire codec: request heads and bodies read from a byte stream, and
//! responses written as text.

use vstd::prelude::*;
use vstd::string::StringExecFns;
use vstd::utf8::{decode_utf8, encode_utf8, valid_utf8};
use chrono::Datelike;
use crate::game::physic::Direction;
use crate::text::{
    byte_chars, copy_range, decimal_text, lower_bytes, parse_number, parse_unsigned,
    push_decimal, push_two_digits, split_words, string_of_bytes, to_lower, two_digit_text,
    utf8_text, words,
};

verus! {

/// The bytes of one connection, read front to back. Reading past the last
/// byte fails the way a closed socket does.
pub struct ByteStream {
    data: Vec<u8>,
    pos: usize,
}

impl ByteStream {
    /// Every byte of the connection, read or not.
    pub closed spec fn bytes(&self) -> Seq<u8> {
        self.data@
    }

    /// How many bytes have been read.
    pub closed spec fn position(&self) -> int {
        self.pos as int
    }

    /// A stream over `data` with nothing read yet.
    pub fn new(data: Vec<u8>) -> (stream: ByteStream)
        ensures
            stream.bytes() == data@,
            stream.position() == 0,
    {
        ByteStream { data, pos: 0 }
    }

    /// How many bytes have been read.
    pub fn consumed(&self) -> (n: usize)
        ensures
            n == self.position(),
    {
        self.pos
    }
}

/// The index of the first byte at or after `from` that ends a line or is not
/// ASCII; the length of `s` when there is none.
pub open spec fn line_stop(s: Seq<u8>, from: int) -> int
    decreases s.len() - from,
{
    if from < 0 || from >= s.len() {
        s.len() as int
    } else if s[from] == 10 || s[from] >= 128 {
        from
    } else {
        line_stop(s, from + 1)
    }
}

/// The line that starts at `from`, without its line feed. There is none when
/// the bytes run out first, or when a byte that is not ASCII comes first.
pub open spec fn line_at(s: Seq<u8>, from: int) -> Option<Seq<u8>> {
    let stop = line_stop(s, from);
    if 0 <= from <= stop < s.len() && s[stop] == 10 {
        Some(s.subrange(from, stop))
    } else {
        None
    }
}

/// Where reading goes on after the attempt to read a line at `from`: behind
/// the byte that stopped the line, or at the end when the bytes ran out.
pub open spec fn after_line(s: Seq<u8>, from: int) -> int {
    let stop = line_stop(s, from);
    if stop < s.len() {
        stop + 1
    } else {
        s.len() as int
    }
}

fn find_line_stop(bytes: &[u8], from: usize) -> (stop: usize)
    ensures
        stop == line_stop(bytes@, from as int),
        from <= bytes.len() ==> from <= stop <= bytes.len(),
{
    if from >= bytes.len() {
        return bytes.len();
    }
    let mut i: usize = from;
    while i < bytes.len() && bytes[i] != 10 && bytes[i] < 128
        invariant
            from <= i <= bytes.len(),
            line_stop(bytes@, i as int) == line_stop(bytes@, from as int),
        decreases bytes.len() - i,
    {
        i += 1;
    }
    i
}

/// Reads one line: every byte up to the next line feed, which is taken from
/// the stream and not handed out. `None` when the stream ends first or holds
/// a byte that is not ASCII first; that byte is taken too.
pub fn get_line(stream: &mut ByteStream) -> (line: Option<String>)
    ensures
        final(stream).bytes() == old(stream).bytes(),
        final(stream).position() == after_line(old(stream).bytes(), old(stream).position()),
        match line {
            Some(text) => line_at(old(stream).bytes(), old(stream).position()) == Some(
                old(stream).bytes().subrange(
                    old(stream).position(),
                    line_stop(old(stream).bytes(), old(stream).position()),
                ),
            ) && text@ == byte_chars(
                old(stream).bytes().subrange(
                    old(stream).position(),
                    line_stop(old(stream).bytes(), old(stream).position()),
                ),
            ),
            None => line_at(old(stream).bytes(), old(stream).position()) is None,
        },
{
    let from = stream.pos;
    let stop = find_line_stop(stream.data.as_slice(), from);
    if stop < stream.data.len() {
        stream.pos = stop + 1;
        if from <= stop && stream.data[stop] == 10 {
            let raw = copy_range(stream.data.as_slice(), from, stop);
            Some(string_of_bytes(raw.as_slice()))
        } else {
            None
        }
    } else {
        stream.pos = stream.data.len();
        None
    }
}

/// What the head of a request says.
pub struct Headers {
    pub request_type: String,
    pub path: String,
    pub http_type: Option<String>,
    pub content_type: Option<String>,
    pub user_agent: Option<String>,
    pub body_length: usize,
}

/// The head of a request as plain text.
pub ghost struct HeaderFields {
    pub request_type: Seq<char>,
    pub path: Seq<char>,
    pub http_type: Option<Seq<char>>,
    pub content_type: Option<Seq<char>>,
    pub user_agent: Option<Seq<char>>,
    pub body_length: usize,
}

/// The text of an optional string.
pub open spec fn option_text(s: Option<String>) -> Option<Seq<char>> {
    match s {
        Some(t) => Some(t@),
        None => None,
    }
}

impl View for Headers {
    type V = HeaderFields;

    open spec fn view(&self) -> HeaderFields {
        HeaderFields {
            request_type: self.request_type@,
            path: self.path@,
            http_type: option_text(self.http_type),
            content_type: option_text(self.content_type),
            user_agent: option_text(self.user_agent),
            body_length: self.body_length,
        }
    }
}

/// The head that stands for a request that said nothing: `GET /` without a
/// body.
pub open spec fn default_fields() -> HeaderFields {
    HeaderFields {
        request_type: "GET"@,
        path: "/"@,
        http_type: None,
        content_type: None,
        user_agent: None,
        body_length: 0,
    }
}

/// The head after the request line: its first word is the method, its second
/// the path, its third the protocol version. A word that is missing leaves
/// method and path as they were and the version absent.
pub open spec fn with_request_line(h: HeaderFields, line: Seq<u8>) -> HeaderFields {
    let w = words(line);
    HeaderFields {
        request_type: if w.len() > 0 {
            byte_chars(w[0])
        } else {
            h.request_type
        },
        path: if w.len() > 1 {
            byte_chars(w[1])
        } else {
            h.path
        },
        http_type: if w.len() > 2 {
            Some(byte_chars(w[2]))
        } else {
            None
        },
        ..h
    }
}

/// The key of the content-type header, in one of its two accepted spellings.
pub open spec fn is_content_type_key(word: Seq<u8>) -> bool {
    byte_chars(word) == "Content-Type:"@ || byte_chars(word) == "content-type:"@
}

/// The key of the content-length header, in any mix of upper and lower case.
pub open spec fn is_content_length_key(word: Seq<u8>) -> bool {
    byte_chars(lower_bytes(word)) == "content-length:"@
}

/// The head after one header line. A content-type line sets the content type
/// to its second word, or to nothing when it has none. A content-length line
/// whose second word is a decimal number that fits `usize` sets the body
/// length. Every other line changes nothing.
pub open spec fn with_header_line(h: HeaderFields, line: Seq<u8>) -> HeaderFields {
    let w = words(line);
    if w.len() == 0 {
        h
    } else if is_content_type_key(w[0]) {
        HeaderFields {
            content_type: if w.len() > 1 {
                Some(byte_chars(w[1]))
            } else {
                None
            },
            ..h
        }
    } else if is_content_length_key(w[0]) && w.len() > 1 {
        match parse_unsigned(w[1], usize::MAX as nat) {
            Some(n) => HeaderFields { body_length: n as usize, ..h },
            None => h,
        }
    } else {
        h
    }
}

/// What reading a head gives: the fields, where the body starts, and whether
/// the head was closed before the bytes ran out.
pub ghost struct HeadParse {
    pub fields: HeaderFields,
    pub end: int,
    pub closed: bool,
}

/// Reads header lines from `from` on, starting with the fields `h`. The block
/// ends with the first line of at most one byte, with a byte that is not
/// ASCII, or where the bytes run out; only in the last case it is not closed.
pub open spec fn header_block(h: HeaderFields, s: Seq<u8>, from: int) -> HeadParse
    decreases s.len() - from,
{
    let next = after_line(s, from);
    match line_at(s, from) {
        Some(line) => if line.len() > 1 && from < next <= s.len() {
            header_block(with_header_line(h, line), s, next)
        } else {
            HeadParse { fields: h, end: next, closed: true }
        },
        None => HeadParse { fields: h, end: next, closed: line_stop(s, from) < s.len() },
    }
}

/// Reads the head of a request at `from`: the request line, then the header
/// block. A request line that cannot be read leaves the default fields.
pub open spec fn head_at(s: Seq<u8>, from: int) -> HeadParse {
    let first = match line_at(s, from) {
        Some(line) => with_request_line(default_fields(), line),
        None => default_fields(),
    };
    header_block(first, s, after_line(s, from))
}

/// The received bytes hold a whole request: a closed head and every byte of
/// the body that the head announces.
pub open spec fn request_complete(s: Seq<u8>) -> bool {
    let head = head_at(s, 0);
    head.closed && head.end + head.fields.body_length <= s.len()
}

fn optional_word(w: &Vec<Vec<u8>>, k: usize) -> (word: Option<String>)
    ensures
        option_text(word) == if k < w@.len() {
            Some(byte_chars(w@[k as int]@))
        } else {
            None
        },
{
    if k < w.len() {
        Some(string_of_bytes(w[k].as_slice()))
    } else {
        None
    }
}

fn apply_request_line(h: Headers, line: &[u8]) -> (out: Headers)
    ensures
        out@ == with_request_line(h@, line@),
{
    let w = split_words(line);
    let request_type = if w.len() > 0 {
        string_of_bytes(w[0].as_slice())
    } else {
        h.request_type
    };
    let path = if w.len() > 1 {
        string_of_bytes(w[1].as_slice())
    } else {
        h.path
    };
    let http_type = optional_word(&w, 2);
    Headers {
        request_type,
        path,
        http_type,
        content_type: h.content_type,
        user_agent: h.user_agent,
        body_length: h.body_length,
    }
}

fn apply_header_line(h: Headers, line: &[u8]) -> (out: Headers)
    ensures
        out@ == with_header_line(h@, line@),
{
    let w = split_words(line);
    if w.len() == 0 {
        return h;
    }
    let key = string_of_bytes(w[0].as_slice());
    let lower = to_lower(w[0].as_slice());
    let lower_key = string_of_bytes(lower.as_slice());
    if key == String::from_str("Content-Type:") || key == String::from_str("content-type:") {
        let content_type = optional_word(&w, 1);
        Headers {
            request_type: h.request_type,
            path: h.path,
            http_type: h.http_type,
            content_type,
            user_agent: h.user_agent,
            body_length: h.body_length,
        }
    } else if lower_key == String::from_str("content-length:") && w.len() > 1 {
        match parse_number(w[1].as_slice(), usize::MAX as u64) {
            Some(n) => Headers {
                request_type: h.request_type,
                path: h.path,
                http_type: h.http_type,
                content_type: h.content_type,
                user_agent: h.user_agent,
                body_length: n as usize,
            },
            None => h,
        }
    } else {
        h
    }
}

/// Reads the line at `from`; the range of the line, if there is one, and
/// where reading goes on.
fn scan_line(bytes: &[u8], from: usize) -> (r: (Option<(usize, usize)>, usize))
    requires
        from <= bytes.len(),
    ensures
        r.1 == after_line(bytes@, from as int),
        from <= r.1 <= bytes.len(),
        r.1 == from ==> from == bytes.len(),
        match r.0 {
            Some((a, b)) => a == from && a <= b < bytes.len() && line_at(bytes@, from as int)
                == Some(bytes@.subrange(a as int, b as int)),
            None => line_at(bytes@, from as int) is None,
        },
        (r.0 is None && r.1 == bytes.len() && line_stop(bytes@, from as int) >= bytes.len())
            || line_stop(bytes@, from as int) < bytes.len(),
{
    let stop = find_line_stop(bytes, from);
    if stop < bytes.len() {
        if bytes[stop] == 10 {
            (Some((from, stop)), stop + 1)
        } else {
            (None, stop + 1)
        }
    } else {
        (None, bytes.len())
    }
}

fn read_head(bytes: &[u8], from: usize) -> (r: (Headers, usize, bool))
    ensures
        r.0@ == head_at(bytes@, from as int).fields,
        r.1 == head_at(bytes@, from as int).end,
        r.2 == head_at(bytes@, from as int).closed,
        from <= bytes.len() ==> from <= r.1 <= bytes.len(),
{
    let mut head = Headers::none();
    if from > bytes.len() {
        return (head, bytes.len(), false);
    }
    let (first, next) = scan_line(bytes, from);
    if let Some((a, b)) = first {
        let line = copy_range(bytes, a, b);
        head = apply_request_line(head, line.as_slice());
    }
    let mut pos = next;
    loop
        invariant
            from <= pos <= bytes.len(),
            header_block(head@, bytes@, pos as int) == head_at(bytes@, from as int),
        decreases bytes.len() - pos,
    {
        let (found, after) = scan_line(bytes, pos);
        match found {
            Some((a, b)) => {
                if b - a > 1 {
                    let line = copy_range(bytes, a, b);
                    head = apply_header_line(head, line.as_slice());
                    pos = after;
                } else {
                    return (head, after, true);
                }
            },
            None => {
                let closed = find_line_stop(bytes, pos) < bytes.len();
                return (head, after, closed);
            },
        }
    }
}

impl Headers {
    /// The head of a request that said nothing: `GET /` without a body.
    pub fn none() -> (h: Headers)
        ensures
            h@ == default_fields(),
    {
        Headers {
            request_type: String::from_str("GET"),
            path: String::from_str("/"),
            http_type: None,
            content_type: None,
            user_agent: None,
            body_length: 0,
        }
    }

    /// Reads the head of a request from the stream: the request line and the
    /// header lines up to the line that closes the head.
    pub fn new(stream: &mut ByteStream) -> (h: Headers)
        ensures
            h@ == head_at(old(stream).bytes(), old(stream).position()).fields,
            final(stream).bytes() == old(stream).bytes(),
            final(stream).position() == head_at(old(stream).bytes(), old(stream).position()).end,
    {
        let (head, end, _) = read_head(stream.data.as_slice(), stream.pos);
        stream.pos = end;
        head
    }

    /// Whether the bytes received so far hold a whole request, so that no
    /// more need to be awaited before it is answered.
    pub fn complete(received: &[u8]) -> (done: bool)
        ensures
            done == request_complete(received@),
    {
        let (head, end, closed) = read_head(received, 0);
        closed && head.body_length <= received.len() - end
    }
}

/// The body that `headers` announces, as bytes: the next `body_length` bytes
/// of `s` from `from` on, if the length is not zero and that many are there.
pub open spec fn body_at(s: Seq<u8>, from: int, body_length: usize) -> Option<Seq<u8>> {
    if body_length > 0 && 0 <= from && from + body_length <= s.len() {
        Some(s.subrange(from, from + body_length))
    } else {
        None
    }
}

/// Where reading goes on after the attempt to read a body: unmoved when none
/// is announced, behind the body when it is there, at the end when the bytes
/// ran out first.
pub open spec fn after_body(s: Seq<u8>, from: int, body_length: usize) -> int {
    if body_length == 0 {
        from
    } else if 0 <= from && from + body_length <= s.len() {
        from + body_length
    } else if from <= s.len() {
        s.len() as int
    } else {
        from
    }
}

/// Reads the body that the head announces and hands it out as text. `None`
/// when no body is announced, when the stream ends before the body does, or
/// when the body is not UTF-8.
pub fn get_responce(stream: &mut ByteStream, headers: Headers) -> (body: Option<String>)
    ensures
        final(stream).bytes() == old(stream).bytes(),
        final(stream).position() == after_body(
            old(stream).bytes(),
            old(stream).position(),
            headers.body_length,
        ),
        match body {
            Some(text) => match body_at(
                old(stream).bytes(),
                old(stream).position(),
                headers.body_length,
            ) {
                Some(raw) => valid_utf8(raw) && text@ == decode_utf8(raw),
                None => false,
            },
            None => match body_at(
                old(stream).bytes(),
                old(stream).position(),
                headers.body_length,
            ) {
                Some(raw) => !valid_utf8(raw),
                None => true,
            },
        },
{
    let n = headers.body_length;
    if n == 0 {
        return None;
    }
    let from = stream.pos;
    if from <= stream.data.len() && n <= stream.data.len() - from {
        let raw = copy_range(stream.data.as_slice(), from, from + n);
        stream.pos = from + n;
        utf8_text(raw)
    } else {
        if from <= stream.data.len() {
            stream.pos = stream.data.len();
        }
        None
    }
}

/// How a request ended.
#[derive(Clone, Copy, Debug, PartialEq, Eq, Structural)]
pub enum ResponseStatus {
    Okay,
    Error,
    Unauthorized,
    ParseError,
    NotFound,
    Forbiden,
    NotImplemented,
}

/// The code and reason of a status.
pub open spec fn status_reason(status: ResponseStatus) -> Seq<char> {
    match status {
        ResponseStatus::Okay => "200 OK"@,
        ResponseStatus::ParseError => "400 PARSE ERROR"@,
        ResponseStatus::Unauthorized => "401 UNAUTHORIZED"@,
        ResponseStatus::Forbiden => "403 FORBIDEN ERROR"@,
        ResponseStatus::NotFound => "404 NOT FOUND"@,
        ResponseStatus::Error => "500 SERVER ERROR"@,
        ResponseStatus::NotImplemented => "501 NOT IMPLEMENTED"@,
    }
}

/// The status line of a response.
pub open spec fn status_line(status: ResponseStatus) -> Seq<char> {
    "HTTP/1.1 "@ + status_reason(status)
}

impl ResponseStatus {
    /// The status line: the protocol version, then code and reason.
    pub fn to_string(&self) -> (line: String)
        ensures
            line@ == status_line(*self),
    {
        let mut line = String::from_str("HTTP/1.1 ");
        match self {
            ResponseStatus::Okay => line.append("200 OK"),
            ResponseStatus::ParseError => line.append("400 PARSE ERROR"),
            ResponseStatus::Unauthorized => line.append("401 UNAUTHORIZED"),
            ResponseStatus::Forbiden => line.append("403 FORBIDEN ERROR"),
            ResponseStatus::NotFound => line.append("404 NOT FOUND"),
            ResponseStatus::Error => line.append("500 SERVER ERROR"),
            ResponseStatus::NotImplemented => line.append("501 NOT IMPLEMENTED"),
        }
        line
    }
}

/// What kind of text a body holds.
#[derive(Clone, Copy, Debug, PartialEq, Eq, Structural)]
pub enum BodyType {
    HTML,
    JSON,
}

/// The media type that names a kind of body.
pub open spec fn media_type(body_type: BodyType) -> Seq<char> {
    match body_type {
        BodyType::HTML => "text/html"@,
        BodyType::JSON => "application/json"@,
    }
}

impl BodyType {
    /// The media type, as the content-type header spells it.
    pub fn to_string(&self) -> (name: String)
        ensures
            name@ == media_type(*self),
    {
        match self {
            BodyType::HTML => String::from_str("text/html"),
            BodyType::JSON => String::from_str("application/json"),
        }
    }
}

/// A moment in UTC: the calendar date as numbers, and the time of day as the
/// text that goes on the wire.
#[derive(Clone, Debug)]
pub struct DateStamp {
    pub year: u32,
    pub month: u32,
    pub day: u32,
    pub time: String,
}

/// Reads the clock with `chrono::Utc::now` and takes the moment apart: the
/// year of the common era from `Datelike::year_ce`, `Datelike::month` and
/// `Datelike::day`, and the time of day as `NaiveTime` displays it. chrono
/// documents the month as 1 to 12 and the day as 1 to 31; nothing else is
/// claimed of the moment. chrono panics where the clock stands before 1970.
#[verifier::external_body]
fn utc_now() -> (now: DateStamp)
    ensures
        1 <= now.month <= 12,
        1 <= now.day <= 31,
{
    let now = chrono::Utc::now();
    DateStamp {
        year: now.year_ce().1,
        month: now.month(),
        day: now.day(),
        time: now.time().to_string(),
    }
}

impl DateStamp {
    /// The present moment in UTC.
    pub fn now() -> (now: DateStamp)
        ensures
            1 <= now.month <= 12,
            1 <= now.day <= 31,
    {
        utc_now()
    }
}

/// A response, ready to be written out.
pub struct Response {
    pub status: ResponseStatus,
    pub host_name: String,
    pub date: DateStamp,
    pub body_type: BodyType,
    pub body: String,
}

/// The name under which the server answers.
pub open spec fn server_name() -> Seq<char> {
    "Tree house"@
}

/// The date header's value: year, month and day with hyphens between them,
/// month and day filled to two digits, then a space and the time of day.
pub open spec fn date_text(date: DateStamp) -> Seq<char> {
    decimal_text(date.year as nat) + "-"@ + two_digit_text(date.month as nat) + "-"@
        + two_digit_text(date.day as nat) + " "@ + date.time@
}

/// How many bytes a text takes on the wire.
pub open spec fn byte_length(text: Seq<char>) -> usize {
    encode_utf8(text).len() as usize
}

/// A response as it goes on the wire: the status line, the four headers, an
/// empty line and the body as it is, each line ended by a line feed.
pub open spec fn response_text(r: Response) -> Seq<char> {
    status_line(r.status) + "\nServer: "@ + r.host_name@ + "\nDate: "@ + date_text(r.date)
        + "\nContent-Length: "@ + decimal_text(byte_length(r.body@) as nat)
        + "\nContent-Type: "@ + media_type(r.body_type) + "\n\n"@ + r.body@
}

impl Response {
    /// A response with the given status, kind of body, body and date, under
    /// the server's name.
    pub fn at(status: ResponseStatus, body_type: BodyType, body: &str, date: DateStamp) -> (r:
        Response)
        ensures
            r.status == status,
            r.host_name@ == server_name(),
            r.date == date,
            r.body_type == body_type,
            r.body@ == body@,
    {
        Response {
            status,
            host_name: String::from_str("Tree house"),
            date,
            body_type,
            body: String::from_str(body),
        }
    }

    /// A response with the given status, kind of body and body, dated now.
    pub fn new(status: ResponseStatus, body_type: BodyType, body: &str) -> (r: Response)
        ensures
            r.status == status,
            r.host_name@ == server_name(),
            r.body_type == body_type,
            r.body@ == body@,
            1 <= r.date.month <= 12,
            1 <= r.date.day <= 31,
    {
        Response::at(status, body_type, body, DateStamp::now())
    }

    /// A response that says nothing but its status.
    pub fn status(err: ResponseStatus) -> (r: Response)
        ensures
            r.status == err,
            r.host_name@ == server_name(),
            r.body_type == BodyType::JSON,
            r.body@ == Seq::<char>::empty(),
            1 <= r.date.month <= 12,
            1 <= r.date.day <= 31,
    {
        let r = Response::new(err, BodyType::JSON, "");
        proof {
            reveal_strlit("");
            assert(r.body@ =~= Seq::<char>::empty());
        }
        r
    }

    /// The response as it goes on the wire.
    pub fn to_string(&self) -> (text: String)
        ensures
            text@ == response_text(*self),
    {
        let mut text = self.status.to_string();
        text.append("\nServer: ");
        text.append(self.host_name.as_str());
        text.append("\nDate: ");
        push_decimal(&mut text, self.date.year as u64);
        text.append("-");
        push_two_digits(&mut text, self.date.month as u64);
        text.append("-");
        push_two_digits(&mut text, self.date.day as u64);
        text.append(" ");
        text.append(self.date.time.as_str());
        text.append("\nContent-Length: ");
        push_decimal(&mut text, self.body.as_str().len() as u64);
        text.append("\nContent-Type: ");
        let kind = self.body_type.to_string();
        text.append(kind.as_str());
        text.append("\n\n");
        text.append(self.body.as_str());
        assert(text@ =~= response_text(*self));
        text
    }
}

/// What a player wants done in a tick: a direction held or none, and the
/// buttons that are down.
#[derive(Clone, Copy, Debug, PartialEq, Eq, Structural)]
pub struct CharacterInput {
    pub dir: Option<Direction>,
    pub light_attack: bool,
    pub heavy_attack: bool,
    pub special: bool,
    pub jump: bool,
}

impl CharacterInput {
    /// No direction, no button.
    pub fn new() -> (input: CharacterInput)
        ensures
            input == (CharacterInput {
                dir: None,
                light_attack: false,
                heavy_attack: false,
                special: false,
                jump: false,
            }),
    {
        CharacterInput {
            dir: Option::None,
            light_attack: false,
            heavy_attack: false,
            special: false,
            jump: false,
        }
    }

    /// The input with every button released and the direction as it was.
    pub open spec fn released(self) -> CharacterInput {
        CharacterInput {
            dir: self.dir,
            light_attack: false,
            heavy_attack: false,
            special: false,
            jump: false,
        }
    }

    /// Releases every button; the direction stays.
    pub fn reset(&mut self)
        ensures
            *final(self) == old(self).released(),
    {
        self.light_attack = false;
        self.heavy_attack = false;
        self.special = false;
        self.jump = false;
    }
}

impl Default for CharacterInput {
    fn default() -> (input: CharacterInput)
        ensures
            input == (CharacterInput {
                dir: None,
                light_attack: false,
                heavy_attack: false,
                special: false,
                jump: false,
            }),
    {
        CharacterInput::new()
    }
}

/// A player's input for the coming tick.
#[derive(Clone, Debug)]
pub struct GameControlPacket {
    pub input: CharacterInput,
    pub server_password: String,
    pub player: String,
}

impl GameControlPacket {
    /// The packet that hands `input` in for `player`.
    pub fn new(server_password: String, player: String, input: CharacterInput) -> (packet:
        GameControlPacket)
        ensures
            packet.input == input,
            packet.server_password == server_password,
            packet.player == player,
    {
        GameControlPacket { input, server_password, player }
    }
}

/// A player's wish to control an instance of the given character, or none.
#[derive(Clone, Debug)]
pub struct CharacterSwitchRequest {
    pub server_password: String,
    pub player_name: String,
    pub character: Option<u32>,
}

impl CharacterSwitchRequest {
    /// The request of `player_name` for an instance of `character`, or for none.
    pub fn new(server_password: String, player_name: String, character: Option<u32>) -> (request:
        CharacterSwitchRequest)
        ensures
            request.server_password == server_password,
            request.player_name == player_name,
            request.character == character,
    {
        CharacterSwitchRequest { server_password, player_name, character }
    }
}

/// A player's wish to join under a name.
#[derive(Clone, Debug)]
pub struct JoinRequest {
    pub server_password: String,
    pub player_name: String,
}

impl JoinRequest {
    /// The request to join as `player_name`.
    pub fn new(server_password: String, player_name: String) -> (request: JoinRequest)
        ensures
            request.server_password == server_password,
            request.player_name == player_name,
    {
        JoinRequest { server_password, player_name }
    }
}

} // verus!
