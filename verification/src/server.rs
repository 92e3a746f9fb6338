//! What the request handler decides.
//!
//! The handler reads a request from a connection and answers it. Reading and
//! writing are the caller's part. What the request asks for, and what is
//! answered, is decided here, from the text of the request.

use vstd::prelude::*;
use vstd::string::{StrSliceExecFns, StringExecFns};
use crate::bindings::Bindings;
use crate::define::{MsgType, Pipe};
use crate::device::Device;
use crate::engine::EngineCall;
use crate::error::{description, Error};
use crate::text::{
    chars_of, decimal, decimal_text, find_from, find_text, find_word_end, find_word_start,
    lemma_split_nonempty, matches_at, number_of, parse_number, pieces, ranges_within, same_text,
    split, split_ranges, starts_with, trim_range, trimmed, word_end, word_start,
};

verus! {

/// The two words that a request begins with, as places in its text: where the
/// first word begins and ends, and where the second one does. There are none
/// where the text has less than two words.
pub open spec fn method_and_path(request: Seq<char>) -> Option<(int, int, int, int)> {
    let method_start = word_start(request, 0);
    let method_end = word_end(request, method_start);
    let path_start = word_start(request, method_end);
    let path_end = word_end(request, path_start);
    if method_start < request.len() && path_start < request.len() {
        Some((method_start, method_end, path_start, path_end))
    } else {
        None
    }
}

/// The method and the path of a request: its first two words, where words are
/// what white space separates. A request with less than two words has neither.
pub fn parse_method_and_path(request: &str) -> (parsed: Option<(&str, &str)>)
    ensures
        match method_and_path(request@) {
            Some((method_start, method_end, path_start, path_end)) => parsed matches Some(
                (method, path),
            ) && method@ == request@.subrange(method_start, method_end) && path@
                == request@.subrange(path_start, path_end),
            None => parsed is None,
        },
{
    let chars = chars_of(request);
    let method_start = find_word_start(&chars, 0);
    if method_start >= chars.len() {
        return None;
    }
    let method_end = find_word_end(&chars, method_start);
    let path_start = find_word_start(&chars, method_end);
    if path_start >= chars.len() {
        return None;
    }
    let path_end = find_word_end(&chars, path_start);
    Some(
        (
            request.substring_char(method_start, method_end),
            request.substring_char(path_start, path_end),
        ),
    )
}

/// The place of the last `=` of `piece` before `upto`, if there is one.
pub open spec fn last_equals(piece: Seq<char>, upto: int) -> Option<int>
    decreases upto,
{
    if upto <= 0 || upto > piece.len() {
        None
    } else if piece[upto - 1] == '=' {
        Some(upto - 1)
    } else {
        last_equals(piece, upto - 1)
    }
}

/// The key and the value that one piece of a query gives: what stands before
/// its last `=` and what stands behind it. A piece without `=` gives none.
pub open spec fn pair_of(piece: Seq<char>) -> Option<(Seq<char>, Seq<char>)> {
    match last_equals(piece, piece.len() as int) {
        None => None,
        Some(at) => Some((piece.subrange(0, at), piece.subrange(at + 1, piece.len() as int))),
    }
}

/// Whether one of `params` has the key `key`.
pub open spec fn has_param(params: Seq<(Seq<char>, Seq<char>)>, key: Seq<char>) -> bool {
    exists|i: int| 0 <= i < params.len() && (#[trigger] params[i]).0 == key
}

/// The parameters that the pieces of a query give, in the order in which their
/// keys first occur. Of two pieces with one key the first one counts.
pub open spec fn params_of(parts: Seq<Seq<char>>) -> Seq<(Seq<char>, Seq<char>)>
    decreases parts.len(),
{
    if parts.len() == 0 {
        Seq::empty()
    } else {
        let before = params_of(parts.drop_last());
        match pair_of(parts.last()) {
            None => before,
            Some((key, value)) => if has_param(before, key) {
                before
            } else {
                before.push((key, value))
            },
        }
    }
}

/// The parameters of a query: the pieces between its `&`, each cut at its last
/// `=`.
pub open spec fn query_params(query: Seq<char>) -> Seq<(Seq<char>, Seq<char>)> {
    params_of(split(query, '&'))
}

/// Keys and values, as mathematical values.
pub open spec fn params_view(params: Seq<(String, String)>) -> Seq<(Seq<char>, Seq<char>)> {
    Seq::new(params.len(), |i: int| (params[i].0@, params[i].1@))
}

/// The value of the first of `params` that has the key `key`.
pub open spec fn param_value(params: Seq<(Seq<char>, Seq<char>)>, key: Seq<char>) -> Option<Seq<char>>
    decreases params.len(),
{
    if params.len() == 0 {
        None
    } else if params[0].0 == key {
        Some(params[0].1)
    } else {
        param_value(params.drop_first(), key)
    }
}

/// The place of the last `=` between `from` and `to`, if there is one.
fn find_last_equals(text: &Vec<char>, from: usize, to: usize) -> (found: Option<usize>)
    requires
        from <= to <= text@.len(),
    ensures
        match found {
            Some(at) => from <= at < to && last_equals(
                text@.subrange(from as int, to as int),
                to - from,
            ) == Some(at - from),
            None => last_equals(text@.subrange(from as int, to as int), to - from) is None,
        },
{
    let ghost piece = text@.subrange(from as int, to as int);
    let mut upto: usize = to;
    while upto > from
        invariant
            from <= upto <= to <= text@.len(),
            piece == text@.subrange(from as int, to as int),
            last_equals(piece, to - from) == last_equals(piece, upto - from),
        decreases upto,
    {
        if text[upto - 1] == '=' {
            return Some(upto - 1);
        }
        upto -= 1;
    }
    None
}

/// Whether one of `params` has the key `key`.
fn knows_key(params: &Vec<(String, String)>, key: &String) -> (known: bool)
    ensures
        known == has_param(params_view(params@), key@),
{
    let mut i: usize = 0;
    while i < params.len()
        invariant
            i <= params@.len(),
            forall|j: int| 0 <= j < i ==> (#[trigger] params_view(params@)[j]).0 != key@,
        decreases params@.len() - i,
    {
        if params[i].0 == *key {
            proof {
                assert(params_view(params@)[i as int].0 == key@);
            }
            return true;
        }
        i += 1;
    }
    false
}

/// The parameters of a query, in the order in which their keys first occur.
///
/// The query is cut at each `&`, and each piece at its last `=` into a key and
/// a value. A piece without `=` gives no parameter. Where a key occurs again,
/// the first occurrence stays.
pub fn parse_query_params(query: &str) -> (params: Vec<(String, String)>)
    ensures
        params_view(params@) == query_params(query@),
{
    let chars = chars_of(query);
    let ranges = split_ranges(&chars, '&');
    let ghost parts = split(query@, '&');
    let mut params: Vec<(String, String)> = Vec::new();
    let mut k: usize = 0;
    while k < ranges.len()
        invariant
            k <= ranges@.len(),
            chars@ == query@,
            ranges_within(ranges@, chars@.len()),
            parts == pieces(chars@, ranges@),
            params_view(params@) == params_of(parts.take(k as int)),
        decreases ranges@.len() - k,
    {
        let from = ranges[k].0;
        let to = ranges[k].1;
        proof {
            assert(parts.take(k + 1).drop_last() =~= parts.take(k as int));
        }
        match find_last_equals(&chars, from, to) {
            None => {},
            Some(at) => {
                let key = query.substring_char(from, at).to_owned();
                let value = query.substring_char(at + 1, to).to_owned();
                proof {
                    let piece = chars@.subrange(from as int, to as int);
                    assert(piece.subrange(0, at - from) =~= chars@.subrange(from as int, at as int));
                    assert(piece.subrange(at - from + 1, to - from) =~= chars@.subrange(
                        at + 1,
                        to as int,
                    ));
                }
                if !knows_key(&params, &key) {
                    proof {
                        assert(params_view(params@.push((key, value))) =~= params_view(
                            params@,
                        ).push((key@, value@)));
                    }
                    params.push((key, value));
                }
            },
        }
        k += 1;
    }
    proof {
        assert(parts.take(k as int) =~= parts);
    }
    params
}

/// The value of the parameter `key`, if `params` have it.
pub fn param<'a>(params: &'a Vec<(String, String)>, key: &str) -> (value: Option<&'a str>)
    ensures
        match value {
            Some(text) => param_value(params_view(params@), key@) == Some(text@),
            None => param_value(params_view(params@), key@) is None,
        },
{
    let wanted = key.to_owned();
    let mut i: usize = 0;
    proof {
        assert(params_view(params@).skip(0) =~= params_view(params@));
    }
    while i < params.len()
        invariant
            i <= params@.len(),
            wanted@ == key@,
            param_value(params_view(params@), key@) == param_value(
                params_view(params@).skip(i as int),
                key@,
            ),
        decreases params@.len() - i,
    {
        proof {
            assert(params_view(params@).skip(i as int).drop_first() =~= params_view(params@).skip(
                i + 1,
            ));
        }
        if params[i].0 == wanted {
            return Some(params[i].1.as_str());
        }
        i += 1;
    }
    None
}

/// The status of an answer that reports a failure.
pub const STATUS_FAILED: i32 = 500;

/// What is answered to a request: a status and a plain text.
#[derive(Debug, PartialEq, Eq)]
pub struct Response {
    pub status: i32,
    pub body: String,
}

/// The text of an answer as it is written to the connection: the status line,
/// the content type, an empty line and the body.
pub open spec fn rendered(status: i32, body: Seq<char>) -> Seq<char> {
    "HTTP/1.1 "@ + decimal(status as int) + (if status == STATUS_FAILED {
        " Internal Server Error"@
    } else {
        " ok"@
    }) + "\r\nContent-Type: text/plain\r\n\r\n"@ + body
}

/// The body that confirms that the script was loaded into `package`.
pub open spec fn confirmation(package: Seq<char>) -> Seq<char> {
    "Script Loaded in "@ + package + " Successfully"@
}

impl Response {
    /// The answer that reports a failure in the words `message`.
    pub fn failed(message: &str) -> (response: Response)
        ensures
            response.status == STATUS_FAILED,
            response.body@ == message@,
    {
        Response { status: STATUS_FAILED, body: message.to_owned() }
    }

    /// The answer that confirms, with the status `status`, that the script was
    /// loaded into `package`.
    pub fn loaded(status: i32, package: &str) -> (response: Response)
        ensures
            response.status == status,
            response.body@ == confirmation(package@),
    {
        let mut body = "Script Loaded in ".to_owned();
        body.append(package);
        body.append(" Successfully");
        Response { status, body }
    }

    /// The text of the answer as it is written to the connection.
    pub fn render(&self) -> (text: String)
        ensures
            text@ == rendered(self.status, self.body@),
    {
        let mut text = "HTTP/1.1 ".to_owned();
        let number = decimal_text(self.status as i64);
        text.append(number.as_str());
        if self.status == STATUS_FAILED {
            text.append(" Internal Server Error");
        } else {
            text.append(" ok");
        }
        text.append("\r\nContent-Type: text/plain\r\n\r\n");
        text.append(self.body.as_str());
        text
    }
}

/// The answer to a request for which the engine was asked to load the script:
/// the confirmation with the status and the name of the process, or the
/// failure in its own words.
pub fn respond(outcome: &Result<(i32, String), Error>) -> (response: Response)
    ensures
        match *outcome {
            Ok((status, package)) => response.status == status && response.body@ == confirmation(
                package@,
            ),
            Err(error) => response.status == STATUS_FAILED && response.body@ == description(error@),
        },
{
    match outcome {
        Ok((status, package)) => Response::loaded(*status, package.as_str()),
        Err(error) => {
            let words = error.describe();
            Response::failed(words.as_str())
        },
    }
}

/// What is to be done for a request.
#[derive(Debug, PartialEq, Eq)]
pub enum Plan {
    /// The text is no request: answer with the plain text `ok`.
    Acknowledge,
    /// The request asks for nothing that is served: no answer.
    Ignore,
    /// The request cannot be served: answer with this.
    Reject(Response),
    /// Send `notice`, which carries the pid as the request gave it, to the
    /// watchdog, then load `script` into the process `pid`; `package`, if there
    /// is one, is the name to watch from now on.
    Attach { pid: u32, script: String, notice: Pipe<String>, package: Option<String> },
}

/// A [`Plan`], as a mathematical value.
pub enum Decision {
    Acknowledge,
    Ignore,
    Reject { status: i32, body: Seq<char> },
    Attach { pid: u32, script: Seq<char>, notice: (MsgType, Seq<char>), package: Option<Seq<char>> },
}

impl Plan {
    /// Whether the connection is closed once the request is answered: it is
    /// after a request that was rejected.
    pub fn closes_connection(&self) -> (closes: bool)
        ensures
            closes == (self@ is Reject),
    {
        match self {
            Plan::Reject(_) => true,
            _ => false,
        }
    }
}

impl View for Plan {
    type V = Decision;

    open spec fn view(&self) -> Decision {
        match *self {
            Plan::Acknowledge => Decision::Acknowledge,
            Plan::Ignore => Decision::Ignore,
            Plan::Reject(response) => Decision::Reject {
                status: response.status,
                body: response.body@,
            },
            Plan::Attach { pid, script, notice, package } => Decision::Attach {
                pid,
                script: script@,
                notice: (notice.msg, notice.payload@),
                package: match package {
                    Some(name) => Some(name@),
                    None => None,
                },
            },
        }
    }
}

/// What separates the head of a request from its body.
pub open spec fn blank_line() -> Seq<char> {
    seq!['\r', '\n', '\r', '\n']
}

/// What is to be done for a `POST` request with the path `path` and the body
/// `body`.
///
/// Without a body there is no script to load. The pid of the process stands in
/// the query of the path, which is what stands between its first and its
/// second `?`, under the key `pid`, as a number.
pub open spec fn decide_post(path: Seq<char>, body: Seq<char>) -> Decision {
    if body.len() == 0 {
        Decision::Reject { status: STATUS_FAILED, body: "No Script Provided!"@ }
    } else if split(path, '?').len() < 2 {
        Decision::Reject { status: STATUS_FAILED, body: "No Pid Provided!"@ }
    } else {
        let params = query_params(split(path, '?')[1]);
        match param_value(params, "pid"@) {
            None => Decision::Reject { status: STATUS_FAILED, body: "No Pid Provided!"@ },
            Some(text) => match number_of(text, u32::MAX as nat) {
                None => Decision::Reject { status: STATUS_FAILED, body: "No Pid Provided!"@ },
                Some(pid) => Decision::Attach {
                    pid: pid as u32,
                    script: body,
                    notice: (MsgType::Socket, text),
                    package: param_value(params, "gg"@),
                },
            },
        }
    }
}

/// What is to be done for the request `request`.
///
/// A text with less than two words is no request. Of the requests only those
/// with the method `POST` and an empty line behind the head are served; the
/// body is what follows the first empty line.
pub open spec fn decide(request: Seq<char>) -> Decision {
    match method_and_path(request) {
        None => Decision::Acknowledge,
        Some((method_start, method_end, path_start, path_end)) => if request.subrange(
            method_start,
            method_end,
        ) != "POST"@ {
            Decision::Ignore
        } else {
            match find_from(request, blank_line(), 0) {
                None => Decision::Ignore,
                Some(at) => decide_post(
                    request.subrange(path_start, path_end),
                    request.subrange(at + 4, request.len() as int),
                ),
            }
        },
    }
}

/// Decides what is to be done for a `POST` request with the path `path` and
/// the body `body`.
pub fn plan_post(path: &str, body: &str) -> (plan: Plan)
    ensures
        plan@ == decide_post(path@, body@),
{
    let body_chars = chars_of(body);
    if body_chars.len() == 0 {
        return Plan::Reject(Response::failed("No Script Provided!"));
    }
    let path_chars = chars_of(path);
    let ranges = split_ranges(&path_chars, '?');
    if ranges.len() < 2 {
        return Plan::Reject(Response::failed("No Pid Provided!"));
    }
    let query = path.substring_char(ranges[1].0, ranges[1].1);
    let params = parse_query_params(query);
    let text = match param(&params, "pid") {
        Some(text) => text,
        None => {
            return Plan::Reject(Response::failed("No Pid Provided!"));
        },
    };
    let digits = chars_of(text);
    proof {
        assert(digits@.subrange(0, digits@.len() as int) =~= digits@);
    }
    let pid = match parse_number(&digits, 0, digits.len(), 0xffff_ffff) {
        Some(pid) => pid as u32,
        None => {
            return Plan::Reject(Response::failed("No Pid Provided!"));
        },
    };
    let package = match param(&params, "gg") {
        Some(name) => Some(name.to_owned()),
        None => None,
    };
    Plan::Attach {
        pid,
        script: body.to_owned(),
        notice: Pipe { msg: MsgType::Socket, payload: text.to_owned() },
        package,
    }
}

/// Decides what is to be done for the request `request`.
pub fn plan(request: &str) -> (plan: Plan)
    ensures
        plan@ == decide(request@),
{
    let (method, path) = match parse_method_and_path(request) {
        Some(parsed) => parsed,
        None => {
            return Plan::Acknowledge;
        },
    };
    if !same_text(method, "POST") {
        return Plan::Ignore;
    }
    let chars = chars_of(request);
    let separator = chars_of("\r\n\r\n");
    proof {
        reveal_strlit("\r\n\r\n");
        assert("\r\n\r\n"@ =~= blank_line());
    }
    match find_text(&chars, &separator) {
        None => Plan::Ignore,
        Some(at) => {
            let end = chars.len();
            let body = request.substring_char(at + 4, end);
            plan_post(path, body)
        },
    }
}

/// The message that tells the watchdog to watch the application `package`.
pub fn retarget(package: &str) -> (message: Pipe<String>)
    ensures
        message.msg == MsgType::GameGuardian,
        message.payload@ == package@,
{
    Pipe { msg: MsgType::GameGuardian, payload: package.to_owned() }
}

/// The message with which the handler answers a message of the watchdog: an
/// empty one of its own kind.
pub fn acknowledge(message: &Pipe<String>) -> (answer: Pipe<String>)
    ensures
        answer.msg == MsgType::Socket,
        answer.payload@ == Seq::<char>::empty(),
{
    Pipe { msg: MsgType::Socket, payload: String::new() }
}

/// Begins the way to the script `script` loaded into the process `pid` on
/// `device`, and says the first call to make into the engine.
pub fn start_frida_bindings(device: &Device, pid: u32, script: &str) -> (begun: (Bindings, EngineCall))
    ensures
        begun.0@ == crate::bindings::initial(device@.handle, pid, script@, false),
        begun.1 == (EngineCall::EnumerateProcesses { device: device@.handle }),
{
    Bindings::begin(device, pid, script, false)
}

/// The text in lower case, as `str::to_lowercase` gives it.
pub uninterp spec fn lowercase(text: Seq<char>) -> Seq<char>;

/// `str::to_lowercase`: the text with each character replaced by its lower
/// case form as Unicode defines it. The result depends on the text alone.
#[verifier::external_body]
fn to_lowercase(text: &str) -> (lower: String)
    ensures
        lower@ == lowercase(text@),
{
    text.to_lowercase()
}

/// The line without the carriage return that it ends with, if it ends with
/// one.
pub open spec fn without_return(line: Seq<char>) -> Seq<char> {
    if line.len() > 0 && line.last() == '\r' {
        line.drop_last()
    } else {
        line
    }
}

/// The lines of a text. A line ends with a line feed, or with a carriage
/// return and a line feed, neither of which belongs to it. What follows the
/// last line feed is a line too unless it is empty.
pub open spec fn lines_of(text: Seq<char>) -> Seq<Seq<char>> {
    let parts = split(text, '\n');
    let ended = Seq::new((parts.len() - 1) as nat, |i: int| without_return(parts[i]));
    if parts.last().len() == 0 {
        ended
    } else {
        ended.push(parts.last())
    }
}

/// Whether a line, put in lower case, begins like the header that gives the
/// length of the body.
pub open spec fn names_length(lowered: Seq<char>) -> bool {
    starts_with(lowered, "content-length:"@)
}

/// The first of `lines` from `from` on that is the header that gives the
/// length of the body.
pub open spec fn length_header(lines: Seq<Seq<char>>, from: int) -> Option<int>
    decreases lines.len() - from,
{
    if from < 0 || from >= lines.len() {
        None
    } else if names_length(lowercase(lines[from])) {
        Some(from)
    } else {
        length_header(lines, from + 1)
    }
}

/// The number that a header line gives: what stands between its first and its
/// second colon, without the white space around it, read as a number.
pub open spec fn length_value(line: Seq<char>) -> Option<nat> {
    if split(line, ':').len() < 2 {
        None
    } else {
        number_of(trimmed(split(line, ':')[1]), usize::MAX as nat)
    }
}

/// The length of the body that a request announces: the number of the first
/// line that begins, in whatever case, with `content-length:`.
pub open spec fn content_length(request: Seq<char>) -> Option<nat> {
    match length_header(lines_of(request), 0) {
        None => None,
        Some(at) => length_value(lines_of(request)[at]),
    }
}

/// Whether a line that was put in lower case begins like the header that gives
/// the length of the body.
pub fn is_length_header(lowered: &str) -> (named: bool)
    ensures
        named == names_length(lowered@),
{
    let chars = chars_of(lowered);
    let prefix = chars_of("content-length:");
    matches_at(&chars, &prefix, 0)
}

/// The number that a header line gives.
pub fn parse_length_value(line: &str) -> (length: Option<usize>)
    ensures
        match length {
            Some(n) => length_value(line@) == Some(n as nat),
            None => length_value(line@) is None,
        },
{
    let chars = chars_of(line);
    let ranges = split_ranges(&chars, ':');
    if ranges.len() < 2 {
        return None;
    }
    let (from, to) = trim_range(&chars, ranges[1].0, ranges[1].1);
    match parse_number(&chars, from, to, usize::MAX as u64) {
        Some(n) => Some(n as usize),
        None => None,
    }
}

/// The length of the body that a request announces, if it announces one.
pub fn get_content_length(request: &str) -> (length: Option<usize>)
    ensures
        match length {
            Some(n) => content_length(request@) == Some(n as nat),
            None => content_length(request@) is None,
        },
{
    let chars = chars_of(request);
    let ranges = split_ranges(&chars, '\n');
    let ghost parts = split(request@, '\n');
    let ghost lines = lines_of(request@);
    proof {
        lemma_split_nonempty(request@, '\n');
    }
    let count = ranges.len();
    let mut k: usize = 0;
    while k < count
        invariant
            k <= count,
            count == ranges@.len(),
            count >= 1,
            chars@ == request@,
            ranges_within(ranges@, chars@.len()),
            parts == pieces(chars@, ranges@),
            parts == split(request@, '\n'),
            lines == lines_of(request@),
            length_header(lines, 0) == length_header(lines, k as int),
        decreases count - k,
    {
        let from = ranges[k].0;
        let mut to = ranges[k].1;
        if k + 1 == count {
            if from == to {
                return None;
            }
        } else {
            if from < to && chars[to - 1] == '\r' {
                proof {
                    assert(parts[k as int].drop_last() =~= chars@.subrange(from as int, to - 1));
                }
                to = to - 1;
            }
        }
        let line = request.substring_char(from, to);
        let lowered = to_lowercase(line);
        if is_length_header(lowered.as_str()) {
            return parse_length_value(line);
        }
        k += 1;
    }
    None
}

/// The first occurrence of a key counts: under the key of a piece that no
/// earlier piece gives the key of, the parameters hold the value of that piece.
pub proof fn lemma_first_occurrence_counts(
    parts: Seq<Seq<char>>,
    i: int,
    key: Seq<char>,
    value: Seq<char>,
)
    requires
        0 <= i < parts.len(),
        pair_of(parts[i]) == Some((key, value)),
        forall|j: int| 0 <= j < i ==> !gives_key(#[trigger] parts[j], key),
    ensures
        param_value(params_of(parts), key) == Some(value),
    decreases parts.len(),
{
    let before = parts.drop_last();
    if i < parts.len() - 1 {
        assert forall|j: int| 0 <= j < i implies !gives_key(#[trigger] before[j], key) by {
            assert(parts[j] == before[j]);
        }
        assert(before[i] == parts[i]);
        lemma_first_occurrence_counts(before, i, key, value);
        lemma_param_value_has(params_of(before), key);
        match pair_of(parts.last()) {
            Some((other, given)) => {
                if !has_param(params_of(before), other) {
                    lemma_param_value_push(params_of(before), (other, given), key);
                }
            },
            None => {},
        }
    } else {
        lemma_params_keys(before, key);
        if has_param(params_of(before), key) {
            let j = choose|j: int| 0 <= j < before.len() && gives_key(#[trigger] before[j], key);
            assert(parts[j] == before[j]);
        }
        lemma_param_value_has(params_of(before), key);
        lemma_param_value_push(params_of(before), (key, value), key);
    }
}

/// Whether the piece gives a parameter with the key `key`.
pub open spec fn gives_key(piece: Seq<char>, key: Seq<char>) -> bool {
    match pair_of(piece) {
        Some((found, _)) => found == key,
        None => false,
    }
}

/// The parameters have a key exactly when a piece gives it.
pub proof fn lemma_params_keys(parts: Seq<Seq<char>>, key: Seq<char>)
    ensures
        has_param(params_of(parts), key) <==> exists|j: int|
            0 <= j < parts.len() && gives_key(#[trigger] parts[j], key),
    decreases parts.len(),
{
    if parts.len() > 0 {
        let before = parts.drop_last();
        lemma_params_keys(before, key);
        let given = exists|j: int| 0 <= j < parts.len() && gives_key(#[trigger] parts[j], key);
        let given_before = exists|j: int| 0 <= j < before.len() && gives_key(#[trigger] before[j], key);
        if given_before {
            let j = choose|j: int| 0 <= j < before.len() && gives_key(#[trigger] before[j], key);
            assert(gives_key(parts[j], key));
        }
        if given && !given_before {
            let j = choose|j: int| 0 <= j < parts.len() && gives_key(#[trigger] parts[j], key);
            if j < before.len() {
                assert(gives_key(before[j], key));
            }
        }
        if gives_key(parts.last(), key) {
            assert(gives_key(parts[parts.len() - 1], key));
        }
        match pair_of(parts.last()) {
            Some((other, value)) => {
                let all = params_of(before).push((other, value));
                if has_param(params_of(before), key) {
                    let k = choose|k: int| 0 <= k < params_of(before).len() && (#[trigger] params_of(before)[k]).0 == key;
                    assert(all[k].0 == key);
                }
                if !has_param(params_of(before), other) {
                    assert(all[all.len() - 1].0 == other);
                    if has_param(all, key) {
                        let k = choose|k: int| 0 <= k < all.len() && (#[trigger] all[k]).0 == key;
                        if k < params_of(before).len() {
                            assert(params_of(before)[k].0 == key);
                        }
                    }
                }
            },
            None => {},
        }
    }
}

/// A key has a value among the parameters exactly when one of them has the key.
pub proof fn lemma_param_value_has(params: Seq<(Seq<char>, Seq<char>)>, key: Seq<char>)
    ensures
        param_value(params, key) is Some <==> has_param(params, key),
    decreases params.len(),
{
    if params.len() > 0 {
        lemma_param_value_has(params.drop_first(), key);
        if has_param(params, key) && params[0].0 != key {
            let k = choose|k: int| 0 <= k < params.len() && (#[trigger] params[k]).0 == key;
            assert(params.drop_first()[k - 1].0 == key);
        }
        if has_param(params.drop_first(), key) {
            let k = choose|k: int| 0 <= k < params.drop_first().len() && (#[trigger] params.drop_first()[k]).0 == key;
            assert(params[k + 1].0 == key);
        }
        if params[0].0 == key {
            assert(params[0].0 == key);
        }
    }
}

/// A parameter that is put behind the others gives the value of its key where
/// none of the others has that key, and changes no value that they give.
pub proof fn lemma_param_value_push(
    params: Seq<(Seq<char>, Seq<char>)>,
    last: (Seq<char>, Seq<char>),
    key: Seq<char>,
)
    ensures
        param_value(params.push(last), key) == match param_value(params, key) {
            Some(value) => Some(value),
            None => if last.0 == key {
                Some(last.1)
            } else {
                None
            },
        },
    decreases params.len(),
{
    if params.len() > 0 {
        assert(params.push(last).drop_first() =~= params.drop_first().push(last));
        lemma_param_value_push(params.drop_first(), last, key);
    } else {
        assert(params.push(last).drop_first() =~= params);
    }
}

} // verus!
