use crate::http::method::{spec_method_of, Method};
use crate::text::{find_byte, find_char, lemma_spec_find_byte, parse_usize, spec_find,
    spec_find_byte, spec_parse_usize, spec_trim, str_eq, tokenize, trim_str, ws_tokens};
use vstd::prelude::*;
use vstd::string::{StrSliceExecFns, StringExecFns};
use vstd::utf8::{decode_utf8, valid_utf8};

verus! {

/// One request per connection: the parsed request line, the header
/// mapping (last occurrence of a name wins), and the body, present only
/// when a positive `Content-Length` announced one.
#[derive(Debug)]
pub struct Request {
    pub method: Method,
    pub path: String,
    pub headers: Vec<(String, String)>,
    pub body: Option<String>,
}

/// The mathematical shape of a parsed request.
pub ghost struct ReqModel {
    pub method: Method,
    pub path: Seq<char>,
    pub headers: Seq<(Seq<char>, Seq<char>)>,
    pub body: Option<Seq<char>>,
}

/// The header pairs at the character level.
pub open spec fn hview(hs: Seq<(String, String)>) -> Seq<(Seq<char>, Seq<char>)> {
    hs.map_values(|p: (String, String)| (p.0@, p.1@))
}

impl View for Request {
    type V = ReqModel;

    open spec fn view(&self) -> ReqModel {
        ReqModel {
            method: self.method,
            path: self.path@,
            headers: hview(self.headers@),
            body: match self.body {
                Some(b) => Some(b@),
                None => None,
            },
        }
    }
}

/// What one pass over the available bytes can say.
pub ghost enum SpecParse {
    Complete(ReqModel),
    Incomplete,
    Malformed,
}

/// The position of the first stored header with this name, if any.
pub open spec fn spec_find_hdr(hs: Seq<(Seq<char>, Seq<char>)>, name: Seq<char>) -> Option<int>
    decreases hs.len(),
{
    if hs.len() == 0 {
        None
    } else if hs[0].0 == name {
        Some(0)
    } else {
        match spec_find_hdr(hs.drop_first(), name) {
            Some(i) => Some(i + 1),
            None => None,
        }
    }
}

proof fn lemma_spec_find_hdr(hs: Seq<(Seq<char>, Seq<char>)>, name: Seq<char>)
    ensures
        match spec_find_hdr(hs, name) {
            Some(i) => 0 <= i < hs.len() && hs[i].0 == name && forall|k: int|
                0 <= k < i ==> hs[k].0 != name,
            None => forall|k: int| 0 <= k < hs.len() ==> hs[k].0 != name,
        },
    decreases hs.len(),
{
    if hs.len() > 0 && hs[0].0 != name {
        let t = hs.drop_first();
        lemma_spec_find_hdr(t, name);
        assert(forall|k: int| 0 <= k < t.len() ==> t[k] == hs[k + 1]);
        match spec_find_hdr(t, name) {
            Some(i) => {
                assert(hs[i + 1].0 == name);
                assert forall|k: int| 0 <= k < i + 1 implies hs[k].0 != name by {
                    if k > 0 {
                        assert(t[k - 1].0 != name);
                    }
                }
            },
            None => {
                assert forall|k: int| 0 <= k < hs.len() implies hs[k].0 != name by {
                    if k > 0 {
                        assert(t[k - 1].0 != name);
                    }
                }
            },
        }
    }
}

/// The position of the stored header with this name, if any.
fn find_hdr(headers: &Vec<(String, String)>, name: &str) -> (r: Option<usize>)
    ensures
        (r matches Some(i) ==> spec_find_hdr(hview(headers@), name@) == Some(i as int) && i
            < headers@.len()),
        (r is None ==> spec_find_hdr(hview(headers@), name@) is None),
{
    let ghost hv = hview(headers@);
    let n = headers.len();
    let mut i: usize = 0;
    while i < n
        invariant
            i <= n,
            n == headers@.len(),
            hv == hview(headers@),
            forall|k: int| 0 <= k < i ==> hv[k].0 != name@,
        decreases n - i,
    {
        if str_eq(headers[i].0.as_str(), name) {
            proof {
                assert(hv[i as int].0 == headers@[i as int].0@);
                lemma_spec_find_hdr(hv, name@);
                match spec_find_hdr(hv, name@) {
                    Some(j) => {
                        if j < i {
                            assert(hv[j].0 != name@);
                        }
                        if j > i {
                            assert(hv[i as int].0 != name@);
                        }
                    },
                    None => {
                        assert(hv[i as int].0 != name@);
                    },
                }
            }
            return Some(i);
        }
        proof {
            assert(hv[i as int].0 == headers@[i as int].0@);
        }
        i += 1;
    }
    proof {
        lemma_spec_find_hdr(hv, name@);
        match spec_find_hdr(hv, name@) {
            Some(j) => {
                assert(hv[j].0 != name@);
            },
            None => {},
        }
    }
    None
}

/// The value of the last header with this name, if any: a later
/// occurrence of a name overwrites an earlier one.
pub open spec fn spec_lookup_last(hs: Seq<(Seq<char>, Seq<char>)>, name: Seq<char>) -> Option<
    Seq<char>,
>
    decreases hs.len(),
{
    if hs.len() == 0 {
        None
    } else if hs.last().0 == name {
        Some(hs.last().1)
    } else {
        spec_lookup_last(hs.drop_last(), name)
    }
}

proof fn lemma_lookup_last_at(hs: Seq<(Seq<char>, Seq<char>)>, name: Seq<char>, i: int)
    requires
        0 <= i < hs.len(),
        hs[i].0 == name,
        forall|j: int| i < j < hs.len() ==> hs[j].0 != name,
    ensures
        spec_lookup_last(hs, name) == Some(hs[i].1),
    decreases hs.len(),
{
    if i == hs.len() - 1 {
    } else {
        assert(hs.last().0 != name);
        assert(hs.drop_last()[i] == hs[i]);
        lemma_lookup_last_at(hs.drop_last(), name, i);
    }
}

proof fn lemma_lookup_last_none(hs: Seq<(Seq<char>, Seq<char>)>, name: Seq<char>)
    requires
        forall|j: int| 0 <= j < hs.len() ==> hs[j].0 != name,
    ensures
        spec_lookup_last(hs, name) is None,
    decreases hs.len(),
{
    if hs.len() > 0 {
        lemma_lookup_last_none(hs.drop_last(), name);
    }
}

/// The value of the last header with this name, if any.
fn lookup_last_hdr(headers: &Vec<(String, String)>, name: &str) -> (r: Option<String>)
    ensures
        (r matches Some(v) ==> spec_lookup_last(hview(headers@), name@) == Some(v@)),
        (r is None ==> spec_lookup_last(hview(headers@), name@) is None),
{
    let mut idx = headers.len();
    while idx > 0
        invariant
            idx <= headers@.len(),
            forall|j: int| idx <= j < headers@.len() ==> hview(headers@)[j].0 != name@,
        decreases idx,
    {
        idx -= 1;
        if str_eq(headers[idx].0.as_str(), name) {
            let v = headers[idx].1.clone();
            proof {
                lemma_lookup_last_at(hview(headers@), name@, idx as int);
            }
            return Some(v);
        }
        proof {
            assert(hview(headers@)[idx as int].0 == headers@[idx as int].0@);
        }
    }
    proof {
        lemma_lookup_last_none(hview(headers@), name@);
    }
    None
}

/// Names the characters `String::from_utf8_lossy` yields for a byte
/// sequence; on valid input they are the decoded characters.
pub uninterp spec fn lossy_of(b: Seq<u8>) -> Seq<char>;

/// Relies on String::from_utf8: it succeeds exactly on valid UTF-8 and
/// yields the decoded characters.
#[verifier::external_body]
fn utf8_to_string(b: &[u8]) -> (r: Option<String>)
    ensures
        (r matches Some(s) ==> valid_utf8(b@) && s@ == decode_utf8(b@)),
        (r is None ==> !valid_utf8(b@)),
{
    String::from_utf8(b.to_vec()).ok()
}

/// Relies on String::from_utf8_lossy: the result is a function of the
/// bytes alone, and valid UTF-8 comes back decoded, unchanged.
#[verifier::external_body]
fn lossy_to_string(b: &[u8]) -> (r: String)
    ensures
        r@ == lossy_of(b@),
        valid_utf8(b@) ==> r@ == decode_utf8(b@),
{
    String::from_utf8_lossy(b).into_owned()
}

/// Where the line that starts at `from` ends: just after the first line
/// feed, or at the end of the input when none follows.
pub open spec fn spec_line_end(input: Seq<u8>, from: int) -> int {
    match spec_find_byte(input, from, 10) {
        Some(i) => i + 1,
        None => input.len() as int,
    }
}

/// What the stored header pairs become after one header line: a line with
/// a colon stores the trimmed name and value, a repeated name overwriting
/// the value it already has; any other line is ignored.
pub open spec fn spec_header_step(acc: Seq<(Seq<char>, Seq<char>)>, chars: Seq<char>) -> Seq<
    (Seq<char>, Seq<char>),
> {
    match spec_find(chars, ':') {
        Some(ci) => {
            let name = spec_trim(chars.take(ci));
            let value = spec_trim(chars.skip(ci + 1));
            match spec_find_hdr(acc, name) {
                Some(i) => acc.update(i, (name, value)),
                None => acc.push((name, value)),
            }
        },
        None => acc,
    }
}

/// The request once the header section is done, reading at `from`: a
/// positive `Content-Length` asks for exactly that many body bytes, and a
/// stream that ends before they arrive fails the parse.
pub open spec fn spec_finish(
    input: Seq<u8>,
    from: int,
    eof: bool,
    m: Method,
    path: Seq<char>,
    hdrs: Seq<(Seq<char>, Seq<char>)>,
) -> SpecParse {
    let bare = ReqModel { method: m, path: path, headers: hdrs, body: None };
    match spec_lookup_last(hdrs, "Content-Length"@) {
        Some(v) => match spec_parse_usize(v) {
            Some(len) => if len > 0 {
                if input.len() - from >= len {
                    SpecParse::Complete(
                        ReqModel {
                            method: m,
                            path: path,
                            headers: hdrs,
                            body: Some(lossy_of(input.subrange(from, from + len))),
                        },
                    )
                } else if eof {
                    SpecParse::Malformed
                } else {
                    SpecParse::Incomplete
                }
            } else {
                SpecParse::Complete(bare)
            },
            None => SpecParse::Complete(bare),
        },
        None => SpecParse::Complete(bare),
    }
}

#[via_fn]
proof fn spec_parse_headers_dec(
    input: Seq<u8>,
    from: int,
    eof: bool,
    m: Method,
    path: Seq<char>,
    acc: Seq<(Seq<char>, Seq<char>)>,
) {
    if 0 <= from <= input.len() {
        lemma_spec_find_byte(input, from, 10);
    }
}

/// The header section, one line at a time, until the bare CRLF line or
/// the end of the input.
pub open spec fn spec_parse_headers(
    input: Seq<u8>,
    from: int,
    eof: bool,
    m: Method,
    path: Seq<char>,
    acc: Seq<(Seq<char>, Seq<char>)>,
) -> SpecParse
    decreases input.len() - from
        when 0 <= from <= input.len()
        via spec_parse_headers_dec
{
    if from == input.len() {
        if eof {
            spec_finish(input, from, eof, m, path, acc)
        } else {
            SpecParse::Incomplete
        }
    } else if spec_find_byte(input, from, 10) is None && !eof {
        SpecParse::Incomplete
    } else {
        let lend = spec_line_end(input, from);
        let line = input.subrange(from, lend);
        if line == seq![13u8, 10u8] {
            spec_finish(input, lend, eof, m, path, acc)
        } else if !valid_utf8(line) {
            SpecParse::Malformed
        } else {
            spec_parse_headers(input, lend, eof, m, path, spec_header_step(
                acc,
                decode_utf8(line),
            ))
        }
    }
}

/// One pass of the parser over the bytes read so far. The request line
/// needs a method token the service knows and a path token; header lines
/// are name-colon-value, later names winning; a positive `Content-Length`
/// asks for exactly that many body bytes.
pub open spec fn spec_parse(input: Seq<u8>, eof: bool) -> SpecParse {
    if input.len() == 0 {
        if eof {
            SpecParse::Malformed
        } else {
            SpecParse::Incomplete
        }
    } else if spec_find_byte(input, 0, 10) is None && !eof {
        SpecParse::Incomplete
    } else {
        let lend = spec_line_end(input, 0);
        let line = input.subrange(0, lend);
        if !valid_utf8(line) {
            SpecParse::Malformed
        } else {
            let toks = ws_tokens(decode_utf8(line));
            if toks.len() < 2 {
                SpecParse::Malformed
            } else {
                match spec_method_of(toks[0]) {
                    None => SpecParse::Malformed,
                    Some(m) => spec_parse_headers(input, lend, eof, m, toks[1], Seq::empty()),
                }
            }
        }
    }
}

/// What one pass over the bytes read so far produced.
pub enum ParseOutcome {
    Parsed(Request),
    NeedMore,
    Bad,
}

fn finish_parse(
    data: &[u8],
    from: usize,
    eof: bool,
    method: Method,
    path: String,
    headers: Vec<(String, String)>,
) -> (r: ParseOutcome)
    requires
        from <= data@.len(),
    ensures
        (r matches ParseOutcome::Parsed(req) ==> spec_finish(
            data@,
            from as int,
            eof,
            method,
            path@,
            hview(headers@),
        ) == SpecParse::Complete(req@)),
        (r matches ParseOutcome::NeedMore ==> spec_finish(
            data@,
            from as int,
            eof,
            method,
            path@,
            hview(headers@),
        ) == SpecParse::Incomplete),
        (r matches ParseOutcome::Bad ==> spec_finish(
            data@,
            from as int,
            eof,
            method,
            path@,
            hview(headers@),
        ) == SpecParse::Malformed),
{
    let cl = lookup_last_hdr(&headers, "Content-Length");
    match cl {
        Some(v) => {
            match parse_usize(v.as_str()) {
                Some(len) => {
                    if len > 0 {
                        if data.len() - from >= len {
                            let body = lossy_to_string(&data[from..from + len]);
                            let req = Request { method, path, headers, body: Some(body) };
                            ParseOutcome::Parsed(req)
                        } else if eof {
                            ParseOutcome::Bad
                        } else {
                            ParseOutcome::NeedMore
                        }
                    } else {
                        ParseOutcome::Parsed(Request { method, path, headers, body: None })
                    }
                },
                None => ParseOutcome::Parsed(Request { method, path, headers, body: None }),
            }
        },
        None => ParseOutcome::Parsed(Request { method, path, headers, body: None }),
    }
}

/// One pass of the parser over the bytes read so far. `eof` says the
/// stream has ended, so a line or body can no longer grow.
pub fn parse_bytes(data: &[u8], eof: bool) -> (r: ParseOutcome)
    ensures
        (r matches ParseOutcome::Parsed(req) ==> spec_parse(data@, eof) == SpecParse::Complete(
            req@,
        )),
        (r matches ParseOutcome::NeedMore ==> spec_parse(data@, eof) == SpecParse::Incomplete),
        (r matches ParseOutcome::Bad ==> spec_parse(data@, eof) == SpecParse::Malformed),
{
    let n = data.len();
    if n == 0 {
        return if eof {
            ParseOutcome::Bad
        } else {
            ParseOutcome::NeedMore
        };
    }
    let first_nl = find_byte(data, 0, 10);
    let lend: usize = match first_nl {
        Some(i) => i + 1,
        None => {
            if !eof {
                return ParseOutcome::NeedMore;
            }
            n
        },
    };
    proof {
        lemma_spec_find_byte(data@, 0, 10);
        assert(lend as int == spec_line_end(data@, 0));
    }
    let line = match utf8_to_string(&data[0..lend]) {
        Some(s) => s,
        None => {
            return ParseOutcome::Bad;
        },
    };
    let toks = tokenize(line.as_str());
    if toks.len() < 2 {
        return ParseOutcome::Bad;
    }
    proof {
        assert(toks@.map_values(|t: String| t@)[0] == toks@[0]@);
        assert(toks@.map_values(|t: String| t@)[1] == toks@[1]@);
    }
    let method = match Method::from_token(toks[0].as_str()) {
        Some(m) => m,
        None => {
            return ParseOutcome::Bad;
        },
    };
    let path = toks[1].clone();
    let mut headers: Vec<(String, String)> = Vec::new();
    let mut from: usize = lend;
    proof {
        assert(hview(headers@) =~= Seq::<(Seq<char>, Seq<char>)>::empty());
    }
    loop
        invariant
            from <= n,
            n == data@.len(),
            spec_parse(data@, eof) == spec_parse_headers(
                data@,
                from as int,
                eof,
                method,
                path@,
                hview(headers@),
            ),
        decreases n - from,
    {
        if from == n {
            if eof {
                return finish_parse(data, from, eof, method, path, headers);
            } else {
                return ParseOutcome::NeedMore;
            }
        }
        let nl = find_byte(data, from, 10);
        let lend2: usize = match nl {
            Some(i) => i + 1,
            None => {
                if !eof {
                    return ParseOutcome::NeedMore;
                }
                n
            },
        };
        proof {
            lemma_spec_find_byte(data@, from as int, 10);
            assert(lend2 as int == spec_line_end(data@, from as int));
        }
        let ghost lseq = data@.subrange(from as int, lend2 as int);
        if lend2 - from == 2 && data[from] == 13 && data[from + 1] == 10 {
            proof {
                assert(lseq =~= seq![13u8, 10u8]);
            }
            return finish_parse(data, lend2, eof, method, path, headers);
        }
        proof {
            if lseq == seq![13u8, 10u8] {
                assert(lseq.len() == 2);
                assert(data@[from as int] == lseq[0]);
                assert(data@[from as int + 1] == lseq[1]);
                assert(false);
            }
        }
        let hline = match utf8_to_string(&data[from..lend2]) {
            Some(s) => s,
            None => {
                return ParseOutcome::Bad;
            },
        };
        match find_char(hline.as_str(), ':') {
            Some(ci) => {
                let hlen = hline.as_str().unicode_len();
                let name = trim_str(hline.as_str().substring_char(0, ci));
                let value = trim_str(hline.as_str().substring_char(ci + 1, hlen));
                let ghost oldh = hview(headers@);
                proof {
                    assert(hline@.subrange(0, ci as int) =~= hline@.take(ci as int));
                    assert(hline@.subrange(ci as int + 1, hlen as int) =~= hline@.skip(
                        ci as int + 1,
                    ));
                }
                match find_hdr(&headers, name.as_str()) {
                    Some(at) => {
                        headers[at] = (name, value);
                        proof {
                            assert(hview(headers@) =~= oldh.update(at as int, (name@, value@)));
                        }
                    },
                    None => {
                        headers.push((name, value));
                        proof {
                            assert(hview(headers@) =~= oldh.push((name@, value@)));
                        }
                    },
                }
            },
            None => {},
        }
        from = lend2;
    }
}

impl Request {
    /// Parses the bytes a connection delivered, as they stand when the
    /// stream ends: a request, or nothing for malformed or truncated
    /// input.
    pub fn parse(data: &[u8]) -> (r: Option<Request>)
        ensures
            (r matches Some(req) ==> spec_parse(data@, true) == SpecParse::Complete(req@)),
            (r is None ==> !(spec_parse(data@, true) matches SpecParse::Complete(_))),
    {
        match parse_bytes(data, true) {
            ParseOutcome::Parsed(req) => Some(req),
            ParseOutcome::NeedMore => None,
            ParseOutcome::Bad => None,
        }
    }
}

} // verus!
