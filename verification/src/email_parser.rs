//! The message parser: turns the raw bytes captured between `DATA` and the
//! terminating dot line into a structured message with normalized address
//! fields, plus the two pure address helpers the validation pipeline uses.

use vstd::prelude::*;

use crate::strutil::{
    chars_eq, chars_to_string, find_char, first_index_of, lower_of, lowercase, push_all,
    split_char, split_char_spec, split_lines_chars, split_lines_spec, str_to_chars, subrange_chars,
    trim_chars, trim_spec, views_of,
};

verus! {

/// A header mapping from name to value, insertion-ordered, where writing an
/// existing name replaces its value in place (last write wins).
#[derive(Debug, Clone)]
pub struct HeaderMap {
    entries: Vec<(String, String)>,
}

impl View for HeaderMap {
    type V = Seq<(Seq<char>, Seq<char>)>;

    closed spec fn view(&self) -> Seq<(Seq<char>, Seq<char>)> {
        Seq::new(self.entries@.len(), |i: int| (self.entries@[i].0@, self.entries@[i].1@))
    }
}

/// The position of the first entry whose name is `k`, or `-1`.
pub open spec fn first_key_index(hs: Seq<(Seq<char>, Seq<char>)>, k: Seq<char>) -> int
    decreases hs.len(),
{
    if hs.len() == 0 {
        -1
    } else if hs[0].0 == k {
        0
    } else {
        let r = first_key_index(hs.drop_first(), k);
        if r == -1 {
            -1
        } else {
            r + 1
        }
    }
}

proof fn lemma_first_key_index(hs: Seq<(Seq<char>, Seq<char>)>, k: Seq<char>)
    ensures
        first_key_index(hs, k) == -1 ==> forall|j: int| 0 <= j < hs.len() ==> hs[j].0 != k,
        first_key_index(hs, k) != -1 ==> {
            let r = first_key_index(hs, k);
            &&& 0 <= r < hs.len()
            &&& hs[r].0 == k
            &&& forall|j: int| 0 <= j < r ==> hs[j].0 != k
        },
    decreases hs.len(),
{
    if hs.len() > 0 && hs[0].0 != k {
        let t = hs.drop_first();
        lemma_first_key_index(t, k);
        assert(forall|j: int| 1 <= j < hs.len() ==> hs[j] == t[j - 1]);
    }
}

proof fn lemma_first_key_index_from(hs: Seq<(Seq<char>, Seq<char>)>, k: Seq<char>, n: int)
    requires
        0 <= n <= hs.len(),
        forall|j: int| 0 <= j < n ==> hs[j].0 != k,
        n == hs.len() || hs[n].0 == k,
    ensures
        n == hs.len() ==> first_key_index(hs, k) == -1,
        n < hs.len() ==> first_key_index(hs, k) == n,
    decreases n,
{
    if hs.len() == 0 {
    } else if n == 0 {
        if hs[0].0 != k {
            lemma_first_key_index(hs.drop_first(), k);
        }
    } else {
        let t = hs.drop_first();
        assert(forall|j: int| 0 <= j < n - 1 ==> t[j] == hs[j + 1]);
        lemma_first_key_index_from(t, k, n - 1);
    }
}

/// `hs` after writing `(k, v)`: the existing entry for `k` is replaced in
/// place, or a new entry is appended.
pub open spec fn insert_header_spec(
    hs: Seq<(Seq<char>, Seq<char>)>,
    k: Seq<char>,
    v: Seq<char>,
) -> Seq<(Seq<char>, Seq<char>)> {
    let i = first_key_index(hs, k);
    if i == -1 {
        hs.push((k, v))
    } else {
        hs.update(i, (k, v))
    }
}

impl HeaderMap {
    pub fn new() -> (r: HeaderMap)
        ensures
            r@ == Seq::<(Seq<char>, Seq<char>)>::empty(),
    {
        let r = HeaderMap { entries: Vec::new() };
        proof {
            assert(r@ =~= Seq::<(Seq<char>, Seq<char>)>::empty());
        }
        r
    }

    pub fn len(&self) -> (r: usize)
        ensures
            r == self@.len(),
    {
        self.entries.len()
    }

    /// The `i`th name/value pair, in insertion order.
    pub fn entry(&self, i: usize) -> (r: (&String, &String))
        requires
            i < self@.len(),
        ensures
            (r.0@, r.1@) == self@[i as int],
    {
        let e = &self.entries[i];
        (&e.0, &e.1)
    }

    pub fn insert(&mut self, name: String, value: String)
        ensures
            final(self)@ == insert_header_spec(old(self)@, name@, value@),
    {
        let n = self.entries.len();
        let mut i: usize = 0;
        while i < n
            invariant
                0 <= i <= n,
                n == self.entries@.len(),
                self == old(self),
                forall|j: int| 0 <= j < i ==> self@[j].0 != name@,
            decreases n - i,
        {
            if self.entries[i].0 == name {
                proof {
                    lemma_first_key_index_from(self@, name@, i as int);
                }
                self.entries.remove(i);
                self.entries.insert(i, (name, value));
                proof {
                    assert(final(self)@ =~= old(self)@.update(i as int, (name@, value@)));
                }
                return ;
            }
            i = i + 1;
        }
        proof {
            lemma_first_key_index_from(self@, name@, n as int);
        }
        self.entries.push((name, value));
        proof {
            assert(final(self)@ =~= old(self)@.push((name@, value@)));
        }
    }
}

/// The value of a parsed message, over mathematical sequences.
#[verifier::ext_equal]
pub ghost struct ParsedEmailView {
    pub from: Seq<char>,
    pub to: Seq<Seq<char>>,
    pub cc: Seq<Seq<char>>,
    pub bcc: Seq<Seq<char>>,
    pub subject: Option<Seq<char>>,
    pub body_text: Option<Seq<char>>,
    pub body_html: Option<Seq<char>>,
    pub headers: Seq<(Seq<char>, Seq<char>)>,
}

/// A structured message parsed from raw wire bytes.
#[derive(Debug, Clone)]
pub struct ParsedEmail {
    pub from: String,
    pub to: Vec<String>,
    pub cc: Vec<String>,
    pub bcc: Vec<String>,
    pub subject: Option<String>,
    pub body_text: Option<String>,
    pub body_html: Option<String>,
    pub headers: HeaderMap,
}

impl View for ParsedEmail {
    type V = ParsedEmailView;

    open spec fn view(&self) -> ParsedEmailView {
        ParsedEmailView {
            from: self.from@,
            to: self.to.deep_view(),
            cc: self.cc.deep_view(),
            bcc: self.bcc.deep_view(),
            subject: self.subject.deep_view(),
            body_text: self.body_text.deep_view(),
            body_html: self.body_html.deep_view(),
            headers: self.headers@,
        }
    }
}

/// The message with every field empty.
pub open spec fn empty_email_view() -> ParsedEmailView {
    ParsedEmailView {
        from: Seq::empty(),
        to: Seq::empty(),
        cc: Seq::empty(),
        bcc: Seq::empty(),
        subject: None,
        body_text: None,
        body_html: None,
        headers: Seq::empty(),
    }
}

/// The address inside the first `<...>` of a header value, or the trimmed
/// value when no such bracket pair opens before it closes.
pub open spec fn extract_email_spec(value: Seq<char>) -> Seq<char> {
    let lt = first_index_of(value, '<');
    let gt = first_index_of(value, '>');
    if lt != -1 && gt != -1 && lt < gt {
        value.subrange(lt + 1, gt)
    } else {
        trim_spec(value)
    }
}

/// The addresses extracted from the pieces of a comma-separated list, empty
/// extractions dropped.
pub open spec fn address_list_of(pieces: Seq<Seq<char>>) -> Seq<Seq<char>>
    decreases pieces.len(),
{
    if pieces.len() == 0 {
        Seq::empty()
    } else {
        let a = extract_email_spec(trim_spec(pieces[0]));
        let rest = address_list_of(pieces.drop_first());
        if a.len() > 0 {
            seq![a] + rest
        } else {
            rest
        }
    }
}

/// What `parse_address_list` returns for a raw header value.
pub open spec fn parse_address_list_spec(value: Seq<char>) -> Seq<Seq<char>> {
    address_list_of(split_char_spec(value, ','))
}

/// An address list never contains an empty string.
pub proof fn lemma_address_list_no_empties(pieces: Seq<Seq<char>>)
    ensures
        forall|i: int| 0 <= i < address_list_of(pieces).len() ==> address_list_of(pieces)[i].len()
            > 0,
    decreases pieces.len(),
{
    if pieces.len() > 0 {
        let rest = address_list_of(pieces.drop_first());
        lemma_address_list_no_empties(pieces.drop_first());
        let a = extract_email_spec(trim_spec(pieces[0]));
        if a.len() > 0 {
            assert(forall|i: int| 1 <= i < address_list_of(pieces).len() ==> address_list_of(
                pieces,
            )[i] == rest[i - 1]);
        }
    }
}

/// The recipient's domain: everything after the first `@`, lower-cased, or
/// nothing when the address has no `@`.
pub open spec fn extract_domain_spec(email: Seq<char>) -> Option<Seq<char>> {
    let i = first_index_of(email, '@');
    if i == -1 {
        None
    } else {
        Some(lower_of(email.skip(i + 1)))
    }
}

/// The address with any `+suffix` dropped from its local part; an address
/// without `@` or without `+` before the `@` passes through unchanged.
pub open spec fn normalize_email_spec(email: Seq<char>) -> Seq<char> {
    let a = first_index_of(email, '@');
    if a == -1 {
        email
    } else {
        let local = email.take(a);
        let p = first_index_of(local, '+');
        if p == -1 {
            email
        } else {
            email.take(p) + email.skip(a)
        }
    }
}

/// A message updated with one flushed header: the lower-cased name selects
/// the structured field to set, and the mapping records the original-case
/// name (last write wins).
pub open spec fn dispatch_header_spec(
    m: ParsedEmailView,
    name: Seq<char>,
    value: Seq<char>,
) -> ParsedEmailView {
    let l = lower_of(name);
    let m1 = if l == "from"@ {
        ParsedEmailView { from: extract_email_spec(value), ..m }
    } else if l == "to"@ {
        ParsedEmailView { to: parse_address_list_spec(value), ..m }
    } else if l == "cc"@ {
        ParsedEmailView { cc: parse_address_list_spec(value), ..m }
    } else if l == "bcc"@ {
        ParsedEmailView { bcc: parse_address_list_spec(value), ..m }
    } else if l == "subject"@ {
        ParsedEmailView { subject: Some(value), ..m }
    } else {
        m
    };
    ParsedEmailView { headers: insert_header_spec(m1.headers, name, value), ..m1 }
}

/// The parser's state between lines: whether it is still in header mode,
/// the header being accumulated, the message built so far, and the body
/// characters collected after the blank line.
#[verifier::ext_equal]
pub ghost struct ParseState {
    pub in_headers: bool,
    pub cur_name: Seq<char>,
    pub cur_value: Seq<char>,
    pub msg: ParsedEmailView,
    pub body: Seq<char>,
}

pub open spec fn init_parse_state() -> ParseState {
    ParseState {
        in_headers: true,
        cur_name: Seq::empty(),
        cur_value: Seq::empty(),
        msg: empty_email_view(),
        body: Seq::empty(),
    }
}

/// The accumulated header flushed into the message, when one is pending.
pub open spec fn flush_header(st: ParseState) -> ParsedEmailView {
    if st.cur_name.len() > 0 {
        dispatch_header_spec(st.msg, st.cur_name, st.cur_value)
    } else {
        st.msg
    }
}

/// One line of input applied to the parser state: in header mode a blank
/// line flushes and ends the headers, a line opening with space or tab
/// continues the current value, and any other line flushes and (when it
/// holds a colon) starts a new header; after the headers every line joins
/// the body with a newline.
pub open spec fn parse_step(st: ParseState, line: Seq<char>) -> ParseState {
    if st.in_headers {
        if line.len() == 0 {
            ParseState { in_headers: false, msg: flush_header(st), ..st }
        } else if line[0] == ' ' || line[0] == '\t' {
            ParseState { cur_value: st.cur_value + seq![' '] + trim_spec(line), ..st }
        } else {
            let msg = flush_header(st);
            let i = first_index_of(line, ':');
            if i == -1 {
                ParseState { msg, ..st }
            } else {
                ParseState {
                    msg,
                    cur_name: trim_spec(line.take(i)),
                    cur_value: trim_spec(line.skip(i + 1)),
                    ..st
                }
            }
        }
    } else {
        ParseState { body: st.body + line + seq!['\n'], ..st }
    }
}

/// The parser state after a sequence of lines.
pub open spec fn parse_lines(st: ParseState, lines: Seq<Seq<char>>) -> ParseState
    decreases lines.len(),
{
    if lines.len() == 0 {
        st
    } else {
        parse_lines(parse_step(st, lines[0]), lines.drop_first())
    }
}

/// The finished message: the collected body, trimmed, becomes `body_text`
/// when any body line was seen.
pub open spec fn finalize_parse(st: ParseState) -> ParsedEmailView {
    if st.body.len() > 0 {
        ParsedEmailView { body_text: Some(trim_spec(st.body)), ..st.msg }
    } else {
        st.msg
    }
}

/// What `parse_from_data` returns for a raw message.
pub open spec fn parse_email_spec(raw: Seq<char>) -> ParsedEmailView {
    finalize_parse(parse_lines(init_parse_state(), split_lines_spec(raw)))
}

/// The address lists of a message hold no empty strings, and no HTML body
/// is ever extracted.
pub open spec fn wf_message(m: ParsedEmailView) -> bool {
    &&& forall|i: int| 0 <= i < m.to.len() ==> m.to[i].len() > 0
    &&& forall|i: int| 0 <= i < m.cc.len() ==> m.cc[i].len() > 0
    &&& forall|i: int| 0 <= i < m.bcc.len() ==> m.bcc[i].len() > 0
    &&& m.body_html is None
}

proof fn lemma_dispatch_preserves_wf(m: ParsedEmailView, name: Seq<char>, value: Seq<char>)
    requires
        wf_message(m),
    ensures
        wf_message(dispatch_header_spec(m, name, value)),
{
    lemma_address_list_no_empties(split_char_spec(value, ','));
}

proof fn lemma_parse_step_preserves_wf(st: ParseState, line: Seq<char>)
    requires
        wf_message(st.msg),
    ensures
        wf_message(parse_step(st, line).msg),
{
    if st.in_headers && st.cur_name.len() > 0 && (line.len() == 0 || !(line[0] == ' ' || line[0]
        == '\t')) {
        lemma_dispatch_preserves_wf(st.msg, st.cur_name, st.cur_value);
    }
}

proof fn lemma_parse_lines_preserves_wf(st: ParseState, lines: Seq<Seq<char>>)
    requires
        wf_message(st.msg),
    ensures
        wf_message(parse_lines(st, lines).msg),
    decreases lines.len(),
{
    if lines.len() > 0 {
        lemma_parse_step_preserves_wf(st, lines[0]);
        lemma_parse_lines_preserves_wf(parse_step(st, lines[0]), lines.drop_first());
    }
}

/// Whatever the raw input, a parsed message is well formed: its address
/// lists never contain an empty string, and `body_html` stays absent.
pub proof fn lemma_parse_yields_wf_message(raw: Seq<char>)
    ensures
        wf_message(parse_email_spec(raw)),
{
    lemma_parse_lines_preserves_wf(init_parse_state(), split_lines_spec(raw));
}

impl ParsedEmail {
    pub fn new() -> (r: ParsedEmail)
        ensures
            r@ == empty_email_view(),
    {
        let r = ParsedEmail {
            from: String::new(),
            to: Vec::new(),
            cc: Vec::new(),
            bcc: Vec::new(),
            subject: None,
            body_text: None,
            body_html: None,
            headers: HeaderMap::new(),
        };
        proof {
            assert(r@ =~= empty_email_view());
        }
        r
    }

    /// Record one complete header: set the structured field its lower-cased
    /// name selects, and write the original-case name into the mapping.
    pub fn add_header(&mut self, name: &str, value: &str)
        ensures
            final(self)@ == dispatch_header_spec(old(self)@, name@, value@),
    {
        let name_lower = lowercase(name);
        let nl = str_to_chars(name_lower.as_str());
        let lit_from = str_to_chars("from");
        let lit_to = str_to_chars("to");
        let lit_cc = str_to_chars("cc");
        let lit_bcc = str_to_chars("bcc");
        let lit_subject = str_to_chars("subject");
        if chars_eq(&nl, &lit_from) {
            self.from = Self::extract_email(value);
        } else if chars_eq(&nl, &lit_to) {
            self.to = Self::parse_address_list(value);
        } else if chars_eq(&nl, &lit_cc) {
            self.cc = Self::parse_address_list(value);
        } else if chars_eq(&nl, &lit_bcc) {
            self.bcc = Self::parse_address_list(value);
        } else if chars_eq(&nl, &lit_subject) {
            self.subject = Some(value.to_owned());
        }
        self.headers.insert(name.to_owned(), value.to_owned());
        proof {
            assert(final(self)@ =~= dispatch_header_spec(old(self)@, name@, value@));
        }
    }

    /// Parse a complete raw message: header lines (with continuations)
    /// until a blank line, then the body.  Malformed input degrades
    /// gracefully; this never fails.
    pub fn parse_from_data(email_data: &str) -> (r: ParsedEmail)
        ensures
            r@ == parse_email_spec(email_data@),
    {
        let chars = str_to_chars(email_data);
        let lines = split_lines_chars(&chars);
        let n = lines.len();
        let ghost all = split_lines_spec(email_data@);
        let mut parsed = ParsedEmail::new();
        let mut in_headers = true;
        let mut cur_name: Vec<char> = Vec::new();
        let mut cur_value: Vec<char> = Vec::new();
        let mut body: Vec<char> = Vec::new();
        proof {
            assert(views_of(lines@) == all);
            let st0 = ParseState {
                in_headers: true,
                cur_name: cur_name@,
                cur_value: cur_value@,
                msg: parsed@,
                body: body@,
            };
            assert(st0 =~= init_parse_state());
            assert(all.skip(0) == all);
        }
        let mut i: usize = 0;
        while i < n
            invariant
                0 <= i <= n,
                n == lines@.len(),
                views_of(lines@) == all,
                parse_lines(init_parse_state(), all) == parse_lines(
                    ParseState {
                        in_headers: in_headers,
                        cur_name: cur_name@,
                        cur_value: cur_value@,
                        msg: parsed@,
                        body: body@,
                    },
                    all.skip(i as int),
                ),
            decreases n - i,
        {
            let ghost st = ParseState {
                in_headers: in_headers,
                cur_name: cur_name@,
                cur_value: cur_value@,
                msg: parsed@,
                body: body@,
            };
            let ghost rest = all.skip(i as int);
            proof {
                assert(rest[0] == all[i as int]);
                assert(rest.drop_first() =~= all.skip(i + 1));
                assert(parse_lines(st, rest) == parse_lines(parse_step(st, rest[0]),
                rest.drop_first()));
            }
            let line = &lines[i];
            assert(line@ == all[i as int]);
            if in_headers {
                if line.len() == 0 {
                    if cur_name.len() > 0 {
                        let ns = chars_to_string(&cur_name);
                        let vs = chars_to_string(&cur_value);
                        parsed.add_header(ns.as_str(), vs.as_str());
                    }
                    in_headers = false;
                } else if line[0] == ' ' || line[0] == '\t' {
                    cur_value.push(' ');
                    let t = trim_chars(line);
                    push_all(&mut cur_value, &t);
                } else {
                    if cur_name.len() > 0 {
                        let ns = chars_to_string(&cur_name);
                        let vs = chars_to_string(&cur_value);
                        parsed.add_header(ns.as_str(), vs.as_str());
                    }
                    match find_char(line, ':') {
                        Some(ci) => {
                            let before = subrange_chars(line, 0, ci);
                            let after = subrange_chars(line, ci + 1, line.len());
                            cur_name = trim_chars(&before);
                            cur_value = trim_chars(&after);
                            proof {
                                assert(before@ == line@.take(ci as int));
                                assert(after@ == line@.skip(ci + 1));
                            }
                        },
                        None => {},
                    }
                }
            } else {
                push_all(&mut body, line);
                body.push('\n');
            }
            proof {
                let st2 = ParseState {
                    in_headers: in_headers,
                    cur_name: cur_name@,
                    cur_value: cur_value@,
                    msg: parsed@,
                    body: body@,
                };
                assert(st2 =~= parse_step(st, all[i as int]));
            }
            i = i + 1;
        }
        proof {
            assert(all.skip(n as int) =~= Seq::<Seq<char>>::empty());
            let stf = ParseState {
                in_headers: in_headers,
                cur_name: cur_name@,
                cur_value: cur_value@,
                msg: parsed@,
                body: body@,
            };
            assert(parse_lines(stf, Seq::empty()) == stf);
            assert(parse_lines(init_parse_state(), all) == stf);
        }
        if body.len() > 0 {
            let t = trim_chars(&body);
            parsed.body_text = Some(chars_to_string(&t));
        }
        proof {
            assert(parsed@ =~= parse_email_spec(email_data@));
        }
        parsed
    }

    /// Extract an address from a `Name <email@domain>` form header value.
    pub fn extract_email(value: &str) -> (r: String)
        ensures
            r@ == extract_email_spec(value@),
    {
        let chars = str_to_chars(value);
        let lt = find_char(&chars, '<');
        let gt = find_char(&chars, '>');
        match (lt, gt) {
            (Some(l), Some(g)) if l < g => {
                let sub = subrange_chars(&chars, l + 1, g);
                chars_to_string(&sub)
            },
            _ => {
                let t = trim_chars(&chars);
                chars_to_string(&t)
            },
        }
    }

    /// Split a comma-separated header value into extracted addresses,
    /// dropping entries that come out empty.
    pub fn parse_address_list(value: &str) -> (r: Vec<String>)
        ensures
            r.deep_view() == parse_address_list_spec(value@),
            forall|i: int| 0 <= i < r.deep_view().len() ==> r.deep_view()[i].len() > 0,
    {
        let chars = str_to_chars(value);
        let pieces = split_char(&chars, ',');
        let n = pieces.len();
        let ghost all = split_char_spec(value@, ',');
        let mut r: Vec<String> = Vec::new();
        let mut i: usize = 0;
        proof {
            assert(all.skip(0) == all);
            assert(r.deep_view() + address_list_of(all) =~= address_list_of(all));
        }
    while i < n
            invariant
                0 <= i <= n,
                n == pieces@.len(),
                views_of(pieces@) == all,
                address_list_of(all) == r.deep_view() + address_list_of(all.skip(i as int)),
            decreases n - i,
        {
            let ghost rest = all.skip(i as int);
            let piece = &pieces[i];
            let trimmed = trim_chars(piece);
            let t_str = chars_to_string(&trimmed);
            let addr = Self::extract_email(t_str.as_str());
            proof {
                assert(rest[0] == all[i as int]);
                assert(address_list_of(rest) == {
                    let a = extract_email_spec(trim_spec(rest[0]));
                    if a.len() > 0 {
                        seq![a] + address_list_of(rest.drop_first())
                    } else {
                        address_list_of(rest.drop_first())
                    }
                });
                assert(rest.drop_first() =~= all.skip(i + 1));
            }
            if addr.as_str().unicode_len() > 0 {
                let ghost prev = r.deep_view();
                r.push(addr);
                proof {
                    assert(r.deep_view() =~= prev.push(addr@));
                    assert(prev.push(addr@) + address_list_of(all.skip(i + 1)) =~= prev + (seq![
                        addr@,
                    ] + address_list_of(all.skip(i + 1))));
                }
            }
            i = i + 1;
        }
        proof {
            assert(all.skip(n as int) =~= Seq::<Seq<char>>::empty());
            assert(r.deep_view() + address_list_of(Seq::empty()) =~= r.deep_view());
            lemma_address_list_no_empties(all);
        }
        r
    }

    /// The domain of an address: the part after the first `@`, lower-cased.
    pub fn extract_domain(email: &str) -> (r: Option<String>)
        ensures
            match r {
                Some(d) => extract_domain_spec(email@) == Some(d@),
                None => extract_domain_spec(email@) is None,
            },
    {
        let chars = str_to_chars(email);
        match find_char(&chars, '@') {
            None => None,
            Some(i) => {
                let n = chars.len();
                assert(i < n);
                let rest = subrange_chars(&chars, i + 1, n);
                let rest_str = chars_to_string(&rest);
                proof {
                    assert(rest@ == email@.skip(i + 1));
                }
                Some(lowercase(rest_str.as_str()))
            },
        }
    }

    /// Drop a `+suffix` from the local part of an address.
    pub fn normalize_email(email: &str) -> (r: String)
        ensures
            r@ == normalize_email_spec(email@),
    {
        let chars = str_to_chars(email);
        match find_char(&chars, '@') {
            None => chars_to_string(&chars),
            Some(a) => {
                let local = subrange_chars(&chars, 0, a);
                proof {
                    assert(local@ == email@.take(a as int));
                }
                match find_char(&local, '+') {
                    None => chars_to_string(&chars),
                    Some(p) => {
                        let mut out = subrange_chars(&chars, 0, p);
                        let tail = subrange_chars(&chars, a, chars.len());
                        push_all(&mut out, &tail);
                        proof {
                            assert(local@.take(p as int) == email@.take(p as int));
                            assert(out@ == email@.take(p as int) + email@.skip(a as int));
                        }
                        chars_to_string(&out)
                    },
                }
            },
        }
    }
}

impl Default for ParsedEmail {
    fn default() -> (r: ParsedEmail)
        ensures
            r@ == empty_email_view(),
    {
        ParsedEmail::new()
    }
}

} // verus!
