//! The command line of the upload client: flags with values, the page URL
//! (from which the WebSocket URL follows) and the file to upload.
use vstd::prelude::*;
use vstd::string::*;
use vstd::utf8::*;
use crate::text::{str_eq, parse_unsigned, spec_parse_unsigned};
use crate::strs::{split_once_str, occurs_at};
use crate::upload::first_occurrence;

verus! {

/// Whether `s` starts with `p`, as characters.
pub open spec fn has_prefix(s: Seq<char>, p: Seq<char>) -> bool {
    p.len() <= s.len() && s.take(p.len() as int) == p
}

fn str_has_prefix(s: &str, p: &str) -> (r: bool)
    ensures
        r == has_prefix(s@, p@),
{
    let n = p.unicode_len();
    let m = s.unicode_len();
    if n > m {
        return false;
    }
    let head = s.substring_char(0, n);
    let r = str_eq(head, p);
    assert(head@ =~= s@.take(n as int));
    r
}

/// An argument: a flag (starting with `--`) or a value.
pub enum Arg {
    Flag(String),
    Value(String),
}

/// `Arg` with its text as characters.
pub enum SpecArg {
    Flag(Seq<char>),
    Value(Seq<char>),
}

/// The command line arguments (after the program's name) and how many of
/// them were taken.
pub struct Args {
    items: Vec<String>,
    pos: usize,
}

/// The arguments taken as characters.
pub open spec fn args_view(items: Seq<String>) -> Seq<Seq<char>> {
    items.map_values(|a: String| a@)
}

/// The next argument from position `pos`, and the position after it: `--`
/// makes the argument after it a value (and ends the arguments where there
/// is none), an argument starting with `--` is a flag, any other a value.
pub open spec fn spec_next_arg(items: Seq<Seq<char>>, pos: int) -> (Option<SpecArg>, int) {
    if pos >= items.len() {
        (None, pos)
    } else if items[pos] == "--"@ {
        if pos + 1 < items.len() {
            (Some(SpecArg::Value(items[pos + 1])), pos + 2)
        } else {
            (None, pos + 1)
        }
    } else if has_prefix(items[pos], "--"@) {
        (Some(SpecArg::Flag(items[pos])), pos + 1)
    } else {
        (Some(SpecArg::Value(items[pos])), pos + 1)
    }
}

/// The next argument if it is a value, and the position after it: after
/// `--` the argument that follows, whatever it is; nothing (and nothing
/// taken) where the next argument is a flag.
pub open spec fn spec_next_value(items: Seq<Seq<char>>, pos: int) -> (Option<Seq<char>>, int) {
    if pos >= items.len() {
        (None, pos)
    } else if items[pos] == "--"@ {
        if pos + 1 < items.len() {
            (Some(items[pos + 1]), pos + 2)
        } else {
            (None, pos + 1)
        }
    } else if has_prefix(items[pos], "--"@) {
        (None, pos)
    } else {
        (Some(items[pos]), pos + 1)
    }
}

impl Args {
    /// The arguments as characters.
    pub closed spec fn spec_items(&self) -> Seq<Seq<char>> {
        args_view(self.items@)
    }

    /// How many arguments were taken.
    pub closed spec fn spec_pos(&self) -> int {
        self.pos as int
    }

    /// The arguments, none taken yet.
    pub fn new(items: Vec<String>) -> (r: Self)
        ensures
            r.spec_items() == args_view(items@),
            r.spec_pos() == 0,
    {
        Args { items, pos: 0 }
    }

    fn take(&mut self) -> (r: String)
        requires
            old(self).spec_pos() < old(self).spec_items().len(),
        ensures
            r@ == old(self).spec_items()[old(self).spec_pos()],
            final(self).spec_items() == old(self).spec_items(),
            final(self).spec_pos() == old(self).spec_pos() + 1,
    {
        assert(self.items@.len() == args_view(self.items@).len());
        let n = self.items.len();
        assert(self.pos < n);
        let r = String::from_str(self.items[self.pos].as_str());
        self.pos = self.pos + 1;
        r
    }

    /// The next argument (see `spec_next_arg`).
    pub fn next_arg(&mut self) -> (r: Option<Arg>)
        ensures
            final(self).spec_items() == old(self).spec_items(),
            final(self).spec_pos() == spec_next_arg(old(self).spec_items(), old(self).spec_pos()).1,
            match r {
                Some(Arg::Flag(f)) => spec_next_arg(old(self).spec_items(), old(self).spec_pos()).0
                    == Some(SpecArg::Flag(f@)),
                Some(Arg::Value(v)) => spec_next_arg(old(self).spec_items(), old(self).spec_pos()).0
                    == Some(SpecArg::Value(v@)),
                None => spec_next_arg(old(self).spec_items(), old(self).spec_pos()).0 is None,
            },
    {
        if self.pos >= self.items.len() {
            return None;
        }
        let next = self.items[self.pos].as_str();
        proof {
            assert(self.spec_items()[self.spec_pos()] == next@);
        }
        if str_eq(next, "--") {
            self.pos = self.pos + 1;
            if self.pos < self.items.len() {
                Some(Arg::Value(self.take()))
            } else {
                None
            }
        } else if str_has_prefix(next, "--") {
            Some(Arg::Flag(self.take()))
        } else {
            Some(Arg::Value(self.take()))
        }
    }

    /// The next argument if it is a value (see `spec_next_value`).
    pub fn next_value(&mut self) -> (r: Option<String>)
        ensures
            final(self).spec_items() == old(self).spec_items(),
            final(self).spec_pos() == spec_next_value(old(self).spec_items(), old(self).spec_pos()).1,
            match r {
                Some(v) => spec_next_value(old(self).spec_items(), old(self).spec_pos()).0 == Some(v@),
                None => spec_next_value(old(self).spec_items(), old(self).spec_pos()).0 is None,
            },
    {
        if self.pos >= self.items.len() {
            return None;
        }
        let next = self.items[self.pos].as_str();
        proof {
            assert(self.spec_items()[self.spec_pos()] == next@);
        }
        if str_eq(next, "--") {
            self.pos = self.pos + 1;
            if self.pos < self.items.len() {
                Some(self.take())
            } else {
                None
            }
        } else if str_has_prefix(next, "--") {
            None
        } else {
            Some(self.take())
        }
    }
}

/// A value of an option, as the client reports it in errors.
pub enum ArgValue {
    Text(String),
    Path(String),
    Number(u64),
}

/// `ArgValue` with its text as characters.
pub enum SpecArgValue {
    Text(Seq<char>),
    Path(Seq<char>),
    Number(u64),
}

impl View for ArgValue {
    type V = SpecArgValue;

    open spec fn view(&self) -> SpecArgValue {
        match self {
            ArgValue::Text(s) => SpecArgValue::Text(s@),
            ArgValue::Path(s) => SpecArgValue::Path(s@),
            ArgValue::Number(n) => SpecArgValue::Number(*n),
        }
    }
}

/// What is wrong with the command line.
pub enum ArgError {
    /// An unknown flag.
    InvalidOption(String),
    /// A flag without its value.
    RequiresValue(String),
    /// A flag whose value does not parse: the flag and the value.
    ParseError(String, String),
    /// An option given twice: its name, the new value if it parsed, and
    /// the value it already has.
    Reassigned(String, Option<ArgValue>, ArgValue),
    MissingUrl,
    MissingWsUrl,
    MissingFile,
    ZeroTime,
}

/// `ArgError` with its text as characters.
pub enum SpecArgError {
    InvalidOption(Seq<char>),
    RequiresValue(Seq<char>),
    ParseError(Seq<char>, Seq<char>),
    Reassigned(Seq<char>, Option<SpecArgValue>, SpecArgValue),
    MissingUrl,
    MissingWsUrl,
    MissingFile,
    ZeroTime,
}

impl View for ArgError {
    type V = SpecArgError;

    open spec fn view(&self) -> SpecArgError {
        match self {
            ArgError::InvalidOption(f) => SpecArgError::InvalidOption(f@),
            ArgError::RequiresValue(f) => SpecArgError::RequiresValue(f@),
            ArgError::ParseError(f, v) => SpecArgError::ParseError(f@, v@),
            ArgError::Reassigned(f, n, o) => SpecArgError::Reassigned(
                f@,
                match n {
                    Some(v) => Some(v@),
                    None => None,
                },
                o@,
            ),
            ArgError::MissingUrl => SpecArgError::MissingUrl,
            ArgError::MissingWsUrl => SpecArgError::MissingWsUrl,
            ArgError::MissingFile => SpecArgError::MissingFile,
            ArgError::ZeroTime => SpecArgError::ZeroTime,
        }
    }
}

/// The errors as their views.
pub open spec fn errors_view(v: Seq<ArgError>) -> Seq<SpecArgError> {
    v.map_values(|e: ArgError| e@)
}

/// The view of an optional string.
pub open spec fn opt_chars(o: Option<String>) -> Option<Seq<char>> {
    match o {
        Some(s) => Some(s@),
        None => None,
    }
}

/// Sets a text option that has no value yet, or reports that it has one
/// (`path` says whether the client shows it as a path).
pub open spec fn spec_set_text(opt: Option<Seq<char>>, value: Option<Seq<char>>, name: Seq<char>,
    path: bool) -> (Option<Seq<char>>, Seq<SpecArgError>) {
    match opt {
        None => (value, Seq::empty()),
        Some(old) => {
            let wrap = |t: Seq<char>| if path {
                SpecArgValue::Path(t)
            } else {
                SpecArgValue::Text(t)
            };
            (
                opt,
                seq![SpecArgError::Reassigned(name, match value {
                    Some(v) => Some(wrap(v)),
                    None => None,
                }, wrap(old))],
            )
        },
    }
}

/// Sets a number option that has no value yet, or reports that it has one.
pub open spec fn spec_set_number(opt: Option<u64>, value: Option<u64>, name: Seq<char>) -> (Option<u64>, Seq<SpecArgError>) {
    match opt {
        None => (value, Seq::empty()),
        Some(old) => (
            opt,
            seq![SpecArgError::Reassigned(name, match value {
                Some(v) => Some(SpecArgValue::Number(v)),
                None => None,
            }, SpecArgValue::Number(old))],
        ),
    }
}

fn set_text_option(opt: &mut Option<String>, value: Option<String>, name: &str, path: bool,
    errors: &mut Vec<ArgError>)
    ensures
        opt_chars(*final(opt)) == spec_set_text(opt_chars(*old(opt)), opt_chars(value), name@, path).0,
        errors_view(final(errors)@) == errors_view(old(errors)@) + spec_set_text(
            opt_chars(*old(opt)),
            opt_chars(value),
            name@,
            path,
        ).1,
{
    let ghost before = errors@;
    match opt {
        None => {
            *opt = value;
            assert(errors_view(errors@) =~= errors_view(before) + Seq::<SpecArgError>::empty());
        },
        Some(v) => {
            let old_value = if path {
                ArgValue::Path(String::from_str(v.as_str()))
            } else {
                ArgValue::Text(String::from_str(v.as_str()))
            };
            let new_value = match value {
                Some(n) => Some(if path {
                    ArgValue::Path(n)
                } else {
                    ArgValue::Text(n)
                }),
                None => None,
            };
            let e = ArgError::Reassigned(String::from_str(name), new_value, old_value);
            let ghost ev = e@;
            errors.push(e);
            assert(errors_view(errors@) =~= errors_view(before) + seq![ev]);
        },
    }
}

fn set_number_option(opt: &mut Option<u64>, value: Option<u64>, name: &str, errors: &mut Vec<ArgError>)
    ensures
        *final(opt) == spec_set_number(*old(opt), value, name@).0,
        errors_view(final(errors)@) == errors_view(old(errors)@) + spec_set_number(*old(opt), value, name@).1,
{
    let ghost before = errors@;
    match opt {
        None => {
            *opt = value;
            assert(errors_view(errors@) =~= errors_view(before) + Seq::<SpecArgError>::empty());
        },
        Some(v) => {
            let new_value = match value {
                Some(n) => Some(ArgValue::Number(n)),
                None => None,
            };
            let e = ArgError::Reassigned(String::from_str(name), new_value, ArgValue::Number(*v));
            let ghost ev = e@;
            errors.push(e);
            assert(errors_view(errors@) =~= errors_view(before) + seq![ev]);
        },
    }
}

/// The WebSocket URL for a page URL: `ws://` for `http://`, `wss://` for
/// `https://`, with `/upload` after the rest of the URL; `None` for any
/// other text (the text before the first `://` decides).
pub open spec fn spec_http_to_ws(value: Seq<char>) -> Option<Seq<char>> {
    match first_occurrence(value, "://"@) {
        Some(k) => {
            let scheme = value.take(k);
            let path = value.skip(k + 3);
            if scheme == "http"@ {
                Some("ws://"@ + path + "/upload"@)
            } else if scheme == "https"@ {
                Some("wss://"@ + path + "/upload"@)
            } else {
                None
            }
        },
        None => None,
    }
}

/// The WebSocket URL for a page URL (see `spec_http_to_ws`).
pub fn http_to_ws(value: &str) -> (r: Option<String>)
    ensures
        opt_chars(r) == spec_http_to_ws(value@),
{
    proof {
        reveal_strlit("://");
    }
    match split_once_str(value, "://") {
        Some((scheme, path)) => {
            proof {
                crate::upload::lemma_first_occurrence(value@, "://"@, scheme@, path@);
                assert(value@.take(scheme@.len() as int) =~= scheme@);
                assert(value@.skip(scheme@.len() as int + 3) =~= path@);
            }
            if str_eq(scheme, "http") {
                let mut r = String::from_str("ws://");
                r.append(path);
                r.append("/upload");
                Some(r)
            } else if str_eq(scheme, "https") {
                let mut r = String::from_str("wss://");
                r.append(path);
                r.append("/upload");
                Some(r)
            } else {
                None
            }
        },
        None => {
            proof {
                crate::upload::lemma_no_occurrence(value@, "://"@);
            }
            None
        },
    }
}

/// The options of an upload, as given so far.
pub struct UploadArgs {
    pub file_path: Option<String>,
    pub mime_type: Option<String>,
    pub url: Option<String>,
    pub ws_url: Option<String>,
    pub days: Option<u64>,
    pub hours: Option<u64>,
    pub minutes: Option<u64>,
    pub password: Option<String>,
    pub download_limit: Option<u64>,
}

/// `UploadArgs` with its text as characters.
pub struct UploadArgsView {
    pub file_path: Option<Seq<char>>,
    pub mime_type: Option<Seq<char>>,
    pub url: Option<Seq<char>>,
    pub ws_url: Option<Seq<char>>,
    pub days: Option<u64>,
    pub hours: Option<u64>,
    pub minutes: Option<u64>,
    pub password: Option<Seq<char>>,
    pub download_limit: Option<u64>,
}

impl View for UploadArgs {
    type V = UploadArgsView;

    open spec fn view(&self) -> UploadArgsView {
        UploadArgsView {
            file_path: opt_chars(self.file_path),
            mime_type: opt_chars(self.mime_type),
            url: opt_chars(self.url),
            ws_url: opt_chars(self.ws_url),
            days: self.days,
            hours: self.hours,
            minutes: self.minutes,
            password: opt_chars(self.password),
            download_limit: self.download_limit,
        }
    }
}

/// No option given.
pub open spec fn no_args() -> UploadArgsView {
    UploadArgsView {
        file_path: None,
        mime_type: None,
        url: None,
        ws_url: None,
        days: None,
        hours: None,
        minutes: None,
        password: None,
        download_limit: None,
    }
}

/// The value of a text flag, or the error that it has none.
pub open spec fn spec_text_value(v: Option<Seq<char>>, flag: Seq<char>) -> (Option<Seq<char>>, Seq<SpecArgError>) {
    match v {
        None => (None, seq![SpecArgError::RequiresValue(flag)]),
        Some(t) => (Some(t), Seq::empty()),
    }
}

/// The value of a number flag, or the error that it has none or that it
/// does not parse.
pub open spec fn spec_number_value(v: Option<Seq<char>>, flag: Seq<char>) -> (Option<u64>, Seq<SpecArgError>) {
    match v {
        None => (None, seq![SpecArgError::RequiresValue(flag)]),
        Some(t) => match spec_parse_unsigned(encode_utf8(t), u64::MAX as int) {
            Some(n) => (Some(n as u64), Seq::empty()),
            None => (None, seq![SpecArgError::ParseError(flag, t)]),
        },
    }
}

/// The options after a text flag whose option is `opt`.
pub open spec fn spec_text_flag(opt: Option<Seq<char>>, v: Option<Seq<char>>, flag: Seq<char>, path: bool) -> (Option<Seq<char>>, Seq<SpecArgError>) {
    let (val, e1) = spec_text_value(v, flag);
    let (o, e2) = spec_set_text(opt, val, flag, path);
    (o, e1 + e2)
}

/// The options after a number flag whose option is `opt`.
pub open spec fn spec_number_flag(opt: Option<u64>, v: Option<Seq<char>>, flag: Seq<char>) -> (Option<u64>, Seq<SpecArgError>) {
    let (val, e1) = spec_number_value(v, flag);
    let (o, e2) = spec_set_number(opt, val, flag);
    (o, e1 + e2)
}

/// The options, the errors reported, and the position after a flag read
/// at `pos`.
pub open spec fn spec_flag(a: UploadArgsView, flag: Seq<char>, items: Seq<Seq<char>>, pos: int) -> (UploadArgsView, Seq<SpecArgError>, int) {
    let (v, p) = spec_next_value(items, pos);
    if flag == "--file"@ {
        let (o, e) = spec_text_flag(a.file_path, v, flag, true);
        (UploadArgsView { file_path: o, ..a }, e, p)
    } else if flag == "--mime"@ {
        let (o, e) = spec_text_flag(a.mime_type, v, flag, false);
        (UploadArgsView { mime_type: o, ..a }, e, p)
    } else if flag == "--url"@ {
        let (o, e) = spec_text_flag(a.url, v, flag, false);
        (UploadArgsView { url: o, ..a }, e, p)
    } else if flag == "--ws"@ {
        let (o, e) = spec_text_flag(a.ws_url, v, flag, false);
        (UploadArgsView { ws_url: o, ..a }, e, p)
    } else if flag == "--days"@ {
        let (o, e) = spec_number_flag(a.days, v, flag);
        (UploadArgsView { days: o, ..a }, e, p)
    } else if flag == "--hours"@ {
        let (o, e) = spec_number_flag(a.hours, v, flag);
        (UploadArgsView { hours: o, ..a }, e, p)
    } else if flag == "--minutes"@ {
        let (o, e) = spec_number_flag(a.minutes, v, flag);
        (UploadArgsView { minutes: o, ..a }, e, p)
    } else if flag == "--limit"@ {
        let (o, e) = spec_number_flag(a.download_limit, v, flag);
        (UploadArgsView { download_limit: o, ..a }, e, p)
    } else if flag == "--password"@ {
        let (o, e) = spec_text_flag(a.password, v, flag, false);
        (UploadArgsView { password: o, ..a }, e, p)
    } else {
        (a, seq![SpecArgError::InvalidOption(flag)], pos)
    }
}

/// The options and errors after a value: a page URL sets the web and
/// WebSocket URLs, anything else the file to upload.
pub open spec fn spec_value(a: UploadArgsView, value: Seq<char>) -> (UploadArgsView, Seq<SpecArgError>) {
    match spec_http_to_ws(value) {
        Some(ws) => {
            let (u, e1) = spec_set_text(a.url, Some(value), "Web URL"@, false);
            let (w, e2) = spec_set_text(a.ws_url, Some(ws), "WebSocket URL"@, false);
            (UploadArgsView { url: u, ws_url: w, ..a }, e1 + e2)
        },
        None => {
            let (f, e) = spec_set_text(a.file_path, Some(value), "file"@, true);
            (UploadArgsView { file_path: f, ..a }, e)
        },
    }
}

/// The options and errors after reading all arguments from `pos`.
pub open spec fn spec_read_args(a: UploadArgsView, errs: Seq<SpecArgError>, items: Seq<Seq<char>>, pos: int) -> (UploadArgsView, Seq<SpecArgError>)
    decreases items.len() - pos,
{
    let (arg, p) = spec_next_arg(items, pos);
    match arg {
        None => (a, errs),
        Some(SpecArg::Flag(f)) => {
            let (a2, e, p2) = spec_flag(a, f, items, p);
            if p2 > pos {
                spec_read_args(a2, errs + e, items, p2)
            } else {
                (a2, errs + e)
            }
        },
        Some(SpecArg::Value(v)) => {
            let (a2, e) = spec_value(a, v);
            if p > pos {
                spec_read_args(a2, errs + e, items, p)
            } else {
                (a2, errs + e)
            }
        },
    }
}

/// The time limit in minutes that the options give (with the wrapping of
/// 64-bit arithmetic).
pub open spec fn spec_minutes(a: UploadArgsView) -> u64 {
    let m = match a.minutes {
        Some(n) => n,
        None => 0u64,
    };
    let h = match a.hours {
        Some(n) => n,
        None => 0u64,
    };
    let d = match a.days {
        Some(n) => n,
        None => 0u64,
    };
    vstd::wrapping::u64_specs::wrapping_add(
        vstd::wrapping::u64_specs::wrapping_add(m, vstd::wrapping::u64_specs::wrapping_mul(60, h)),
        vstd::wrapping::u64_specs::wrapping_mul(1440, d),
    )
}

/// The options and errors once the arguments are read: the URLs and the
/// file are required, the MIME type defaults to
/// `application/octet-stream`, and the time limit must not be zero.
pub open spec fn spec_finish(a: UploadArgsView, errs: Seq<SpecArgError>) -> (UploadArgsView, Seq<SpecArgError>) {
    let e1 = if a.url is None {
        seq![SpecArgError::MissingUrl]
    } else {
        Seq::empty()
    };
    let e2 = if a.ws_url is None {
        seq![SpecArgError::MissingWsUrl]
    } else {
        Seq::empty()
    };
    let (a2, e3) = if a.file_path is Some {
        if a.mime_type is None {
            (UploadArgsView { mime_type: Some("application/octet-stream"@), ..a }, Seq::<SpecArgError>::empty())
        } else {
            (a, Seq::<SpecArgError>::empty())
        }
    } else {
        (a, seq![SpecArgError::MissingFile])
    };
    let e4 = if spec_minutes(a2) == 0 {
        seq![SpecArgError::ZeroTime]
    } else {
        Seq::empty()
    };
    (a2, errs + e1 + e2 + e3 + e4)
}

/// The options and errors of a command line.
pub open spec fn spec_parse_args(items: Seq<Seq<char>>) -> (UploadArgsView, Seq<SpecArgError>) {
    let (a, e) = spec_read_args(no_args(), Seq::empty(), items, 0);
    spec_finish(a, e)
}

/// `--password P` stores `P` as the password, as every text flag stores
/// its value, when no password was given before; it reports no error and
/// leaves the other options as they were.
pub proof fn lemma_password_flag_sets_password(a: UploadArgsView, items: Seq<Seq<char>>, pos: int)
    requires
        a.password is None,
        spec_next_value(items, pos).0 is Some,
    ensures
        spec_flag(a, "--password"@, items, pos).0.password == spec_next_value(items, pos).0,
        spec_flag(a, "--password"@, items, pos).0 == (UploadArgsView {
            password: spec_next_value(items, pos).0,
            ..a
        }),
        spec_flag(a, "--password"@, items, pos).1 == Seq::<SpecArgError>::empty(),
{
    reveal_strlit("--file");
    reveal_strlit("--mime");
    reveal_strlit("--url");
    reveal_strlit("--ws");
    reveal_strlit("--days");
    reveal_strlit("--hours");
    reveal_strlit("--minutes");
    reveal_strlit("--limit");
    reveal_strlit("--password");
    assert("--file"@.len() == 6);
    assert("--mime"@.len() == 6);
    assert("--url"@.len() == 5);
    assert("--ws"@.len() == 4);
    assert("--days"@.len() == 6);
    assert("--hours"@.len() == 7);
    assert("--minutes"@.len() == 9);
    assert("--limit"@.len() == 7);
    assert("--password"@.len() == 10);
    let (v, p) = spec_next_value(items, pos);
    assert(spec_text_value(v, "--password"@).1 == Seq::<SpecArgError>::empty());
    assert(Seq::<SpecArgError>::empty() + Seq::<SpecArgError>::empty() =~= Seq::<SpecArgError>::empty());
}

/// A password, once given, is never dropped or replaced by the arguments
/// that follow.
pub proof fn lemma_password_kept(a: UploadArgsView, errs: Seq<SpecArgError>, items: Seq<Seq<char>>, pos: int)
    requires
        a.password is Some,
    ensures
        spec_read_args(a, errs, items, pos).0.password == a.password,
    decreases items.len() - pos,
{
    let (arg, p) = spec_next_arg(items, pos);
    match arg {
        None => {},
        Some(SpecArg::Flag(f)) => {
            let (a2, e, p2) = spec_flag(a, f, items, p);
            assert(a2.password == a.password);
            if p2 > pos {
                lemma_password_kept(a2, errs + e, items, p2);
            }
        },
        Some(SpecArg::Value(v)) => {
            let (a2, e) = spec_value(a, v);
            assert(a2.password == a.password);
            if p > pos {
                lemma_password_kept(a2, errs + e, items, p);
            }
        },
    }
}

/// The finished options keep the password that was read.
pub proof fn lemma_finish_keeps_password(a: UploadArgsView, errs: Seq<SpecArgError>)
    ensures
        spec_finish(a, errs).0.password == a.password,
{
}

impl UploadArgs {
    /// No option given.
    pub fn empty() -> (r: Self)
        ensures
            r@ == no_args(),
    {
        UploadArgs {
            file_path: None,
            mime_type: None,
            url: None,
            ws_url: None,
            days: None,
            hours: None,
            minutes: None,
            password: None,
            download_limit: None,
        }
    }

    /// The time limit in minutes (see `spec_minutes`).
    pub fn minutes(&self) -> (r: u64)
        ensures
            r == spec_minutes(self@),
    {
        let m = match self.minutes {
            Some(n) => n,
            None => 0,
        };
        let h = match self.hours {
            Some(n) => n,
            None => 0,
        };
        let d = match self.days {
            Some(n) => n,
            None => 0,
        };
        let a = m.wrapping_add(60u64.wrapping_mul(h));
        a.wrapping_add(1440u64.wrapping_mul(d))
    }

    fn text_flag(opt: &mut Option<String>, flag: &str, path: bool, args: &mut Args, errors: &mut Vec<ArgError>)
        ensures
            final(args).spec_items() == old(args).spec_items(),
            final(args).spec_pos() == spec_next_value(old(args).spec_items(), old(args).spec_pos()).1,
            opt_chars(*final(opt)) == spec_text_flag(opt_chars(*old(opt)), spec_next_value(old(args).spec_items(), old(args).spec_pos()).0, flag@, path).0,
            errors_view(final(errors)@) == errors_view(old(errors)@) + spec_text_flag(opt_chars(*old(opt)), spec_next_value(old(args).spec_items(), old(args).spec_pos()).0, flag@, path).1,
    {
        let ghost e0 = errors@;
        let value = match args.next_value() {
            Some(v) => Some(v),
            None => {
                let e = ArgError::RequiresValue(String::from_str(flag));
                let ghost ev = e@;
                errors.push(e);
                assert(errors_view(errors@) =~= errors_view(e0) + seq![ev]);
                None
            },
        };
        let ghost e1 = errors@;
        proof {
            if value is Some {
                assert(errors_view(e1) =~= errors_view(e0) + Seq::<SpecArgError>::empty());
            }
        }
        set_text_option(opt, value, flag, path, errors);
        proof {
            let (val, x1) = spec_text_value(spec_next_value(old(args).spec_items(), old(args).spec_pos()).0, flag@);
            assert(errors_view(errors@) =~= errors_view(e0) + (x1 + spec_set_text(opt_chars(*old(opt)), val, flag@, path).1));
        }
    }

    fn number_flag(opt: &mut Option<u64>, flag: &str, args: &mut Args, errors: &mut Vec<ArgError>)
        ensures
            final(args).spec_items() == old(args).spec_items(),
            final(args).spec_pos() == spec_next_value(old(args).spec_items(), old(args).spec_pos()).1,
            *final(opt) == spec_number_flag(*old(opt), spec_next_value(old(args).spec_items(), old(args).spec_pos()).0, flag@).0,
            errors_view(final(errors)@) == errors_view(old(errors)@) + spec_number_flag(*old(opt), spec_next_value(old(args).spec_items(), old(args).spec_pos()).0, flag@).1,
    {
        let ghost e0 = errors@;
        let value = match args.next_value() {
            Some(v) => match parse_unsigned(v.as_str(), 0xffff_ffff_ffff_ffff) {
                Some(n) => Some(n),
                None => {
                    let e = ArgError::ParseError(String::from_str(flag), v);
                    let ghost ev = e@;
                    errors.push(e);
                    assert(errors_view(errors@) =~= errors_view(e0) + seq![ev]);
                    None
                },
            },
            None => {
                let e = ArgError::RequiresValue(String::from_str(flag));
                let ghost ev = e@;
                errors.push(e);
                assert(errors_view(errors@) =~= errors_view(e0) + seq![ev]);
                None
            },
        };
        let ghost e1 = errors@;
        proof {
            let (val, x1) = spec_number_value(spec_next_value(old(args).spec_items(), old(args).spec_pos()).0, flag@);
            assert(val == value);
            assert(errors_view(e1) =~= errors_view(e0) + x1);
        }
        set_number_option(opt, value, flag, errors);
        proof {
            let (val, x1) = spec_number_value(spec_next_value(old(args).spec_items(), old(args).spec_pos()).0, flag@);
            assert(errors_view(errors@) =~= errors_view(e0) + (x1 + spec_set_number(*old(opt), val, flag@).1));
        }
    }

    /// Applies a flag and its value, if it takes one (see `spec_flag`).
    pub fn parse_flag(&mut self, flag: String, args: &mut Args, errors: &mut Vec<ArgError>)
        ensures
            final(args).spec_items() == old(args).spec_items(),
            final(self)@ == spec_flag(old(self)@, flag@, old(args).spec_items(), old(args).spec_pos()).0,
            errors_view(final(errors)@) == errors_view(old(errors)@) + spec_flag(old(self)@, flag@, old(args).spec_items(), old(args).spec_pos()).1,
            final(args).spec_pos() == spec_flag(old(self)@, flag@, old(args).spec_items(), old(args).spec_pos()).2,
    {
        let f = flag.as_str();
        if str_eq(f, "--file") {
            Self::text_flag(&mut self.file_path, f, true, args, errors);
        } else if str_eq(f, "--mime") {
            Self::text_flag(&mut self.mime_type, f, false, args, errors);
        } else if str_eq(f, "--url") {
            Self::text_flag(&mut self.url, f, false, args, errors);
        } else if str_eq(f, "--ws") {
            Self::text_flag(&mut self.ws_url, f, false, args, errors);
        } else if str_eq(f, "--days") {
            Self::number_flag(&mut self.days, f, args, errors);
        } else if str_eq(f, "--hours") {
            Self::number_flag(&mut self.hours, f, args, errors);
        } else if str_eq(f, "--minutes") {
            Self::number_flag(&mut self.minutes, f, args, errors);
        } else if str_eq(f, "--limit") {
            Self::number_flag(&mut self.download_limit, f, args, errors);
        } else if str_eq(f, "--password") {
            Self::text_flag(&mut self.password, f, false, args, errors);
        } else {
            let ghost before = errors@;
            let e = ArgError::InvalidOption(String::from_str(f));
            let ghost ev = e@;
            errors.push(e);
            assert(errors_view(errors@) =~= errors_view(before) + seq![ev]);
        }
    }

    /// Applies a value (see `spec_value`).
    pub fn parse_value(&mut self, value: String, errors: &mut Vec<ArgError>)
        ensures
            final(self)@ == spec_value(old(self)@, value@).0,
            errors_view(final(errors)@) == errors_view(old(errors)@) + spec_value(old(self)@, value@).1,
    {
        let ghost e0 = errors@;
        match http_to_ws(value.as_str()) {
            Some(ws) => {
                set_text_option(&mut self.url, Some(value), "Web URL", false, errors);
                let ghost e1 = errors@;
                set_text_option(&mut self.ws_url, Some(ws), "WebSocket URL", false, errors);
                proof {
                    let (u, x1) = spec_set_text(old(self)@.url, Some(value@), "Web URL"@, false);
                    let (w, x2) = spec_set_text(old(self)@.ws_url, Some(ws@), "WebSocket URL"@, false);
                    assert(errors_view(errors@) =~= errors_view(e0) + (x1 + x2));
                }
            },
            None => {
                set_text_option(&mut self.file_path, Some(value), "file", true, errors);
            },
        }
    }

    /// Reads the arguments and checks the result (see `spec_read_args` and
    /// `spec_finish`); `Err` with every error found, in order.
    pub fn parse(&mut self, args: Args) -> (r: Result<(), Vec<ArgError>>)
        ensures
            final(self)@ == spec_finish(spec_read_args(old(self)@, Seq::empty(), args.spec_items(), args.spec_pos()).0, spec_read_args(old(self)@, Seq::empty(), args.spec_items(), args.spec_pos()).1).0,
            match r {
                Ok(()) => spec_finish(spec_read_args(old(self)@, Seq::empty(), args.spec_items(), args.spec_pos()).0, spec_read_args(old(self)@, Seq::empty(), args.spec_items(), args.spec_pos()).1).1.len() == 0,
                Err(e) => errors_view(e@) == spec_finish(spec_read_args(old(self)@, Seq::empty(), args.spec_items(), args.spec_pos()).0, spec_read_args(old(self)@, Seq::empty(), args.spec_items(), args.spec_pos()).1).1
                    && e@.len() > 0,
            },
    {
        let mut args = args;
        let mut errors: Vec<ArgError> = Vec::new();
        let ghost items = args.spec_items();
        let ghost goal = spec_read_args(self@, Seq::empty(), items, args.spec_pos());
        proof {
            assert(errors_view(errors@) =~= Seq::<SpecArgError>::empty());
        }
        loop
            invariant_except_break
                args.spec_items() == items,
                0 <= args.spec_pos(),
                spec_read_args(self@, errors_view(errors@), items, args.spec_pos()) == goal,
            ensures
                goal == (self@, errors_view(errors@)),
            decreases items.len() - args.spec_pos(),
        {
            let ghost a0 = self@;
            let ghost e0 = errors_view(errors@);
            let ghost p0 = args.spec_pos();
            match args.next_arg() {
                None => {
                    assert(goal == (a0, e0));
                    break;
                },
                Some(Arg::Flag(flag)) => {
                    self.parse_flag(flag, &mut args, &mut errors);
                },
                Some(Arg::Value(value)) => {
                    self.parse_value(value, &mut errors);
                },
            }
            assert(args.spec_pos() > p0);
        }
        let ghost a = self@;
        let ghost e = errors_view(errors@);
        if self.url.is_none() {
            errors.push(ArgError::MissingUrl);
        }
        if self.ws_url.is_none() {
            errors.push(ArgError::MissingWsUrl);
        }
        match &self.file_path {
            Some(_) => {
                if self.mime_type.is_none() {
                    self.mime_type = Some(String::from_str("application/octet-stream"));
                }
            },
            None => {
                errors.push(ArgError::MissingFile);
            },
        }
        if self.minutes() == 0 {
            errors.push(ArgError::ZeroTime);
        }
        proof {
            let e1 = if a.url is None { seq![SpecArgError::MissingUrl] } else { Seq::empty() };
            let e2 = if a.ws_url is None { seq![SpecArgError::MissingWsUrl] } else { Seq::empty() };
            let e3 = if a.file_path is Some { Seq::<SpecArgError>::empty() } else { seq![SpecArgError::MissingFile] };
            let e4 = if spec_minutes(self@) == 0 { seq![SpecArgError::ZeroTime] } else { Seq::empty() };
            assert(errors_view(errors@) =~= e + e1 + e2 + e3 + e4);
        }
        if errors.len() == 0 {
            Ok(())
        } else {
            Err(errors)
        }
    }

    /// The settings of an upload once its options are read without error.
    pub fn settings(self) -> (r: UploadSettings)
        requires
            self.file_path is Some,
            self.mime_type is Some,
            self.url is Some,
            self.ws_url is Some,
        ensures
            r.file_path == self.file_path->0,
            r.mime_type == self.mime_type->0,
            r.url == self.url->0,
            r.ws_url == self.ws_url->0,
            r.minutes == spec_minutes(self@),
            r.password == self.password,
            r.download_limit == self.download_limit,
    {
        let minutes = self.minutes();
        UploadSettings {
            file_path: self.file_path.unwrap(),
            mime_type: self.mime_type.unwrap(),
            url: self.url.unwrap(),
            ws_url: self.ws_url.unwrap(),
            minutes,
            password: self.password,
            download_limit: self.download_limit,
        }
    }
}

/// The settings of an upload from the command line.
pub struct UploadSettings {
    pub file_path: String,
    pub mime_type: String,
    pub url: String,
    pub ws_url: String,
    pub minutes: u64,
    pub password: Option<String>,
    pub download_limit: Option<u64>,
}

impl UploadSettings {
    /// The settings from the command line arguments (after the program's
    /// name), or every error found in them.
    pub fn from_args(args: Vec<String>) -> (r: Result<UploadSettings, Vec<ArgError>>)
        ensures
            match r {
                Ok(s) => {
                    let (a, e) = spec_parse_args(args_view(args@));
                    &&& e.len() == 0
                    &&& a.file_path == Some(s.file_path@)
                    &&& a.mime_type == Some(s.mime_type@)
                    &&& a.url == Some(s.url@)
                    &&& a.ws_url == Some(s.ws_url@)
                    &&& s.minutes == spec_minutes(a)
                    &&& a.password == opt_chars(s.password)
                    &&& a.download_limit == s.download_limit
                },
                Err(e) => errors_view(e@) == spec_parse_args(args_view(args@)).1 && e@.len() > 0,
            },
    {
        let mut upload_args = UploadArgs::empty();
        let a = Args::new(args);
        match upload_args.parse(a) {
            Ok(()) => Ok(upload_args.settings()),
            Err(e) => Err(e),
        }
    }
}


/// The decimal digits of a number.
pub open spec fn decimal(n: nat) -> Seq<char>
    decreases n,
{
    if n < 10 {
        seq![(48 + n) as char]
    } else {
        decimal(n / 10) + seq![(48 + n % 10) as char]
    }
}

/// The decimal text of a number.
pub fn to_decimal(n: u64) -> (r: String)
    ensures
        r@ == decimal(n as nat),
    decreases n,
{
    let d = if n % 10 == 0 {
        "0"
    } else if n % 10 == 1 {
        "1"
    } else if n % 10 == 2 {
        "2"
    } else if n % 10 == 3 {
        "3"
    } else if n % 10 == 4 {
        "4"
    } else if n % 10 == 5 {
        "5"
    } else if n % 10 == 6 {
        "6"
    } else if n % 10 == 7 {
        "7"
    } else if n % 10 == 8 {
        "8"
    } else {
        "9"
    };
    proof {
        reveal_strlit("0");
        reveal_strlit("1");
        reveal_strlit("2");
        reveal_strlit("3");
        reveal_strlit("4");
        reveal_strlit("5");
        reveal_strlit("6");
        reveal_strlit("7");
        reveal_strlit("8");
        reveal_strlit("9");
        assert(d@ =~= seq![(48 + n % 10) as char]);
    }
    if n < 10 {
        String::from_str(d)
    } else {
        let mut r = to_decimal(n / 10);
        r.append(d);
        r
    }
}

/// The WebSocket request of an upload: the WebSocket URL with the
/// minutes, the URL-encoded password and the download limit, where given.
pub fn upload_request_url(settings: &UploadSettings) -> (r: String)
    ensures
        encode_utf8(r@) == encode_utf8(settings.ws_url@ + "?minutes="@ + decimal(settings.minutes as nat)) + (match &settings.password {
            Some(p) => encode_utf8("&password="@) + crate::download::url_encoded(encode_utf8(p@)),
            None => Seq::empty(),
        }) + (match settings.download_limit {
            Some(l) => encode_utf8("&max-downloads="@ + decimal(l as nat)),
            None => Seq::empty(),
        }),
{
    let mut r = String::from_str(settings.ws_url.as_str());
    r.append("?minutes=");
    let m = to_decimal(settings.minutes);
    r.append(m.as_str());
    let ghost base = r@;
    match &settings.password {
        Some(p) => {
            r.append("&password=");
            let e = crate::download::url_encode(p.as_str());
            r.append(e.as_str());
            proof {
                crate::strs::lemma_encode_concat(base + "&password="@, e@);
                crate::strs::lemma_encode_concat(base, "&password="@);
                assert(r@ =~= base + "&password="@ + e@);
            }
        },
        None => {
            assert(encode_utf8(base) =~= encode_utf8(base) + Seq::<u8>::empty());
        },
    }
    let ghost mid = r@;
    match settings.download_limit {
        Some(l) => {
            r.append("&max-downloads=");
            let t = to_decimal(l);
            r.append(t.as_str());
            proof {
                crate::strs::lemma_encode_concat(mid, "&max-downloads="@ + t@);
                assert(mid + ("&max-downloads="@ + t@) =~= r@);
            }
        },
        None => {
            assert(encode_utf8(mid) =~= encode_utf8(mid) + Seq::<u8>::empty());
        },
    }
    r
}

/// The link to an upload that the client prints: the page URL, `/`, the
/// upload ID, `?nopass` without a password, `#` and the key.
pub fn upload_link(url: &str, id: &str, has_password: bool, key: &str) -> (r: String)
    ensures
        r@ == url@ + "/"@ + id@ + (if has_password { ""@ } else { "?nopass"@ }) + "#"@ + key@,
{
    let mut r = String::from_str(url);
    r.append("/");
    r.append(id);
    if !has_password {
        r.append("?nopass");
    } else {
        proof {
            reveal_strlit("");
        }
    }
    r.append("#");
    r.append(key);
    proof {
        reveal_strlit("");
        assert(r@ =~= url@ + "/"@ + id@ + (if has_password { ""@ } else { "?nopass"@ }) + "#"@ + key@);
    }
    r
}


/// Number of ticks of the client's progress bar.
pub const TOTAL_TICKS: u64 = 20;

/// The progress bar of a transfer of `progress` of `total` bytes: the
/// percentage done and the number of ticks to fill (rounded up), or `None`
/// once the transfer is complete (the bar is then erased).
pub fn progress_bar(progress: u64, total: u64) -> (r: Option<(u64, u64)>)
    ensures
        progress >= total <==> r is None,
        r matches Some((percent, filled)) ==> {
            &&& percent == (100 * progress) / (total as int)
            &&& filled == (TOTAL_TICKS * percent + 99) / 100
            &&& percent < 100 && filled <= TOTAL_TICKS
        },
{
    if progress < total {
        assert((100 * progress) / (total as int) < 100) by (nonlinear_arith)
            requires
                progress < total,
        ;
        let percent = ((100u128 * progress as u128) / total as u128) as u64;
        let filled = (TOTAL_TICKS * percent + 99) / 100;
        Some((percent, filled))
    } else {
        None
    }
}

} // verus!
