//! The reading of an upload form body: the decisions between reads of the
//! request body, as a state machine. The caller reads the body into the
//! parser (`feed`) and performs what each step asks (`next`): reading more,
//! starting a file, or writing file contents.
use vstd::prelude::*;
use vstd::utf8::*;
use vstd::slice::slice_to_vec;
use crate::constants::{FORM_READ_BUFFER_SIZE, FORM_FIELD_BUFFER_SIZE, MAX_FORM_BOUNDARY_LENGTH};
use crate::multipart_form::{parse, byte_map, is_byte_map_of, spec_parse, ParseResult,
    SpecParseResult, lemma_parse_progress};
use crate::upload::{FormField, FormView, UploadForm, WriterKind, FileStart, SpecFileStart,
    FileStartError, cd_field, field_is_open, with_field, spec_file_start, handle_file_start,
    match_content_disposition, STORAGE_CHECK_INTERVAL};

verus! {

/// Why the form body is refused.
#[derive(Clone, Copy, Debug, PartialEq, Eq, Structural)]
pub enum FormError {
    /// A field's value is refused (repeated, not a number, not UTF-8, or
    /// too long for its buffer).
    FieldValue,
    /// A part names no known field.
    FieldType,
    /// A file may not start here.
    FileStart(FileStartError),
    /// A field does not fit in its buffer, or a header in the read buffer.
    FieldTooBig,
    /// The body is not a multipart form.
    Malformed,
}

/// What the caller does next.
pub enum FormEvent {
    /// Read more of the body and `feed` it.
    Read,
    /// Nothing; call `next` again.
    Next,
    /// Write these bytes to the current file.
    Write(Vec<u8>),
    /// Start a file as planned, then write these bytes to it.
    StartFile(FileStart, Vec<u8>),
    /// The form is complete; whether its last field was accepted. The
    /// caller flushes and finishes the current file.
    Finished(bool),
    /// The form is refused.
    Failed(FormError),
}

/// `FormEvent` with byte strings as sequences.
pub enum SpecFormEvent {
    Read,
    Next,
    Write(Seq<u8>),
    StartFile(SpecFileStart, Seq<u8>),
    Finished(bool),
    Failed(FormError),
}

impl View for FormEvent {
    type V = SpecFormEvent;

    open spec fn view(&self) -> SpecFormEvent {
        match self {
            FormEvent::Read => SpecFormEvent::Read,
            FormEvent::Next => SpecFormEvent::Next,
            FormEvent::Write(b) => SpecFormEvent::Write(b@),
            FormEvent::StartFile(p, b) => SpecFormEvent::StartFile(p@, b@),
            FormEvent::Finished(ok) => SpecFormEvent::Finished(*ok),
            FormEvent::Failed(e) => SpecFormEvent::Failed(*e),
        }
    }
}

/// The state of the reading of a form body.
pub struct FormParser {
    boundary: Vec<u8>,
    boundary_map: Vec<u8>,
    buf: Vec<u8>,
    fresh: bool,
    field: FormField,
    field_buf: Vec<u8>,
    form: UploadForm,
    writer: Option<WriterKind>,
    read_since_check: usize,
    done: bool,
}

/// The state of a `FormParser`: the boundary, the bytes read and not yet
/// parsed, whether none of them was parsed since the last read, the
/// current field and the value collected for it, the form so far, the
/// writer open for files, the bytes read since storage was checked, and
/// whether the form is complete or refused.
pub struct ParserState {
    pub boundary: Seq<u8>,
    pub buf: Seq<u8>,
    pub fresh: bool,
    pub field: FormField,
    pub field_buf: Seq<u8>,
    pub form: FormView,
    pub writer: Option<WriterKind>,
    pub read_since_check: usize,
    pub done: bool,
}

impl View for FormParser {
    type V = ParserState;

    closed spec fn view(&self) -> ParserState {
        ParserState {
            boundary: self.boundary@,
            buf: self.buf@,
            fresh: self.fresh,
            field: self.field,
            field_buf: self.field_buf@,
            form: self.form@,
            writer: self.writer,
            read_since_check: self.read_since_check,
            done: self.done,
        }
    }
}

/// The writer that a file start leaves open.
pub open spec fn writer_after(p: SpecFileStart) -> WriterKind {
    match p {
        SpecFileStart::NextZipEntry(_) => WriterKind::EncryptedZip,
        SpecFileStart::NewZip(_) => WriterKind::EncryptedZip,
        SpecFileStart::NewEncrypted(_, _) => WriterKind::Encrypted,
        SpecFileStart::NewBasic(_, _) => WriterKind::Basic,
    }
}

/// The form once the value collected for the current field is applied
/// (files and invalid fields collect none); `None` where it is refused.
pub open spec fn closed_form(s: ParserState) -> Option<FormView> {
    if s.field != FormField::Files && s.field != FormField::Invalid {
        with_field(s.form, s.field, s.field_buf)
    } else {
        Some(s.form)
    }
}

/// The state after a refusal.
pub open spec fn failed(s: ParserState, e: FormError) -> (ParserState, SpecFormEvent) {
    (ParserState { done: true, ..s }, SpecFormEvent::Failed(e))
}

/// One step at the start of a new part, whose headers and first value
/// bytes span `n` bytes.
pub open spec fn step_new_value(s: ParserState, n: int, cd: Seq<u8>, ct: Seq<u8>, v: Seq<u8>) -> (ParserState, SpecFormEvent) {
    match closed_form(s) {
        None => failed(s, FormError::FieldValue),
        Some(form1) => {
            let cdc = decode_utf8(cd);
            let nf = cd_field(cdc);
            if nf == FormField::Invalid {
                failed(s, FormError::FieldType)
            } else if nf == FormField::Files {
                match spec_file_start(
                    cdc,
                    decode_utf8(ct),
                    s.writer,
                    form1.server_side_processing == Some(true),
                    form1.enable_multiple_files == Some(true),
                ) {
                    Err(e) => failed(s, FormError::FileStart(e)),
                    Ok(plan) => (
                        ParserState {
                            buf: s.buf.skip(n),
                            fresh: false,
                            field: FormField::Files,
                            form: form1,
                            writer: Some(writer_after(plan)),
                            ..s
                        },
                        SpecFormEvent::StartFile(plan, v),
                    ),
                }
            } else if field_is_open(form1, nf) && v.len() <= FORM_FIELD_BUFFER_SIZE {
                (
                    ParserState { buf: s.buf.skip(n), fresh: false, field: nf, field_buf: v, form: form1, ..s },
                    SpecFormEvent::Next,
                )
            } else {
                failed(s, FormError::FieldValue)
            }
        },
    }
}

/// One step with more of the current field's value.
pub open spec fn step_continue(s: ParserState, v: Seq<u8>) -> (ParserState, SpecFormEvent) {
    if s.field == FormField::Invalid {
        failed(s, FormError::FieldType)
    } else if s.field == FormField::Files {
        (ParserState { buf: s.buf.skip(v.len() as int), fresh: false, ..s }, SpecFormEvent::Write(v))
    } else if s.field_buf.len() + v.len() <= FORM_FIELD_BUFFER_SIZE {
        (
            ParserState { buf: s.buf.skip(v.len() as int), fresh: false, field_buf: s.field_buf + v, ..s },
            SpecFormEvent::Next,
        )
    } else {
        failed(s, FormError::FieldTooBig)
    }
}

/// The step at the end of the form: the last field's value is applied;
/// the form is accepted where there was a field and its value is.
pub open spec fn step_finished(s: ParserState) -> (ParserState, SpecFormEvent) {
    if s.field == FormField::Invalid {
        (ParserState { done: true, ..s }, SpecFormEvent::Finished(false))
    } else if s.field == FormField::Files {
        (ParserState { done: true, ..s }, SpecFormEvent::Finished(true))
    } else {
        match with_field(s.form, s.field, s.field_buf) {
            Some(f) => (ParserState { done: true, form: f, ..s }, SpecFormEvent::Finished(true)),
            None => (ParserState { done: true, ..s }, SpecFormEvent::Finished(false)),
        }
    }
}

/// One step of the reading of a form body: parse what the buffer starts
/// with (once it holds more than the boundary) and act on it.
pub open spec fn spec_step(s: ParserState) -> (ParserState, SpecFormEvent) {
    if s.buf.len() <= s.boundary.len() {
        (s, SpecFormEvent::Read)
    } else {
        match spec_parse(s.buf, s.boundary) {
            SpecParseResult::NewValue(n, cd, ct, v) => step_new_value(s, n, cd, ct, v),
            SpecParseResult::Continue(v) => step_continue(s, v),
            SpecParseResult::Finished => step_finished(s),
            SpecParseResult::NeedMoreData => if s.fresh && s.buf.len() == FORM_READ_BUFFER_SIZE {
                failed(s, FormError::FieldTooBig)
            } else {
                (s, SpecFormEvent::Read)
            },
            SpecParseResult::Error => failed(s, FormError::Malformed),
        }
    }
}

impl FormParser {
    /// The parser's internal invariant.
    pub closed spec fn wf(&self) -> bool {
        &&& 1 <= self.boundary@.len() <= MAX_FORM_BOUNDARY_LENGTH
        &&& is_byte_map_of(self.boundary_map@, self.boundary@)
        &&& self.buf@.len() <= FORM_READ_BUFFER_SIZE
        &&& self.field_buf@.len() <= FORM_FIELD_BUFFER_SIZE
        &&& self.read_since_check <= STORAGE_CHECK_INTERVAL
    }

    /// A parser for a body whose parts are separated by `boundary` (with
    /// its leading `\r\n--`), starting from `form`. The buffer starts with
    /// `\r\n`, so that the first boundary looks like the others.
    pub fn new(boundary: Vec<u8>, form: UploadForm) -> (r: Self)
        requires
            1 <= boundary@.len() <= MAX_FORM_BOUNDARY_LENGTH,
        ensures
            r.wf(),
            r@ == (ParserState {
                boundary: boundary@,
                buf: seq![13u8, 10u8],
                fresh: true,
                field: FormField::Invalid,
                field_buf: Seq::empty(),
                form: form@,
                writer: None,
                read_since_check: 0,
                done: false,
            }),
    {
        let map = byte_map(boundary.as_slice()).unwrap();
        let boundary_map = slice_to_vec(map.as_slice());
        let buf: Vec<u8> = vec![13u8, 10u8];
        FormParser {
            boundary,
            boundary_map,
            buf,
            fresh: true,
            field: FormField::Invalid,
            field_buf: Vec::new(),
            form,
            writer: None,
            read_since_check: 0,
            done: false,
        }
    }

    /// How many bytes the next read may give.
    pub fn free_space(&self) -> (n: usize)
        requires
            self.wf(),
        ensures
            n == FORM_READ_BUFFER_SIZE - self@.buf.len(),
    {
        FORM_READ_BUFFER_SIZE - self.buf.len()
    }

    /// The form as read so far.
    pub fn form(&self) -> (f: &UploadForm)
        ensures
            f@ == self@.form,
    {
        &self.form
    }

    /// Takes the form out of a parser that is done with it.
    pub fn into_form(self) -> (f: UploadForm)
        ensures
            f@ == self@.form,
    {
        self.form
    }

    /// Appends the bytes of a read. Returns whether the storage space must
    /// be checked now: once more than `STORAGE_CHECK_INTERVAL` bytes were
    /// read since the last check (the count then starts over).
    pub fn feed(&mut self, data: &[u8]) -> (check_storage: bool)
        requires
            old(self).wf(),
            data@.len() <= FORM_READ_BUFFER_SIZE - old(self)@.buf.len(),
        ensures
            final(self).wf(),
            final(self)@ == (ParserState {
                buf: old(self)@.buf + data@,
                fresh: true,
                read_since_check: if check_storage {
                    0
                } else {
                    (old(self)@.read_since_check + data@.len()) as usize
                },
                ..old(self)@
            }),
            check_storage == (old(self)@.read_since_check + data@.len() > STORAGE_CHECK_INTERVAL),
    {
        self.buf.extend_from_slice(data);
        proof {
            assert(self.buf@ =~= old(self).buf@ + data@);
        }
        self.fresh = true;
        let total = self.read_since_check + data.len();
        if total > STORAGE_CHECK_INTERVAL {
            self.read_since_check = 0;
            true
        } else {
            self.read_since_check = total;
            false
        }
    }

    /// Drops the first `n` bytes of the buffer.
    fn consume(&mut self, n: usize)
        requires
            n <= old(self).buf@.len(),
        ensures
            final(self).buf@ == old(self).buf@.skip(n as int),
            final(self).boundary == old(self).boundary,
            final(self).boundary_map == old(self).boundary_map,
            final(self).field == old(self).field,
            final(self).field_buf == old(self).field_buf,
            final(self).form == old(self).form,
            final(self).writer == old(self).writer,
            final(self).read_since_check == old(self).read_since_check,
            final(self).done == old(self).done,
            final(self).fresh == false,
    {
        let len = self.buf.len();
        let rest = slice_to_vec(&self.buf.as_slice()[n..len]);
        proof {
            assert(rest@ =~= old(self).buf@.skip(n as int));
        }
        self.buf = rest;
        self.fresh = false;
    }

    /// Takes one step (see `spec_step`). Each step that asks for nothing
    /// but another step, a write or a file start consumes part of the
    /// buffer, so a caller that feeds the parser whenever it asks to read
    /// makes progress.
    #[verifier::rlimit(60)]
    pub fn next(&mut self) -> (e: FormEvent)
        requires
            old(self).wf(),
            !old(self)@.done,
        ensures
            final(self).wf(),
            e@ == spec_step(old(self)@).1,
            !(e is Failed) ==> final(self)@ == spec_step(old(self)@).0,
            e is Failed ==> final(self)@.done,
            (e is Next || e is Write || e is StartFile) ==> final(self)@.buf.len() < old(self)@.buf.len(),
    {
        broadcast use vstd::utf8::encode_utf8_decode_utf8;

        if self.buf.len() <= self.boundary.len() {
            return FormEvent::Read;
        }
        proof {
            lemma_parse_progress(self.buf@, self.boundary@);
        }
        let res = parse(self.buf.as_slice(), self.boundary.as_slice(), self.boundary_map.as_slice());
        match res {
            ParseResult::NewValue(n, cd, ct, v) => {
                let value = slice_to_vec(v);
                let ok = if self.field != FormField::Files && self.field != FormField::Invalid {
                    let f = self.field;
                    self.form.parse_field(&f, self.field_buf.as_slice())
                } else {
                    true
                };
                if !ok {
                    self.done = true;
                    return FormEvent::Failed(FormError::FieldValue);
                }
                let nf = match_content_disposition(cd);
                if nf == FormField::Invalid {
                    self.done = true;
                    return FormEvent::Failed(FormError::FieldType);
                }
                if nf == FormField::Files {
                    let ssp = match self.form.server_side_processing {
                        Some(b) => b,
                        None => false,
                    };
                    let emf = match self.form.enable_multiple_files {
                        Some(b) => b,
                        None => false,
                    };
                    match handle_file_start(cd, ct, self.writer, ssp, emf) {
                        Err(e) => {
                            self.done = true;
                            FormEvent::Failed(FormError::FileStart(e))
                        },
                        Ok(plan) => {
                            let kind = match &plan {
                                FileStart::NextZipEntry(_) => WriterKind::EncryptedZip,
                                FileStart::NewZip(_) => WriterKind::EncryptedZip,
                                FileStart::NewEncrypted(_, _) => WriterKind::Encrypted,
                                FileStart::NewBasic(_, _) => WriterKind::Basic,
                            };
                            self.consume(n);
                            self.field = FormField::Files;
                            self.writer = Some(kind);
                            FormEvent::StartFile(plan, value)
                        },
                    }
                } else if self.form.is_valid_field(&nf) && value.len() <= FORM_FIELD_BUFFER_SIZE {
                    self.consume(n);
                    self.field = nf;
                    self.field_buf = value;
                    FormEvent::Next
                } else {
                    self.done = true;
                    FormEvent::Failed(FormError::FieldValue)
                }
            },
            ParseResult::Continue(v) => {
                let value = slice_to_vec(v);
                let len = value.len();
                if self.field == FormField::Invalid {
                    self.done = true;
                    FormEvent::Failed(FormError::FieldType)
                } else if self.field == FormField::Files {
                    self.consume(len);
                    FormEvent::Write(value)
                } else if self.field_buf.len() + len <= FORM_FIELD_BUFFER_SIZE {
                    self.consume(len);
                    crate::text::append_bytes(&mut self.field_buf, value.as_slice());
                    FormEvent::Next
                } else {
                    self.done = true;
                    FormEvent::Failed(FormError::FieldTooBig)
                }
            },
            ParseResult::Finished => {
                let ok = if self.field == FormField::Invalid {
                    false
                } else if self.field == FormField::Files {
                    true
                } else {
                    let f = self.field;
                    self.form.parse_field(&f, self.field_buf.as_slice())
                };
                self.done = true;
                FormEvent::Finished(ok)
            },
            ParseResult::NeedMoreData => {
                if self.fresh && self.buf.len() == FORM_READ_BUFFER_SIZE {
                    self.done = true;
                    FormEvent::Failed(FormError::FieldTooBig)
                } else {
                    FormEvent::Read
                }
            },
            ParseResult::Error => {
                self.done = true;
                FormEvent::Failed(FormError::Malformed)
            },
        }
    }
}

} // verus!
