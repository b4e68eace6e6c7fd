//! Receiving an upload: of the fields of a form, the last file of the wanted kind is taken.

use crate::import::MAX_IMPORT_BYTES;
use crate::flow::maybe;
#[allow(unused_imports)]
use crate::reply::{refusal, Answer};
use crate::reply::{refuse, Reply};
use crate::text::ends_with;
#[allow(unused_imports)]
use crate::text::ends;
use vstd::prelude::*;

verus! {

/// What kind of file is wanted.
#[derive(Debug, Clone, Copy, PartialEq, Eq, Structural)]
pub enum UploadKind {
    Markdown,
    Zip,
}

/// What comes in of a form.
pub enum FormEvent {
    /// The form has come in.
    Start,
    /// There is a field, and it may be that of a file.
    Field { file_name: Option<String> },
    /// The content of the field.
    Bytes(Vec<u8>),
    /// There is no field left.
    End,
    /// The form cannot be read further: with which status, and why.
    Failed { status: u16, why: String },
}

/// What is to be done with a form, over texts `T`, contents `B` and answers `R`.
pub enum FormActionOf<T, B, R> {
    /// Go on to the next field.
    NextField,
    /// Read the field.
    ReadField,
    /// The file has been received. Nothing follows.
    Received { name: T, data: B },
    /// The request is answered so. Nothing follows.
    Refused(R),
    /// What came in is not what was asked for. Nothing follows.
    Misfit,
}

pub type FormAction = FormActionOf<String, Vec<u8>, Reply>;

pub type FormAct = FormActionOf<Seq<char>, Seq<u8>, Answer>;

impl View for FormActionOf<String, Vec<u8>, Reply> {
    type V = FormAct;

    open spec fn view(&self) -> FormAct {
        match *self {
            FormActionOf::NextField => FormActionOf::NextField,
            FormActionOf::ReadField => FormActionOf::ReadField,
            FormActionOf::Received { name, data } => FormActionOf::Received {
                name: name@,
                data: data@,
            },
            FormActionOf::Refused(r) => FormActionOf::Refused(r@),
            FormActionOf::Misfit => FormActionOf::Misfit,
        }
    }
}

/// An upload that is coming in.
pub struct Upload {
    pub kind: UploadKind,
    /// The last file that was read.
    pub found: Option<(String, Vec<u8>)>,
    /// The file that is being read.
    pub pending: Option<String>,
}

/// The mathematical content of an upload.
pub struct Incoming {
    pub kind: UploadKind,
    pub found: Option<(Seq<char>, Seq<u8>)>,
    pub pending: Option<Seq<char>>,
}

impl View for Upload {
    type V = Incoming;

    open spec fn view(&self) -> Incoming {
        Incoming {
            kind: self.kind,
            found: match self.found {
                Some((name, data)) => Some((name@, data@)),
                None => None,
            },
            pending: maybe(self.pending),
        }
    }
}

/// A file name of the wanted kind.
pub open spec fn is_wanted(kind: UploadKind, name: Seq<char>) -> bool {
    match kind {
        UploadKind::Markdown => ends(name, ".md"@),
        UploadKind::Zip => ends(name, ".zip"@),
    }
}

/// A content that is more than is taken.
pub open spec fn is_too_large(kind: UploadKind, data: Seq<u8>) -> bool {
    kind == UploadKind::Zip && data.len() > MAX_IMPORT_BYTES
}

pub open spec fn at_field(u: Incoming, file_name: Option<Seq<char>>) -> (Incoming, FormAct) {
    match file_name {
        Some(name) => if is_wanted(u.kind, name) {
            (Incoming { pending: Some(name), ..u }, FormActionOf::ReadField)
        } else {
            (Incoming { pending: None, ..u }, FormActionOf::NextField)
        },
        None => (Incoming { pending: None, ..u }, FormActionOf::NextField),
    }
}

pub open spec fn at_bytes(u: Incoming, data: Seq<u8>) -> (Incoming, FormAct) {
    match u.pending {
        Some(name) => if is_too_large(u.kind, data) {
            (u, FormActionOf::Refused(refusal(413, "压缩包超过 50MB 上限"@)))
        } else {
            (Incoming { found: Some((name, data)), pending: None, ..u }, FormActionOf::NextField)
        },
        None => (u, FormActionOf::Misfit),
    }
}

pub open spec fn at_end(u: Incoming) -> (Incoming, FormAct) {
    (
        Incoming { found: None, ..u },
        match u.found {
            Some((name, data)) => FormActionOf::Received { name, data },
            None => FormActionOf::Refused(
                refusal(
                    400,
                    match u.kind {
                        UploadKind::Markdown =>
                            "请上传 .md 文件（multipart 字段带 filename）"@,
                        UploadKind::Zip =>
                            "请上传 .zip 文件（multipart 字段带 filename）"@,
                    },
                ),
            ),
        },
    )
}

/// What is done with a form next.
pub open spec fn form_next(u: Incoming, ev: FormEvent) -> (Incoming, FormAct) {
    match ev {
        FormEvent::Start => (Incoming { pending: None, ..u }, FormActionOf::NextField),
        FormEvent::Field { file_name } => at_field(u, maybe(file_name)),
        FormEvent::Bytes(data) => at_bytes(u, data@),
        FormEvent::End => at_end(u),
        FormEvent::Failed { status, why } => (
            u,
            FormActionOf::Refused(
                refusal(
                    if u.kind == UploadKind::Markdown {
                        400
                    } else {
                        status
                    },
                    why@,
                ),
            ),
        ),
    }
}

pub open spec fn new_upload(kind: UploadKind) -> Incoming {
    Incoming { kind, found: None, pending: None }
}

fn wants(kind: UploadKind, name: &str) -> (b: bool)
    ensures
        b == is_wanted(kind, name@),
{
    match kind {
        UploadKind::Markdown => ends_with(name, ".md"),
        UploadKind::Zip => ends_with(name, ".zip"),
    }
}

impl Upload {
    pub fn new(kind: UploadKind) -> (u: Upload)
        ensures
            u@ == new_upload(kind),
    {
        Upload { kind, found: None, pending: None }
    }

    /// What is done with the form next.
    pub fn next(&mut self, ev: FormEvent) -> (a: FormAction)
        ensures
            (final(self)@, a@) == form_next(old(self)@, ev),
    {
        match ev {
            FormEvent::Start => {
                self.pending = None;
                FormActionOf::NextField
            },
            FormEvent::Field { file_name } => {
                match file_name {
                    Some(name) => {
                        if wants(self.kind, name.as_str()) {
                            self.pending = Some(name);
                            FormActionOf::ReadField
                        } else {
                            self.pending = None;
                            FormActionOf::NextField
                        }
                    },
                    None => {
                        self.pending = None;
                        FormActionOf::NextField
                    },
                }
            },
            FormEvent::Bytes(data) => {
                match &self.pending {
                    Some(name) => {
                        if self.kind == UploadKind::Zip && data.len() > MAX_IMPORT_BYTES {
                            return FormActionOf::Refused(
                                refuse(413, "压缩包超过 50MB 上限".to_owned()),
                            );
                        }
                        self.found = Some((name.clone(), data));
                        self.pending = None;
                        FormActionOf::NextField
                    },
                    None => FormActionOf::Misfit,
                }
            },
            FormEvent::End => {
                match self.found.take() {
                    Some((name, data)) => FormActionOf::Received { name, data },
                    None => FormActionOf::Refused(
                        refuse(
                            400,
                            match self.kind {
                                UploadKind::Markdown =>
                                    "请上传 .md 文件（multipart 字段带 filename）".to_owned(),
                                UploadKind::Zip =>
                                    "请上传 .zip 文件（multipart 字段带 filename）".to_owned(),
                            },
                        ),
                    ),
                }
            },
            FormEvent::Failed { status, why } => {
                let shown: u16 = if self.kind == UploadKind::Markdown {
                    400
                } else {
                    status
                };
                FormActionOf::Refused(refuse(shown, why))
            },
        }
    }
}

/// An upload after some fields, each with the name of its file, if it is one, and its content.
pub open spec fn after_fields(u: Incoming, fields: Seq<(Option<Seq<char>>, Seq<u8>)>) -> Incoming
    decreases fields.len(),
{
    if fields.len() == 0 {
        u
    } else {
        let (name, data) = fields.last();
        let v = at_field(after_fields(u, fields.drop_last()), name);
        if v.1 is ReadField {
            at_bytes(v.0, data).0
        } else {
            v.0
        }
    }
}

/// The last file of the wanted kind.
pub open spec fn last_wanted(
    kind: UploadKind,
    fields: Seq<(Option<Seq<char>>, Seq<u8>)>,
) -> Option<(Seq<char>, Seq<u8>)>
    decreases fields.len(),
{
    if fields.len() == 0 {
        None
    } else {
        let (name, data) = fields.last();
        match name {
            Some(name) => if is_wanted(kind, name) {
                Some((name, data))
            } else {
                last_wanted(kind, fields.drop_last())
            },
            None => last_wanted(kind, fields.drop_last()),
        }
    }
}

/// Of a form whose files are not too large, the last file of the wanted kind is received; a form
/// without one is refused.
pub proof fn law_last_file_is_received(
    kind: UploadKind,
    fields: Seq<(Option<Seq<char>>, Seq<u8>)>,
)
    requires
        forall|i: int| 0 <= i < fields.len() ==> !is_too_large(kind, (#[trigger] fields[i]).1),
    ensures
        after_fields(new_upload(kind), fields).kind == kind,
        after_fields(new_upload(kind), fields).found == last_wanted(kind, fields),
        match last_wanted(kind, fields) {
            Some((name, data)) => at_end(after_fields(new_upload(kind), fields)).1
                == FormAct::Received { name, data },
            None => at_end(after_fields(new_upload(kind), fields)).1 matches FormActionOf::Refused(
                r,
            ) && r.status == 400,
        },
    decreases fields.len(),
{
    if fields.len() > 0 {
        let less = fields.drop_last();
        assert forall|i: int| 0 <= i < less.len() implies !is_too_large(
            kind,
            (#[trigger] less[i]).1,
        ) by {
            assert(less[i] == fields[i]);
        }
        law_last_file_is_received(kind, less);
        assert(!is_too_large(kind, fields[fields.len() - 1].1));
    }
}

/// An upload after some fields of a form, each with the name of its file, if it is one, and its
/// content, which is read only where it is asked for.
pub open spec fn after_form(kind: UploadKind, fields: Seq<(Option<String>, Vec<u8>)>) -> Incoming
    decreases fields.len(),
{
    if fields.len() == 0 {
        form_next(Incoming { kind, found: None, pending: None }, FormEvent::Start).0
    } else {
        let (file_name, data) = fields.last();
        let u = form_next(after_form(kind, fields.drop_last()), FormEvent::Field { file_name });
        if u.1 is ReadField {
            form_next(u.0, FormEvent::Bytes(data)).0
        } else {
            u.0
        }
    }
}

/// A field that holds a file of the wanted kind, by the end of its name.
pub open spec fn is_file_of(kind: UploadKind, field: (Option<String>, Vec<u8>)) -> bool {
    field.0 matches Some(name) && ends(
        name@,
        match kind {
            UploadKind::Markdown => ".md"@,
            UploadKind::Zip => ".zip"@,
        },
    )
}

/// What is received of a form is the last of its files of the wanted kind, with its name and its whole
/// content; where there is none, the request is refused.
pub proof fn law_the_last_file_comes_whole(
    kind: UploadKind,
    fields: Seq<(Option<String>, Vec<u8>)>,
    i: int,
)
    requires
        kind == UploadKind::Zip ==> forall|k: int|
            0 <= k < fields.len() ==> (#[trigger] fields[k]).1@.len() <= 52_428_800,
        -1 <= i < fields.len(),
        i >= 0 ==> is_file_of(kind, fields[i]),
        forall|k: int| i < k < fields.len() ==> !is_file_of(kind, #[trigger] fields[k]),
    ensures
        after_form(kind, fields).kind == kind,
        after_form(kind, fields).pending is None,
        ({
            let a = form_next(after_form(kind, fields), FormEvent::End).1;
            if i >= 0 {
                a == (FormAct::Received { name: fields[i].0->0@, data: fields[i].1@ })
            } else {
                a == FormAct::Refused(
                    refusal(
                        400,
                        match kind {
                            UploadKind::Markdown =>
                                "请上传 .md 文件（multipart 字段带 filename）"@,
                            UploadKind::Zip =>
                                "请上传 .zip 文件（multipart 字段带 filename）"@,
                        },
                    ),
                )
            }
        }),
    decreases fields.len(),
{
    if fields.len() > 0 {
        let less = fields.drop_last();
        let n = fields.len() - 1;
        assert forall|k: int| 0 <= k < less.len() implies #[trigger] less[k] == fields[k] by {}
        assert(fields[n] == fields.last());
        if i < n {
            law_the_last_file_comes_whole(kind, less, i);
        } else {
            lemma_form_kind(kind, less);
        }
    }
}

proof fn lemma_form_kind(kind: UploadKind, fields: Seq<(Option<String>, Vec<u8>)>)
    ensures
        after_form(kind, fields).kind == kind,
    decreases fields.len(),
{
    if fields.len() > 0 {
        lemma_form_kind(kind, fields.drop_last());
    }
}

/// Only files of the wanted kind are read; an archive of more than fifty megabytes is refused, and a
/// page is never too large; and a form that cannot be read is refused with why.
pub proof fn law_uploads_are_refused_for_a_reason(
    u: Incoming,
    file_name: Option<String>,
    data: Vec<u8>,
    status: u16,
    why: String,
)
    ensures
        form_next(u, FormEvent::Field { file_name }).1 == (if is_file_of(
            u.kind,
            (file_name, data),
        ) {
            FormAct::ReadField
        } else {
            FormAct::NextField
        }),
        u.pending is Some && u.kind == UploadKind::Zip && data@.len() > 52_428_800 ==> form_next(
            u,
            FormEvent::Bytes(data),
        ).1 == FormAct::Refused(refusal(413, "压缩包超过 50MB 上限"@)),
        u.pending is Some && !(u.kind == UploadKind::Zip && data@.len() > 52_428_800) ==> form_next(
            u,
            FormEvent::Bytes(data),
        ).1 == FormAct::NextField,
        form_next(u, FormEvent::Failed { status, why }).1 == FormAct::Refused(
            refusal(
                match u.kind {
                    UploadKind::Markdown => 400,
                    UploadKind::Zip => status,
                },
                why@,
            ),
        ),
        new_upload(u.kind) == (Incoming { kind: u.kind, found: None, pending: None }),
{
}

/// The model of what is done with a form says what is done: the whole name and content of a file,
/// and the whole answer.
pub proof fn law_form_actions_are_modelled_whole(name: String, data: Vec<u8>, answer: Reply)
    ensures
        (FormAction::Received { name, data })@ == (FormAct::Received { name: name@, data: data@ }),
        (FormAction::Refused(answer))@ == FormAct::Refused(answer@),
        (FormAction::NextField)@ is NextField,
        (FormAction::ReadField)@ is ReadField,
{
}

} // verus!
