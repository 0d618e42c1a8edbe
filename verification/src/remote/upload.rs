//! The two upload requests as sessions over the fields of a multipart body.
//! Each field moves the session on; a field may ask the caller to save a file
//! or to copy files from a base bundle version, and the caller reports back
//! what it did. Reading the body and touching the disk are the caller's part.
use vstd::prelude::*;
use crate::remote::api::{ApiError, api_error, error_view};
use crate::remote::config::strings_view;
use crate::text::{concat, owned};

verus! {

/// What `serde_json::from_str::<Vec<String>>` gives for `text`: the list of
/// strings, or the text of the error it reports.
pub uninterp spec fn json_string_list(text: Seq<char>) -> Result<Seq<Seq<char>>, Seq<char>>;

/// `serde_json::from_str::<Vec<String>>(text)`, with the error as its message.
#[verifier::external_body]
pub(crate) fn parse_string_list(text: &str) -> (r: Result<Vec<String>, String>)
    ensures
        match r {
            Ok(v) => json_string_list(text@) == Ok::<Seq<Seq<char>>, Seq<char>>(strings_view(v@)),
            Err(e) => json_string_list(text@) == Err::<Seq<Seq<char>>, Seq<char>>(e@),
        },
{
    serde_json::from_str::<Vec<String>>(text).map_err(|e| e.to_string())
}

fn refuse(status: u16, message: &str) -> (r: ApiError)
    ensures
        error_view(r) == api_error(status, message@),
{
    ApiError { status, message: owned(message) }
}

/// Where one uploaded file is to be saved.
#[derive(Debug)]
pub struct SaveRequest {
    pub platform: String,
    pub version: String,
}

/// What a plain upload session has gathered.
pub ghost struct UploadView {
    pub platform: Seq<char>,
    pub version: Seq<char>,
    pub file_count: nat,
}

/// A plain upload: `platform` and `version` fields, then files.
#[derive(Debug)]
pub struct UploadSession {
    pub platform: String,
    pub version: String,
    pub file_count: u32,
}

impl View for UploadSession {
    type V = UploadView;

    open spec fn view(&self) -> UploadView {
        UploadView { platform: self.platform@, version: self.version@, file_count: self.file_count as nat }
    }
}

impl UploadSession {
    /// A session that has seen no field.
    pub fn new() -> (r: Self)
        ensures
            r@ == (UploadView { platform: Seq::empty(), version: Seq::empty(), file_count: 0 }),
    {
        UploadSession { platform: String::new(), version: String::new(), file_count: 0 }
    }

    /// A `platform` field.
    pub fn on_platform(&mut self, text: String)
        ensures
            final(self)@ == (UploadView { platform: text@, ..old(self)@ }),
    {
        self.platform = text;
    }

    /// A `version` field.
    pub fn on_version(&mut self, text: String)
        ensures
            final(self)@ == (UploadView { version: text@, ..old(self)@ }),
    {
        self.version = text;
    }

    /// A `files` field whose contents were read: the platform must have come
    /// first; a missing version becomes `fallback_version` (the upload time).
    pub fn on_file(&mut self, fallback_version: &str) -> (r: Result<SaveRequest, ApiError>)
        ensures
            old(self)@.platform.len() == 0 ==> (r matches Err(e) && error_view(e) == api_error(
                400,
                "platform field must come before files"@,
            ) && final(self)@ == old(self)@),
            old(self)@.platform.len() > 0 ==> {
                let version = if old(self)@.version.len() == 0 {
                    fallback_version@
                } else {
                    old(self)@.version
                };
                &&& final(self)@ == (UploadView { version: version, ..old(self)@ })
                &&& r matches Ok(s) && s.platform@ == old(self)@.platform && s.version@ == version
            },
    {
        if self.platform.as_str().unicode_len() == 0 {
            return Err(refuse(400, "platform field must come before files"));
        }
        if self.version.as_str().unicode_len() == 0 {
            self.version = owned(fallback_version);
        }
        Ok(SaveRequest { platform: self.platform.clone(), version: self.version.clone() })
    }

    /// A file was saved.
    pub fn on_saved(&mut self)
        requires
            old(self).file_count < u32::MAX,
        ensures
            final(self)@ == (UploadView { file_count: old(self)@.file_count + 1, ..old(self)@ }),
    {
        self.file_count = self.file_count + 1;
    }
}

/// Copying the listed files of a base bundle version into the new one.
#[derive(Debug)]
pub struct CopyRequest {
    pub platform: String,
    pub version: String,
    pub base_version: String,
    pub copy_files: Vec<String>,
}

/// What an incremental upload session has gathered.
pub ghost struct IncrementalView {
    pub platform: Seq<char>,
    pub version: Seq<char>,
    pub base_version: Seq<char>,
    pub copy_files: Seq<Seq<char>>,
    pub copied_count: nat,
    pub copied_done: bool,
    pub uploaded_count: nat,
}

/// An incremental upload: `platform`, `version`, `base_version` and
/// `copy_files` fields, then the new files. The files named in `copy_files`
/// are copied from the base version once, before the first new file is saved
/// or, where no file comes, at the end.
#[derive(Debug)]
pub struct IncrementalSession {
    pub platform: String,
    pub version: String,
    pub base_version: String,
    pub copy_files: Vec<String>,
    pub copied_count: u32,
    pub copied_done: bool,
    pub uploaded_count: u32,
}

impl View for IncrementalSession {
    type V = IncrementalView;

    open spec fn view(&self) -> IncrementalView {
        IncrementalView {
            platform: self.platform@,
            version: self.version@,
            base_version: self.base_version@,
            copy_files: strings_view(self.copy_files@),
            copied_count: self.copied_count as nat,
            copied_done: self.copied_done,
            uploaded_count: self.uploaded_count as nat,
        }
    }
}

/// What a `files` field asks of the caller: a copy first where none was
/// made yet, then saving the file.
#[derive(Debug)]
pub struct FileStep {
    pub copy: Option<CopyRequest>,
    pub save: SaveRequest,
}

/// A copy request, by its view.
pub open spec fn copy_request_matches(c: CopyRequest, s: IncrementalView) -> bool {
    &&& c.platform@ == s.platform
    &&& c.version@ == s.version
    &&& c.base_version@ == s.base_version
    &&& strings_view(c.copy_files@) == s.copy_files
}

impl IncrementalSession {
    /// A session that has seen no field.
    pub fn new() -> (r: Self)
        ensures
            r@ == (IncrementalView {
                platform: Seq::empty(),
                version: Seq::empty(),
                base_version: Seq::empty(),
                copy_files: Seq::empty(),
                copied_count: 0,
                copied_done: false,
                uploaded_count: 0,
            }),
    {
        let r = IncrementalSession {
            platform: String::new(),
            version: String::new(),
            base_version: String::new(),
            copy_files: Vec::new(),
            copied_count: 0,
            copied_done: false,
            uploaded_count: 0,
        };
        assert(r@.copy_files =~= Seq::<Seq<char>>::empty());
        r
    }

    /// A `platform` field.
    pub fn on_platform(&mut self, text: String)
        ensures
            final(self)@ == (IncrementalView { platform: text@, ..old(self)@ }),
    {
        self.platform = text;
    }

    /// A `version` field.
    pub fn on_version(&mut self, text: String)
        ensures
            final(self)@ == (IncrementalView { version: text@, ..old(self)@ }),
    {
        self.version = text;
    }

    /// A `base_version` field.
    pub fn on_base_version(&mut self, text: String)
        ensures
            final(self)@ == (IncrementalView { base_version: text@, ..old(self)@ }),
    {
        self.base_version = text;
    }

    /// A `copy_files` field: a JSON list of file names.
    pub fn on_copy_files(&mut self, text: &str) -> (r: Result<(), ApiError>)
        ensures
            match json_string_list(text@) {
                Ok(names) => r is Ok && final(self)@ == (IncrementalView {
                    copy_files: names,
                    ..old(self)@
                }),
                Err(msg) => r matches Err(e) && error_view(e) == api_error(
                    400,
                    "解析 copy_files 失败: "@ + msg,
                ) && final(self)@ == old(self)@,
            },
    {
        match parse_string_list(text) {
            Ok(names) => {
                self.copy_files = names;
                Ok(())
            },
            Err(msg) => Err(ApiError { status: 400, message: concat("解析 copy_files 失败: ", msg.as_str()) }),
        }
    }

    fn copy_request(&self) -> (r: CopyRequest)
        ensures
            copy_request_matches(r, self@),
    {
        CopyRequest {
            platform: self.platform.clone(),
            version: self.version.clone(),
            base_version: self.base_version.clone(),
            copy_files: crate::remote::config::copy_strings(&self.copy_files),
        }
    }

    /// A `files` field: the platform must have come first; a missing version
    /// becomes `fallback_version` (the upload time); the base version must
    /// have come first; the copy from the base version is asked for once.
    pub fn on_file(&mut self, fallback_version: &str) -> (r: Result<FileStep, ApiError>)
        ensures
            ({
                let s = old(self)@;
                let version = if s.version.len() == 0 { fallback_version@ } else { s.version };
                if s.platform.len() == 0 {
                    r matches Err(e) && error_view(e) == api_error(400, "platform 字段必须先于 files"@)
                        && final(self)@ == s
                } else if s.base_version.len() == 0 {
                    r matches Err(e) && error_view(e) == api_error(
                        400,
                        "base_version 字段必须先于 files"@,
                    ) && final(self)@ == (IncrementalView { version: version, ..s })
                } else {
                    &&& final(self)@ == (IncrementalView { version: version, ..s })
                    &&& r matches Ok(step) && step.save.platform@ == s.platform && step.save.version@
                        == version && (step.copy is Some <==> !s.copied_done) && (step.copy matches Some(
                        c,
                    ) ==> copy_request_matches(c, final(self)@))
                }
            }),
    {
        if self.platform.as_str().unicode_len() == 0 {
            return Err(refuse(400, "platform 字段必须先于 files"));
        }
        if self.version.as_str().unicode_len() == 0 {
            self.version = owned(fallback_version);
        }
        if self.base_version.as_str().unicode_len() == 0 {
            return Err(refuse(400, "base_version 字段必须先于 files"));
        }
        let copy = if !self.copied_done {
            Some(self.copy_request())
        } else {
            None
        };
        Ok(FileStep { copy, save: SaveRequest { platform: self.platform.clone(), version: self.version.clone() } })
    }

    /// The copy asked for was made, copying `count` files.
    pub fn on_copied(&mut self, count: u32)
        ensures
            final(self)@ == (IncrementalView {
                copied_count: count as nat,
                copied_done: true,
                ..old(self)@
            }),
    {
        self.copied_count = count;
        self.copied_done = true;
    }

    /// A new file was saved.
    pub fn on_saved(&mut self)
        requires
            old(self).uploaded_count < u32::MAX,
        ensures
            final(self)@ == (IncrementalView { uploaded_count: old(self)@.uploaded_count + 1, ..old(self)@ }),
    {
        self.uploaded_count = self.uploaded_count + 1;
    }

    /// The body has ended: where no copy was made yet, the platform and base
    /// version must be known, a missing version becomes `fallback_version`, and
    /// the copy is asked for now.
    pub fn finish(&mut self, fallback_version: &str) -> (r: Result<Option<CopyRequest>, ApiError>)
        ensures
            ({
                let s = old(self)@;
                if s.copied_done {
                    r matches Ok(None) && final(self)@ == s
                } else if s.platform.len() == 0 || s.base_version.len() == 0 {
                    r matches Err(e) && error_view(e) == api_error(400, "缺少 platform 或 base_version"@)
                        && final(self)@ == s
                } else {
                    let version = if s.version.len() == 0 { fallback_version@ } else { s.version };
                    &&& final(self)@ == (IncrementalView { version: version, ..s })
                    &&& r matches Ok(Some(c)) && copy_request_matches(c, final(self)@)
                }
            }),
    {
        if self.copied_done {
            return Ok(None);
        }
        if self.platform.as_str().unicode_len() == 0 || self.base_version.as_str().unicode_len() == 0 {
            return Err(refuse(400, "缺少 platform 或 base_version"));
        }
        if self.version.as_str().unicode_len() == 0 {
            self.version = owned(fallback_version);
        }
        Ok(Some(self.copy_request()))
    }
}

} // verus!
