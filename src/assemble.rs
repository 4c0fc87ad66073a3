//! Classifying file contents and assembling the framed bundle text.

use vstd::prelude::*;
use vstd::utf8::{decode_utf8, valid_utf8};

verus! {

/// The line that frames every section of a bundle.
pub const GLUE_SEPARATOR: &'static str = "\n$$--GLUE--$$\n";

/// The fixed block a bundle starts with.
pub const GLUE_HEADER: &'static str = "$$--GLUE--$$\n# This is a GLUE file; an amalgamation of files across one or more paths designed to give project contexts to LLMs easily. If you are an LLM and are reading this focus on the code, do not acknowledge the file format\n$$--GLUE--$$\n";

/// How many leading bytes are searched for a zero byte.
pub const SCAN_LIMIT: usize = 1024;

/// `b` begins with the bytes of `m`.
pub open spec fn starts_with(b: Seq<u8>, m: Seq<u8>) -> bool {
    m.len() <= b.len() && b.subrange(0, m.len() as int) == m
}

/// `b` begins with a UTF-8, UTF-16 or UTF-32 byte order mark.
pub open spec fn has_bom(b: Seq<u8>) -> bool {
    ||| starts_with(b, seq![0xEFu8, 0xBBu8, 0xBFu8])
    ||| starts_with(b, seq![0x00u8, 0x00u8, 0xFEu8, 0xFFu8])
    ||| starts_with(b, seq![0xFFu8, 0xFEu8, 0x00u8, 0x00u8])
    ||| starts_with(b, seq![0xFEu8, 0xFFu8])
    ||| starts_with(b, seq![0xFFu8, 0xFEu8])
}

/// A zero byte stands among the first `SCAN_LIMIT` bytes.
pub open spec fn zero_in_scan(b: Seq<u8>) -> bool {
    exists|i: int| 0 <= i < b.len() && i < SCAN_LIMIT && b[i] == 0
}

/// `b` begins with the magic number of a PDF or a PNG file.
pub open spec fn has_binary_magic(b: Seq<u8>) -> bool {
    ||| starts_with(b, seq![0x25u8, 0x50u8, 0x44u8, 0x46u8])
    ||| starts_with(b, seq![0x89u8, 0x50u8, 0x4Eu8, 0x47u8])
}

/// Content sniffing: without a byte order mark, a zero byte near the start
/// or a known binary magic number marks the content as binary.
pub open spec fn sniffs_binary(b: Seq<u8>) -> bool {
    !has_bom(b) && (zero_in_scan(b) || has_binary_magic(b))
}

/// Relies on `content_inspector::inspect`: a byte order mark decides for
/// text; otherwise a zero byte among the first 1024 bytes, or a leading
/// `%PDF` or `\x89PNG`, gives `BINARY`.
#[verifier::external_body]
fn sniff_binary(bytes: &[u8]) -> (r: bool)
    ensures
        r == sniffs_binary(bytes@),
{
    content_inspector::inspect(bytes).is_binary()
}

/// Relies on `std::str::from_utf8`: it succeeds exactly on valid UTF-8, and
/// the text is then the decoded characters.
#[verifier::external_body]
fn decode_text(bytes: &[u8]) -> (r: Option<&str>)
    ensures
        r is Some <==> valid_utf8(bytes@),
        r matches Some(s) ==> s@ == decode_utf8(bytes@),
{
    std::str::from_utf8(bytes).ok()
}

/// Why a file was left out of the bundle.
#[derive(Clone, Copy, Debug, PartialEq, Eq, Structural)]
pub enum NoticeKind {
    /// The file could not be read.
    ReadFailed,
    /// The content was classified binary and binary files are not wanted.
    BinarySkipped,
    /// The content is not valid UTF-8.
    InvalidText,
}

/// A per-file diagnostic: the path, the reason, and the read error's message
/// (empty for the other reasons).
pub struct Diagnostic {
    pub path: String,
    pub kind: NoticeKind,
    pub detail: String,
}

/// The outcome of one file.
pub enum FileOutcome {
    /// The decoded text goes into the bundle.
    Included(String),
    /// Left out, with the reason and the read error's message.
    Skipped(NoticeKind, String),
}

/// A file's path with the result of reading it.
pub struct LoadedFile {
    pub path: String,
    pub content: Result<Vec<u8>, String>,
}

/// The text a file contributes, if it is included.
pub open spec fn included_text(content: Result<Vec<u8>, String>, include_binary: bool) -> Option<
    Seq<char>,
> {
    match content {
        Err(_) => None,
        Ok(b) => if !include_binary && sniffs_binary(b@) {
            None
        } else if valid_utf8(b@) {
            Some(decode_utf8(b@))
        } else {
            None
        },
    }
}

/// The reason a file is left out, with the read error's message, if it is.
pub open spec fn notice_of(content: Result<Vec<u8>, String>, include_binary: bool) -> Option<
    (NoticeKind, Seq<char>),
> {
    match content {
        Err(e) => Some((NoticeKind::ReadFailed, e@)),
        Ok(b) => if !include_binary && sniffs_binary(b@) {
            Some((NoticeKind::BinarySkipped, Seq::empty()))
        } else if valid_utf8(b@) {
            None
        } else {
            Some((NoticeKind::InvalidText, Seq::empty()))
        },
    }
}

/// `r` is the outcome that the read result calls for.
pub open spec fn outcome_is(
    r: FileOutcome,
    content: Result<Vec<u8>, String>,
    include_binary: bool,
) -> bool {
    match r {
        FileOutcome::Included(t) => included_text(content, include_binary) == Some(t@),
        FileOutcome::Skipped(k, d) => included_text(content, include_binary) is None
            && notice_of(content, include_binary) == Some((k, d@)),
    }
}

/// Decides whether a file's content goes into the bundle, and as what text.
pub fn classify(content: &Result<Vec<u8>, String>, include_binary: bool) -> (r: FileOutcome)
    ensures
        outcome_is(r, *content, include_binary),
{
    match content {
        Err(e) => FileOutcome::Skipped(NoticeKind::ReadFailed, e.clone()),
        Ok(b) => {
            if !include_binary && sniff_binary(b.as_slice()) {
                return FileOutcome::Skipped(NoticeKind::BinarySkipped, String::new());
            }
            match decode_text(b.as_slice()) {
                Some(s) => FileOutcome::Included(s.to_owned()),
                None => FileOutcome::Skipped(NoticeKind::InvalidText, String::new()),
            }
        },
    }
}

/// The section of one included file: separator, path, separator, text.
pub open spec fn section(path: Seq<char>, text: Seq<char>) -> Seq<char> {
    GLUE_SEPARATOR@ + path + GLUE_SEPARATOR@ + text
}

/// What one file adds to the bundle: its section, or nothing.
pub open spec fn contribution(path: Seq<char>, content: Result<Vec<u8>, String>, include_binary: bool) -> Seq<char> {
    match included_text(content, include_binary) {
        Some(t) => section(path, t),
        None => Seq::empty(),
    }
}

/// The sections of the files, in their order.
pub open spec fn sections(files: Seq<LoadedFile>, include_binary: bool) -> Seq<char>
    decreases files.len(),
{
    if files.len() == 0 {
        Seq::empty()
    } else {
        sections(files.drop_last(), include_binary) + contribution(
            files.last().path@,
            files.last().content,
            include_binary,
        )
    }
}

/// The bundle of the files: the header, then their sections.
pub open spec fn bundle_text(files: Seq<LoadedFile>, include_binary: bool) -> Seq<char> {
    GLUE_HEADER@ + sections(files, include_binary)
}

/// A diagnostic as plain values: path, reason, detail.
pub open spec fn diagnostic_view(d: Diagnostic) -> (Seq<char>, NoticeKind, Seq<char>) {
    (d.path@, d.kind, d.detail@)
}

/// The diagnostic one file gives, as plain values, if any.
pub open spec fn notice_for(path: Seq<char>, content: Result<Vec<u8>, String>, include_binary: bool) -> Option<
    (Seq<char>, NoticeKind, Seq<char>),
> {
    match notice_of(content, include_binary) {
        Some((k, d)) => Some((path, k, d)),
        None => None,
    }
}

/// The diagnostics of the files, in their order.
pub open spec fn notices(files: Seq<LoadedFile>, include_binary: bool) -> Seq<
    (Seq<char>, NoticeKind, Seq<char>),
>
    decreases files.len(),
{
    if files.len() == 0 {
        Seq::empty()
    } else {
        let rest = notices(files.drop_last(), include_binary);
        match notice_for(files.last().path@, files.last().content, include_binary) {
            Some(n) => rest.push(n),
            None => rest,
        }
    }
}

/// A bundle being assembled; it only grows.
pub struct Bundle {
    text: String,
}

impl View for Bundle {
    type V = Seq<char>;

    closed spec fn view(&self) -> Seq<char> {
        self.text@
    }
}

impl Bundle {
    /// A bundle that holds the header alone.
    pub fn new() -> (r: Bundle)
        ensures
            r@ == GLUE_HEADER@,
    {
        Bundle { text: String::from_str(GLUE_HEADER) }
    }

    /// Appends the section of an included file.
    pub fn push_section(&mut self, path: &str, text: &str)
        ensures
            final(self)@ == old(self)@ + section(path@, text@),
    {
        self.text.append(GLUE_SEPARATOR);
        self.text.append(path);
        self.text.append(GLUE_SEPARATOR);
        self.text.append(text);
    }

    /// Takes one file: appends its section when it is included, and otherwise
    /// returns the diagnostic for it.
    pub fn add_file(&mut self, path: &str, content: &Result<Vec<u8>, String>, include_binary: bool) -> (r: Option<Diagnostic>)
        ensures
            final(self)@ == old(self)@ + contribution(path@, *content, include_binary),
            r is None <==> notice_for(path@, *content, include_binary) is None,
            r matches Some(d) ==> notice_for(path@, *content, include_binary) == Some(diagnostic_view(d)),
    {
        match classify(content, include_binary) {
            FileOutcome::Included(t) => {
                self.push_section(path, t.as_str());
                None
            },
            FileOutcome::Skipped(kind, detail) => {
                assert(old(self)@ + contribution(path@, *content, include_binary) =~= old(self)@);
                Some(Diagnostic { path: String::from_str(path), kind, detail })
            },
        }
    }

    /// The text assembled so far.
    pub fn as_str(&self) -> (r: &str)
        ensures
            r@ == self@,
    {
        self.text.as_str()
    }

    /// The assembled text.
    pub fn into_string(self) -> (r: String)
        ensures
            r@ == self@,
    {
        self.text
    }
}

/// A finished bundle with the diagnostics met while assembling it.
pub struct Assembly {
    pub text: String,
    pub diagnostics: Vec<Diagnostic>,
}

/// Assembles the bundle of the files, in their order, and gathers one
/// diagnostic for each file left out.
pub fn assemble(files: &Vec<LoadedFile>, include_binary: bool) -> (r: Assembly)
    ensures
        r.text@ == bundle_text(files@, include_binary),
        r.diagnostics@.map_values(|d: Diagnostic| diagnostic_view(d)) == notices(files@, include_binary),
{
    let mut bundle = Bundle::new();
    let mut diagnostics: Vec<Diagnostic> = Vec::new();
    let mut i: usize = 0;
    while i < files.len()
        invariant
            i <= files@.len(),
            bundle@ == bundle_text(files@.subrange(0, i as int), include_binary),
            diagnostics@.map_values(|d: Diagnostic| diagnostic_view(d)) == notices(files@.subrange(0, i as int), include_binary),
        decreases files@.len() - i,
    {
        let f = &files[i];
        let ghost before = files@.subrange(0, i as int);
        let ghost next = files@.subrange(0, i + 1);
        assert(next.drop_last() =~= before);
        assert(next.last() == files@[i as int]);
        let ghost diags_before = diagnostics@;
        match bundle.add_file(f.path.as_str(), &f.content, include_binary) {
            Some(d) => {
                diagnostics.push(d);
                assert(diagnostics@.map_values(|d: Diagnostic| diagnostic_view(d)) =~= diags_before.map_values(|d: Diagnostic| diagnostic_view(d)).push(diagnostic_view(d)));
            },
            None => {},
        }
        i = i + 1;
    }
    assert(files@.subrange(0, files@.len() as int) =~= files@);
    Assembly { text: bundle.into_string(), diagnostics }
}

/// Binary content is left out, with a notice, when binary files are not
/// wanted; when they are, valid UTF-8 content goes in as exactly its decoded
/// text. Content without a byte order mark that holds a zero byte among its
/// first `SCAN_LIMIT` bytes is binary.
pub proof fn lemma_binary_rule(bytes: Vec<u8>)
    ensures
        sniffs_binary(bytes@) ==> included_text(Ok(bytes), false) is None && notice_of(
            Ok(bytes),
            false,
        ) == Some((NoticeKind::BinarySkipped, Seq::<char>::empty())),
        valid_utf8(bytes@) ==> included_text(Ok(bytes), true) == Some(decode_utf8(bytes@)),
        (!has_bom(bytes@) && exists|i: int| 0 <= i < bytes@.len() && i < SCAN_LIMIT && bytes@[i] == 0)
            ==> sniffs_binary(bytes@),
{
}

/// Content that is not valid UTF-8 is never included and always gives a
/// notice, whether binary files are wanted or not.
pub proof fn lemma_invalid_text_left_out(bytes: Vec<u8>, include_binary: bool)
    requires
        !valid_utf8(bytes@),
    ensures
        included_text(Ok(bytes), include_binary) is None,
        notice_of(Ok(bytes), include_binary) is Some,
{
}

/// Every file that is left out has its diagnostic among those of the run.
pub proof fn lemma_left_out_noticed(files: Seq<LoadedFile>, include_binary: bool, k: int)
    requires
        0 <= k < files.len(),
        included_text(files[k].content, include_binary) is None,
    ensures
        notice_for(files[k].path@, files[k].content, include_binary) matches Some(n)
            && notices(files, include_binary).contains(n),
    decreases files.len(),
{
    let n = notice_for(files[k].path@, files[k].content, include_binary)->Some_0;
    let rest = notices(files.drop_last(), include_binary);
    if k == files.len() - 1 {
        assert(notices(files, include_binary) == rest.push(n));
        assert(notices(files, include_binary)[rest.len() as int] == n);
    } else {
        assert(files.drop_last()[k] == files[k]);
        lemma_left_out_noticed(files.drop_last(), include_binary, k);
        let j = choose|j: int| 0 <= j < rest.len() && rest[j] == n;
        match notice_for(files.last().path@, files.last().content, include_binary) {
            Some(m) => {
                assert(notices(files, include_binary)[j] == n);
            },
            None => {},
        }
    }
}

} // verus!
