//! The content ingestion pipeline: a streamed multipart body becomes named
//! text fields plus at most one binary attachment, whose true type is
//! sniffed from its leading bytes and which is committed under a generated
//! name — or does not survive the request at all.
//!
//! The upload directory is a filesystem collaborator, so it is modelled
//! here as a verified structure whose view is the map from file names to
//! contents; the surrounding process performs the matching writes, renames
//! and removals. An artifact only ever appears in the directory under its
//! final `<identifier>.<extension>` name: the model commits atomically,
//! which is exactly the invariant the streaming realization must preserve.

use vstd::prelude::*;

use vstd::string::StringExecFns;
use vstd::utf8::{decode_utf8, valid_utf8};

verus! {

/// An uppercase ASCII letter, the only bytes the type sniffer reads.
pub open spec fn is_upper(b: u8) -> bool {
    65 <= b && b <= 90
}

/// The lowercase counterpart of an uppercase ASCII letter.
pub open spec fn lower(b: u8) -> u8 {
    (b + 32) as u8
}

/// The lowercased run of uppercase letters starting exactly at `i`.
pub open spec fn run_from(s: Seq<u8>, i: int) -> Seq<u8>
    decreases s.len() - i,
{
    if 0 <= i < s.len() && is_upper(s[i]) {
        seq![lower(s[i])] + run_from(s, i + 1)
    } else {
        Seq::empty()
    }
}

/// The lowercased first run of uppercase letters at or after `i`.
pub open spec fn sniff_from(s: Seq<u8>, i: int) -> Seq<u8>
    decreases s.len() - i,
{
    if !(0 <= i < s.len()) {
        Seq::empty()
    } else if is_upper(s[i]) {
        run_from(s, i)
    } else {
        sniff_from(s, i + 1)
    }
}

/// The sniffed extension of a content: the first contiguous run of
/// uppercase ASCII letters, lowercased; empty when the content holds no
/// uppercase letter.
pub open spec fn sniffed_ext(s: Seq<u8>) -> Seq<u8> {
    sniff_from(s, 0)
}

/// Bytes read as characters, one per byte.
pub open spec fn bytes_chars(b: Seq<u8>) -> Seq<char> {
    Seq::new(b.len(), |i: int| b[i] as char)
}

/// Every byte of a sniffed extension is a lowercase ASCII letter.
pub proof fn lemma_run_lower(s: Seq<u8>, i: int)
    ensures
        forall|x: int|
            0 <= x < run_from(s, i).len() ==> 97 <= #[trigger] run_from(s, i)[x] <= 122,
    decreases s.len() - i,
{
    if 0 <= i < s.len() && is_upper(s[i]) {
        lemma_run_lower(s, i + 1);
        assert forall|x: int|
            0 <= x < run_from(s, i).len() implies 97 <= #[trigger] run_from(s, i)[x]
            <= 122 by {
            if x > 0 {
                assert(run_from(s, i)[x] == run_from(s, i + 1)[x - 1]);
            }
        }
    }
}

/// Every byte of a sniffed extension is a lowercase ASCII letter.
pub proof fn lemma_sniffed_lower(s: Seq<u8>, i: int)
    ensures
        forall|x: int|
            0 <= x < sniff_from(s, i).len() ==> 97 <= #[trigger] sniff_from(s, i)[x] <= 122,
    decreases s.len() - i,
{
    if !(0 <= i < s.len()) {
    } else if is_upper(s[i]) {
        lemma_run_lower(s, i);
        assert(sniff_from(s, i) == run_from(s, i));
    } else {
        lemma_sniffed_lower(s, i + 1);
        assert(sniff_from(s, i) == sniff_from(s, i + 1));
    }
}

/// A sequence of ASCII bytes is valid UTF-8 and decodes to itself, one
/// character per byte.
pub proof fn lemma_ascii_decode(b: Seq<u8>)
    requires
        forall|i: int| 0 <= i < b.len() ==> b[i] < 128,
    ensures
        valid_utf8(b),
        decode_utf8(b) == bytes_chars(b),
{
    let chars = bytes_chars(b);
    assert(vstd::utf8::is_ascii_chars(chars));
    vstd::utf8::is_ascii_chars_encode_utf8(chars);
    assert(vstd::utf8::encode_utf8(chars) =~= b);
    vstd::utf8::encode_utf8_valid_utf8(chars);
    vstd::utf8::encode_utf8_decode_utf8(chars);
}

/// Relies on `str::from_utf8` (with `to_owned` on its result): it accepts
/// exactly the byte sequences that are valid UTF-8 and returns the string
/// of their decoded characters.
#[verifier::external_body]
fn bytes_to_string(v: &[u8]) -> (r: Option<String>)
    ensures
        r matches Some(s) ==> valid_utf8(v@) && s@ == decode_utf8(v@),
        r is None ==> !valid_utf8(v@),
{
    match core::str::from_utf8(v) {
        Ok(s) => Some(s.to_owned()),
        Err(_) => None,
    }
}

/// The lowercased first uppercase run of `buffer`, as bytes.
fn extension_bytes(buffer: &[u8]) -> (r: Vec<u8>)
    ensures
        r@ == sniffed_ext(buffer@),
{
    let n = buffer.len();
    let mut i: usize = 0;
    while i < n && !(65 <= buffer[i] && buffer[i] <= 90)
        invariant
            i <= n,
            n == buffer@.len(),
            sniff_from(buffer@, 0) == sniff_from(buffer@, i as int),
        decreases n - i,
    {
        proof {
            assert(sniff_from(buffer@, i as int) == sniff_from(buffer@, i as int + 1));
        }
        i = i + 1;
    }
    let mut out: Vec<u8> = Vec::new();
    if i == n {
        return out;
    }
    let ghost start = i as int;
    let mut j: usize = i;
    while j < n && 65 <= buffer[j] && buffer[j] <= 90
        invariant
            start <= j as int <= n,
            n == buffer@.len(),
            run_from(buffer@, start) == out@ + run_from(buffer@, j as int),
        decreases n - j,
    {
        let ghost out0 = out@;
        out.push(buffer[j] + 32);
        proof {
            assert(run_from(buffer@, j as int) == seq![lower(buffer@[j as int])] + run_from(
                buffer@,
                j as int + 1,
            ));
            assert(out0 + run_from(buffer@, j as int) =~= out@ + run_from(
                buffer@,
                j as int + 1,
            ));
        }
        j = j + 1;
    }
    proof {
        assert(run_from(buffer@, j as int) =~= Seq::<u8>::empty());
        assert(out@ =~= out@ + run_from(buffer@, j as int));
        assert(sniff_from(buffer@, start) == run_from(buffer@, start));
    }
    out
}

/// The sniffed extension of `buffer` as a string: the first contiguous run
/// of uppercase ASCII letters, lowercased; empty when there is none.
pub fn extract_extension(buffer: &[u8]) -> (r: String)
    ensures
        r@ == bytes_chars(sniffed_ext(buffer@)),
{
    let bytes = extension_bytes(buffer);
    proof {
        lemma_sniffed_lower(buffer@, 0);
        lemma_ascii_decode(bytes@);
    }
    match bytes_to_string(bytes.as_slice()) {
        Some(s) => s,
        None => {
            // The run is ASCII, so decoding cannot refuse it.
            proof {
                assert(false);
            }
            String::new()
        },
    }
}

/// One file of the upload directory: its name and its content.
pub struct UploadFile {
    pub name: String,
    pub data: Vec<u8>,
}

/// The directory as the contracts see it: file names to contents.
pub type DirMap = Map<Seq<char>, Seq<u8>>;

/// The map described by a file sequence; a later file for a name
/// supersedes an earlier one.
pub open spec fn files_map(s: Seq<UploadFile>) -> DirMap
    decreases s.len(),
{
    if s.len() == 0 {
        Map::empty()
    } else {
        files_map(s.drop_last()).insert(s.last().name@, s.last().data@)
    }
}

/// A verified model of the upload directory: named files with contents.
/// The surrounding process mirrors each operation with a real filesystem
/// action.
pub struct UploadDir {
    files: Vec<UploadFile>,
}

impl View for UploadDir {
    type V = DirMap;

    closed spec fn view(&self) -> DirMap {
        files_map(self.files@)
    }
}

/// An exact copy of a byte slice.
fn copy_bytes(v: &[u8]) -> (r: Vec<u8>)
    ensures
        r@ == v@,
{
    let n = v.len();
    let mut out: Vec<u8> = Vec::new();
    let mut i: usize = 0;
    while i < n
        invariant
            i <= n,
            n == v@.len(),
            out@ == v@.subrange(0, i as int),
        decreases n - i,
    {
        out.push(v[i]);
        proof {
            assert(out@ =~= v@.subrange(0, i as int + 1));
        }
        i = i + 1;
    }
    proof {
        assert(v@.subrange(0, n as int) =~= v@);
    }
    out
}

/// The latest file for a name decides its content.
proof fn lemma_files_map_last(s: Seq<UploadFile>, i: int, k: Seq<char>)
    requires
        0 <= i < s.len(),
        s[i].name@ == k,
        forall|j: int| i < j < s.len() ==> s[j].name@ != k,
    ensures
        files_map(s).contains_key(k),
        files_map(s)[k] == s[i].data@,
    decreases s.len(),
{
    if i == s.len() - 1 {
    } else {
        lemma_files_map_last(s.drop_last(), i, k);
    }
}

/// A name with no file at all is unbound.
proof fn lemma_files_map_absent(s: Seq<UploadFile>, k: Seq<char>)
    requires
        forall|j: int| 0 <= j < s.len() ==> s[j].name@ != k,
    ensures
        !files_map(s).contains_key(k),
    decreases s.len(),
{
    if s.len() > 0 {
        lemma_files_map_absent(s.drop_last(), k);
    }
}

impl UploadDir {
    /// An empty directory.
    pub fn new() -> (d: UploadDir)
        ensures
            d@ == DirMap::empty(),
    {
        UploadDir { files: Vec::new() }
    }

    /// Write a file, replacing any previous content under the same name.
    pub fn create(&mut self, name: &String, data: &[u8])
        ensures
            final(self)@ == old(self)@.insert(name@, data@),
    {
        let ghost s0 = self.files@;
        let file = UploadFile { name: name.clone(), data: copy_bytes(data) };
        self.files.push(file);
        proof {
            assert(self.files@.drop_last() =~= s0);
        }
    }

    /// The content under `name`, if any.
    pub fn read(&self, name: &String) -> (r: Option<Vec<u8>>)
        ensures
            match r {
                Some(d) => self@.contains_key(name@) && d@ == self@[name@],
                None => !self@.contains_key(name@),
            },
    {
        let n = self.files.len();
        let mut j: usize = n;
        while j > 0
            invariant
                j <= n,
                n == self.files@.len(),
                forall|x: int| j <= x < n ==> self.files@[x].name@ != name@,
            decreases j,
        {
            j = j - 1;
            if self.files[j].name == *name {
                proof {
                    lemma_files_map_last(self.files@, j as int, name@);
                }
                return Some(copy_bytes(self.files[j].data.as_slice()));
            }
        }
        proof {
            lemma_files_map_absent(self.files@, name@);
        }
        None
    }

    /// Remove the file under `name`. Removing one that is already gone
    /// changes nothing and is not a failure.
    pub fn remove(&mut self, name: &String)
        ensures
            final(self)@ == old(self)@.remove(name@),
            !old(self)@.contains_key(name@) ==> final(self)@ == old(self)@,
    {
        let ghost s0 = self.files@;
        let ghost m0 = self@;
        let n = self.files.len();
        let mut kept: Vec<UploadFile> = Vec::new();
        let mut i: usize = 0;
        while i < n
            invariant
                i <= n,
                n == s0.len(),
                self.files@ == s0,
                files_map(kept@) == files_map(s0.subrange(0, i as int)).remove(name@),
            decreases n - i,
        {
            let e = &self.files[i];
            let ghost kept0 = kept@;
            let ghost prefix = s0.subrange(0, i as int);
            if e.name == *name {
                proof {
                    assert(s0.subrange(0, i as int + 1).drop_last() =~= prefix);
                    assert(s0.subrange(0, i as int + 1).last() == s0[i as int]);
                    assert(files_map(s0.subrange(0, i as int + 1)).remove(name@)
                        =~= files_map(prefix).remove(name@));
                }
            } else {
                kept.push(
                    UploadFile { name: e.name.clone(), data: copy_bytes(e.data.as_slice()) },
                );
                proof {
                    assert(kept@.drop_last() =~= kept0);
                    assert(s0.subrange(0, i as int + 1).drop_last() =~= prefix);
                    assert(s0.subrange(0, i as int + 1).last() == s0[i as int]);
                    assert(files_map(kept@) =~= files_map(
                        s0.subrange(0, i as int + 1),
                    ).remove(name@));
                }
            }
            i = i + 1;
        }
        proof {
            assert(s0.subrange(0, n as int) =~= s0);
        }
        self.files = kept;
        proof {
            if !m0.contains_key(name@) {
                assert(self@ =~= m0);
            }
        }
    }
}


/// One decoded part of a multipart body: its field name and its raw bytes.
pub struct RawPart {
    pub name: String,
    pub content: Vec<u8>,
}

/// What ingestion hands back: the two text fields, and the final file name
/// of the committed attachment — empty when there is none.
#[derive(Debug, PartialEq, Eq)]
pub struct IngestOutput {
    pub title: String,
    pub body: String,
    pub filename: String,
}

/// The content of the last part carrying `name`, if any; each recognized
/// field is consumed to completion and a later part supersedes an earlier
/// one.
pub open spec fn last_named(parts: Seq<RawPart>, name: Seq<char>) -> Option<Seq<u8>>
    decreases parts.len(),
{
    if parts.len() == 0 {
        None
    } else if parts.last().name@ == name {
        Some(parts.last().content@)
    } else {
        last_named(parts.drop_last(), name)
    }
}

/// The bytes of a text field: its last part's content, or empty when the
/// field never appeared.
pub open spec fn text_bytes(parts: Seq<RawPart>, name: Seq<char>) -> Seq<u8> {
    match last_named(parts, name) {
        Some(b) => b,
        None => Seq::empty(),
    }
}

/// Both text fields hold valid UTF-8 (an absent field is empty and always
/// does).
pub open spec fn texts_decodable(parts: Seq<RawPart>) -> bool {
    valid_utf8(text_bytes(parts, "title"@)) && valid_utf8(text_bytes(parts, "body"@))
}

/// The decoded title field.
pub open spec fn title_text(parts: Seq<RawPart>) -> Seq<char> {
    decode_utf8(text_bytes(parts, "title"@))
}

/// The decoded body field.
pub open spec fn body_text(parts: Seq<RawPart>) -> Seq<char> {
    decode_utf8(text_bytes(parts, "body"@))
}

/// The bytes of the attachment part, if one was sent.
pub open spec fn attachment_bytes(parts: Seq<RawPart>) -> Option<Seq<u8>> {
    last_named(parts, "file"@)
}

/// A character of a generated artifact identifier.
pub open spec fn is_artifact_id_char(c: char) -> bool {
    ('0' <= c && c <= '9') || ('a' <= c && c <= 'f') || c == '-'
}

/// A generated artifact identifier: the 36-character hyphenated encoding
/// of a random 128-bit value, lowercase hexadecimal digits and hyphens.
pub open spec fn valid_artifact_id(s: Seq<char>) -> bool {
    s.len() == 36 && forall|i: int| 0 <= i < s.len() ==> is_artifact_id_char(#[trigger] s[i])
}

/// Relies on uuid's `Uuid::new_v4` and its hyphenated `Display` encoding:
/// 36 characters of lowercase hexadecimal digits and hyphens.
#[verifier::external_body]
fn fresh_artifact_id() -> (r: String)
    ensures
        valid_artifact_id(r@),
{
    uuid::Uuid::new_v4().to_string()
}

/// What a successful ingestion returns and does to the directory: the
/// decoded text fields; and either no attachment and an untouched
/// directory, or the attachment committed under `<identifier>.<sniffed
/// extension>` — never under the bare identifier.
pub open spec fn ingest_ok(
    parts: Seq<RawPart>,
    d0: DirMap,
    d1: DirMap,
    out: IngestOutput,
) -> bool {
    &&& texts_decodable(parts)
    &&& out.title@ == title_text(parts)
    &&& out.body@ == body_text(parts)
    &&& !(out.title@.len() == 0 && out.body@.len() == 0)
    &&& match attachment_bytes(parts) {
        None => out.filename@.len() == 0 && d1 == d0,
        Some(content) => {
            if sniffed_ext(content).len() == 0 {
                out.filename@.len() == 0 && d1 == d0
            } else {
                exists|id: Seq<char>|
                    {
                        &&& valid_artifact_id(id)
                        &&& out.filename@ == id + seq!['.'] + bytes_chars(sniffed_ext(content))
                        &&& d1 == d0.insert(out.filename@, content)
                        &&& d1.contains_key(id) == d0.contains_key(id)
                    }
            }
        },
    }
}

/// When ingestion rejects the body: a text field that is not UTF-8, or
/// both mandatory text fields empty.
pub open spec fn ingest_rejected(parts: Seq<RawPart>) -> bool {
    !texts_decodable(parts) || (title_text(parts).len() == 0 && body_text(parts).len() == 0)
}

/// The mandatory-content rule that ends every ingestion: a body whose two
/// text fields are both empty is rejected, whatever the attachment did.
/// The streaming realization asks this function for the final verdict.
pub fn finish_ingest(title: String, body: String, filename: String) -> (r: Result<
    IngestOutput,
    crate::errors::AppError,
>)
    ensures
        match r {
            Ok(out) => out.title == title && out.body == body && out.filename == filename
                && !(title@.len() == 0 && body@.len() == 0),
            Err(e) => e == crate::errors::AppError::BadRequest && title@.len() == 0
                && body@.len() == 0,
        },
{
    if title.as_str().unicode_len() == 0 && body.as_str().unicode_len() == 0 {
        Err(crate::errors::AppError::BadRequest)
    } else {
        Ok(IngestOutput { title, body, filename })
    }
}

/// The scan so far: `sel` names the last part carrying `name` among the
/// first `upto` parts, or nothing when none does.
spec fn latest_inv(parts: Seq<RawPart>, upto: int, sel: Option<usize>, name: Seq<char>) -> bool {
    match sel {
        Some(x) => (x as int) < upto && parts[x as int].name@ == name && last_named(
            parts.subrange(0, upto),
            name,
        ) == Some(parts[x as int].content@),
        None => last_named(parts.subrange(0, upto), name) is None,
    }
}

/// Decode a multipart body that has been read to completion: take the
/// last `title` and `body` parts as UTF-8 text, commit the `file` part —
/// if it has a sniffable type — under a fresh `<identifier>.<extension>`
/// name, and ignore unrecognized part names. A body whose text fields are
/// both empty, or not UTF-8, is rejected, and then the directory is left
/// exactly as it was.
pub fn parse_multipart(parts: &Vec<RawPart>, dir: &mut UploadDir) -> (r: Result<
    IngestOutput,
    crate::errors::AppError,
>)
    ensures
        match r {
            Ok(out) => ingest_ok(parts@, old(dir)@, final(dir)@, out) && !ingest_rejected(
                parts@,
            ),
            Err(e) => e == crate::errors::AppError::BadRequest && ingest_rejected(parts@)
                && final(dir)@ == old(dir)@,
        },
{
    proof {
        reveal_strlit("file");
        reveal_strlit("title");
        reveal_strlit("body");
        reveal_strlit(".");
        assert("file"@.len() == 4 && "title"@.len() == 5 && "body"@.len() == 4);
        assert("file"@[0] == 'f' && "body"@[0] == 'b');
    }
    let file_name = String::from_str("file");
    let title_name = String::from_str("title");
    let body_name = String::from_str("body");
    let n = parts.len();
    let mut ti: Option<usize> = None;
    let mut bi: Option<usize> = None;
    let mut fi: Option<usize> = None;
    let mut i: usize = 0;
    while i < n
        invariant
            i <= n,
            n == parts@.len(),
            file_name@ == "file"@ && title_name@ == "title"@ && body_name@ == "body"@,
            "file"@ != "title"@ && "file"@ != "body"@ && "title"@ != "body"@,
            latest_inv(parts@, i as int, ti, "title"@),
            latest_inv(parts@, i as int, bi, "body"@),
            latest_inv(parts@, i as int, fi, "file"@),
        decreases n - i,
    {
        let p = &parts[i];
        proof {
            assert(parts@.subrange(0, i as int + 1).drop_last() =~= parts@.subrange(
                0,
                i as int,
            ));
            assert(parts@.subrange(0, i as int + 1).last() == parts@[i as int]);
        }
        if p.name == file_name {
            fi = Some(i);
        } else if p.name == title_name {
            ti = Some(i);
        } else if p.name == body_name {
            bi = Some(i);
        }
        i = i + 1;
    }
    proof {
        assert(parts@.subrange(0, n as int) =~= parts@);
    }
    let title = match ti {
        Some(x) => {
            match bytes_to_string(parts[x].content.as_slice()) {
                Some(s) => s,
                None => {
                    return Err(crate::errors::AppError::BadRequest);
                },
            }
        },
        None => String::new(),
    };
    let body = match bi {
        Some(x) => {
            match bytes_to_string(parts[x].content.as_slice()) {
                Some(s) => s,
                None => {
                    return Err(crate::errors::AppError::BadRequest);
                },
            }
        },
        None => String::new(),
    };
    if title.as_str().unicode_len() == 0 && body.as_str().unicode_len() == 0 {
        return Err(crate::errors::AppError::BadRequest);
    }
    let mut filename = String::new();
    if let Some(x) = fi {
        let ext = extract_extension(parts[x].content.as_slice());
        if ext.as_str().unicode_len() > 0 {
            let id = fresh_artifact_id();
            let ghost id_chars = id@;
            let with_dot = id.concat(".");
            filename = with_dot.concat(ext.as_str());
            proof {
                assert(filename@ =~= id_chars + seq!['.'] + bytes_chars(
                    sniffed_ext(parts@[x as int].content@),
                ));
                assert(filename@.len() > 36);
                assert(filename@ != id_chars);
            }
            dir.create(&filename, parts[x].content.as_slice());
        }
    }
    Ok(IngestOutput { title, body, filename })
}

} // verus!
