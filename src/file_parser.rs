//! Uploaded documents: which extensions are accepted, the cache that holds
//! their text until the next generation consumes it, and the context message
//! composed from it.
use vstd::prelude::*;
use crate::error::{RemoveFileError, UnsupportedFileError};
use crate::store::KeyedStore;
use crate::text::{lower_of, new_id, owned, str_eq, to_lowercase, to_uppercase, upper_of};
use crate::types::{DeleteResponse, UploadResponse};

verus! {

/// Extensions of source code, markup, configuration and other plain text.
pub open spec fn is_code_extension(e: Seq<char>) -> bool {
    e == "py"@ ||
    e == "js"@ ||
    e == "ts"@ ||
    e == "jsx"@ ||
    e == "tsx"@ ||
    e == "vue"@ ||
    e == "svelte"@ ||
    e == "rs"@ ||
    e == "go"@ ||
    e == "java"@ ||
    e == "kt"@ ||
    e == "scala"@ ||
    e == "c"@ ||
    e == "cpp"@ ||
    e == "cc"@ ||
    e == "cxx"@ ||
    e == "h"@ ||
    e == "hpp"@ ||
    e == "hxx"@ ||
    e == "cs"@ ||
    e == "fs"@ ||
    e == "rb"@ ||
    e == "php"@ ||
    e == "pl"@ ||
    e == "pm"@ ||
    e == "swift"@ ||
    e == "m"@ ||
    e == "mm"@ ||
    e == "r"@ ||
    e == "R"@ ||
    e == "jl"@ ||
    e == "lua"@ ||
    e == "tcl"@ ||
    e == "awk"@ ||
    e == "sed"@ ||
    e == "hs"@ ||
    e == "ml"@ ||
    e == "elm"@ ||
    e == "clj"@ ||
    e == "cljs"@ ||
    e == "ex"@ ||
    e == "exs"@ ||
    e == "sh"@ ||
    e == "bash"@ ||
    e == "zsh"@ ||
    e == "fish"@ ||
    e == "bat"@ ||
    e == "cmd"@ ||
    e == "ps1"@ ||
    e == "sql"@ ||
    e == "prisma"@ ||
    e == "graphql"@ ||
    e == "gql"@ ||
    e == "html"@ ||
    e == "htm"@ ||
    e == "css"@ ||
    e == "scss"@ ||
    e == "sass"@ ||
    e == "less"@ ||
    e == "xml"@ ||
    e == "xsl"@ ||
    e == "xslt"@ ||
    e == "json"@ ||
    e == "yaml"@ ||
    e == "yml"@ ||
    e == "toml"@ ||
    e == "ini"@ ||
    e == "cfg"@ ||
    e == "conf"@ ||
    e == "log"@ ||
    e == "env"@ ||
    e == "makefile"@ ||
    e == "cmake"@ ||
    e == "dockerfile"@ ||
    e == "gitignore"@ ||
    e == "editorconfig"@
}

/// Whether `e` is one of the code extensions, compared exactly.
pub fn code_extension(e: &str) -> (r: bool)
    ensures
        r == is_code_extension(e@),
{
    str_eq(e, "py") ||
        str_eq(e, "js") ||
        str_eq(e, "ts") ||
        str_eq(e, "jsx") ||
        str_eq(e, "tsx") ||
        str_eq(e, "vue") ||
        str_eq(e, "svelte") ||
        str_eq(e, "rs") ||
        str_eq(e, "go") ||
        str_eq(e, "java") ||
        str_eq(e, "kt") ||
        str_eq(e, "scala") ||
        str_eq(e, "c") ||
        str_eq(e, "cpp") ||
        str_eq(e, "cc") ||
        str_eq(e, "cxx") ||
        str_eq(e, "h") ||
        str_eq(e, "hpp") ||
        str_eq(e, "hxx") ||
        str_eq(e, "cs") ||
        str_eq(e, "fs") ||
        str_eq(e, "rb") ||
        str_eq(e, "php") ||
        str_eq(e, "pl") ||
        str_eq(e, "pm") ||
        str_eq(e, "swift") ||
        str_eq(e, "m") ||
        str_eq(e, "mm") ||
        str_eq(e, "r") ||
        str_eq(e, "R") ||
        str_eq(e, "jl") ||
        str_eq(e, "lua") ||
        str_eq(e, "tcl") ||
        str_eq(e, "awk") ||
        str_eq(e, "sed") ||
        str_eq(e, "hs") ||
        str_eq(e, "ml") ||
        str_eq(e, "elm") ||
        str_eq(e, "clj") ||
        str_eq(e, "cljs") ||
        str_eq(e, "ex") ||
        str_eq(e, "exs") ||
        str_eq(e, "sh") ||
        str_eq(e, "bash") ||
        str_eq(e, "zsh") ||
        str_eq(e, "fish") ||
        str_eq(e, "bat") ||
        str_eq(e, "cmd") ||
        str_eq(e, "ps1") ||
        str_eq(e, "sql") ||
        str_eq(e, "prisma") ||
        str_eq(e, "graphql") ||
        str_eq(e, "gql") ||
        str_eq(e, "html") ||
        str_eq(e, "htm") ||
        str_eq(e, "css") ||
        str_eq(e, "scss") ||
        str_eq(e, "sass") ||
        str_eq(e, "less") ||
        str_eq(e, "xml") ||
        str_eq(e, "xsl") ||
        str_eq(e, "xslt") ||
        str_eq(e, "json") ||
        str_eq(e, "yaml") ||
        str_eq(e, "yml") ||
        str_eq(e, "toml") ||
        str_eq(e, "ini") ||
        str_eq(e, "cfg") ||
        str_eq(e, "conf") ||
        str_eq(e, "log") ||
        str_eq(e, "env") ||
        str_eq(e, "makefile") ||
        str_eq(e, "cmake") ||
        str_eq(e, "dockerfile") ||
        str_eq(e, "gitignore") ||
        str_eq(e, "editorconfig")
}

#[derive(Debug, Clone, Copy, PartialEq, Eq, Structural)]
pub enum FileType {
    TXT,
    PDF,
    DOCX,
    PPTX,
    XLSX,
    CODE,
    MD,
}

/// The file type of a lowercase extension.
pub open spec fn file_type_of(e: Seq<char>) -> Option<FileType> {
    if e == "txt"@ {
        Some(FileType::TXT)
    } else if e == "pdf"@ {
        Some(FileType::PDF)
    } else if e == "docx"@ {
        Some(FileType::DOCX)
    } else if e == "pptx"@ {
        Some(FileType::PPTX)
    } else if e == "xlsx"@ {
        Some(FileType::XLSX)
    } else if e == "md"@ {
        Some(FileType::MD)
    } else if is_code_extension(e) {
        Some(FileType::CODE)
    } else {
        None
    }
}

impl FileType {
    /// The file type of an extension that is already in lowercase.
    pub fn from_lowercase_extension(e: &str) -> (r: Option<FileType>)
        ensures
            r == file_type_of(e@),
    {
        if str_eq(e, "txt") {
            Some(FileType::TXT)
        } else if str_eq(e, "pdf") {
            Some(FileType::PDF)
        } else if str_eq(e, "docx") {
            Some(FileType::DOCX)
        } else if str_eq(e, "pptx") {
            Some(FileType::PPTX)
        } else if str_eq(e, "xlsx") {
            Some(FileType::XLSX)
        } else if str_eq(e, "md") {
            Some(FileType::MD)
        } else if code_extension(e) {
            Some(FileType::CODE)
        } else {
            None
        }
    }

    /// The file type of an extension, in any case.
    pub fn from_extension(extension: &str) -> (r: Option<FileType>)
        ensures
            r == file_type_of(lower_of(extension@)),
    {
        let lower = to_lowercase(extension);
        FileType::from_lowercase_extension(lower.as_str())
    }
}

/// What `std::path::Path::extension` gives for a file name: the text after
/// the last dot of its last component, if it has one.
pub uninterp spec fn extension_of(name: Seq<char>) -> Option<Seq<char>>;

/// Relies on `std::path::Path::extension`, which depends on the name alone.
#[verifier::external_body]
fn path_extension(filename: &str) -> (r: Option<String>)
    ensures
        match r {
            Some(e) => extension_of(filename@) == Some(e@),
            None => extension_of(filename@) is None,
        },
{
    std::path::Path::new(filename).extension().and_then(|e| e.to_str()).map(|e| e.to_string())
}

/// The extension of an upload's file name, empty where it has none.
pub open spec fn upload_extension(filename: Seq<char>) -> Seq<char> {
    match extension_of(filename) {
        Some(e) => e,
        None => Seq::empty(),
    }
}

/// Checks an extension against the accepted ones, in any case: the
/// extension back where it is accepted, else the error reply naming it.
pub fn check_extension(extension: String) -> (r: Result<String, UnsupportedFileError>)
    ensures
        match r {
            Ok(e) => file_type_of(lower_of(extension@)) is Some && e == extension,
            Err(err) => file_type_of(lower_of(extension@)) is None && err.file_type == extension
                && err.error@ == "Unsupported file type"@,
        },
{
    if FileType::from_extension(extension.as_str()).is_some() {
        Ok(extension)
    } else {
        Err(UnsupportedFileError { error: owned("Unsupported file type"), file_type: extension })
    }
}

/// Takes the extension of an upload's file name and checks it; nothing is
/// parsed or stored before this passes.
pub fn validate_upload(filename: &str) -> (r: Result<String, UnsupportedFileError>)
    ensures
        match r {
            Ok(e) => e@ == upload_extension(filename@) && file_type_of(
                lower_of(upload_extension(filename@)),
            ) is Some,
            Err(err) => file_type_of(lower_of(upload_extension(filename@))) is None && err.file_type@
                == upload_extension(filename@) && err.error@ == "Unsupported file type"@,
        },
{
    let extension = match path_extension(filename) {
        Some(e) => e,
        None => String::new(),
    };
    check_extension(extension)
}

/// The text of an uploaded document, waiting to be consumed.
#[derive(Debug)]
pub struct CacheFile {
    pub filename: String,
    pub content: String,
    pub extension: String,
}

/// The upload cache: documents under their file ids.
pub type FileCache = KeyedStore<CacheFile>;

pub fn new_file_cache() -> (r: FileCache)
    ensures
        r.wf(),
        r.entries() == Seq::<(String, CacheFile)>::empty(),
{
    KeyedStore::new()
}

/// Stores a parsed upload under `file_id`, which must not be in use: the
/// reply, or nothing (and no change) where the id is already taken.
pub fn store_upload_under(
    cache: &mut FileCache,
    file_id: String,
    filename: String,
    extension: String,
    content: String,
    file_size: usize,
) -> (r: Option<UploadResponse>)
    requires
        old(cache).wf(),
    ensures
        final(cache).wf(),
        r is Some == !old(cache)@.contains_key(file_id@),
        r is None ==> final(cache)@ == old(cache)@,
        r matches Some(u) ==> u.file_id == file_id && u.filename == filename && u.file_size
            == file_size && final(cache)@ == old(cache)@.insert(
            file_id@,
            CacheFile { filename, content, extension },
        ),
{
    if cache.contains_key(file_id.as_str()) {
        return None;
    }
    let entry = CacheFile { filename: filename.clone(), content, extension };
    cache.insert(file_id.clone(), entry);
    Some(UploadResponse { file_id, filename, file_size })
}

/// How many fresh ids an upload draws before it gives up.
pub const ID_ATTEMPTS: usize = 4;

/// Stores a parsed upload under a freshly drawn id that is not yet in the
/// cache, and gives the reply. Ids are random: where every one of a few
/// draws is already in use, nothing is stored and nothing comes back.
pub fn store_upload(
    cache: &mut FileCache,
    filename: String,
    extension: String,
    content: String,
    file_size: usize,
) -> (r: Option<UploadResponse>)
    requires
        old(cache).wf(),
    ensures
        final(cache).wf(),
        r is None ==> final(cache)@ == old(cache)@,
        r matches Some(u) ==> !old(cache)@.contains_key(u.file_id@) && u.filename == filename
            && u.file_size == file_size && final(cache)@ == old(cache)@.insert(
            u.file_id@,
            CacheFile { filename, content, extension },
        ),
{
    let mut attempt: usize = 0;
    while attempt < ID_ATTEMPTS
        invariant
            cache.wf(),
            cache@ == old(cache)@,
        decreases ID_ATTEMPTS - attempt,
    {
        let file_id = new_id();
        if !cache.contains_key(file_id.as_str()) {
            return store_upload_under(cache, file_id, filename, extension, content, file_size);
        }
        attempt = attempt + 1;
    }
    None
}

/// Removes an upload before it is consumed: the reply where the id was
/// stored, else the error naming it.
pub fn remove_file(cache: &mut FileCache, file_id: String) -> (r: Result<
    DeleteResponse,
    RemoveFileError,
>)
    requires
        old(cache).wf(),
    ensures
        final(cache).wf(),
        final(cache)@ == old(cache)@.remove(file_id@),
        match r {
            Ok(d) => old(cache)@.contains_key(file_id@) && d.file_id == file_id && d.result,
            Err(e) => !old(cache)@.contains_key(file_id@) && e.file_id == file_id && e.error@
                == "File does not exist"@,
        },
{
    match cache.remove(file_id.as_str()) {
        Some(_) => Ok(DeleteResponse { file_id, result: true }),
        None => Err(RemoveFileError { error: owned("File does not exist"), file_id }),
    }
}

/// The header line that introduces a document in the context message.
pub open spec fn file_header(f: CacheFile) -> Seq<char> {
    let e = f.extension@;
    let name = f.filename@;
    if e == "txt"@ {
        "=== Text File: "@ + name + " ===\n"@
    } else if e == "md"@ {
        "=== Markdown File: "@ + name + " ===\n"@
    } else if e == "pdf"@ {
        "=== PDF File: "@ + name + " ===\n"@
    } else if e == "docx"@ {
        "=== Word Document: "@ + name + " ===\n"@
    } else if e == "pptx"@ {
        "=== PowerPoint: "@ + name + " ===\n"@
    } else if e == "xlsx"@ {
        "=== Excel Spreadsheet: "@ + name + " ===\n"@
    } else if is_code_extension(e) {
        "=== "@ + upper_of(e) + " Code File: "@ + name + " ===\n"@
    } else {
        "=== File: "@ + name + " ===\n"@
    }
}

/// One document in the context message.
pub open spec fn file_section(f: CacheFile) -> Seq<char> {
    file_header(f) + f.content@ + "\n\n"@
}

pub open spec fn file_sections(s: Seq<(String, CacheFile)>) -> Seq<char>
    decreases s.len(),
{
    if s.len() == 0 {
        Seq::empty()
    } else {
        file_sections(s.drop_last()) + file_section(s.last().1)
    }
}

/// The context message for the given uploads, in order.
pub open spec fn file_context(s: Seq<(String, CacheFile)>) -> Seq<char> {
    "I'm sharing the following file(s) with you:\n\n"@ + file_sections(s)
        + "Please refer to the above file content(s) when answering my questions."@
}

/// What draining the cache leaves and hands back: nothing from an empty
/// cache; otherwise the context message of every upload, and an empty cache.
pub open spec fn drain_post(
    before: Seq<(String, CacheFile)>,
    after: Seq<(String, CacheFile)>,
    r: Option<Seq<char>>,
) -> bool {
    &&& after.len() == 0
    &&& before.len() == 0 ==> r is None
    &&& before.len() > 0 ==> r == Some(file_context(before))
}

/// Draining twice in a row: the second time there is nothing left.
pub proof fn lemma_drain_twice(
    e0: Seq<(String, CacheFile)>,
    e1: Seq<(String, CacheFile)>,
    r1: Option<Seq<char>>,
    e2: Seq<(String, CacheFile)>,
    r2: Option<Seq<char>>,
)
    requires
        drain_post(e0, e1, r1),
        drain_post(e1, e2, r2),
    ensures
        r2 is None,
        e2.len() == 0,
        e0.len() > 0 ==> r1 == Some(file_context(e0)),
{
}

fn append_section(out: &mut String, f: &CacheFile)
    ensures
        final(out)@ == old(out)@ + file_section(*f),
{
    let e = f.extension.as_str();
    if str_eq(e, "txt") {
        out.append("=== Text File: ");
    } else if str_eq(e, "md") {
        out.append("=== Markdown File: ");
    } else if str_eq(e, "pdf") {
        out.append("=== PDF File: ");
    } else if str_eq(e, "docx") {
        out.append("=== Word Document: ");
    } else if str_eq(e, "pptx") {
        out.append("=== PowerPoint: ");
    } else if str_eq(e, "xlsx") {
        out.append("=== Excel Spreadsheet: ");
    } else if code_extension(e) {
        let upper = to_uppercase(e);
        out.append("=== ");
        out.append(upper.as_str());
        out.append(" Code File: ");
    } else {
        out.append("=== File: ");
    }
    out.append(f.filename.as_str());
    out.append(" ===\n");
    out.append(f.content.as_str());
    out.append("\n\n");
}

/// Consumes every upload at once: the context message that presents them,
/// or nothing where the cache is empty. The cache is empty afterwards.
pub fn build_file_context(cache: &mut FileCache) -> (r: Option<String>)
    requires
        old(cache).wf(),
    ensures
        final(cache).wf(),
        final(cache)@ == Map::<Seq<char>, CacheFile>::empty(),
        drain_post(
            old(cache).entries(),
            final(cache).entries(),
            match r {
                Some(s) => Some(s@),
                None => None,
            },
        ),
{
    if cache.is_empty() {
        let _ = cache.drain();
        return None;
    }
    let files = cache.drain();
    let mut text = owned("I'm sharing the following file(s) with you:\n\n");
    let ghost head = text@;
    let mut i: usize = 0;
    while i < files.len()
        invariant
            i <= files@.len(),
            text@ == head + file_sections(files@.take(i as int)),
        decreases files@.len() - i,
    {
        append_section(&mut text, &files[i].1);
        proof {
            assert(files@.take(i + 1).drop_last() =~= files@.take(i as int));
            assert(files@.take(i + 1).last() == files@[i as int]);
        }
        i = i + 1;
    }
    proof {
        assert(files@.take(files@.len() as int) =~= files@);
    }
    text.append("Please refer to the above file content(s) when answering my questions.");
    Some(text)
}

} // verus!
