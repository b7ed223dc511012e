//! Multimodal input: text, images, files and PDFs turned into inputs for a model, and a list
//! of inputs turned into a prompt.
//!
//! Reading files is left to the caller: the processor decides what a file is from its path and
//! size (`classify_file`) and builds the input from the bytes or text read.
use vstd::prelude::*;
use crate::data_security::utf8_len;
use crate::text::{
    chars_of, decimal, extension_of, lines_of, lowercase, owned, path_extension, push_decimal, push_str,
    str_eq, string_of, strings_view, to_lower, u64_string, vec_lines,
};

verus! {

/// The kind of an input.
pub enum ModalityType {
    Text,
    Image { mime_type: String },
    File { extension: String },
    Pdf,
    Audio,
    Video,
}

/// An input: its kind, its content (text, or Base64) and metadata.
pub struct MultimodalInput {
    pub modality: ModalityType,
    pub content: String,
    pub metadata: MultimodalMetadata,
}

/// Where an input came from and how large it was.
pub struct MultimodalMetadata {
    pub file_path: Option<String>,
    /// In bytes.
    pub size: u64,
    pub is_base64: bool,
    /// Further facts, in the order they were added.
    pub extra: Vec<(String, String)>,
}

/// What a file is to be read as.
#[derive(Debug, Clone, Copy, PartialEq, Eq, Structural)]
pub enum FileKind {
    Image,
    Pdf,
    Text,
    Binary,
}

/// The Base64 text of bytes (the `base64` crate's standard, padded alphabet).
pub uninterp spec fn base64_standard(bytes: Seq<u8>) -> Seq<char>;

/// The length of the padded Base64 text of `n` bytes.
pub open spec fn base64_len(n: nat) -> nat {
    (n / 3) * 4 + if n % 3 > 0 { 4nat } else { 0nat }
}

/// Encodes bytes in Base64 (`base64::engine::general_purpose::STANDARD.encode`).
///
/// Claims that the text is the function `base64_standard` of the bytes, of the padded length
/// the crate computes for its buffer; the encoding itself is not stated.
#[verifier::external_body]
fn encode_base64(bytes: &Vec<u8>) -> (r: String)
    requires
        base64_len(bytes@.len()) <= usize::MAX,
    ensures
        r@ == base64_standard(bytes@),
        r@.len() == base64_len(bytes@.len()),
{
    base64::Engine::encode(&base64::engine::general_purpose::STANDARD, bytes)
}

/// The MIME type of an image extension.
pub open spec fn image_mime(ext: Seq<char>) -> Seq<char> {
    if ext == "jpg"@ || ext == "jpeg"@ {
        "image/jpeg"@
    } else if ext == "png"@ {
        "image/png"@
    } else if ext == "gif"@ {
        "image/gif"@
    } else if ext == "webp"@ {
        "image/webp"@
    } else if ext == "bmp"@ {
        "image/bmp"@
    } else {
        "image/unknown"@
    }
}

/// The image extensions read as images.
pub open spec fn image_formats() -> Seq<Seq<char>> {
    seq!["jpg"@, "jpeg"@, "png"@, "gif"@, "webp"@, "bmp"@]
}

/// The extensions read as text.
pub open spec fn text_formats() -> Seq<Seq<char>> {
    seq![
        "txt"@, "md"@, "rs"@, "py"@, "js"@, "ts"@, "go"@, "java"@, "c"@, "cpp"@, "h"@, "hpp"@, "json"@,
        "yaml"@, "yml"@, "toml"@, "xml"@, "html"@, "css"@, "sh"@, "bash"@, "sql"@,
    ]
}

/// The lower-cased extension of a path, empty when it has none.
pub open spec fn lower_extension(path: Seq<char>) -> Seq<char> {
    lowercase(
        match path_extension(path) {
            Some(e) => e,
            None => ""@,
        },
    )
}

/// The abstract state of a processor.
pub struct ProcessorView {
    pub max_file_size: u64,
    pub image_formats: Seq<Seq<char>>,
    pub text_formats: Seq<Seq<char>>,
}

/// Turns files and text into inputs.
pub struct MultimodalProcessor {
    max_file_size: u64,
    supported_image_formats: Vec<String>,
    supported_text_formats: Vec<String>,
}

impl View for MultimodalProcessor {
    type V = ProcessorView;

    closed spec fn view(&self) -> ProcessorView {
        ProcessorView {
            max_file_size: self.max_file_size,
            image_formats: strings_view(self.supported_image_formats@),
            text_formats: strings_view(self.supported_text_formats@),
        }
    }
}

/// What a file of a given lower-cased extension is read as.
pub open spec fn kind_of(p: ProcessorView, ext: Seq<char>) -> FileKind {
    if p.image_formats.contains(ext) {
        FileKind::Image
    } else if ext == "pdf"@ {
        FileKind::Pdf
    } else if p.text_formats.contains(ext) {
        FileKind::Text
    } else {
        FileKind::Binary
    }
}

/// The line naming where an input came from, if it came from a file.
pub open spec fn source_line(label: Seq<char>, path: Option<String>) -> Seq<char> {
    match path {
        Some(p) => label + p@ + "\n"@,
        None => seq![],
    }
}

/// The prompt section of the input at position `i` (counted from 0).
pub open spec fn input_section(i: nat, input: MultimodalInput) -> Seq<char> {
    let n = decimal(i + 1);
    match input.modality {
        ModalityType::Text => "\n### Input "@ + n + ": Text\n"@ + input.content@ + "\n"@,
        ModalityType::Image { mime_type } => "\n### Input "@ + n + ": Image ("@ + mime_type@ + ")\n"@
            + "[Image encoded as Base64]\n"@ + source_line("Source: "@, input.metadata.file_path) + "Size: "@ + decimal(input.metadata.size as nat)
            + " bytes\n"@,
        ModalityType::File { extension } => "\n### Input "@ + n + ": File (."@ + extension@ + ")\n"@ + source_line("File: "@, input.metadata.file_path)
            + "```"@ + extension@ + "\n"@ + input.content@ + "\n```\n"@,
        ModalityType::Pdf => "\n### Input "@ + n + ": PDF Document\n"@ + "[PDF encoded as Base64]\n"@ + source_line("Source: "@, input.metadata.file_path),
        ModalityType::Audio => "\n### Input "@ + n + ": Unsupported modality\n"@,
        ModalityType::Video => "\n### Input "@ + n + ": Unsupported modality\n"@,
    }
}

/// The prompt for the first `k` inputs.
pub open spec fn prompt_upto(inputs: Seq<MultimodalInput>, k: nat) -> Seq<char>
    decreases k,
{
    if k == 0 {
        seq![]
    } else {
        prompt_upto(inputs, (k - 1) as nat) + input_section((k - 1) as nat, inputs[k - 1])
    }
}

fn copy_strings_of(v: &Vec<&str>) -> (r: Vec<String>)
    ensures
        strings_view(r@) == Seq::new(v@.len(), |i: int| v@[i]@),
{
    let n = v.len();
    let mut out: Vec<String> = Vec::new();
    let mut i: usize = 0;
    while i < n
        invariant
            i <= n,
            n == v@.len(),
            out@.len() == i,
            forall|k: int| 0 <= k < i ==> (#[trigger] out@[k])@ == v@[k]@,
        decreases n - i,
    {
        out.push(owned(v[i]));
        i = i + 1;
    }
    assert(strings_view(out@) =~= Seq::new(v@.len(), |i: int| v@[i]@));
    out
}

/// Whether `list` holds `s`.
fn list_contains(list: &Vec<String>, s: &str) -> (r: bool)
    ensures
        r == strings_view(list@).contains(s@),
{
    let ghost lv = strings_view(list@);
    let n = list.len();
    let mut i: usize = 0;
    while i < n
        invariant
            i <= n,
            n == list@.len(),
            lv == strings_view(list@),
            forall|k: int| 0 <= k < i ==> lv[k] != s@,
        decreases n - i,
    {
        if str_eq(list[i].as_str(), s) {
            assert(lv[i as int] == s@);
            return true;
        }
        i = i + 1;
    }
    false
}

impl MultimodalProcessor {
    /// A processor for files of at most 10 MiB, with the built-in lists of formats.
    pub fn new() -> (r: Self)
        ensures
            r@.max_file_size == 10 * 1024 * 1024,
            r@.image_formats == image_formats(),
            r@.text_formats == text_formats(),
    {
        let images = copy_strings_of(&vec!["jpg", "jpeg", "png", "gif", "webp", "bmp"]);
        let texts = copy_strings_of(
            &vec![
                "txt", "md", "rs", "py", "js", "ts", "go", "java", "c", "cpp", "h", "hpp", "json", "yaml", "yml", "toml",
                "xml", "html", "css", "sh", "bash", "sql",
            ],
        );
        proof {
            reveal_strlit("jpg");
        }
        let r = MultimodalProcessor { max_file_size: 10 * 1024 * 1024, supported_image_formats: images, supported_text_formats: texts };
        assert(r@.image_formats =~= image_formats());
        assert(r@.text_formats =~= text_formats());
        r
    }

    /// Whether an extension is read as an image.
    fn is_image(&self, extension: &str) -> (r: bool)
        ensures
            r == self@.image_formats.contains(extension@),
    {
        list_contains(&self.supported_image_formats, extension)
    }

    /// Whether an extension is read as text.
    fn is_text_file(&self, extension: &str) -> (r: bool)
        ensures
            r == self@.text_formats.contains(extension@),
    {
        list_contains(&self.supported_text_formats, extension)
    }

    /// What a file of `size` bytes at `file_path` is read as, with its lower-cased extension;
    /// an error when it is larger than allowed.
    pub fn classify_file(&self, file_path: &str, size: u64) -> (r: Result<(FileKind, String), String>)
        ensures
            size > self@.max_file_size ==> (r matches Err(e) && e@ == "File too large: "@ + decimal(size as nat)
                + " bytes (max: "@ + decimal(self@.max_file_size as nat) + " bytes)"@),
            size <= self@.max_file_size ==> (r matches Ok((k, ext)) && ext@ == lower_extension(file_path@) && k == kind_of(
                self@,
                lower_extension(file_path@),
            )),
    {
        if size > self.max_file_size {
            let mut m: Vec<char> = Vec::new();
            push_str(&mut m, "File too large: ");
            push_decimal(&mut m, size);
            push_str(&mut m, " bytes (max: ");
            push_decimal(&mut m, self.max_file_size);
            push_str(&mut m, " bytes)");
            return Err(string_of(&m));
        }
        let raw = match extension_of(file_path) {
            Some(e) => e,
            None => owned(""),
        };
        let extension = to_lower(raw.as_str());
        let e = extension.as_str();
        let kind = if self.is_image(e) {
            FileKind::Image
        } else if str_eq(e, "pdf") {
            FileKind::Pdf
        } else if self.is_text_file(e) {
            FileKind::Text
        } else {
            FileKind::Binary
        };
        Ok((kind, extension))
    }

    /// An image input from the bytes read: Base64 content and the MIME type of the extension.
    pub fn process_image(&self, file_path: &str, extension: &str, size: u64, bytes: Vec<u8>) -> (r: MultimodalInput)
        requires
            base64_len(bytes@.len()) <= usize::MAX,
        ensures
            r.modality matches ModalityType::Image { mime_type } && mime_type@ == image_mime(extension@),
            r.content@ == base64_standard(bytes@),
            r.metadata.file_path matches Some(p) && p@ == file_path@,
            r.metadata.size == size,
            r.metadata.is_base64,
            r.metadata.extra@.len() == 0,
    {
        let content = encode_base64(&bytes);
        let mime = if str_eq(extension, "jpg") || str_eq(extension, "jpeg") {
            "image/jpeg"
        } else if str_eq(extension, "png") {
            "image/png"
        } else if str_eq(extension, "gif") {
            "image/gif"
        } else if str_eq(extension, "webp") {
            "image/webp"
        } else if str_eq(extension, "bmp") {
            "image/bmp"
        } else {
            "image/unknown"
        };
        MultimodalInput {
            modality: ModalityType::Image { mime_type: owned(mime) },
            content,
            metadata: MultimodalMetadata { file_path: Some(owned(file_path)), size, is_base64: true, extra: Vec::new() },
        }
    }

    /// A text file input from the text read, noting its number of lines and its language.
    pub fn process_text_file(&self, file_path: &str, extension: &str, size: u64, content: String) -> (r: MultimodalInput)
        ensures
            r.modality matches ModalityType::File { extension: e } && e@ == extension@,
            r.content@ == content@,
            r.metadata.file_path matches Some(p) && p@ == file_path@,
            r.metadata.size == size,
            !r.metadata.is_base64,
            r.metadata.extra@.len() == 2,
            r.metadata.extra@[0].0@ == "line_count"@,
            r.metadata.extra@[0].1@ == decimal(lines_of(content@).len()),
            r.metadata.extra@[1].0@ == "language"@,
            r.metadata.extra@[1].1@ == extension@,
    {
        let cv = chars_of(content.as_str());
        let lines = vec_lines(&cv);
        let line_count = lines.len() as u64;
        let mut extra: Vec<(String, String)> = Vec::new();
        extra.push((owned("line_count"), u64_string(line_count)));
        extra.push((owned("language"), owned(extension)));
        MultimodalInput {
            modality: ModalityType::File { extension: owned(extension) },
            content,
            metadata: MultimodalMetadata { file_path: Some(owned(file_path)), size, is_base64: false, extra },
        }
    }

    /// A PDF input from the bytes read, in Base64.
    pub fn process_pdf(&self, file_path: &str, size: u64, bytes: Vec<u8>) -> (r: MultimodalInput)
        requires
            base64_len(bytes@.len()) <= usize::MAX,
        ensures
            r.modality is Pdf,
            r.content@ == base64_standard(bytes@),
            r.metadata.file_path matches Some(p) && p@ == file_path@,
            r.metadata.size == size,
            r.metadata.is_base64,
            r.metadata.extra@.len() == 0,
    {
        let content = encode_base64(&bytes);
        MultimodalInput {
            modality: ModalityType::Pdf,
            content,
            metadata: MultimodalMetadata { file_path: Some(owned(file_path)), size, is_base64: true, extra: Vec::new() },
        }
    }

    /// Any other file, from the bytes read, in Base64.
    pub fn process_binary_file(&self, file_path: &str, extension: &str, size: u64, bytes: Vec<u8>) -> (r: MultimodalInput)
        requires
            base64_len(bytes@.len()) <= usize::MAX,
        ensures
            r.modality matches ModalityType::File { extension: e } && e@ == extension@,
            r.content@ == base64_standard(bytes@),
            r.metadata.file_path matches Some(p) && p@ == file_path@,
            r.metadata.size == size,
            r.metadata.is_base64,
            r.metadata.extra@.len() == 0,
    {
        let content = encode_base64(&bytes);
        MultimodalInput {
            modality: ModalityType::File { extension: owned(extension) },
            content,
            metadata: MultimodalMetadata { file_path: Some(owned(file_path)), size, is_base64: true, extra: Vec::new() },
        }
    }

    /// A text input; its size is its length in bytes.
    pub fn process_text(&self, text: &str) -> (r: MultimodalInput)
        requires
            utf8_len(text@) <= u64::MAX,
        ensures
            r.modality is Text,
            r.content@ == text@,
            r.metadata.file_path is None,
            r.metadata.size == utf8_len(text@),
            !r.metadata.is_base64,
            r.metadata.extra@.len() == 0,
    {
        let size = crate::data_security::byte_len(text) as u64;
        MultimodalInput {
            modality: ModalityType::Text,
            content: owned(text),
            metadata: MultimodalMetadata { file_path: None, size, is_base64: false, extra: Vec::new() },
        }
    }

    /// The prompt presenting the inputs in order (see `input_section`).
    #[verifier::rlimit(40)]
    pub fn format_for_ai(&self, inputs: &Vec<MultimodalInput>) -> (r: String)
        ensures
            r@ == prompt_upto(inputs@, inputs@.len()),
    {
        let n = inputs.len();
        let mut p: Vec<char> = Vec::new();
        let mut i: usize = 0;
        while i < n
            invariant
                i <= n,
                n == inputs@.len(),
                p@ == prompt_upto(inputs@, i as nat),
            decreases n - i,
        {
            let input = &inputs[i];
            let ghost before = p@;
            let k = (i as u64) + 1;
            match &input.modality {
                ModalityType::Text => {
                    push_str(&mut p, "\n### Input ");
                    push_decimal(&mut p, k);
                    push_str(&mut p, ": Text\n");
                    push_str(&mut p, input.content.as_str());
                    push_str(&mut p, "\n");
                },
                ModalityType::Image { mime_type } => {
                    push_str(&mut p, "\n### Input ");
                    push_decimal(&mut p, k);
                    push_str(&mut p, ": Image (");
                    push_str(&mut p, mime_type.as_str());
                    push_str(&mut p, ")\n");
                    push_str(&mut p, "[Image encoded as Base64]\n");
                    if let Some(path) = &input.metadata.file_path {
                        push_str(&mut p, "Source: ");
                        push_str(&mut p, path.as_str());
                        push_str(&mut p, "\n");
                    }
                    push_str(&mut p, "Size: ");
                    push_decimal(&mut p, input.metadata.size);
                    push_str(&mut p, " bytes\n");
                },
                ModalityType::File { extension } => {
                    push_str(&mut p, "\n### Input ");
                    push_decimal(&mut p, k);
                    push_str(&mut p, ": File (.");
                    push_str(&mut p, extension.as_str());
                    push_str(&mut p, ")\n");
                    if let Some(path) = &input.metadata.file_path {
                        push_str(&mut p, "File: ");
                        push_str(&mut p, path.as_str());
                        push_str(&mut p, "\n");
                    }
                    push_str(&mut p, "```");
                    push_str(&mut p, extension.as_str());
                    push_str(&mut p, "\n");
                    push_str(&mut p, input.content.as_str());
                    push_str(&mut p, "\n```\n");
                },
                ModalityType::Pdf => {
                    push_str(&mut p, "\n### Input ");
                    push_decimal(&mut p, k);
                    push_str(&mut p, ": PDF Document\n");
                    push_str(&mut p, "[PDF encoded as Base64]\n");
                    if let Some(path) = &input.metadata.file_path {
                        push_str(&mut p, "Source: ");
                        push_str(&mut p, path.as_str());
                        push_str(&mut p, "\n");
                    }
                },
                _ => {
                    push_str(&mut p, "\n### Input ");
                    push_decimal(&mut p, k);
                    push_str(&mut p, ": Unsupported modality\n");
                },
            }
            assert(p@ =~= before + input_section(i as nat, inputs@[i as int]));
            i = i + 1;
        }
        string_of(&p)
    }

    /// Sets the largest file size accepted.
    pub fn set_max_file_size(&mut self, size: u64)
        ensures
            final(self)@ == (ProcessorView { max_file_size: size, ..old(self)@ }),
    {
        self.max_file_size = size;
    }
}

impl Default for MultimodalProcessor {
    /// The same as `new`.
    fn default() -> (r: Self)
        ensures
            r@.max_file_size == 10 * 1024 * 1024,
            r@.image_formats == image_formats(),
            r@.text_formats == text_formats(),
    {
        Self::new()
    }
}

} // verus!
