use super::decode::{self, Decoder};
use super::encode::{self, Encoder};
use super::error::CompressError;
use vstd::prelude::*;
use vstd::string::*;

verus! {

/// A compression format.
#[derive(Debug, Clone, Copy, PartialEq, Eq, Structural, PartialOrd, Ord, Hash)]
pub enum Format {
    Uncompressed,
    Deflate,
    Gzip,
    Bgzf,
}

/// Extensions of raw DEFLATE files: there are none.
pub open spec fn deflate_extension(ext: Seq<char>) -> bool {
    false
}

/// Extensions of GZIP files: `gz` and `gzip`.
pub open spec fn gzip_extension(ext: Seq<char>) -> bool {
    ext == seq!['g', 'z'] || ext == seq!['g', 'z', 'i', 'p']
}

/// Extensions of BGZF files: `bgz`, `bgzf` and `bgzip`.
pub open spec fn bgzf_extension(ext: Seq<char>) -> bool {
    ext == seq!['b', 'g', 'z'] || ext == seq!['b', 'g', 'z', 'f'] || ext == seq![
        'b',
        'g',
        'z',
        'i',
        'p',
    ]
}

/// The format that the extension `ext` names, given the extensions of
/// uncompressed files; `None` for an empty or unknown extension.
pub open spec fn format_for_extension(ext: Seq<char>, uncompressed: Seq<Seq<char>>) -> Option<
    Format,
> {
    if ext.len() == 0 {
        None
    } else if uncompressed.contains(ext) {
        Some(Format::Uncompressed)
    } else if deflate_extension(ext) {
        Some(Format::Deflate)
    } else if gzip_extension(ext) {
        Some(Format::Gzip)
    } else if bgzf_extension(ext) {
        Some(Format::Bgzf)
    } else {
        None
    }
}

/// The extension of the file name at the end of `path`, as
/// `std::path::Path::extension` finds it.
pub uninterp spec fn path_extension_of(path: Seq<char>) -> Option<Seq<char>>;

/// The extension, or the empty text where there is none.
pub open spec fn extension_or_empty(ext: Option<Seq<char>>) -> Seq<char> {
    match ext {
        Some(e) => e,
        None => Seq::empty(),
    }
}

/// Calls `std::path::Path::extension` on `path`, and `OsStr::to_str` on the
/// result, which always succeeds on text taken from a `&str`.
///
/// The extension is the part of the file name after its last dot, so it
/// holds no dot. Which paths have one is left to the name.
#[verifier::external_body]
fn path_extension(path: &str) -> (r: Option<&str>)
    ensures
        r matches Some(e) ==> e@ == path_extension_of(path@).unwrap(),
        r is Some <==> path_extension_of(path@) is Some,
        r matches Some(e) ==> !e@.contains('.'),
{
    match std::path::Path::new(path).extension() {
        Some(e) => e.to_str(),
        None => None,
    }
}

/// Tells whether two texts are equal.
fn text_eq(a: &str, b: &str) -> (r: bool)
    ensures
        r == (a@ == b@),
{
    let n = a.unicode_len();
    if n != b.unicode_len() {
        return false;
    }
    let mut i: usize = 0;
    while i < n
        invariant
            n == a@.len(),
            n == b@.len(),
            i <= n,
            forall|j: int| 0 <= j < i ==> a@[j] == b@[j],
        decreases n - i,
    {
        if a.get_char(i) != b.get_char(i) {
            return false;
        }
        i += 1;
    }
    assert(a@ =~= b@);
    true
}

/// Tells whether `ext` equals one of `exts`.
fn text_in(ext: &str, exts: &[&str]) -> (r: bool)
    ensures
        r == exts@.map_values(|e: &str| e@).contains(ext@),
{
    let ghost views = exts@.map_values(|e: &str| e@);
    let mut i: usize = 0;
    while i < exts.len()
        invariant
            i <= exts@.len(),
            views == exts@.map_values(|e: &str| e@),
            forall|j: int| 0 <= j < i ==> views[j] != ext@,
        decreases exts@.len() - i,
    {
        if text_eq(exts[i], ext) {
            assert(views[i as int] == ext@);
            return true;
        }
        i += 1;
    }
    false
}

/// Tells whether `ext` is one of the given literal extensions.
fn is_gzip_extension(ext: &str) -> (r: bool)
    ensures
        r == gzip_extension(ext@),
{
    let gz = "gz";
    let gzip = "gzip";
    proof {
        reveal_strlit("gz");
        reveal_strlit("gzip");
        assert(gz@ =~= seq!['g', 'z']);
        assert(gzip@ =~= seq!['g', 'z', 'i', 'p']);
    }
    text_eq(ext, gz) || text_eq(ext, gzip)
}

/// Tells whether `ext` is a BGZF extension.
fn is_bgzf_extension(ext: &str) -> (r: bool)
    ensures
        r == bgzf_extension(ext@),
{
    let bgz = "bgz";
    let bgzf = "bgzf";
    let bgzip = "bgzip";
    proof {
        reveal_strlit("bgz");
        reveal_strlit("bgzf");
        reveal_strlit("bgzip");
        assert(bgz@ =~= seq!['b', 'g', 'z']);
        assert(bgzf@ =~= seq!['b', 'g', 'z', 'f']);
        assert(bgzip@ =~= seq!['b', 'g', 'z', 'i', 'p']);
    }
    text_eq(ext, bgz) || text_eq(ext, bgzf) || text_eq(ext, bgzip)
}

impl Format {
    /// Infers the format from a file extension, given the extensions of
    /// uncompressed files.
    ///
    /// Fails for an empty extension and for one that names no format.
    pub fn from_extension(ext: &str, uncompressed_exts: &[&str]) -> (r: Result<
        Format,
        CompressError,
    >)
        ensures
            ext@.len() == 0 ==> r == Err::<Format, CompressError>(CompressError::EmptyExtension),
            format_for_extension(ext@, uncompressed_exts@.map_values(|e: &str| e@)) matches Some(
                f,
            ) ==> r == Ok::<Format, CompressError>(f),
            ext@.len() > 0 && format_for_extension(
                ext@,
                uncompressed_exts@.map_values(|e: &str| e@),
            ) is None ==> (r matches Err(CompressError::UnknownFormat(s)) && s@ == ext@),
    {
        if ext.unicode_len() == 0 {
            return Err(CompressError::EmptyExtension);
        }
        if text_in(ext, uncompressed_exts) {
            return Ok(Format::Uncompressed);
        }
        if is_gzip_extension(ext) {
            return Ok(Format::Gzip);
        }
        if is_bgzf_extension(ext) {
            return Ok(Format::Bgzf);
        }
        Err(CompressError::UnknownFormat(ext.to_owned()))
    }

    /// Infers the format from the extension of the file at `path`; a path
    /// without an extension has the empty one.
    pub fn from_path(path: &str, uncompressed_exts: &[&str]) -> (r: Result<Format, CompressError>)
        ensures
            ({
                let ext = extension_or_empty(path_extension_of(path@));
                &&& ext.len() == 0 ==> r == Err::<Format, CompressError>(
                    CompressError::EmptyExtension,
                )
                &&& format_for_extension(ext, uncompressed_exts@.map_values(|e: &str| e@)) matches Some(
                    f,
                ) ==> r == Ok::<Format, CompressError>(f)
                &&& ext.len() > 0 && format_for_extension(
                    ext,
                    uncompressed_exts@.map_values(|e: &str| e@),
                ) is None ==> (r matches Err(CompressError::UnknownFormat(s)) && s@ == ext)
            }),
    {
        let empty = "";
        proof {
            reveal_strlit("");
            assert(empty@ =~= Seq::<char>::empty());
        }
        let ext = match path_extension(path) {
            Some(e) => e,
            None => empty,
        };
        Format::from_extension(ext, uncompressed_exts)
    }

    /// The encoder of this format, with default settings.
    pub fn encoder(&self) -> (r: Encoder)
        ensures
            r == self.spec_encoder(),
            encoder_format(r) == *self,
            r matches Encoder::Deflate(d) ==> d.spec_level() == 6,
            r matches Encoder::Gzip(g) ==> g.spec_deflate().spec_level() == 6,
            r matches Encoder::Bgzf(b) ==> b.spec_deflate().spec_level() == 6 && b.spec_threads() is None,
    {
        match self {
            Format::Uncompressed => Encoder::Identity(encode::Identity {  }),
            Format::Deflate => Encoder::Deflate(encode::Deflate::default()),
            Format::Gzip => Encoder::Gzip(encode::Gzip::default()),
            Format::Bgzf => Encoder::Bgzf(encode::Bgzf::default()),
        }
    }

    /// The decoder of this format, with default settings.
    pub fn decoder(&self) -> (r: Decoder)
        ensures
            r == self.spec_decoder(),
            decoder_format(r) == *self,
            r matches Decoder::Identity(i) ==> i.spec_out_bufsize() == 8192,
            r matches Decoder::Deflate(d) ==> d.spec_in_bufsize() == 32768 && d.spec_out_bufsize() == 8192,
            r matches Decoder::Gzip(g) ==> g.spec_out_bufsize() == 8192 && g.spec_read_multi(),
            r matches Decoder::Bgzf(b) ==> b.spec_out_bufsize() == 8192,
    {
        match self {
            Format::Uncompressed => Decoder::Identity(decode::Identity::default()),
            Format::Deflate => Decoder::Deflate(decode::Deflate::default()),
            Format::Gzip => Decoder::Gzip(decode::Gzip::default()),
            Format::Bgzf => Decoder::Bgzf(decode::Bgzf::default()),
        }
    }

    /// The encoder of this format, with default settings.
    pub open spec fn spec_encoder(&self) -> Encoder {
        match self {
            Format::Uncompressed => Encoder::Identity(encode::Identity {  }),
            Format::Deflate => Encoder::Deflate(encode::Deflate::spec_default()),
            Format::Gzip => Encoder::Gzip(encode::Gzip::spec_default()),
            Format::Bgzf => Encoder::Bgzf(encode::Bgzf::spec_default()),
        }
    }

    /// The decoder of this format, with default settings.
    pub open spec fn spec_decoder(&self) -> Decoder {
        match self {
            Format::Uncompressed => Decoder::Identity(decode::Identity::spec_default()),
            Format::Deflate => Decoder::Deflate(decode::Deflate::spec_default()),
            Format::Gzip => Decoder::Gzip(decode::Gzip::spec_default()),
            Format::Bgzf => Decoder::Bgzf(decode::Bgzf::spec_default()),
        }
    }
}

/// The format that an encoder writes.
pub open spec fn encoder_format(e: Encoder) -> Format {
    match e {
        Encoder::Identity(_) => Format::Uncompressed,
        Encoder::Deflate(_) => Format::Deflate,
        Encoder::Gzip(_) => Format::Gzip,
        Encoder::Bgzf(_) => Format::Bgzf,
    }
}

/// The format that a decoder reads.
pub open spec fn decoder_format(d: Decoder) -> Format {
    match d {
        Decoder::Identity(_) => Format::Uncompressed,
        Decoder::Deflate(_) => Format::Deflate,
        Decoder::Gzip(_) => Format::Gzip,
        Decoder::Bgzf(_) => Format::Bgzf,
    }
}

/// The default encoder of every format writes that format: GZIP settings
/// for GZIP, BGZF settings for BGZF, and so on. Distinct formats thus get
/// distinct encoders.
pub proof fn lemma_encoder_writes_its_format(f: Format, g: Format)
    ensures
        encoder_format(f.spec_encoder()) == f,
        f != g ==> f.spec_encoder() != g.spec_encoder(),
{
}

/// The default decoder of every format reads that format: GZIP settings
/// for GZIP, BGZF settings for BGZF, and so on. Distinct formats thus get
/// distinct decoders.
pub proof fn lemma_decoder_reads_its_format(f: Format, g: Format)
    ensures
        decoder_format(f.spec_decoder()) == f,
        f != g ==> f.spec_decoder() != g.spec_decoder(),
{
}

impl Encoder {
    /// The default encoder of the format that the extension names.
    pub fn from_extension(ext: &str, uncompressed_exts: &[&str]) -> (r: Result<
        Encoder,
        CompressError,
    >)
        ensures
            ext@.len() == 0 ==> r == Err::<Encoder, CompressError>(CompressError::EmptyExtension),
            format_for_extension(ext@, uncompressed_exts@.map_values(|e: &str| e@)) matches Some(
                f,
            ) ==> r == Ok::<Encoder, CompressError>(f.spec_encoder()),
            format_for_extension(ext@, uncompressed_exts@.map_values(|e: &str| e@)) matches Some(
                f,
            ) ==> (r matches Ok(e) && encoder_format(e) == f),
            ext@.len() > 0 && format_for_extension(
                ext@,
                uncompressed_exts@.map_values(|e: &str| e@),
            ) is None ==> (r matches Err(CompressError::UnknownFormat(s)) && s@ == ext@),
    {
        match Format::from_extension(ext, uncompressed_exts) {
            Ok(f) => Ok(f.encoder()),
            Err(e) => Err(e),
        }
    }

    /// The default encoder of the format of the file at `path`.
    pub fn from_path(path: &str, uncompressed_exts: &[&str]) -> (r: Result<Encoder, CompressError>)
        ensures
            ({
                let ext = extension_or_empty(path_extension_of(path@));
                &&& ext.len() == 0 ==> r == Err::<Encoder, CompressError>(
                    CompressError::EmptyExtension,
                )
                &&& format_for_extension(ext, uncompressed_exts@.map_values(|e: &str| e@)) matches Some(
                    f,
                ) ==> r == Ok::<Encoder, CompressError>(f.spec_encoder())
                &&& format_for_extension(ext, uncompressed_exts@.map_values(|e: &str| e@)) matches Some(
                    f,
                ) ==> (r matches Ok(e) && encoder_format(e) == f)
                &&& ext.len() > 0 && format_for_extension(
                    ext,
                    uncompressed_exts@.map_values(|e: &str| e@),
                ) is None ==> (r matches Err(CompressError::UnknownFormat(s)) && s@ == ext)
            }),
    {
        match Format::from_path(path, uncompressed_exts) {
            Ok(f) => Ok(f.encoder()),
            Err(e) => Err(e),
        }
    }
}

} // verus!
