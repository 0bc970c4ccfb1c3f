//! Encoder settings.

use super::error::CompressError;
use vstd::prelude::*;

verus! {

#[verifier::external_type_specification]
#[verifier::external_body]
pub struct ExCompression(flate2::Compression);

#[verifier::external_type_specification]
#[verifier::external_body]
pub struct ExCompressionLevel(noodles_bgzf::io::writer::CompressionLevel);

/// What `flate2::Compression::new` gives for a level.
pub uninterp spec fn flate2_compression(level: u32) -> flate2::Compression;

/// What `noodles_bgzf::io::writer::CompressionLevel::new` gives for a level
/// it accepts.
pub uninterp spec fn bgzf_compression_level(level: u8) -> noodles_bgzf::io::writer::CompressionLevel;

/// Calls `flate2::Compression::new`, which wraps the level as it is.
#[verifier::external_body]
fn compression_new(level: u32) -> (r: flate2::Compression)
    ensures
        r == flate2_compression(level),
{
    flate2::Compression::new(level)
}

/// Calls `noodles_bgzf::io::writer::CompressionLevel::new`, which accepts
/// exactly the levels up to 9 (the crate is built without its `libdeflate`
/// feature).
#[verifier::external_body]
fn bgzf_level_new(level: u8) -> (r: Option<noodles_bgzf::io::writer::CompressionLevel>)
    ensures
        r is Some <==> level <= 9,
        r matches Some(l) ==> l == bgzf_compression_level(level),
{
    noodles_bgzf::io::writer::CompressionLevel::new(level)
}

/// Settings for writing uncompressed data.
#[derive(Debug, Default, Clone, Copy, PartialEq, Eq, Structural, PartialOrd, Ord, Hash)]
pub struct Identity {}

/// Settings for writing raw DEFLATE data: a compression level from 0 to 9.
#[derive(Debug, Clone, Copy, PartialEq, Eq, Structural, PartialOrd, Ord, Hash)]
pub struct Deflate {
    level: u8,
}

impl Deflate {
    /// The default settings.
    pub closed spec fn spec_default() -> Self {
        Deflate { level: 6 }
    }

    /// The compression level; at most 9.
    pub closed spec fn spec_level(&self) -> u8 {
        self.level
    }

    /// Level 6, the usual trade-off.
    pub open spec fn default_level() -> u8 {
        6
    }

    /// Compresses at `level`; fails for levels above 9.
    pub fn new(level: u8) -> (r: Result<Self, CompressError>)
        ensures
            level <= 9 ==> (r matches Ok(d) && d.spec_level() == level),
            level > 9 ==> r == Err::<Self, CompressError>(CompressError::InvalidLevel(level)),
    {
        if level > 9 {
            return Err(CompressError::InvalidLevel(level));
        }
        Ok(Deflate { level })
    }

    /// No compression.
    pub fn none() -> (r: Self)
        ensures
            r.spec_level() == 0,
    {
        Deflate { level: 0 }
    }

    /// The fastest compression.
    pub fn fast() -> (r: Self)
        ensures
            r.spec_level() == 1,
    {
        Deflate { level: 1 }
    }

    /// The strongest compression.
    pub fn best() -> (r: Self)
        ensures
            r.spec_level() == 9,
    {
        Deflate { level: 9 }
    }

    /// The compression level.
    pub fn level(&self) -> (r: u8)
        ensures
            r == self.spec_level(),
            r <= 9,
    {
        proof {
            use_type_invariant(self);
        }
        self.level
    }

    #[verifier::type_invariant]
    closed spec fn level_in_range(self) -> bool {
        self.level <= 9
    }

    /// The `flate2` compression for this level, with which a DEFLATE stream
    /// is written.
    pub fn compression(&self) -> (r: flate2::Compression)
        ensures
            r == flate2_compression(self.spec_level() as u32),
    {
        compression_new(self.level as u32)
    }
}

impl Default for Deflate {
    /// Level 6.
    fn default() -> (r: Self)
        ensures
            r == Deflate::spec_default(),
            r.spec_level() == Deflate::default_level(),
    {
        Deflate { level: 6 }
    }
}

/// Settings for writing GZIP data.
#[derive(Debug, Clone, Copy, PartialEq, Eq, Structural, PartialOrd, Ord, Hash)]
pub struct Gzip {
    deflate: Deflate,
}

impl Gzip {
    /// The default settings.
    pub closed spec fn spec_default() -> Self {
        Gzip { deflate: Deflate { level: 6 } }
    }

    /// The DEFLATE settings of the body.
    pub closed spec fn spec_deflate(&self) -> Deflate {
        self.deflate
    }

    /// Compresses the body with `deflate`.
    pub fn new(deflate: Deflate) -> (r: Self)
        ensures
            r.spec_deflate() == deflate,
    {
        Gzip { deflate }
    }

    /// The DEFLATE settings of the body.
    pub fn deflate(&self) -> (r: &Deflate)
        ensures
            *r == self.spec_deflate(),
    {
        &self.deflate
    }

    /// The `flate2` compression with which the stream is written.
    pub fn compression(&self) -> (r: flate2::Compression)
        ensures
            r == flate2_compression(self.spec_deflate().spec_level() as u32),
    {
        self.deflate.compression()
    }
}

impl Default for Gzip {
    /// Level 6.
    fn default() -> (r: Self)
        ensures
            r == Gzip::spec_default(),
            r.spec_deflate().spec_level() == Deflate::default_level(),
    {
        Gzip { deflate: Deflate::default() }
    }
}

/// Settings for writing BGZF data.
#[derive(Debug, Clone, Copy, PartialEq, Eq, Structural, PartialOrd, Ord, Hash)]
pub struct Bgzf {
    deflate: Deflate,
    threads: Option<usize>,
}

impl Bgzf {
    /// The default settings.
    pub closed spec fn spec_default() -> Self {
        Bgzf { deflate: Deflate { level: 6 }, threads: None }
    }

    /// The DEFLATE settings of the blocks.
    pub closed spec fn spec_deflate(&self) -> Deflate {
        self.deflate
    }

    /// The number of worker threads, if several are asked for; never zero.
    pub closed spec fn spec_threads(&self) -> Option<usize> {
        self.threads
    }

    /// Compresses the blocks with `deflate`, with `threads` workers if given.
    pub fn new(deflate: Deflate, threads: Option<usize>) -> (r: Result<Self, CompressError>)
        requires
            threads matches Some(t) ==> t > 0,
        ensures
            r matches Ok(b) && b.spec_deflate() == deflate && b.spec_threads() == threads,
    {
        Ok(Bgzf { deflate, threads })
    }

    /// The DEFLATE settings of the blocks.
    pub fn deflate(&self) -> (r: &Deflate)
        ensures
            *r == self.spec_deflate(),
    {
        &self.deflate
    }

    /// The number of worker threads, if several are asked for.
    pub fn threads(&self) -> (r: Option<usize>)
        ensures
            r == self.spec_threads(),
    {
        self.threads
    }

    /// The compression level with which the BGZF writer is built.
    ///
    /// Fails when worker threads are asked for, which is not supported.
    pub fn compression_level(&self) -> (r: Result<
        noodles_bgzf::io::writer::CompressionLevel,
        CompressError,
    >)
        ensures
            self.spec_threads() is Some ==> r == Err::<
                noodles_bgzf::io::writer::CompressionLevel,
                CompressError,
            >(CompressError::MultithreadedBgzf),
            self.spec_threads() is None ==> r == Ok::<_, CompressError>(
                bgzf_compression_level(self.spec_deflate().spec_level()),
            ),
    {
        let level = match bgzf_level_new(self.deflate.level()) {
            Some(l) => l,
            None => {
                // Levels never exceed 9, which the writer accepts.
                proof {
                    assert(false);
                }
                return Err(CompressError::MultithreadedBgzf);
            },
        };
        match self.threads {
            Some(_) => Err(CompressError::MultithreadedBgzf),
            None => Ok(level),
        }
    }
}

impl Default for Bgzf {
    /// Level 6, without worker threads.
    fn default() -> (r: Self)
        ensures
            r == Bgzf::spec_default(),
            r.spec_deflate().spec_level() == Deflate::default_level(),
            r.spec_threads() is None,
    {
        Bgzf { deflate: Deflate::default(), threads: None }
    }
}

/// An encoding algorithm with its settings.
#[derive(Debug, Clone, Copy, PartialEq, Eq, Structural, PartialOrd, Ord, Hash)]
pub enum Encoder {
    /// No compression; useful to treat compressed and plain streams alike.
    Identity(Identity),
    /// Raw DEFLATE.
    Deflate(Deflate),
    /// The GZIP container with DEFLATE compression.
    Gzip(Gzip),
    /// The BGZF container with DEFLATE compression.
    Bgzf(Bgzf),
}

impl Default for Encoder {
    /// No compression.
    fn default() -> (r: Self)
        ensures
            r == Encoder::Identity(Identity {  }),
    {
        Encoder::Identity(Identity {  })
    }
}

} // verus!
