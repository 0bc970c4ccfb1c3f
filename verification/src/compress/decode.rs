//! Decoder settings.

use vstd::prelude::*;

verus! {

/// Settings for reading uncompressed data.
#[derive(Debug, Clone, Copy, PartialEq, Eq, Structural, PartialOrd, Ord, Hash)]
pub struct Identity {
    out_bufsize: usize,
}

impl Identity {
    #[verifier::type_invariant]
    closed spec fn buffers_nonempty(self) -> bool {
        self.out_bufsize > 0
    }

    /// The default settings.
    pub closed spec fn spec_default() -> Self {
        Identity { out_bufsize: 8192 }
    }

    /// The size of the output buffer; never zero.
    pub closed spec fn spec_out_bufsize(&self) -> usize {
        self.out_bufsize
    }

    /// Reads through an output buffer of `out_bufsize` bytes.
    pub fn new(out_bufsize: usize) -> (r: Self)
        requires
            out_bufsize > 0,
        ensures
            r.spec_out_bufsize() == out_bufsize,
    {
        Identity { out_bufsize }
    }

    /// The size of the output buffer.
    pub fn out_bufsize(&self) -> (r: usize)
        ensures
            r == self.spec_out_bufsize(),
            r > 0,
    {
        proof {
            use_type_invariant(self);
        }
        self.out_bufsize
    }
}

impl Default for Identity {
    /// An output buffer of 8 KiB.
    fn default() -> (r: Self)
        ensures
            r == Identity::spec_default(),
            r.spec_out_bufsize() == 8192,
    {
        Identity { out_bufsize: 8192 }
    }
}

/// Settings for reading raw DEFLATE data.
#[derive(Debug, Clone, Copy, PartialEq, Eq, Structural, PartialOrd, Ord, Hash)]
pub struct Deflate {
    in_bufsize: usize,
    out_bufsize: usize,
}

impl Deflate {
    #[verifier::type_invariant]
    closed spec fn buffers_nonempty(self) -> bool {
        self.in_bufsize > 0 && self.out_bufsize > 0
    }

    /// The default settings.
    pub closed spec fn spec_default() -> Self {
        Deflate { in_bufsize: 32768, out_bufsize: 8192 }
    }

    /// The size of the buffer for compressed input.
    pub closed spec fn spec_in_bufsize(&self) -> usize {
        self.in_bufsize
    }

    /// The size of the output buffer.
    pub closed spec fn spec_out_bufsize(&self) -> usize {
        self.out_bufsize
    }

    /// Reads compressed input through a buffer of `deflate_bufsize` bytes and
    /// decompressed output through one of `out_bufsize` bytes.
    pub fn new(deflate_bufsize: usize, out_bufsize: usize) -> (r: Self)
        requires
            deflate_bufsize > 0,
            out_bufsize > 0,
        ensures
            r.spec_in_bufsize() == deflate_bufsize,
            r.spec_out_bufsize() == out_bufsize,
    {
        Deflate { in_bufsize: deflate_bufsize, out_bufsize }
    }

    /// The size of the buffer for compressed input.
    pub fn in_bufsize(&self) -> (r: usize)
        ensures
            r == self.spec_in_bufsize(),
            r > 0,
    {
        proof {
            use_type_invariant(self);
        }
        self.in_bufsize
    }

    /// The size of the output buffer.
    pub fn out_bufsize(&self) -> (r: usize)
        ensures
            r == self.spec_out_bufsize(),
            r > 0,
    {
        proof {
            use_type_invariant(self);
        }
        self.out_bufsize
    }
}

impl Default for Deflate {
    /// An input buffer of 32 KiB and an output buffer of 8 KiB.
    fn default() -> (r: Self)
        ensures
            r == Deflate::spec_default(),
            r.spec_in_bufsize() == 32768,
            r.spec_out_bufsize() == 8192,
    {
        Deflate { in_bufsize: 32768, out_bufsize: 8192 }
    }
}

/// Settings for reading GZIP data.
#[derive(Debug, Clone, Copy, PartialEq, Eq, Structural, PartialOrd, Ord, Hash)]
pub struct Gzip {
    out_bufsize: usize,
    read_multi: bool,
}

impl Gzip {
    #[verifier::type_invariant]
    closed spec fn buffers_nonempty(self) -> bool {
        self.out_bufsize > 0
    }

    /// The default settings.
    pub closed spec fn spec_default() -> Self {
        Gzip { out_bufsize: 8192, read_multi: true }
    }

    /// The size of the output buffer.
    pub closed spec fn spec_out_bufsize(&self) -> usize {
        self.out_bufsize
    }

    /// Whether every member of a multi-member file is read, not only the
    /// first.
    pub closed spec fn spec_read_multi(&self) -> bool {
        self.read_multi
    }

    /// Reads through an output buffer of `out_bufsize` bytes, going past the
    /// first member when `read_multi` holds.
    pub fn new(out_bufsize: usize, read_multi: bool) -> (r: Self)
        requires
            out_bufsize > 0,
        ensures
            r.spec_out_bufsize() == out_bufsize,
            r.spec_read_multi() == read_multi,
    {
        Gzip { out_bufsize, read_multi }
    }

    /// The size of the output buffer.
    pub fn out_bufsize(&self) -> (r: usize)
        ensures
            r == self.spec_out_bufsize(),
            r > 0,
    {
        proof {
            use_type_invariant(self);
        }
        self.out_bufsize
    }

    /// Whether every member of a multi-member file is read.
    pub fn read_multi(&self) -> (r: bool)
        ensures
            r == self.spec_read_multi(),
    {
        self.read_multi
    }
}

impl Default for Gzip {
    /// An output buffer of 8 KiB, reading every member.
    fn default() -> (r: Self)
        ensures
            r == Gzip::spec_default(),
            r.spec_out_bufsize() == 8192,
            r.spec_read_multi(),
    {
        Gzip { out_bufsize: 8192, read_multi: true }
    }
}

/// Settings for reading BGZF data.
#[derive(Debug, Clone, Copy, PartialEq, Eq, Structural, PartialOrd, Ord, Hash)]
pub struct Bgzf {
    out_bufsize: usize,
}

impl Bgzf {
    #[verifier::type_invariant]
    closed spec fn buffers_nonempty(self) -> bool {
        self.out_bufsize > 0
    }

    /// The default settings.
    pub closed spec fn spec_default() -> Self {
        Bgzf { out_bufsize: 8192 }
    }

    /// The size of the output buffer.
    pub closed spec fn spec_out_bufsize(&self) -> usize {
        self.out_bufsize
    }

    /// Reads through an output buffer of `out_bufsize` bytes.
    pub fn new(out_bufsize: usize) -> (r: Self)
        requires
            out_bufsize > 0,
        ensures
            r.spec_out_bufsize() == out_bufsize,
    {
        Bgzf { out_bufsize }
    }

    /// The size of the output buffer.
    pub fn out_bufsize(&self) -> (r: usize)
        ensures
            r == self.spec_out_bufsize(),
            r > 0,
    {
        proof {
            use_type_invariant(self);
        }
        self.out_bufsize
    }
}

impl Default for Bgzf {
    /// An output buffer of 8 KiB.
    fn default() -> (r: Self)
        ensures
            r == Bgzf::spec_default(),
            r.spec_out_bufsize() == 8192,
    {
        Bgzf { out_bufsize: 8192 }
    }
}

/// A decoding algorithm with its settings.
#[derive(Debug, Clone, Copy, PartialEq, Eq, Structural, PartialOrd, Ord, Hash)]
pub enum Decoder {
    /// No compression; useful to treat compressed and plain streams alike.
    Identity(Identity),
    /// Raw DEFLATE.
    Deflate(Deflate),
    /// The GZIP container with DEFLATE compression.
    Gzip(Gzip),
    /// The BGZF container with DEFLATE compression.
    Bgzf(Bgzf),
}

impl Default for Decoder {
    /// No compression, with the default buffer.
    fn default() -> (r: Self)
        ensures
            r matches Decoder::Identity(i) && i.spec_out_bufsize() == 8192,
    {
        Decoder::Identity(Identity::default())
    }
}

} // verus!
