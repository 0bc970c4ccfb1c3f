use substratum::compress::decode;
use substratum::compress::encode::{self, Encoder};
use substratum::compress::{CompressError, CompressErrorKind, Format};

#[test]
fn test_format_from_extension() {
    let uncompressed_exts: &[&str] = &["txt", "csv"];

    // Uncompressed extensions
    assert_eq!(
        Format::from_extension("txt", uncompressed_exts).unwrap(),
        Format::Uncompressed
    );

    // Known compressed extensions
    assert_eq!(
        Format::from_extension("gz", uncompressed_exts).unwrap(),
        Format::Gzip
    );
    assert_eq!(
        Format::from_extension("bgzf", uncompressed_exts).unwrap(),
        Format::Bgzf
    );

    // Unknown or empty extensions
    assert!(Format::from_extension("unknown", uncompressed_exts).is_err());
    assert!(Format::from_extension("", uncompressed_exts).is_err());
}

#[test]
fn every_known_extension_names_its_format() {
    let none: &[&str] = &[];
    assert_eq!(Format::from_extension("gzip", none), Ok(Format::Gzip));
    assert_eq!(Format::from_extension("bgz", none), Ok(Format::Bgzf));
    assert_eq!(Format::from_extension("bgzip", none), Ok(Format::Bgzf));
    assert_eq!(
        Format::from_extension("txt", none),
        Err(CompressError::UnknownFormat("txt".to_string()))
    );
}

#[test]
fn uncompressed_extensions_take_precedence() {
    let exts: &[&str] = &["gz"];
    assert_eq!(Format::from_extension("gz", exts), Ok(Format::Uncompressed));
}

#[test]
fn empty_extension_is_refused() {
    let exts: &[&str] = &["txt"];
    assert_eq!(Format::from_extension("", exts), Err(CompressError::EmptyExtension));
}

#[test]
fn format_from_path_uses_the_last_extension() {
    let exts: &[&str] = &["txt"];
    assert_eq!(Format::from_path("data/reads.fastq.gz", exts), Ok(Format::Gzip));
    assert_eq!(Format::from_path("notes.txt", exts), Ok(Format::Uncompressed));
    assert_eq!(Format::from_path("archive.bgzf", exts), Ok(Format::Bgzf));
    assert_eq!(Format::from_path("README", exts), Err(CompressError::EmptyExtension));
    assert_eq!(
        Format::from_path("table.csv", exts),
        Err(CompressError::UnknownFormat("csv".to_string()))
    );
}

#[test]
fn encoder_from_path_has_default_settings() {
    let exts: &[&str] = &[];
    match Encoder::from_path("x.gz", exts) {
        Ok(Encoder::Gzip(g)) => assert_eq!(g.deflate().level(), 6),
        _ => panic!("expected a gzip encoder"),
    }
    assert!(Encoder::from_extension("zip", exts).is_err());
}

#[test]
fn formats_give_default_codecs() {
    match Format::Bgzf.decoder() {
        decode::Decoder::Bgzf(_) => {}
        _ => panic!("expected a bgzf decoder"),
    }
    match Format::Uncompressed.encoder() {
        Encoder::Identity(_) => {}
        _ => panic!("expected the identity encoder"),
    }
    match Format::Deflate.encoder() {
        Encoder::Deflate(d) => assert_eq!(d.level(), 6),
        _ => panic!("expected a deflate encoder"),
    }
}

#[test]
fn deflate_levels_above_nine_are_refused() {
    assert_eq!(encode::Deflate::new(9).unwrap().level(), 9);
    assert_eq!(encode::Deflate::new(0).unwrap().level(), 0);
    assert_eq!(encode::Deflate::new(10), Err(CompressError::InvalidLevel(10)));
    assert_eq!(encode::Deflate::none().level(), 0);
    assert_eq!(encode::Deflate::fast().level(), 1);
    assert_eq!(encode::Deflate::best().level(), 9);
    assert_eq!(encode::Deflate::default().level(), 6);
}

#[test]
fn deflate_compression_carries_the_level() {
    let d = encode::Deflate::new(3).unwrap();
    assert_eq!(d.compression().level(), 3);
    let g = encode::Gzip::new(encode::Deflate::best());
    assert_eq!(g.compression().level(), 9);
}

#[test]
fn bgzf_with_threads_is_refused() {
    let single = encode::Bgzf::new(encode::Deflate::fast(), None).unwrap();
    assert_eq!(single.compression_level().unwrap().get(), 1);
    let best = encode::Bgzf::new(encode::Deflate::best(), None).unwrap();
    assert_eq!(best.compression_level().unwrap().get(), 9);
    assert_eq!(single.threads(), None);
    let threaded = encode::Bgzf::new(encode::Deflate::fast(), Some(4)).unwrap();
    assert_eq!(threaded.threads(), Some(4));
    assert!(matches!(
        threaded.compression_level(),
        Err(CompressError::MultithreadedBgzf)
    ));
}

#[test]
fn decoder_configurations_keep_their_sizes() {
    let d = decode::Deflate::new(1024, 2048);
    assert_eq!(d.in_bufsize(), 1024);
    assert_eq!(d.out_bufsize(), 2048);
    let g = decode::Gzip::new(4096, true);
    assert_eq!(g.out_bufsize(), 4096);
    assert!(g.read_multi());
    assert_eq!(decode::Identity::new(7).out_bufsize(), 7);
    assert_eq!(decode::Bgzf::new(9).out_bufsize(), 9);
}

#[test]
fn error_messages_and_kinds() {
    assert_eq!(
        CompressError::InvalidLevel(12).message(),
        "Invalid DEFLATE compress level: 12"
    );
    assert_eq!(CompressError::InvalidLevel(0).message(), "Invalid DEFLATE compress level: 0");
    assert_eq!(
        CompressError::InvalidLevel(255).message(),
        "Invalid DEFLATE compress level: 255"
    );
    assert_eq!(CompressError::InvalidLevel(12).kind(), CompressErrorKind::InvalidInput);
    assert_eq!(
        CompressError::EmptyExtension.message(),
        "Can't infer format from empty extension"
    );
    assert_eq!(CompressError::UnknownFormat("xz".to_string()).message(), "Unknown format 'xz'");
    assert_eq!(
        CompressError::MultithreadedBgzf.message(),
        "Multithreaded BGZF is not supported"
    );
    assert_eq!(CompressError::MultithreadedBgzf.kind(), CompressErrorKind::Other);
}
