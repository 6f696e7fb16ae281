use scancsv::compress::Compression;
use scancsv::infer::resolve_flags;

#[test]
fn infers_gzip_and_tar_from_tar_gz() {
    let r = resolve_flags(&Compression::Plain, false, "archive.tar.gz");
    assert_eq!(r, (Compression::Gzip, true));
}

#[test]
fn infers_plain_from_txt() {
    let r = resolve_flags(&Compression::Plain, false, "plain.txt");
    assert_eq!(r, (Compression::Plain, false));
}

#[test]
fn infers_plain_without_extension() {
    let r = resolve_flags(&Compression::Plain, false, "noext");
    assert_eq!(r, (Compression::Plain, false));
}

#[test]
fn infers_tar_from_tar_suffix() {
    let r = resolve_flags(&Compression::Plain, false, "data.tar");
    assert_eq!(r, (Compression::Plain, true));
}

#[test]
fn infers_bzip2_without_tar() {
    let r = resolve_flags(&Compression::Plain, false, "rows.bz2");
    assert_eq!(r, (Compression::Bzip2, false));
}

#[test]
fn infers_xz_with_tar() {
    let r = resolve_flags(&Compression::Plain, false, "bundle.tar.xz");
    assert_eq!(r, (Compression::Xz, true));
}

#[test]
fn inference_reads_base_name_only() {
    let r = resolve_flags(&Compression::Plain, false, "some.dir/data.gz");
    assert_eq!(r, (Compression::Gzip, false));
}

#[test]
fn explicit_compression_is_kept() {
    let r = resolve_flags(&Compression::Gzip, false, "whatever.txt");
    assert_eq!(r, (Compression::Gzip, false));
}

#[test]
fn explicit_tar_flag_stops_inference() {
    let r = resolve_flags(&Compression::Plain, true, "x.gz");
    assert_eq!(r, (Compression::Plain, true));
}

#[test]
fn explicit_flag_equals_inferred_flag() {
    let with_flag = resolve_flags(&Compression::Gzip, false, "data.gz");
    let without_flag = resolve_flags(&Compression::Plain, false, "data.gz");
    assert_eq!(with_flag, without_flag);
}
