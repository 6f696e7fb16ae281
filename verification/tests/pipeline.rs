use scancsv::compress::Compression;
use scancsv::config::ScanCsv;
use scancsv::errors::ScanError;
use std::io::Write;

fn config(filepath: &str) -> ScanCsv {
    ScanCsv {
        filepath: filepath.to_string(),
        compression: Compression::Plain,
        istar: false,
        files: Vec::new(),
        column: 0,
        delimiter: "\t".to_string(),
        regex: None,
        values: Vec::new(),
        output: None,
    }
}

fn values(vals: &[&str]) -> Vec<String> {
    vals.iter().map(|v| v.to_string()).collect()
}

fn gzip(data: &[u8]) -> Vec<u8> {
    let mut e = flate2::write::GzEncoder::new(Vec::new(), flate2::Compression::default());
    e.write_all(data).unwrap();
    e.finish().unwrap()
}

fn bzip(data: &[u8]) -> Vec<u8> {
    let mut e = bzip2::write::BzEncoder::new(Vec::new(), bzip2::Compression::default());
    e.write_all(data).unwrap();
    e.finish().unwrap()
}

fn xz(data: &[u8]) -> Vec<u8> {
    let mut e = xz2::write::XzEncoder::new(Vec::new(), 6);
    e.write_all(data).unwrap();
    e.finish().unwrap()
}

fn tarball(members: &[(&str, &[u8])]) -> Vec<u8> {
    let mut b = tar::Builder::new(Vec::new());
    for (name, data) in members {
        let mut header = tar::Header::new_gnu();
        header.set_size(data.len() as u64);
        b.append_data(&mut header, name, *data).unwrap();
    }
    b.into_inner().unwrap()
}

const FIXTURE: &[u8] = b"1\tfoo\t99\n2\tbar\t98\n3\tfoo\t97\n";

#[test]
fn plain_stream_is_scanned_line_by_line() {
    let mut cfg = config("rows.txt");
    cfg.column = 1;
    cfg.values = values(&["foo"]);
    let out = cfg.parse(FIXTURE.to_vec());
    assert_eq!(out.lines, vec!["1\tfoo\t99".to_string(), "3\tfoo\t97".to_string()]);
    assert!(out.error.is_none());
}

#[test]
fn gzip_roundtrip_matches_plain_scan() {
    let mut plain_cfg = config("rows.txt");
    plain_cfg.column = 1;
    plain_cfg.values = values(&["foo"]);
    let plain = plain_cfg.parse(FIXTURE.to_vec());

    let mut gz_cfg = config("rows.txt");
    gz_cfg.column = 1;
    gz_cfg.values = values(&["foo"]);
    gz_cfg.compression = Compression::Gzip;
    let packed = gz_cfg.parse(gzip(FIXTURE));

    assert_eq!(plain.lines, packed.lines);
    assert!(packed.error.is_none());
}

#[test]
fn bzip2_roundtrip_matches_plain_scan() {
    let mut plain_cfg = config("rows.txt");
    plain_cfg.column = 1;
    plain_cfg.values = values(&["bar"]);
    let plain = plain_cfg.parse(FIXTURE.to_vec());

    let mut bz_cfg = config("rows.txt");
    bz_cfg.column = 1;
    bz_cfg.values = values(&["bar"]);
    bz_cfg.compression = Compression::Bzip2;
    let packed = bz_cfg.parse(bzip(FIXTURE));

    assert_eq!(plain.lines, packed.lines);
    assert!(packed.error.is_none());
}

#[test]
fn xz_roundtrip_matches_plain_scan() {
    let mut plain_cfg = config("rows.txt");
    plain_cfg.column = 0;
    plain_cfg.values = values(&["2"]);
    let plain = plain_cfg.parse(FIXTURE.to_vec());

    let mut xz_cfg = config("rows.txt");
    xz_cfg.column = 0;
    xz_cfg.values = values(&["2"]);
    xz_cfg.compression = Compression::Xz;
    let packed = xz_cfg.parse(xz(FIXTURE));

    assert_eq!(plain.lines, packed.lines);
    assert!(packed.error.is_none());
}

#[test]
fn compression_is_inferred_from_the_file_name() {
    let mut cfg = config("rows.gz");
    cfg.column = 1;
    cfg.values = values(&["foo"]);
    let out = cfg.parse(gzip(FIXTURE));
    assert_eq!(out.lines, vec!["1\tfoo\t99".to_string(), "3\tfoo\t97".to_string()]);
    assert!(out.error.is_none());
}

#[test]
fn explicit_gzip_flag_equals_inference() {
    let mut inferred = config("rows.gz");
    inferred.column = 1;
    inferred.values = values(&["foo"]);
    let a = inferred.parse(gzip(FIXTURE));

    let mut explicit = config("rows.gz");
    explicit.column = 1;
    explicit.values = values(&["foo"]);
    explicit.compression = Compression::Gzip;
    let b = explicit.parse(gzip(FIXTURE));

    assert_eq!(a.lines, b.lines);
    assert_eq!(a.error, b.error);
}

#[test]
fn tar_members_are_filtered_by_name() {
    let archive = tarball(&[
        ("a.csv", b"a1\tv\na2\tv\n"),
        ("b.csv", b"b1\tv\nb2\tv\n"),
        ("c.csv", b"c1\tv\n"),
    ]);
    let mut cfg = config("data.tar");
    cfg.istar = true;
    cfg.files = values(&["b.csv"]);
    cfg.column = 1;
    cfg.values = values(&["v"]);
    let out = cfg.parse(archive);
    assert_eq!(out.lines, vec!["b1\tv".to_string(), "b2\tv".to_string()]);
    assert!(out.error.is_none());
}

#[test]
fn empty_filter_admits_every_member_in_order() {
    let archive = tarball(&[("a.csv", b"a1\tv\n"), ("b.csv", b"b1\tv\n")]);
    let mut cfg = config("data.tar");
    cfg.istar = true;
    cfg.column = 1;
    cfg.values = values(&["v"]);
    let out = cfg.parse(archive);
    assert_eq!(out.lines, vec!["a1\tv".to_string(), "b1\tv".to_string()]);
    assert!(out.error.is_none());
}

#[test]
fn tarness_is_inferred_from_tar_gz_name() {
    let archive = tarball(&[("a.csv", b"a1\tv\n"), ("b.csv", b"b1\tv\n")]);
    let mut cfg = config("data.tar.gz");
    cfg.column = 1;
    cfg.values = values(&["v"]);
    let out = cfg.parse(gzip(&archive));
    assert_eq!(out.lines, vec!["a1\tv".to_string(), "b1\tv".to_string()]);
    assert!(out.error.is_none());
}

#[test]
fn malformed_gzip_aborts_with_decode_error() {
    let mut cfg = config("rows.txt");
    cfg.compression = Compression::Gzip;
    let out = cfg.parse(b"definitely not gzip".to_vec());
    assert!(out.lines.is_empty());
    assert_eq!(out.error, Some(ScanError::Decode));
}

#[test]
fn malformed_archive_aborts_with_archive_error() {
    let mut cfg = config("data.tar");
    cfg.istar = true;
    let out = cfg.parse(vec![1u8; 700]);
    assert!(out.lines.is_empty());
    assert_eq!(out.error, Some(ScanError::Archive));
}

#[test]
fn corrupt_tar_keeps_lines_of_earlier_members() {
    let whole = tarball(&[("a.csv", b"a1\tv\na2\tw\n")]);
    // One member is 512 header bytes plus 512 padded data bytes; what
    // follows is replaced by a block that is no valid header.
    let mut bytes = whole[..1024].to_vec();
    bytes.extend(std::iter::repeat(1u8).take(512));
    let mut cfg = config("data.tar");
    cfg.istar = true;
    cfg.column = 1;
    cfg.values = values(&["v"]);
    let out = cfg.parse(bytes);
    assert_eq!(out.lines, vec!["a1\tv".to_string()]);
    assert_eq!(out.error, Some(ScanError::Archive));
}

#[test]
fn corrupt_gzip_keeps_lines_decoded_before_the_break() {
    let mut text = String::new();
    for i in 0..4000 {
        text.push_str(&format!("{}\tv\tfiller-to-make-the-line-longer\n", i));
    }
    let mut plain_cfg = config("rows.txt");
    plain_cfg.column = 1;
    plain_cfg.values = values(&["v"]);
    let plain = plain_cfg.parse(text.as_bytes().to_vec());

    let packed = gzip(text.as_bytes());
    let truncated = packed[..packed.len() / 2].to_vec();
    let mut gz_cfg = config("rows.txt");
    gz_cfg.column = 1;
    gz_cfg.values = values(&["v"]);
    gz_cfg.compression = Compression::Gzip;
    let out = gz_cfg.parse(truncated);

    assert_eq!(out.error, Some(ScanError::Decode));
    assert!(!out.lines.is_empty());
    assert!(out.lines.len() < plain.lines.len());
    assert_eq!(out.lines[..], plain.lines[..out.lines.len()]);
}

#[test]
fn invalid_text_aborts_with_encoding_error() {
    let mut cfg = config("rows.txt");
    cfg.values = values(&["a"]);
    let out = cfg.parse(b"a\tb\n\xff\xfe\n".to_vec());
    assert_eq!(out.lines, vec!["a\tb".to_string()]);
    assert_eq!(out.error, Some(ScanError::Encoding));
}

#[test]
fn bad_pattern_aborts_before_any_scan() {
    let mut cfg = config("rows.txt");
    cfg.regex = Some("(".to_string());
    let out = cfg.parse(FIXTURE.to_vec());
    assert!(out.lines.is_empty());
    assert_eq!(out.error, Some(ScanError::BadPattern));
}

#[test]
fn crlf_line_endings_are_stripped() {
    let mut cfg = config("rows.txt");
    cfg.column = 0;
    cfg.values = values(&["a"]);
    let out = cfg.parse(b"a\tb\r\nc\td\r\n".to_vec());
    assert_eq!(out.lines, vec!["a\tb".to_string()]);
    assert!(out.error.is_none());
}

#[test]
fn final_unterminated_line_is_still_scanned() {
    let mut cfg = config("rows.txt");
    cfg.column = 0;
    cfg.values = values(&["c"]);
    let out = cfg.parse(b"a\tb\nc\td".to_vec());
    assert_eq!(out.lines, vec!["c\td".to_string()]);
    assert!(out.error.is_none());
}

#[test]
fn non_ascii_text_is_decoded_before_matching() {
    let mut cfg = config("rows.txt");
    cfg.column = 0;
    cfg.values = values(&["\u{e9}t\u{e9}"]);
    let out = cfg.parse("\u{e9}t\u{e9}\tsummer\n".as_bytes().to_vec());
    assert_eq!(out.lines, vec!["\u{e9}t\u{e9}\tsummer".to_string()]);
    assert!(out.error.is_none());
}

#[test]
fn emitted_lines_do_not_depend_on_the_output_destination() {
    let mut console = config("rows.txt");
    console.column = 1;
    console.values = values(&["foo"]);
    let a = console.parse(FIXTURE.to_vec());

    let mut file = config("rows.txt");
    file.column = 1;
    file.values = values(&["foo"]);
    file.output = Some("matches.out".to_string());
    let b = file.parse(FIXTURE.to_vec());

    assert_eq!(a.lines, b.lines);
    assert_eq!(a.error, b.error);
}

#[test]
fn regex_predicate_runs_inside_the_pipeline() {
    let mut cfg = config("rows.txt");
    cfg.column = 1;
    cfg.regex = Some("^ba".to_string());
    let out = cfg.parse(FIXTURE.to_vec());
    assert_eq!(out.lines, vec!["2\tbar\t98".to_string()]);
    assert!(out.error.is_none());
}
