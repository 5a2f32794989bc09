use std::io::Read;

use swiss_army_archive::codec::{Reader, Stream, READ_SIZE};
use swiss_army_archive::decoder::{contains_text, Decoder, ExtractStep, Extraction, ZipEntry};
use swiss_army_archive::driver::Driver;
use swiss_army_archive::encoder::{
    digesting_status, encode_in_chunks, AddStep, Container, Encoder, Entry, Finish,
    ZIP_UNIX_PERMISSIONS,
};
use std::cell::RefCell;
use swiss_army_archive::error::Error;
use swiss_army_archive::manifest::WalkedEntry;
use swiss_army_archive::status::UpdateStatus;
use swiss_army_archive::tarball::FileMeta;

fn quiet(_: UpdateStatus) {}

const FILE_COUNT: usize = 500;
const LINE_COUNT: usize = 500;
const FEWER_FILES: usize = 60;

fn generated_content() -> Vec<u8> {
    let mut content = Vec::new();
    for j in 0..LINE_COUNT {
        content.extend_from_slice(format!("This is line #{j}\n").as_bytes());
    }
    content
}

fn generate_entries(file_count: usize) -> Vec<Entry> {
    let mut result = Vec::new();
    for i in 0..file_count {
        let archive_path = format!("file_{i}.txt");
        let file_path = format!("tmp/files/{archive_path}");
        result.push(Entry { archive_path, file_path });
    }
    result
}

const META: FileMeta = FileMeta { mode: 0o644, mtime: 1_700_000_000, uid: 1000, gid: 1000 };

fn verify_generated_files(tar_bytes: &[u8], file_count: usize) {
    let mut archive = tar::Archive::new(tar_bytes);
    let mut seen = 0;
    for (i, file) in archive.entries().unwrap().enumerate() {
        let mut file = file.unwrap();
        assert_eq!(file.path().unwrap().to_string_lossy(), format!("file_{i}.txt"));
        assert_eq!(file.header().entry_type(), tar::EntryType::Regular);
        assert_eq!(file.header().mode().unwrap(), 0o644);
        assert_eq!(file.header().mtime().unwrap(), 1_700_000_000);
        assert_eq!(file.header().uid().unwrap(), 1000);
        assert_eq!(file.header().gid().unwrap(), 1000);
        let mut contents = String::new();
        file.read_to_string(&mut contents).unwrap();
        let mut lines = 0;
        for (number, line) in contents.lines().enumerate() {
            let expected = format!("This is line #{number}");
            assert_eq!(line, expected);
            lines += 1;
        }
        assert_eq!(lines, LINE_COUNT);
        seen += 1;
    }
    assert_eq!(seen, file_count);
}

fn round_trip(drivers: &[Driver], file_count: usize) {
    let entries = generate_entries(file_count);
    let content = generated_content();

    for driver in drivers.iter().copied() {
        let output_directory = "./tmp";
        let output_filename = format!("test.{}", driver.extension());
        let mut encoder = Encoder::new(output_directory, &output_filename).unwrap();
        assert_eq!(encoder.driver(), driver);

        let plan = encoder.add_entries(&entries, &[]);
        assert_eq!(plan.adds.len(), file_count);
        for add in plan.adds {
            match add.step {
                AddStep::TarFile { archive_path, .. } => {
                    assert!(driver != Driver::Zip);
                    encoder.append_file(archive_path.as_str(), &content, META).unwrap();
                }
                AddStep::ZipFile { archive_path, .. } => {
                    assert_eq!(driver, Driver::Zip);
                    let refused = encoder.append_file(archive_path.as_str(), &content, META);
                    assert!(matches!(refused, Err(Error::UnsupportedFormat { .. })));
                }
                AddStep::TarSymlink { .. } => panic!("a file was taken for a link"),
            }
        }

        let mut log = Vec::new();
        let compressed = encoder.compress(&mut log, &quiet).unwrap();
        assert_eq!(compressed.digestable.path(), format!("./tmp/test.{}", driver.extension()));

        let output_dir = format!("tmp/extract_test.{}", driver.extension());
        let archive_path_string = format!("tmp/test.{}", driver.extension());

        match compressed.finish {
            Finish::WriteFile { bytes } => {
                assert!(driver == Driver::Gzip || driver == Driver::Bzip2 || driver == Driver::Xz);
                let digest = sha256::digest(&bytes);
                assert_eq!(compressed.digestable.digest(&bytes).sha256, digest);
                let decoder =
                    Decoder::new(archive_path_string.as_str(), Some(digest), output_dir.as_str())
                        .unwrap();
                let mut log = Vec::new();
                let extraction = decoder.extract(bytes.clone(), &mut log, &quiet).unwrap();
                assert_eq!(extraction.output_directory, output_dir);
                match extraction.step {
                    ExtractStep::Tar { tar_bytes: unpacked } => {
                        assert!(bytes.len() < unpacked.len());
                        verify_generated_files(&unpacked, file_count);
                    }
                    _ => panic!("a compressed tar stream was not decompressed"),
                }
            }
            Finish::CloseZip => {
                assert_eq!(driver, Driver::Zip);
                assert!(log.is_empty());
                let archive = b"the bytes of the zip file".to_vec();
                let digest = sha256::digest(&archive);
                let decoder =
                    Decoder::new(archive_path_string.as_str(), Some(digest), output_dir.as_str())
                        .unwrap();
                let mut log = Vec::new();
                assert!(matches!(
                    decoder.extract(archive, &mut log, &quiet),
                    Ok(Extraction { step: ExtractStep::Zip, .. })
                ));
                assert_eq!(log.len(), 1);
                assert_eq!(log[0].detail, Some("Digesting...".to_string()));
            }
            Finish::SevenZ { temporary_tar_path, tar_bytes } => {
                assert_eq!(driver, Driver::SevenZ);
                assert_eq!(temporary_tar_path, "./tmp/swiss_army_archive_seven7_temp.tar");
                verify_generated_files(&tar_bytes, file_count);
                assert_eq!(log.len(), 1);
                assert_eq!(log[0].detail, Some("Compressing (tar.7z)".to_string()));
                assert_eq!(log[0].total, Some(200));
                assert_eq!(log[0].increment, None);
                let archive = b"the bytes of the 7z file".to_vec();
                let digest = sha256::digest(&archive);
                let decoder =
                    Decoder::new(archive_path_string.as_str(), Some(digest), output_dir.as_str())
                        .unwrap();
                let mut log = Vec::new();
                match decoder.extract(archive, &mut log, &quiet).unwrap().step {
                    ExtractStep::SevenZ { temporary_tar_path } => assert_eq!(
                        temporary_tar_path,
                        "tmp/extract_test.tar.7z/swiss_army_archive_seven7_temp.tar"
                    ),
                    _ => panic!("a 7z archive was not left to its codec"),
                }
                assert_eq!(log.len(), 2);
                assert_eq!(log[0].detail, Some("Digesting...".to_string()));
                assert_eq!(log[1].brief, Some("Extracting tar.7z".to_string()));
                assert_eq!(log[1].detail, Some("creating tar as binary blob".to_string()));
                assert_eq!(log[1].total, Some(200));
            }
        }
    }
}

#[test]
fn compress_test() {
    round_trip(&[Driver::Gzip, Driver::Zip, Driver::SevenZ], FILE_COUNT);
}

#[test]
fn compress_test_bzip2() {
    round_trip(&[Driver::Bzip2], FEWER_FILES);
}

#[test]
fn compress_test_xz() {
    round_trip(&[Driver::Xz], FEWER_FILES);
}

fn decode_stream(driver: Driver, data: &[u8]) -> Result<Vec<u8>, Error> {
    let reader = Reader::open(driver, data.to_vec()).unwrap();
    Decoder::extract_to_tar_bytes(reader, &mut Vec::new(), &quiet)
}

fn digest_bytes(data: &[u8]) -> String {
    let encoder = Encoder::new("out", "a.zip").unwrap();
    let compressed = encoder.compress(&mut Vec::new(), &quiet).unwrap();
    compressed.digestable.digest(data).sha256
}

fn chunk_ticks(len: usize) -> (usize, Vec<UpdateStatus>) {
    let contents: Vec<u8> = (0..len).map(|i| (i % 251) as u8).collect();
    let mut log = Vec::new();
    let stream = Stream::open(Driver::Gzip).unwrap();
    let stream = encode_in_chunks(stream, &contents, &mut log, &quiet).unwrap();
    let bytes = stream.finish().unwrap();
    assert_eq!(decode_stream(Driver::Gzip, &bytes).unwrap(), contents);
    assert_eq!(log[0].detail, Some("Compressing (tar.gz)".to_string()));
    assert_eq!(log[0].total, None);
    assert_eq!(log[0].increment, None);
    (log.len() - 1, log.split_off(1))
}

#[test]
fn chunks_reported_add_up_to_the_total_declared() {
    let cases =
        [(0, 0), (1, 1), (100, 1), (4095, 1), (4096, 4096), (8191, 8191), (10000, 5000), (12289, 4097)];
    for (len, count) in cases {
        let (ticks, log) = chunk_ticks(len);
        assert_eq!(ticks, count);
        let mut sum = 0;
        for report in log {
            assert_eq!(report.total, Some(count as u64));
            assert_eq!(report.increment, Some(1));
            assert_eq!(report.brief, None);
            assert_eq!(report.detail, None);
            sum += report.increment.unwrap();
        }
        assert_eq!(sum, count as u64);
    }
}

#[test]
fn every_stream_codec_gives_back_what_it_took() {
    let contents: Vec<u8> = (0..20000usize).map(|i| (i * 7 % 256) as u8).collect();
    for driver in [Driver::Gzip, Driver::Bzip2, Driver::Xz] {
        let mut stream = Stream::open(driver).unwrap();
        stream = stream.write_all(&contents[..5000]).unwrap();
        stream = stream.write_all(&contents[5000..]).unwrap();
        assert_eq!(stream.extension(), driver.extension());
        let bytes = stream.finish().unwrap();
        assert!(bytes != contents);
        assert_eq!(decode_stream(driver, &bytes).unwrap(), contents);
    }
    assert!(Stream::open(Driver::Zip).is_none());
    assert!(Stream::open(Driver::SevenZ).is_none());
}

#[test]
fn gzip_output_has_the_gzip_magic() {
    let stream = Stream::open(Driver::Gzip).unwrap();
    let bytes = stream.write_all(b"hello").unwrap().finish().unwrap();
    assert_eq!(&bytes[..2], &[0x1f, 0x8b]);
    let stream = Stream::open(Driver::Bzip2).unwrap();
    let bytes = stream.write_all(b"hello").unwrap().finish().unwrap();
    assert_eq!(&bytes[..3], b"BZh");
    let stream = Stream::open(Driver::Xz).unwrap();
    let bytes = stream.write_all(b"hello").unwrap().finish().unwrap();
    assert_eq!(&bytes[..6], &[0xfd, b'7', b'z', b'X', b'Z', 0x00]);
}

#[test]
fn a_corrupt_stream_is_a_codec_failure() {
    for driver in [Driver::Gzip, Driver::Bzip2, Driver::Xz] {
        let result = decode_stream(driver, b"this is no archive at all");
        assert!(matches!(result, Err(Error::CodecFailure { .. })));
        let name = format!("in/broken.{}", driver.extension());
        let decoder = Decoder::new(name.as_str(), None, "out").unwrap();
        let mut log = Vec::new();
        let result = decoder.extract(b"this is no archive at all".to_vec(), &mut log, &quiet);
        assert!(matches!(result, Err(Error::CodecFailure { .. })));
        assert_eq!(log.len(), 1);
    }
    assert!(Reader::open(Driver::Zip, b"PK".to_vec()).is_none());
    assert!(Reader::open(Driver::SevenZ, b"7z".to_vec()).is_none());
}

#[test]
fn digest_is_the_sha256_in_hex() {
    assert_eq!(
        digest_bytes(b"abc"),
        "ba7816bf8f01cfea414140de5dae2223b00361a396177a9cb410ff61f20015ad"
    );
    assert_eq!(
        digest_bytes(b""),
        "e3b0c44298fc1c149afbf4c8996fb92427ae41e4649b934ca495991b7852b855"
    );
    assert_eq!(digest_bytes(b"abc"), digest_bytes(b"abc"));
    assert!(digest_bytes(b"abc") != digest_bytes(b"abd"));
    let status = digesting_status();
    assert_eq!(status.detail, Some("Digesting...".to_string()));
    assert_eq!(status.total, Some(200));
    assert_eq!(status.increment, None);
    assert_eq!(status.brief, None);
}

#[test]
fn a_wrong_digest_stops_the_extraction() {
    let stream = Stream::open(Driver::Gzip).unwrap();
    let bytes = stream.write_all(b"payload").unwrap().finish().unwrap();
    let actual = digest_bytes(&bytes);
    let mut wrong = actual.clone();
    let last = wrong.pop().unwrap();
    wrong.push(if last == '0' { '1' } else { '0' });

    for name in ["a.tar.gz", "a.zip", "a.tar.7z"] {
        let decoder = Decoder::new(name, Some(wrong.clone()), "out").unwrap();
        let mut log = Vec::new();
        match decoder.extract(bytes.clone(), &mut log, &quiet) {
            Err(Error::DigestMismatch { expected, actual: found }) => {
                assert_eq!(expected, wrong);
                assert_eq!(found, actual);
            }
            _ => panic!("a wrong digest was accepted"),
        }
        assert_eq!(log.len(), 1);
        assert_eq!(log[0].detail, Some("Digesting...".to_string()));
    }

    let decoder = Decoder::new("a.tar.gz", Some(actual), "out").unwrap();
    let mut log = Vec::new();
    match decoder.extract(bytes.clone(), &mut log, &quiet).unwrap().step {
        ExtractStep::Tar { tar_bytes } => assert_eq!(tar_bytes, b"payload"),
        _ => panic!("a gzip archive was not decompressed"),
    }
    assert_eq!(log.len(), 3);
    assert_eq!(log[0].detail, Some("Digesting...".to_string()));
    assert_eq!(log[1].brief, Some("Extracting tar.gz".to_string()));
    assert_eq!(log[1].detail, Some("creating tar as binary blob".to_string()));
    assert_eq!(log[1].total, Some(200));
    assert_eq!(log[2].increment, Some(1));
    assert_eq!(log[2].total, None);
}

#[test]
fn an_unknown_suffix_is_refused() {
    match Encoder::new("out", "archive.rar") {
        Err(Error::UnsupportedFormat { filename }) => assert_eq!(filename, "archive.rar"),
        _ => panic!("an unknown suffix was accepted"),
    }
    match Decoder::new("in/archive.tar", None, "out") {
        Err(Error::UnsupportedFormat { filename }) => assert_eq!(filename, "in/archive.tar"),
        _ => panic!("an unknown suffix was accepted"),
    }
}

#[test]
fn decoder_keeps_what_it_was_given() {
    let decoder = Decoder::new("in/a.tar.xz", None, "out/dir").unwrap();
    assert_eq!(decoder.driver(), Driver::Xz);
    assert_eq!(decoder.input_file_name(), "in/a.tar.xz");
    assert_eq!(decoder.output_directory(), "out/dir");
}

#[test]
fn zip_is_written_to_its_file_at_once() {
    let encoder = Encoder::new("out", "a.zip").unwrap();
    match encoder.container() {
        Container::Zip { path } => assert_eq!(path, "out/a.zip"),
        Container::Tar => panic!("a zip archive was given a tar stream"),
    }
    assert_eq!(encoder.get_encoder_output_file_path(), "out/a.zip");
    assert_eq!(Encoder::get_output_file_path("x/y", "z.tar.gz"), "x/y/z.tar.gz");
    for name in ["a.tar.gz", "a.tgz", "a.tar.bz2", "a.tar.7z", "a.tar.xz"] {
        let encoder = Encoder::new("out", name).unwrap();
        assert!(matches!(encoder.container(), Container::Tar));
    }
}

#[test]
fn links_stay_links_in_a_tar_stream() {
    let encoder = Encoder::new("out", "a.tar.gz").unwrap();
    let added = encoder.add_file("bin/tool", "/src/bin/tool", true);
    assert_eq!(added.report.detail, Some("bin/tool".to_string()));
    assert_eq!(added.report.increment, Some(1));
    assert_eq!(added.report.total, None);
    assert_eq!(added.report.brief, None);
    match added.step {
        AddStep::TarSymlink { archive_path, file_path } => {
            assert_eq!(archive_path, "bin/tool");
            assert_eq!(file_path, "/src/bin/tool");
        }
        _ => panic!("a link was not kept as a link"),
    }
    match encoder.add_file("bin/tool", "/src/bin/tool", false).step {
        AddStep::TarFile { archive_path, file_path } => {
            assert_eq!(archive_path, "bin/tool");
            assert_eq!(file_path, "/src/bin/tool");
        }
        _ => panic!("a file was not added with its content"),
    }
    let encoder = Encoder::new("out", "a.zip").unwrap();
    for is_symlink in [true, false] {
        match encoder.add_file("bin/tool", "/src/bin/tool", is_symlink).step {
            AddStep::ZipFile { archive_path, file_path, deflated, unix_permissions } => {
                assert!(deflated);
                assert_eq!(archive_path, "bin/tool");
                assert_eq!(file_path, "/src/bin/tool");
                assert_eq!(unix_permissions, 0o755);
                assert_eq!(unix_permissions, ZIP_UNIX_PERMISSIONS);
            }
            _ => panic!("a zip entry was sent to a tar stream"),
        }
    }
}

#[test]
fn entries_are_reported_one_by_one() {
    let entries = vec![
        Entry { archive_path: "a".to_string(), file_path: "/x/a".to_string() },
        Entry { archive_path: "b".to_string(), file_path: "/x/b".to_string() },
        Entry { archive_path: "c".to_string(), file_path: "/x/c".to_string() },
    ];
    let encoder = Encoder::new("out", "a.tar.bz2").unwrap();
    let plan = encoder.add_entries(&entries, &[false, true]);
    assert_eq!(plan.opening.detail, Some("Archiving... (tar.bz2)".to_string()));
    assert_eq!(plan.opening.total, None);
    assert_eq!(plan.closing.detail, Some("...".to_string()));
    assert_eq!(plan.adds.len(), 3);
    let mut sum = 0;
    for (add, entry) in plan.adds.iter().zip(entries.iter()) {
        assert_eq!(add.report.detail, Some(entry.archive_path.clone()));
        assert_eq!(add.report.increment, Some(1));
        assert_eq!(add.report.total, Some(3));
        assert_eq!(add.report.brief, None);
        sum += add.report.increment.unwrap();
    }
    assert_eq!(sum, 3);
    assert!(matches!(plan.adds[0].step, AddStep::TarFile { .. }));
    assert!(matches!(plan.adds[1].step, AddStep::TarSymlink { .. }));
    assert!(matches!(plan.adds[2].step, AddStep::TarFile { .. }));
    let empty = encoder.add_entries(&[], &[]);
    assert_eq!(empty.adds.len(), 0);
}

#[test]
fn zip_entries_go_under_the_output_directory() {
    let decoder = Decoder::new("a.zip", None, "out").unwrap();
    let extraction = decoder.extract(Vec::new(), &mut Vec::new(), &quiet).unwrap();
    let entries = vec![
        ZipEntry { name: "docs/".to_string(), is_file: false },
        ZipEntry { name: "docs/readme.md".to_string(), is_file: true },
        ZipEntry { name: "top.txt".to_string(), is_file: true },
    ];
    let plan = extraction.zip_plan(&entries);
    assert_eq!(plan.opening.brief, Some("Extracting (zip)".to_string()));
    assert_eq!(plan.opening.total, Some(3));
    assert_eq!(plan.opening.increment, None);
    assert_eq!(plan.steps.len(), 3);
    assert!(plan.steps[0].write.is_none());
    let write = plan.steps[1].write.as_ref().unwrap();
    assert_eq!(write.destination, "out/docs/readme.md");
    assert_eq!(write.parent, "out/docs");
    let write = plan.steps[2].write.as_ref().unwrap();
    assert_eq!(write.destination, "out/top.txt");
    assert_eq!(write.parent, "out");
    let mut sum = 0;
    for (step, entry) in plan.steps.iter().zip(entries.iter()) {
        assert_eq!(step.report.detail, Some(entry.name.clone()));
        assert_eq!(step.report.total, Some(3));
        sum += step.report.increment.unwrap();
    }
    assert_eq!(sum, 3);
}

#[test]
fn extracted_files_are_those_under_the_output_directory() {
    let walked = vec![
        WalkedEntry { path: "out".to_string(), is_dir: true },
        WalkedEntry { path: "out/a".to_string(), is_dir: true },
        WalkedEntry { path: "out/a/x.txt".to_string(), is_dir: false },
        WalkedEntry { path: "out/y.txt".to_string(), is_dir: false },
        WalkedEntry { path: "out/a/x.txt".to_string(), is_dir: false },
        WalkedEntry { path: "outside/z.txt".to_string(), is_dir: false },
        WalkedEntry { path: "out".to_string(), is_dir: false },
    ];
    let extraction = Extraction { step: ExtractStep::Zip, output_directory: "out".to_string() };
    let extracted = extraction.extracted(&walked);
    assert_eq!(extracted.files, vec!["a/x.txt".to_string(), "y.txt".to_string()]);
    assert!(contains_text(&extracted.files, "y.txt"));
    assert!(!contains_text(&extracted.files, "z.txt"));
    let extraction = Extraction { step: ExtractStep::Zip, output_directory: "out".to_string() };
    assert!(extraction.extracted(&Vec::new()).files.is_empty());
}

#[test]
fn extracted_files_of_a_directory_written_with_a_slash() {
    let walked = vec![
        WalkedEntry { path: "x/".to_string(), is_dir: true },
        WalkedEntry { path: "x/a".to_string(), is_dir: false },
        WalkedEntry { path: "x/d".to_string(), is_dir: true },
        WalkedEntry { path: "x/d/b".to_string(), is_dir: false },
    ];
    let extraction = Extraction { step: ExtractStep::Zip, output_directory: "x/".to_string() };
    assert_eq!(extraction.extracted(&walked).files, vec!["a".to_string(), "d/b".to_string()]);
}

#[test]
fn a_link_goes_into_the_tar_stream_as_a_link() {
    let mut encoder = Encoder::new("out", "links.tar.gz").unwrap();
    encoder.append_file("bin/tool-1.2", b"#!/bin/sh\n", META).unwrap();
    encoder.append_symlink("bin/tool", "tool-1.2").unwrap();
    let long_target = format!("{}/target", "d".repeat(150));
    encoder.append_symlink("far", long_target.as_str()).unwrap();
    let mut log = Vec::new();
    let bytes = match encoder.compress(&mut log, &quiet).unwrap().finish {
        Finish::WriteFile { bytes } => bytes,
        _ => panic!("a gzip archive was not compressed"),
    };
    let decoder = Decoder::new("links.tar.gz", None, "out").unwrap();
    let tar_bytes = match decoder.extract(bytes.clone(), &mut Vec::new(), &quiet).unwrap().step {
        ExtractStep::Tar { tar_bytes } => tar_bytes,
        _ => panic!("a gzip archive was not decompressed"),
    };
    let mut archive = tar::Archive::new(tar_bytes.as_slice());
    let mut seen = Vec::new();
    for entry in archive.entries().unwrap() {
        let mut entry = entry.unwrap();
        let path = entry.path().unwrap().to_string_lossy().to_string();
        let kind = entry.header().entry_type();
        let target = entry.link_name().unwrap().map(|t| t.to_string_lossy().to_string());
        let mut contents = Vec::new();
        entry.read_to_end(&mut contents).unwrap();
        seen.push((path, kind, target, contents));
    }
    assert_eq!(
        seen,
        vec![
            ("bin/tool-1.2".to_string(), tar::EntryType::Regular, None, b"#!/bin/sh\n".to_vec()),
            ("bin/tool".to_string(), tar::EntryType::Symlink, Some("tool-1.2".to_string()), vec![]),
            ("far".to_string(), tar::EntryType::Symlink, Some(long_target), vec![]),
        ]
    );
}

#[test]
fn a_zip_encoder_has_no_tar_stream() {
    let mut encoder = Encoder::new("out", "a.zip").unwrap();
    match encoder.append_symlink("a", "b") {
        Err(Error::UnsupportedFormat { filename }) => assert_eq!(filename, "a.zip"),
        _ => panic!("a zip encoder took a tar entry"),
    }
    match encoder.append_file("a", b"x", META) {
        Err(Error::UnsupportedFormat { filename }) => assert_eq!(filename, "a.zip"),
        _ => panic!("a zip encoder took a tar entry"),
    }
    let mut log = Vec::new();
    assert!(matches!(encoder.compress(&mut log, &quiet).unwrap().finish, Finish::CloseZip));
}

#[test]
fn an_empty_archive_is_an_empty_tar_stream() {
    let encoder = Encoder::new("out", "empty.tar.7z").unwrap();
    let mut log = Vec::new();
    match encoder.compress(&mut log, &quiet).unwrap().finish {
        Finish::SevenZ { tar_bytes, .. } => {
            assert_eq!(tar_bytes.len(), 1024);
            assert!(tar_bytes.iter().all(|b| *b == 0));
        }
        _ => panic!("a 7z archive was not left to its codec"),
    }
    let encoder = Encoder::new("out", "empty.tar.xz").unwrap();
    let mut log = Vec::new();
    assert!(matches!(encoder.compress(&mut log, &quiet).unwrap().finish, Finish::WriteFile { .. }));
    assert_eq!(log.len(), 2);
    assert_eq!(log[1].total, Some(1));
}

fn encoded(name: &str, content: &[u8]) -> (Vec<u8>, String) {
    let mut encoder = Encoder::new("out", name).unwrap();
    encoder.append_file("data/file.bin", content, META).unwrap();
    encoder.append_symlink("data/latest", "file.bin").unwrap();
    let compressed = encoder.compress(&mut Vec::new(), &quiet).unwrap();
    let bytes = match compressed.finish {
        Finish::WriteFile { bytes } => bytes,
        _ => panic!("the archive was not compressed"),
    };
    let digest = compressed.digestable.digest(&bytes).sha256;
    (bytes, digest)
}

#[test]
fn encoding_twice_gives_the_same_digest() {
    for name in ["a.tar.gz", "a.tar.bz2", "a.tar.xz"] {
        let (first_bytes, first) = encoded(name, b"the same content");
        let (second_bytes, second) = encoded(name, b"the same content");
        assert_eq!(first_bytes, second_bytes);
        assert_eq!(first, second);
        assert_eq!(first.len(), 64);
        let (other_bytes, other) = encoded(name, b"another content");
        assert!(other_bytes != first_bytes);
        assert!(other != first);
    }
}

#[test]
fn reading_reports_a_step_for_each_piece() {
    let contents: Vec<u8> = (0..100_000usize).map(|i| (i % 253) as u8).collect();
    for driver in [Driver::Gzip, Driver::Bzip2, Driver::Xz] {
        let stream = Stream::open(driver).unwrap();
        let bytes = stream.write_all(&contents).unwrap().finish().unwrap();
        let reader = Reader::open(driver, bytes).unwrap();
        assert_eq!(reader.extension(), driver.extension());
        let mut log = Vec::new();
        let unpacked = Decoder::extract_to_tar_bytes(reader, &mut log, &quiet).unwrap();
        assert_eq!(unpacked, contents);
        assert_eq!(log[0].brief, Some(format!("Extracting {}", driver.extension())));
        assert_eq!(log[0].total, Some(200));
        assert_eq!(log[0].increment, None);
        let steps = log.len() - 1;
        assert_eq!(READ_SIZE, 8192);
        assert!(steps >= 100_000 / READ_SIZE);
        assert!(steps <= 100_000);
        for report in &log[1..] {
            assert_eq!(report.increment, Some(1));
            assert_eq!(report.total, None);
            assert_eq!(report.brief, None);
            assert_eq!(report.detail, None);
        }
    }
}

#[test]
fn a_cut_stream_is_a_codec_failure() {
    let contents: Vec<u8> = (0..50_000usize).map(|i| (i * 31 % 256) as u8).collect();
    for driver in [Driver::Gzip, Driver::Bzip2, Driver::Xz] {
        let stream = Stream::open(driver).unwrap();
        let mut bytes = stream.write_all(&contents).unwrap().finish().unwrap();
        bytes.truncate(bytes.len() / 2);
        assert!(matches!(decode_stream(driver, &bytes), Err(Error::CodecFailure { .. })));
    }
}

#[test]
fn a_codec_failure_carries_the_codec_s_words() {
    for driver in [Driver::Gzip, Driver::Bzip2, Driver::Xz] {
        match decode_stream(driver, b"this is no archive at all") {
            Err(Error::CodecFailure { detail }) => assert!(!detail.is_empty()),
            _ => panic!("a corrupt stream was accepted"),
        }
    }
}

#[test]
fn the_observer_sees_each_report_as_it_is_logged() {
    let contents: Vec<u8> = (0..20_000usize).map(|i| (i % 251) as u8).collect();
    let seen: RefCell<Vec<UpdateStatus>> = RefCell::new(Vec::new());
    let mut log = Vec::new();
    let stream = Stream::open(Driver::Gzip).unwrap();
    let stream = encode_in_chunks(stream, &contents, &mut log, &|report| {
        seen.borrow_mut().push(report)
    })
    .unwrap();
    let bytes = stream.finish().unwrap();
    let decoder = Decoder::new("a.tar.gz", None, "out").unwrap();
    decoder.extract(bytes, &mut log, &|report| seen.borrow_mut().push(report)).unwrap();
    let seen = seen.into_inner();
    assert_eq!(seen.len(), log.len());
    assert_eq!(log.len(), 1 + 5000 + 1 + 3);
    for (shown, logged) in seen.iter().zip(log.iter()) {
        assert_eq!(shown.brief, logged.brief);
        assert_eq!(shown.detail, logged.detail);
        assert_eq!(shown.increment, logged.increment);
        assert_eq!(shown.total, logged.total);
    }
}

#[test]
fn a_path_that_leaves_the_archive_is_refused() {
    let mut encoder = Encoder::new("out", "a.tar.gz").unwrap();
    assert!(matches!(
        encoder.append_file("../escape", b"x", META),
        Err(Error::CodecFailure { .. })
    ));
    assert!(matches!(
        encoder.append_file("/absolute", b"x", META),
        Err(Error::CodecFailure { .. })
    ));
    assert!(matches!(
        encoder.append_symlink("../escape", "target"),
        Err(Error::CodecFailure { .. })
    ));
    assert!(encoder.append_file("kept/file", b"x", META).is_ok());
    assert!(encoder.append_symlink("kept/link", "../outside").is_ok());
    let long = format!("{}/file", "d".repeat(300));
    assert!(encoder.append_file(long.as_str(), b"x", META).is_ok());
}

#[test]
fn a_run_of_entries_stops_at_the_first_failure() {
    let entries = generate_entries(3);
    let encoder = Encoder::new("out", "a.tar.xz").unwrap();
    let plan = encoder.add_entries(&entries, &[]);
    assert_eq!(plan.first(), Some(0));
    assert!(matches!(plan.next(0, Ok(())), Ok(Some(1))));
    assert!(matches!(plan.next(1, Ok(())), Ok(Some(2))));
    assert!(matches!(plan.next(2, Ok(())), Ok(None)));
    let failure = Error::IoFailure { operation: "open".to_string(), path: "x".to_string() };
    match plan.next(1, Err(failure)) {
        Err(stopped) => {
            assert_eq!(stopped.archive_path, "file_1.txt");
            assert!(matches!(stopped.error, Error::IoFailure { .. }));
            assert_eq!(stopped.error.message(), "open failed: x");
        }
        Ok(_) => panic!("the run went on after a failure"),
    }
    assert_eq!(plan.adds[2].step.archive_path(), "file_2.txt");
    assert_eq!(encoder.add_entries(&[], &[]).first(), None);
}

#[test]
fn file_meta_takes_what_the_file_system_says() {
    let meta = FileMeta::from_stat(0o100644, 1_700_000_000, 1000, 100);
    assert_eq!(meta, FileMeta { mode: 0o100644, mtime: 1_700_000_000, uid: 1000, gid: 100 });
    assert_eq!(FileMeta::from_stat(0o644, -5, 0, 0).mtime, 0);
    assert_eq!(FileMeta::from_stat(0o644, 0, 0, 0).mtime, 0);
}

#[test]
fn a_digest_is_written_in_lower_case_hexadecimal() {
    for data in [&b""[..], &b"abc"[..], &[0u8, 255, 17][..]] {
        let digest = digest_bytes(data);
        assert_eq!(digest.len(), 64);
        assert!(digest.chars().all(|c| c.is_ascii_digit() || ('a'..='f').contains(&c)));
    }
}
