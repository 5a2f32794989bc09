use swiss_army_archive::driver::{seven_z_tar_filename, Driver};
use swiss_army_archive::error::Error;
use swiss_army_archive::status::{update_status, BarCommand, UpdateStatus};
use swiss_army_archive::task::{join, poll, Poll, TaskEnd, POLL_INTERVAL_MILLISECONDS};
use swiss_army_archive::text::{ends_with, join2, join3, same_text, starts_with, tail_from};

const DRIVERS: [Driver; 5] = [Driver::Gzip, Driver::Bzip2, Driver::Zip, Driver::SevenZ, Driver::Xz];

#[test]
fn format_is_detected_from_the_file_name() {
    assert_eq!(Driver::from_filename("release-1.0.tar.gz"), Some(Driver::Gzip));
    assert_eq!(Driver::from_filename("release.tar.7z"), Some(Driver::SevenZ));
    assert_eq!(Driver::from_filename("x.unknownext"), None);
    assert_eq!(Driver::from_filename("release.tgz"), Some(Driver::Gzip));
    assert_eq!(Driver::from_filename("release.tar.bz"), Some(Driver::Bzip2));
    assert_eq!(Driver::from_filename("release.tar.bz2"), Some(Driver::Bzip2));
    assert_eq!(Driver::from_filename("release.zip"), Some(Driver::Zip));
    assert_eq!(Driver::from_filename("release.tar.xz"), Some(Driver::Xz));
    assert_eq!(Driver::from_filename(".zip"), Some(Driver::Zip));
    assert_eq!(Driver::from_filename("zip"), None);
    assert_eq!(Driver::from_filename(""), None);
    assert_eq!(Driver::from_filename("release.tar"), None);
    assert_eq!(Driver::from_filename("release.tar.gz.sig"), None);
}

#[test]
fn extensions_are_the_canonical_ones() {
    assert_eq!(Driver::Gzip.extension(), "tar.gz");
    assert_eq!(Driver::Bzip2.extension(), "tar.bz2");
    assert_eq!(Driver::Zip.extension(), "zip");
    assert_eq!(Driver::SevenZ.extension(), "tar.7z");
    assert_eq!(Driver::Xz.extension(), "tar.xz");
}

#[test]
fn extension_names_its_format() {
    for driver in DRIVERS {
        assert_eq!(Driver::from_extension(driver.extension().as_str()), Some(driver));
        let name = format!("anything.{}", driver.extension());
        assert_eq!(Driver::from_filename(name.as_str()), Some(driver));
    }
    assert_eq!(Driver::from_extension("tgz"), Some(Driver::Gzip));
    assert_eq!(Driver::from_extension("tar.bz"), Some(Driver::Bzip2));
    assert_eq!(Driver::from_extension("tar.tgz"), None);
    for extension in ["tar.gz", "tgz", "tar.bz", "tar.bz2", "zip", "tar.7z", "tar.xz"] {
        let name = format!("release-1.0.{extension}");
        assert!(Driver::from_extension(extension).is_some());
        assert_eq!(Driver::from_filename(name.as_str()), Driver::from_extension(extension));
    }
    assert_eq!(Driver::from_extension(".zip"), None);
    assert_eq!(Driver::from_extension(""), None);
}

#[test]
fn only_zip_goes_without_tar() {
    for driver in DRIVERS {
        assert_eq!(driver.uses_tar(), driver != Driver::Zip);
    }
    assert_eq!(seven_z_tar_filename(), "swiss_army_archive_seven7_temp.tar");
}

#[test]
fn text_helpers() {
    assert!(ends_with("a.tar.gz", ".tar.gz"));
    assert!(ends_with("a", ""));
    assert!(!ends_with("gz", ".tar.gz"));
    assert!(!ends_with("a.tar.gx", ".tar.gz"));
    assert!(starts_with("out/a", "out/"));
    assert!(!starts_with("ou", "out/"));
    assert!(same_text("héllo", "héllo"));
    assert!(!same_text("hello", "hellp"));
    assert!(!same_text("hello", "hell"));
    assert_eq!(tail_from("héllo/x", 6), "x");
    assert_eq!(tail_from("abc", 0), "abc");
    assert_eq!(tail_from("abc", 3), "");
    assert_eq!(join2("ab", "cd"), "abcd");
    assert_eq!(join3("(", "x", ")"), "(x)");
}

#[test]
fn a_report_with_a_total_sets_the_scale_and_advances() {
    let commands = update_status(UpdateStatus {
        brief: Some("Packing".to_string()),
        detail: Some("a.txt".to_string()),
        increment: Some(3),
        total: Some(10),
    });
    assert_eq!(
        commands,
        vec![
            BarCommand::SetPrefix("Packing".to_string()),
            BarCommand::SetMessage("a.txt".to_string()),
            BarCommand::SetTotal(10),
            BarCommand::IncrementWithOverflow(3),
        ]
    );
    let commands =
        update_status(UpdateStatus { brief: None, detail: None, increment: None, total: Some(20) });
    assert_eq!(commands, vec![BarCommand::SetTotal(20)]);
    let commands = update_status(UpdateStatus {
        brief: None,
        detail: Some("b.txt".to_string()),
        increment: Some(1),
        total: Some(20),
    });
    assert_eq!(
        commands,
        vec![
            BarCommand::SetMessage("b.txt".to_string()),
            BarCommand::SetTotal(20),
            BarCommand::IncrementWithOverflow(1),
        ]
    );
}

#[test]
fn a_report_without_a_total_is_one_step_of_a_hundred() {
    let one_step = vec![BarCommand::SetTotal(100), BarCommand::IncrementWithOverflow(1)];
    assert_eq!(update_status(UpdateStatus::step()), one_step);
    assert_eq!(update_status(UpdateStatus::default()), one_step);
    let commands = update_status(UpdateStatus {
        brief: Some("p".to_string()),
        detail: None,
        increment: Some(40),
        total: None,
    });
    assert_eq!(
        commands,
        vec![
            BarCommand::SetPrefix("p".to_string()),
            BarCommand::SetTotal(100),
            BarCommand::IncrementWithOverflow(1),
        ]
    );
    let named = UpdateStatus::with_detail("x".to_string());
    assert_eq!(named.detail, Some("x".to_string()));
    assert_eq!((named.brief, named.increment, named.total), (None, None, None));
}

#[test]
fn waiting_ticks_until_the_task_has_ended() {
    match poll(false) {
        Poll::Wait { report, sleep_milliseconds } => {
            assert_eq!(sleep_milliseconds, POLL_INTERVAL_MILLISECONDS);
            assert_eq!(sleep_milliseconds, 50);
            assert_eq!(report.increment, Some(1));
            assert_eq!(report.total, None);
            assert_eq!(report.brief, None);
            assert_eq!(report.detail, None);
        }
        Poll::Join => panic!("a running task was joined"),
    }
    assert!(matches!(poll(true), Poll::Join));
}

#[test]
fn a_task_that_aborted_is_told_from_one_that_failed() {
    let fine: Result<u32, Error> = join(TaskEnd::Returned(Ok(7)));
    assert!(matches!(fine, Ok(7)));
    let failed: Result<u32, Error> =
        join(TaskEnd::Returned(Err(Error::CodecFailure { detail: "bad".to_string() })));
    assert!(matches!(failed, Err(Error::CodecFailure { .. })));
    let aborted: Result<u32, Error> = join(TaskEnd::Aborted { detail: "panicked".to_string() });
    match aborted {
        Err(Error::TaskFailure { detail }) => assert_eq!(detail, "panicked"),
        _ => panic!("an aborted task was not reported as such"),
    }
}

#[test]
fn error_messages() {
    let e = Error::UnsupportedFormat { filename: "x.rar".to_string() };
    assert_eq!(e.message(), "could not determine compression type from suffix of x.rar");
    let e = Error::DigestMismatch { expected: "aa".to_string(), actual: "bb".to_string() };
    assert_eq!(e.message(), "digest mismatch: expected: aa actual: bb");
    let e = Error::IoFailure { operation: "open".to_string(), path: "/tmp/x".to_string() };
    assert_eq!(e.message(), "open failed: /tmp/x");
    let e = Error::CodecFailure { detail: "corrupt".to_string() };
    assert_eq!(e.message(), "codec failure: corrupt");
    match Error::codec("cut short".to_string()) {
        Error::CodecFailure { detail } => assert_eq!(detail, "cut short"),
        _ => panic!("a codec failure was given another kind"),
    }
    let e = Error::TaskFailure { detail: "gone".to_string() };
    assert_eq!(e.message(), "failed to join task: gone");
}
