use rproc::sys::kernel::ostype::{take_first_line, OsType};
use rproc::sys::kernel::version::OsVersion;
use rproc::ReadError;

#[test]
fn ostype_test_current() {
    if let Ok(os_type) = OsType::current(Some("Linux\n")) {
        println!("current os_type = {}", os_type.to_string());
    } else {
        assert!(false, "Error during OsType::current()");
    }
}

#[test]
fn version_test_current() {
    if let Ok(os_version) = OsVersion::current(Some("#91-Ubuntu SMP Thu Jul 15 19:09:17 UTC 2021\n")) {
        println!("current os_version = {}", os_version.to_string());
    } else {
        assert!(false, "Error during OsVersion::current()");
    }
}

#[test]
fn os_type_keeps_its_text() {
    assert_eq!(OsType::new(String::from("Linux\n")).to_string(), "Linux\n");
    assert_eq!(OsType::new(String::new()).to_string(), "");
}

#[test]
fn os_version_keeps_its_text() {
    let text = "#52 SMP Fri Oct 15 16:23:14 CEST 2021\n";

    assert_eq!(OsVersion::new(String::from(text)).to_string(), text);
}

#[test]
fn current_takes_the_first_line() {
    assert_eq!(OsType::current(Some("Linux\nmore\n")).ok().unwrap().to_string(), "Linux\n");
    assert_eq!(OsType::current(Some("Linux")).ok().unwrap().to_string(), "Linux");
    assert_eq!(OsType::current(Some("")).ok().unwrap().to_string(), "");
    assert_eq!(
        OsVersion::current(Some("#5 Wed Feb 25 21:49:24 MET 1998\n\n")).ok().unwrap().to_string(),
        "#5 Wed Feb 25 21:49:24 MET 1998\n"
    );
}

#[test]
fn current_without_file_is_unavailable() {
    assert_eq!(OsType::current(None).err(), Some(ReadError::Unavailable));
    assert_eq!(OsVersion::current(None).err(), Some(ReadError::Unavailable));
}

#[test]
fn first_line_of_a_text() {
    assert_eq!(take_first_line("a\nb"), "a\n");
    assert_eq!(take_first_line("\nb"), "\n");
    assert_eq!(take_first_line("ab"), "ab");
    assert_eq!(take_first_line("\u{e9}t\u{e9}\nb"), "\u{e9}t\u{e9}\n");
}
