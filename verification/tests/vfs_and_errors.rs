use maarch64::decoder::Decoder;
use maarch64::text::{dec_text, hex_text};
use maarch64::vfs::Vfs;
use maarch64::Error;

#[test]
fn passwd_paths() {
    assert!(Vfs::is_passwd_path("/etc/passwd"));
    assert!(Vfs::is_passwd_path("//etc/passwd"));
    assert!(Vfs::is_passwd_path("/etc//passwd"));
    assert!(Vfs::is_passwd_path("/etc/./passwd"));
    assert!(Vfs::is_passwd_path("/tmp/../etc/passwd"));
    assert!(Vfs::is_passwd_path("/../etc/passwd"));
    assert!(!Vfs::is_passwd_path("/xetc/passwd"));
    assert!(!Vfs::is_passwd_path("/home/u/etc/passwd"));
    assert!(!Vfs::is_passwd_path("etc/passwd"));
    assert!(!Vfs::is_passwd_path("/etc/passwd/"));
    assert!(!Vfs::is_passwd_path("/etc/passwd/."));
    assert!(!Vfs::is_passwd_path("/etc/../passwd"));
    assert!(!Vfs::is_passwd_path("/etc/passwd2"));
    assert!(!Vfs::is_passwd_path("/etc/shadow"));
    assert!(!Vfs::is_passwd_path("passwd"));
    assert!(!Vfs::is_passwd_path(""));
}

#[test]
fn passwd_content_for_user() {
    assert_eq!(
        Vfs::passwd_content("alice", 1000, 100),
        "root:x:0:0:root:/root:/bin/sh\nalice:x:1000:100:alice:/home/alice:/bin/sh\n"
    );
}

#[test]
fn number_rendering() {
    assert_eq!(hex_text(0), "0x0");
    assert_eq!(hex_text(0x40_00ab), "0x4000ab");
    assert_eq!(hex_text(u64::MAX), "0xffffffffffffffff");
    assert_eq!(dec_text(0), "0");
    assert_eq!(dec_text(1234567890), "1234567890");
    assert_eq!(dec_text(u64::MAX), "18446744073709551615");
}

#[test]
fn error_messages() {
    assert_eq!(Error::LoadError("x".to_string()).message(), "Failed to load binary: x");
    assert_eq!(Error::MemoryError("y".to_string()).message(), "Memory error: y");
    assert_eq!(Error::UnhandledSyscall(400).message(), "Unhandled syscall number: 400");
    assert_eq!(
        Error::InterpreterError { pc: 0x1000, reason: "r".to_string() }.message(),
        "Interpreter error at PC 0x1000: r"
    );
    assert_eq!(
        Decoder::decode_error(0x40, "bad".to_string()).message(),
        "Instruction decode error at PC 0x40: bad"
    );
}
