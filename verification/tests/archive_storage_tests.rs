use dystellar_launcher::archive::{is_native_entry, sha1_matches, tar_top_folder, zip_top_folder, UnpackError};
use dystellar_launcher::platform::{Platform, TargetArch, TargetOs};
use dystellar_launcher::storage::{retrieve_session, store_session, StorageError};
use dystellar_launcher::text::hex_lower;

#[test]
fn sha1_of_abc() {
    assert!(sha1_matches(b"abc", "a9993e364706816aba3e25717850c26c9cd0d89d"));
    assert!(!sha1_matches(b"abc", "A9993E364706816ABA3E25717850C26C9CD0D89D"));
    assert!(!sha1_matches(b"abd", "a9993e364706816aba3e25717850c26c9cd0d89d"));
    assert_eq!(hex_lower(&[0x00, 0x0f, 0xa0, 0xff]), "000fa0ff");
}

#[test]
fn native_entries_by_extension() {
    let l = Platform { os: TargetOs::LinuxMusl, arch: TargetArch::X86_64 };
    let m = Platform { os: TargetOs::MacOs, arch: TargetArch::Aarch64 };
    assert!(is_native_entry("linux/x64/liblwjgl.so", &l));
    assert!(!is_native_entry("liblwjgl.so.sha1", &l));
    assert!(is_native_entry("liblwjgl.dylib", &m));
    assert!(!is_native_entry("lwjgl.dll", &m));
}

#[test]
fn zip_top_folder_is_the_first_single_folder() {
    let names = vec!["readme.txt".to_string(), "jdk/bin/".to_string(), "jdk/".to_string(), "other/".to_string()];
    assert_eq!(zip_top_folder(&names).unwrap(), "jdk/");
    assert_eq!(zip_top_folder(&vec!["a/b/".to_string()]).unwrap_err(), UnpackError::NoTopFolder);
}

#[test]
fn tar_top_folder_is_shared_by_all_entries() {
    let paths = vec!["zulu/".to_string(), "zulu/bin/java".to_string(), "zulu/lib".to_string()];
    assert_eq!(tar_top_folder(&paths).unwrap(), "zulu");
    let two = vec!["a/x".to_string(), "b/y".to_string()];
    assert_eq!(tar_top_folder(&two).unwrap_err(), UnpackError::MultipleTopLevel);
    assert_eq!(tar_top_folder(&vec![]).unwrap_err(), UnpackError::NoTopFolder);
    assert_eq!(tar_top_folder(&vec!["./a".to_string(), "./b".to_string()]).unwrap(), ".");
    assert_eq!(tar_top_folder(&vec!["/abs".to_string()]).unwrap(), "/");
    assert_eq!(UnpackError::MultipleTopLevel.message(), "Archive has multiple top-level entries");
}

#[test]
fn stored_session_reads_back() {
    let s = store_session("secret", "access-ä", "refresh");
    assert_ne!(s.access_token, b"access-\xc3\xa4".to_vec());
    let back = retrieve_session("secret", Some(&s.access_token), Some(&s.refresh_token)).unwrap();
    assert_eq!(back, Some(("access-ä".to_string(), "refresh".to_string())));
}

#[test]
fn stored_session_errors() {
    let s = store_session("secret", "a", "r");
    assert_eq!(retrieve_session("secret", None, Some(&s.refresh_token)).unwrap(), None);
    assert_eq!(retrieve_session("secret", Some(&s.access_token), None).unwrap(), None);
    assert_eq!(retrieve_session("secret", Some(&[1, 2, 3]), Some(&s.refresh_token)).unwrap_err(), StorageError::Decrypt);
    assert!(retrieve_session("other key", Some(&s.access_token), Some(&s.refresh_token)).is_err());
}

#[test]
fn stored_bytes_that_are_no_text_are_refused() {
    let crypt = <magic_crypt::MagicCrypt256 as magic_crypt::MagicCryptTrait>::new("secret", None::<String>);
    let not_text = magic_crypt::MagicCryptTrait::encrypt_bytes_to_bytes(&crypt, &[0xffu8, 0xfe]);
    let s = store_session("secret", "a", "r");
    assert_eq!(retrieve_session("secret", Some(&not_text), Some(&s.refresh_token)).unwrap_err(), StorageError::Utf8);
    assert_eq!(retrieve_session("secret", Some(&s.access_token), Some(&not_text)).unwrap_err(), StorageError::Utf8);
}
