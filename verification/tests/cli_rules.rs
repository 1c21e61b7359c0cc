use condor::cli::find::{files_dirs, files_type, FilesDirs, FilesType};
use condor::cli::v2::{list_order, ListOrder};
use condor::cli::vcs::{diff_mode, DiffMode};

#[test]
fn dirs_option() {
    assert_eq!(files_dirs(Some(true)), Some(FilesDirs::True));
    assert_eq!(files_dirs(Some(false)), Some(FilesDirs::False));
    assert_eq!(files_dirs(None), None);
}

#[test]
fn type_option_defaults_to_file() {
    assert_eq!(files_type(&Some("file".to_string())), Some(FilesType::File));
    assert_eq!(files_type(&Some("directory".to_string())), Some(FilesType::Directory));
    assert_eq!(files_type(&Some("socket".to_string())), Some(FilesType::File));
    assert_eq!(files_type(&None), None);
}

#[test]
fn order_option_defaults_to_ascending() {
    assert_eq!(list_order(&Some("asc".to_string())), Some(ListOrder::Asc));
    assert_eq!(list_order(&Some("desc".to_string())), Some(ListOrder::Desc));
    assert_eq!(list_order(&Some("DESC".to_string())), Some(ListOrder::Asc));
    assert_eq!(list_order(&None), None);
}

#[test]
fn diff_mode_option() {
    assert_eq!(diff_mode("git"), Ok(DiffMode::Git));
    assert_eq!(diff_mode("branch"), Ok(DiffMode::Branch));
    assert_eq!(diff_mode("svn"), Err("Unknown diff mode: svn".to_string()));
    assert_eq!(diff_mode(""), Err("Unknown diff mode: ".to_string()));
}
