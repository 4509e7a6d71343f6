use git_poly::error::Error;
use git_poly::result::get;
use git_poly::status::{convert_to_status, Staging, StatusEntry, Tracking};

#[test]
fn staged_modified_code() {
    assert_eq!(convert_to_status("M "), Ok((Tracking::Staged, Staging::Modified)));
}

#[test]
fn untracked_code() {
    assert_eq!(convert_to_status("??"), Ok((Tracking::Untracked, Staging::Untracked)));
}

#[test]
fn unknown_code_is_a_parse_failure() {
    assert_eq!(convert_to_status("XY"), Err(Error::UnableToParseStatus));
}

#[test]
fn every_code_of_the_table() {
    assert_eq!(convert_to_status(" M"), Ok((Tracking::Unstaged, Staging::Modified)));
    assert_eq!(convert_to_status(" A"), Ok((Tracking::Unstaged, Staging::Added)));
    assert_eq!(convert_to_status(" D"), Ok((Tracking::Unstaged, Staging::Deleted)));
    assert_eq!(convert_to_status("A "), Ok((Tracking::Staged, Staging::Added)));
    assert_eq!(convert_to_status("D "), Ok((Tracking::Staged, Staging::Deleted)));
    assert_eq!(convert_to_status("UU"), Ok((Tracking::Unmerged, Staging::BothModified)));
}

#[test]
fn codes_of_another_length_fail() {
    assert_eq!(convert_to_status(""), Err(Error::UnableToParseStatus));
    assert_eq!(convert_to_status("M"), Err(Error::UnableToParseStatus));
    assert_eq!(convert_to_status("M  "), Err(Error::UnableToParseStatus));
    assert_eq!(convert_to_status("MM"), Err(Error::UnableToParseStatus));
    assert_eq!(convert_to_status("é "), Err(Error::UnableToParseStatus));
}

#[test]
fn tracking_is_ordered_by_display_priority() {
    assert!(Tracking::Staged < Tracking::Unmerged);
    assert!(Tracking::Unmerged < Tracking::Unstaged);
    assert!(Tracking::Unstaged < Tracking::Untracked);
    assert_eq!(Tracking::Staged.position(), 0);
    assert_eq!(Tracking::Untracked.position(), 3);
}

#[test]
fn staging_is_ordered_as_declared() {
    assert!(Staging::Added < Staging::Deleted);
    assert!(Staging::Deleted < Staging::Modified);
    assert!(Staging::Modified < Staging::BothModified);
    assert!(Staging::BothModified < Staging::Untracked);
    assert_eq!(Staging::Added.position(), 0);
    assert_eq!(Staging::Untracked.position(), 4);
}

#[test]
fn get_hands_a_present_value_through() {
    assert_eq!(get(Some(7)), Ok(7));
    assert_eq!(get::<u8>(None), Err(Error::Absent));
}

#[test]
fn entry_clone_holds_the_same_values() {
    let entry = StatusEntry::new(
        "main".to_string(),
        (Tracking::Staged, Staging::Added),
        "./a/x.txt".to_string(),
    );
    let copy = entry.clone();
    assert_eq!(copy, entry);
    assert_eq!(copy.branch, "main");
    assert_eq!(copy.path, "./a/x.txt");
}
