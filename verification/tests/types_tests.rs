use seeds_core::{
    checksum_eq, seeds_file_name, str_ends_with, version_from_timestamp, SeedsError, SeedsType,
};

#[test]
fn seeds_file_name_follows_the_naming_convention() {
    assert_eq!(
        seeds_file_name("20210410120000", "add users", SeedsType::Simple),
        "20210410120000_add_users.sql"
    );
    assert_eq!(
        seeds_file_name("20210410120000", "add users", SeedsType::ReversibleUp),
        "20210410120000_add_users.up.sql"
    );
    assert_eq!(
        seeds_file_name("20210410120000", "add users", SeedsType::ReversibleDown),
        "20210410120000_add_users.down.sql"
    );
    assert_eq!(seeds_file_name("1", "", SeedsType::Simple), "1_.sql");
}

#[test]
fn from_filename_classifies_by_suffix() {
    assert!(matches!(
        SeedsType::from_filename("20210410120000_add_users.up.sql"),
        SeedsType::ReversibleUp
    ));
    assert!(matches!(
        SeedsType::from_filename("20210410120000_add_users.down.sql"),
        SeedsType::ReversibleDown
    ));
    assert!(matches!(
        SeedsType::from_filename("20210410120000_add_users.sql"),
        SeedsType::Simple
    ));
    assert!(matches!(SeedsType::from_filename("README"), SeedsType::Simple));
}

#[test]
fn is_reversible_flags_both_halves() {
    assert!(!SeedsType::Simple.is_reversible());
    assert!(SeedsType::ReversibleUp.is_reversible());
    assert!(SeedsType::ReversibleDown.is_reversible());
}

#[test]
fn is_down_seeds_flags_only_the_reverse_half() {
    assert!(!SeedsType::Simple.is_down_seeds());
    assert!(!SeedsType::ReversibleUp.is_down_seeds());
    assert!(SeedsType::ReversibleDown.is_down_seeds());
}

#[test]
fn label_names_the_operation() {
    assert_eq!(SeedsType::Simple.label(), "seeds");
    assert_eq!(SeedsType::ReversibleUp.label(), "seeds");
    assert_eq!(SeedsType::ReversibleDown.label(), "revert");
}

#[test]
fn suffix_matches_the_naming_convention() {
    assert_eq!(SeedsType::Simple.suffix(), ".sql");
    assert_eq!(SeedsType::ReversibleUp.suffix(), ".up.sql");
    assert_eq!(SeedsType::ReversibleDown.suffix(), ".down.sql");
}

#[test]
fn file_content_gives_a_placeholder_body() {
    assert_eq!(SeedsType::Simple.file_content(), "-- Add seeds script here\n");
    assert_eq!(SeedsType::ReversibleUp.file_content(), "-- Add up seeds script here\n");
    assert_eq!(SeedsType::ReversibleDown.file_content(), "-- Add down seeds script here\n");
}

#[test]
fn str_ends_with_handles_edges() {
    assert!(str_ends_with("abc.sql", ".sql"));
    assert!(!str_ends_with("abc.sql", ".up.sql"));
    assert!(str_ends_with("x", ""));
    assert!(!str_ends_with("", "a"));
    assert!(str_ends_with("", ""));
    assert!(!str_ends_with("sql", "a.sql"));
}

#[test]
fn checksum_eq_compares_bytes() {
    assert!(checksum_eq(&vec![1u8, 2, 3], &vec![1u8, 2, 3]));
    assert!(!checksum_eq(&vec![1u8, 2, 3], &vec![1u8, 2, 4]));
    assert!(!checksum_eq(&vec![1u8, 2], &vec![1u8, 2, 3]));
    assert!(checksum_eq(&Vec::new(), &Vec::new()));
}

#[test]
fn version_from_timestamp_reads_as_decimal_digits() {
    assert_eq!(version_from_timestamp(2021, 4, 10, 12, 30, 5), 20210410123005);
    assert_eq!(version_from_timestamp(0, 1, 1, 0, 0, 0), 101000000);
    assert_eq!(version_from_timestamp(9999, 12, 31, 23, 59, 59), 99991231235959);
}

#[test]
fn version_from_timestamp_orders_as_time_does() {
    let earlier = version_from_timestamp(2021, 4, 10, 12, 30, 5);
    let later = version_from_timestamp(2021, 4, 10, 12, 30, 6);
    let next_year = version_from_timestamp(2022, 1, 1, 0, 0, 0);
    assert!(earlier < later);
    assert!(later < next_year);
}

#[test]
fn error_message_names_each_condition() {
    assert_eq!(
        SeedsError::Dirty(2).message(),
        "seeds is partially applied; fix and remove row from the tracking table"
    );
    assert_eq!(
        SeedsError::VersionMissing(5).message(),
        "seeds was previously applied but is missing in the resolved seeds"
    );
    assert_eq!(
        SeedsError::VersionMismatch(1).message(),
        "seeds was previously applied but has been modified"
    );
    assert_eq!(
        SeedsError::InvalidMixReversibleAndSimple.message(),
        "cannot mix reversible seeds with simple seeds. All seeds should be reversible or simple seeds"
    );
    assert_eq!(SeedsError::DuplicateVersion(3).message(), "two seeds share the same version and type");
    assert_eq!(SeedsError::Execute("boom".to_string()).message(), "error while executing seeds");
    assert_eq!(SeedsError::Source("gone".to_string()).message(), "error while resolving seeds");
}

#[test]
fn error_version_extracts_the_payload() {
    assert_eq!(SeedsError::Dirty(2).version(), Some(2));
    assert_eq!(SeedsError::VersionMissing(5).version(), Some(5));
    assert_eq!(SeedsError::VersionMismatch(1).version(), Some(1));
    assert_eq!(SeedsError::DuplicateVersion(3).version(), Some(3));
    assert_eq!(SeedsError::InvalidMixReversibleAndSimple.version(), None);
    assert_eq!(SeedsError::Execute("boom".to_string()).version(), None);
}
