//! Unit tests of the path splitter, the type-tag mapping, name comparison
//! and the small decision rules.

use winmtp::device::confirm_refetch_count;
use winmtp::error::{CreateFolderError, ItemByPathError, MtpError, WinError};
use winmtp::io::{read_outcome, transfer_request_size, write_outcome};
use winmtp::object::{
    create_folder_precheck, delete_option_flag, enumeration_exhausted, filter_by_type, Guid,
    ObjectInfo, ObjectType,
};
use winmtp::path::{parse_path, PathComponent};
use winmtp::utils::are_path_eq;

fn named(s: &str) -> PathComponent {
    PathComponent::Named(s.to_string())
}

#[test]
fn parse_plain_path() {
    assert_eq!(parse_path("a/b"), vec![named("a"), named("b")]);
    assert_eq!(parse_path("a\\b"), vec![named("a"), named("b")]);
}

#[test]
fn parse_collapses_repeated_and_trailing_separators() {
    assert_eq!(parse_path("a//b///"), vec![named("a"), named("b")]);
    assert_eq!(parse_path("a/"), vec![named("a")]);
}

#[test]
fn parse_classifies_dot_and_dot_dot() {
    assert_eq!(parse_path(".."), vec![PathComponent::ParentDir]);
    assert_eq!(parse_path("a/../b"), vec![named("a"), PathComponent::ParentDir, named("b")]);
    assert_eq!(parse_path("./a"), vec![PathComponent::CurrentDir, named("a")]);
    // an interior `.` says nothing and is dropped while splitting
    assert_eq!(parse_path("a/./b"), vec![named("a"), named("b")]);
    assert_eq!(parse_path("a/."), vec![named("a")]);
    // three dots are an ordinary name
    assert_eq!(parse_path("..."), vec![named("...")]);
}

#[test]
fn parse_marks_absolute_starts() {
    assert_eq!(parse_path("/a"), vec![PathComponent::Absolute, named("a")]);
    assert_eq!(parse_path("\\a"), vec![PathComponent::Absolute, named("a")]);
    assert_eq!(parse_path("C:\\a"), vec![PathComponent::Absolute, named("a")]);
    assert_eq!(parse_path("c:"), vec![PathComponent::Absolute]);
    // a colon later in a segment is no prefix
    assert_eq!(parse_path("ab:c"), vec![named("ab:c")]);
}

#[test]
fn parse_empty_path_has_no_components() {
    assert_eq!(parse_path(""), vec![]);
    assert_eq!(parse_path("/"), vec![PathComponent::Absolute]);
}

#[test]
fn object_type_from_guid_maps_known_tags() {
    let folder = Guid { value: 0x27e2e392_a111_48e0_ab0c_e17705a05f85 };
    assert_eq!(ObjectType::from_guid(folder), ObjectType::Folder);
    let image = Guid { value: 0xef2107d5_a52a_4243_a26b_62d4176d7603 };
    assert_eq!(ObjectType::from_guid(image), ObjectType::Image);
    let audio = Guid { value: 0x4ad2c85e_5e2d_45e5_8864_4f229e3c6cf0 };
    assert_eq!(ObjectType::from_guid(audio), ObjectType::Audio);
}

#[test]
fn object_type_from_guid_tolerates_unknown_tags() {
    let stray = Guid { value: 0xdeadbeef_dead_beef_dead_beefdeadbeef };
    assert_eq!(ObjectType::from_guid(stray), ObjectType::Unknown);
}

#[test]
fn object_type_guid_round_trip() {
    let tags = [
        ObjectType::Folder,
        ObjectType::FunctionalObject,
        ObjectType::GenericFile,
        ObjectType::Image,
        ObjectType::Audio,
        ObjectType::Video,
        ObjectType::Playlist,
    ];
    for t in tags {
        assert_eq!(ObjectType::from_guid(t.as_guid()), t);
    }
}

#[test]
fn is_file_like_excludes_containers() {
    assert!(!ObjectType::Folder.is_file_like());
    assert!(!ObjectType::FunctionalObject.is_file_like());
    assert!(!ObjectType::AudioAlbum.is_file_like());
    assert!(!ObjectType::ImageAlbum.is_file_like());
    assert!(ObjectType::GenericFile.is_file_like());
    assert!(ObjectType::Image.is_file_like());
    assert!(ObjectType::Unknown.is_file_like());
}

#[test]
fn path_eq_case_sensitive_is_exact() {
    assert!(are_path_eq("Download", "Download", true));
    assert!(!are_path_eq("Download", "download", true));
}

#[test]
fn path_eq_case_insensitive_folds() {
    // would fail if the lower-casing handed its argument back unchanged
    assert!(are_path_eq("DOWNLOAD", "download", false));
    assert!(are_path_eq("Download", "dOwNlOaD", false));
    assert!(!are_path_eq("Download", "Downloads", false));
}

#[test]
fn create_folder_precheck_fails_fast_on_existing_item() {
    let existing: Result<ObjectInfo, ItemByPathError> = Ok(ObjectInfo {
        id: "o7".to_string(),
        name: "Music".to_string(),
        ty: ObjectType::Folder,
    });
    assert_eq!(create_folder_precheck(&existing), Err(CreateFolderError::AlreadyExists));
}

#[test]
fn create_folder_precheck_lets_missing_name_proceed() {
    let missing: Result<ObjectInfo, ItemByPathError> = Err(ItemByPathError::NotFound);
    assert_eq!(create_folder_precheck(&missing), Ok(()));
    // a failed round trip does not pre-empt the native call either
    let broken: Result<ObjectInfo, ItemByPathError> =
        Err(ItemByPathError::Windows(WinError { hresult: -1 }));
    assert_eq!(create_folder_precheck(&broken), Ok(()));
}

#[test]
fn refetch_count_must_match_promise() {
    assert_eq!(confirm_refetch_count(4, 4), Ok(()));
    assert_eq!(confirm_refetch_count(4, 3), Err(MtpError::ChangedConditions));
    assert_eq!(confirm_refetch_count(0, 1), Err(MtpError::ChangedConditions));
}

#[test]
fn read_outcome_accepts_end_of_data() {
    assert_eq!(read_outcome(0, 512), Ok(512));
    assert_eq!(read_outcome(1, 0), Ok(0));
    assert_eq!(read_outcome(-2147287037, 0), Err(WinError { hresult: -2147287037 }));
}

#[test]
fn write_outcome_accepts_plain_success_only() {
    assert_eq!(write_outcome(0, 512), Ok(512));
    assert_eq!(write_outcome(1, 0), Err(WinError { hresult: 1 }));
    assert_eq!(write_outcome(-2147287037, 0), Err(WinError { hresult: -2147287037 }));
}

#[test]
fn transfer_request_must_fit_the_native_count() {
    assert_eq!(transfer_request_size(1024), Some(1024));
    assert_eq!(transfer_request_size(u32::MAX as usize), Some(u32::MAX));
    assert_eq!(transfer_request_size(u32::MAX as usize + 1), None);
}

#[test]
fn enumeration_ends_on_short_read() {
    assert!(!enumeration_exhausted(1, 1));
    assert!(enumeration_exhausted(1, 0));
}

#[test]
fn delete_flag_passes_recursion_choice_through() {
    assert_eq!(delete_option_flag(true), 1);
    assert_eq!(delete_option_flag(false), 0);
}

#[test]
fn filter_by_type_keeps_order_of_matching_children() {
    let mk = |id: &str, ty: ObjectType| ObjectInfo {
        id: id.to_string(),
        name: id.to_string(),
        ty,
    };
    let children = vec![
        mk("a", ObjectType::Folder),
        mk("b", ObjectType::Image),
        mk("c", ObjectType::Folder),
        mk("d", ObjectType::Audio),
    ];
    let folders = filter_by_type(&children, ObjectType::Folder);
    let ids: Vec<String> = folders.iter().map(|o| o.id.clone()).collect();
    assert_eq!(ids, vec!["a".to_string(), "c".to_string()]);
}
