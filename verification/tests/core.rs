use guiyi_engine::deterministic_hash;
use guiyi_engine::diagnostics::{Diagnostic, DiagnosticBag, Severity};
use guiyi_engine::ids::{validate_identifier, DocumentId, IdError, ObjectId};
use guiyi_engine::permissions::{EngineVersion, Permission, PermissionSet};
use guiyi_engine::project_path::{ProjectPath, PROJECT_PATH_INVALID};
use guiyi_engine::schema::{append_pointer, escape_pointer_segment};
use guiyi_engine::stage::HexCoord;

#[test]
fn identifiers_reject_spaces() {
    assert!(DocumentId::new("bad id").is_err());
    assert_eq!(DocumentId::new("stage.demo").unwrap().as_str(), "stage.demo");
}

#[test]
fn permissions_use_subset_semantics() {
    let author = PermissionSet::content_author();
    assert!(author.contains_all(&PermissionSet::read_only()));
    assert!(!author.contains(Permission::Publish));
}

#[test]
fn deterministic_hash_is_stable() {
    assert_eq!(deterministic_hash(b"guiyi"), "65f6e3222a196356");
}

#[test]
fn project_path_rejects_absolute_traversal_and_platform_forms() {
    for path in [
        "",
        "../../outside.json",
        "/absolute/outside.json",
        "C:\\outside.json",
        "C:/outside.json",
        "content/../outside.json",
        "content//outside.json",
        "content/./outside.json",
        "\\\\server\\share\\outside.json",
    ] {
        let error = ProjectPath::new(path).unwrap_err();
        assert_eq!(error.code, PROJECT_PATH_INVALID, "{path}");
        assert_eq!(error.path, path, "{path}");
    }
}

#[test]
fn hex_distance_is_symmetric() {
    let a = HexCoord::new(0, 0);
    let b = HexCoord::new(2, -1);
    assert_eq!(a.distance(b), 2);
    assert_eq!(a.distance(b), b.distance(a));
}

#[test]
fn summary_counts_severities() {
    let mut bag = DiagnosticBag::new();
    bag.push(Diagnostic::warning("W", "warning".to_string()));
    bag.push(Diagnostic::error("E", "error".to_string()));
    assert_eq!(bag.summary().warnings, 1);
    assert!(bag.has_errors());
}

#[test]
fn json_pointer_escapes_tilde() {
    assert_eq!(escape_pointer_segment("a~b"), "a~0b");
}

#[test]
fn json_pointer_escapes_slash() {
    assert_eq!(escape_pointer_segment("a/b"), "a~1b");
}

#[test]
fn json_pointer_escapes_both() {
    assert_eq!(escape_pointer_segment("~/"), "~0~1");
}

#[test]
fn pointer_append_escapes_the_segment() {
    assert_eq!(append_pointer("/meta", "a/b"), "/meta/a~1b");
    assert_eq!(append_pointer("", "name"), "/name");
}

#[test]
fn identifier_errors_name_the_rule() {
    assert_eq!(validate_identifier("   "), Err(IdError::Empty));
    assert_eq!(validate_identifier(""), Err(IdError::Empty));
    assert_eq!(validate_identifier("a b"), Err(IdError::InvalidCharacter(' ')));
    assert_eq!(validate_identifier("ok.id-1_x"), Ok(()));
    assert!(ObjectId::new("spawn/one").is_err());
}

#[test]
fn empty_input_hashes_to_the_offset_basis() {
    assert_eq!(deterministic_hash(b""), "cbf29ce484222325");
    assert_ne!(deterministic_hash(b"a"), deterministic_hash(b"b"));
}

#[test]
fn project_path_accepts_and_joins_logical_paths() {
    let base = ProjectPath::new("content").unwrap();
    assert_eq!(base.as_str(), "content");
    let joined = base.join("stage.json").unwrap();
    assert_eq!(joined.as_str(), "content/stage.json");
    let error = base.join("../x").unwrap_err();
    assert_eq!(error.code, PROJECT_PATH_INVALID);
    assert_eq!(error.path, "content/../x");
}

#[test]
fn hex_distance_counts_steps_on_each_axis() {
    assert_eq!(HexCoord::new(0, 0).distance(HexCoord::new(0, 0)), 0);
    assert_eq!(HexCoord::new(1, 1).distance(HexCoord::new(-2, 3)), 3);
    assert_eq!(HexCoord::new(-3, 0).distance(HexCoord::new(3, 0)), 6);
}

#[test]
fn permission_sets_list_and_render_in_order() {
    let read = PermissionSet::read_only();
    assert!(read.contains(Permission::Read));
    assert!(!read.contains(Permission::EditContent));
    assert!(!read.contains_all(&PermissionSet::content_author()));
    let set = PermissionSet::new(vec![Permission::Publish, Permission::Read, Permission::Publish]);
    assert_eq!(set.iter(), vec![Permission::Read, Permission::Publish]);
}

#[test]
fn engine_version_renders_dotted() {
    assert_eq!(EngineVersion::new(1, 2, 3).to_text(), "1.2.3");
    assert_eq!(EngineVersion::current().to_text(), "0.1.0");
}

#[test]
fn bag_without_errors_reports_no_errors() {
    let mut bag = DiagnosticBag::new();
    assert!(!bag.has_errors());
    bag.push(Diagnostic::warning("W", "only a warning".to_string()));
    assert!(!bag.has_errors());
    let summary = bag.summary();
    assert_eq!((summary.info, summary.warnings, summary.errors), (0, 1, 0));
    assert_eq!(bag.diagnostics[0].severity, Severity::Warning);
}

#[test]
fn permission_sets_compare_by_their_permissions() {
    let a = PermissionSet::new(vec![Permission::Read, Permission::Plan, Permission::Read]);
    let b = PermissionSet::new(vec![Permission::Plan, Permission::Read]);
    let c = PermissionSet::new(vec![Permission::Read]);
    assert_eq!(a, b);
    assert_ne!(a, c);
    assert!(a.contains(Permission::Plan));
    assert!(!c.contains(Permission::Plan));
}
