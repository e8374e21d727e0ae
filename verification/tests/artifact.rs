use ruac::annotations::AnnotationIndex;
use ruac::artifact::{
    bundle_sidecar_path, modules_manifest_path, source_hash, ArtifactFile, ArtifactKind,
    RuaArtifact, RuaArtifactManifest, ARTIFACT_SCHEMA_VERSION, RUA_RUNTIME_ABI,
};
use ruac::codegen::header::LuaSourceMapping;
use ruac::codegen::output::{GeneratedLua, GeneratedLuaModule, GeneratedLuaModules};
use ruac::token::SourceRange;

fn bundle(index: &AnnotationIndex) -> GeneratedLua<'_> {
    GeneratedLua {
        source: "return 1\n".to_string(),
        source_map: vec![LuaSourceMapping {
            generated_start: 0,
            generated_end: 9,
            source: SourceRange {
                start: 0,
                len: 1,
                line: 1,
                file: 0,
            },
        }],
        source_files: vec!["main.rua".to_string()],
        annotations: index,
    }
}

fn file(path: &str, is_root: bool, hash: &str) -> ArtifactFile {
    ArtifactFile {
        module_name: "main".to_string(),
        output_path: path.to_string(),
        is_root,
        source_hash: hash.to_string(),
        source_map: Vec::new(),
    }
}

fn manifest(files: Vec<ArtifactFile>) -> RuaArtifactManifest {
    RuaArtifactManifest {
        schema_version: ARTIFACT_SCHEMA_VERSION,
        compiler_version: "test".to_string(),
        runtime_abi: RUA_RUNTIME_ABI,
        kind: ArtifactKind::Modules,
        root_output_path: "main.lua".to_string(),
        source_files: Vec::new(),
        files,
    }
}

#[test]
fn bundle_manifest_round_trips_and_validates_hash() {
    let index = AnnotationIndex::default();
    let artifact = bundle(&index);
    let manifest = RuaArtifactManifest::from_bundle("main.lua", &artifact);
    assert_eq!(manifest.schema_version, ARTIFACT_SCHEMA_VERSION);
    assert_eq!(manifest.files[0].source_hash, source_hash(&artifact.source));
    manifest.validate().unwrap();
}

#[test]
fn manifest_rejects_traversal() {
    let manifest = RuaArtifactManifest {
        schema_version: ARTIFACT_SCHEMA_VERSION,
        compiler_version: "test".to_string(),
        runtime_abi: RUA_RUNTIME_ABI,
        kind: ArtifactKind::Modules,
        root_output_path: "main.lua".to_string(),
        source_files: Vec::new(),
        files: vec![ArtifactFile {
            module_name: "main".to_string(),
            output_path: "../main.lua".to_string(),
            is_root: true,
            source_hash: "hash".to_string(),
            source_map: Vec::new(),
        }],
    };
    assert!(manifest.validate().is_err());
}

#[test]
fn source_hash_is_fnv1a_in_hexadecimal() {
    assert_eq!(source_hash(""), "fnv1a64:cbf29ce484222325");
    assert_eq!(source_hash("a"), "fnv1a64:af63dc4c8601ec8c");
    assert_eq!(source_hash("foobar"), "fnv1a64:85944171f73967e8");
}

#[test]
fn bundle_manifest_is_valid_wherever_it_is_written() {
    let index = AnnotationIndex::default();
    for path in ["out/app.lua", "/tmp/x/y.lua", "..", "", ".", "a/..", "dir/", "a/b/."] {
        let manifest = RuaArtifactManifest::from_bundle(path, &bundle(&index));
        assert!(manifest.validate().is_ok(), "{}", path);
    }
    let manifest = RuaArtifactManifest::from_bundle("out/app.lua", &bundle(&index));
    assert_eq!(manifest.root_output_path, "app.lua");
    assert_eq!(manifest.files[0].module_name, "app");
    let manifest = RuaArtifactManifest::from_bundle("a/..", &bundle(&index));
    assert_eq!(manifest.root_output_path, "main.lua");
}

#[test]
fn every_manifest_error_has_its_message() {
    let mut wrong = manifest(vec![file("main.lua", true, "h")]);
    wrong.schema_version = 9;
    assert_eq!(
        wrong.validate().unwrap_err(),
        "unsupported Rua artifact schema 9; expected 1"
    );
    let mut wrong = manifest(vec![file("main.lua", true, "h")]);
    wrong.runtime_abi = 1;
    assert_eq!(
        wrong.validate().unwrap_err(),
        "unsupported Rua runtime ABI 1; expected 2"
    );
    assert_eq!(
        manifest(Vec::new()).validate().unwrap_err(),
        "Rua artifact has no root output or files"
    );
    assert_eq!(
        manifest(vec![file("main.lua", true, "h"), file("b.lua", true, "h")])
            .validate()
            .unwrap_err(),
        "Rua artifact has 2 root files; expected exactly one"
    );
    assert_eq!(
        manifest(vec![file("/main.lua", true, "h")])
            .validate()
            .unwrap_err(),
        "Rua artifact path `/main.lua` must be relative and cannot contain `..`"
    );
    assert_eq!(
        manifest(vec![file("main.lua", true, "")])
            .validate()
            .unwrap_err(),
        "Rua artifact file `main.lua` has no source hash"
    );
    assert_eq!(
        manifest(vec![file("other.lua", true, "h")])
            .validate()
            .unwrap_err(),
        "Rua artifact root `main.lua` is not listed in files"
    );
    assert!(manifest(vec![file("main.lua", true, "h"), file("a..b/c.lua", false, "h")])
        .validate()
        .is_ok());
}

#[test]
fn modules_manifest_lists_every_module() {
    let index = AnnotationIndex::default();
    let artifact = GeneratedLuaModules {
        root_output_path: "main.lua".to_string(),
        modules: vec![
            GeneratedLuaModule {
                module_name: "main".to_string(),
                output_path: "main.lua".to_string(),
                source: "return 1\n".to_string(),
                source_map: Vec::new(),
                is_root: true,
            },
            GeneratedLuaModule {
                module_name: "api.user".to_string(),
                output_path: "api/user.lua".to_string(),
                source: "return 2\n".to_string(),
                source_map: Vec::new(),
                is_root: false,
            },
        ],
        source_files: Vec::new(),
        annotations: &index,
    };
    let manifest = RuaArtifact::Modules(artifact).manifest();
    assert_eq!(manifest.kind, ArtifactKind::Modules);
    assert_eq!(manifest.files.len(), 2);
    assert_eq!(manifest.files[1].output_path, "api/user.lua");
    assert_eq!(manifest.files[1].source_hash, source_hash("return 2\n"));
    assert!(manifest.validate().is_ok());
}

#[test]
fn artifact_manifest_follows_its_output() {
    let index = AnnotationIndex::default();
    let artifact = RuaArtifact::Bundle(bundle(&index));
    assert_eq!(artifact.manifest().root_output_path, "main.lua");
    assert_eq!(artifact.manifest_for("x/y.lua").root_output_path, "y.lua");
}

#[test]
fn manifest_paths() {
    assert_eq!(bundle_sidecar_path("out/app.lua"), "out/app.lua.rua-map.json");
    assert_eq!(modules_manifest_path("out"), "out/rua-artifact.json");
    assert_eq!(modules_manifest_path("out/"), "out/rua-artifact.json");
    assert_eq!(modules_manifest_path(""), "rua-artifact.json");
}
