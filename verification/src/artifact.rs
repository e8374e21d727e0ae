//! Versioned, portable compiler artifacts: what is needed to load generated Lua
//! in another process and to find the source of a Lua location.

use vstd::prelude::*;
use vstd::utf8::encode_utf8;

use crate::codegen::header::LuaSourceMapping;
use crate::codegen::output::{GeneratedLua, GeneratedLuaModule, GeneratedLuaModules};
use crate::text::{
    cat2, cat3, cat4, chars_of, copy_texts, decimal, decimal_text, end_of_last, hex_byte,
    push_hex_byte, same_text, text_between, texts,
};

verus! {

/// The version of the manifest's layout.
pub const ARTIFACT_SCHEMA_VERSION: u32 = 1;

/// The version of the runtime that generated code calls.
pub const RUA_RUNTIME_ABI: u32 = 2;

/// The version of this compiler, as the package states it.
pub open spec fn spec_compiler_version() -> Seq<char> {
    "0.1.0"@
}

/// The version of this compiler.
pub fn compiler_version() -> (r: &'static str)
    ensures
        r@ == spec_compiler_version(),
{
    "0.1.0"
}

/// One compiler result, as one file or as modules.
#[derive(Debug)]
pub enum RuaArtifact<'a> {
    Bundle(GeneratedLua<'a>),
    Modules(GeneratedLuaModules<'a>),
}

#[derive(Clone, Copy, Debug, PartialEq, Eq, Structural)]
pub enum ArtifactKind {
    Bundle,
    Modules,
}

#[derive(Debug)]
pub struct ArtifactFile {
    /// The name under which Lua requires it. The root has the stem of its file.
    pub module_name: String,
    /// The path relative to the directory of the manifest.
    pub output_path: String,
    pub is_root: bool,
    /// A stable hash that tells a stale source map.
    pub source_hash: String,
    pub source_map: Vec<LuaSourceMapping>,
}

#[derive(Debug)]
pub struct RuaArtifactManifest {
    pub schema_version: u32,
    pub compiler_version: String,
    pub runtime_abi: u32,
    pub kind: ArtifactKind,
    pub root_output_path: String,
    /// Paths of the source files, by the file of a mapping.
    pub source_files: Vec<String>,
    pub files: Vec<ArtifactFile>,
}

/// A file over mathematical texts.
pub struct ArtifactRecord {
    pub module_name: Seq<char>,
    pub output_path: Seq<char>,
    pub is_root: bool,
    pub source_hash: Seq<char>,
    pub source_map: Seq<LuaSourceMapping>,
}

/// A manifest over mathematical texts.
pub struct ManifestRecord {
    pub schema_version: u32,
    pub compiler_version: Seq<char>,
    pub runtime_abi: u32,
    pub kind: ArtifactKind,
    pub root_output_path: Seq<char>,
    pub source_files: Seq<Seq<char>>,
    pub files: Seq<ArtifactRecord>,
}

impl ArtifactFile {
    /// The mathematical form.
    pub open spec fn record(self) -> ArtifactRecord {
        ArtifactRecord {
            module_name: self.module_name@,
            output_path: self.output_path@,
            is_root: self.is_root,
            source_hash: self.source_hash@,
            source_map: self.source_map@,
        }
    }
}

/// Files over mathematical texts.
pub open spec fn file_records(files: Seq<ArtifactFile>) -> Seq<ArtifactRecord> {
    Seq::new(files.len(), |i: int| files[i].record())
}

impl RuaArtifactManifest {
    /// The mathematical form.
    pub open spec fn record(self) -> ManifestRecord {
        ManifestRecord {
            schema_version: self.schema_version,
            compiler_version: self.compiler_version@,
            runtime_abi: self.runtime_abi,
            kind: self.kind,
            root_output_path: self.root_output_path@,
            source_files: texts(self.source_files@),
            files: file_records(self.files@),
        }
    }
}

// ---------------------------------------------------------------------------
// Hashes.
// ---------------------------------------------------------------------------

/// The hash of the first `n` bytes.
pub open spec fn fnv1a(bytes: Seq<u8>, n: int) -> u64
    decreases n,
{
    if n <= 0 || n > bytes.len() {
        0xcbf29ce484222325
    } else {
        (fnv1a(bytes, n - 1) ^ (bytes[n - 1] as u64)).wrapping_mul(0x100000001b3)
    }
}

/// A number as sixteen hexadecimal digits.
pub open spec fn hex_word(h: u64) -> Seq<char> {
    hex_byte(((h / 0x100_0000_0000_0000) % 256) as u8) + hex_byte(
        ((h / 0x1_0000_0000_0000) % 256) as u8,
    ) + hex_byte(((h / 0x100_0000_0000) % 256) as u8) + hex_byte(
        ((h / 0x1_0000_0000) % 256) as u8,
    ) + hex_byte(((h / 0x100_0000) % 256) as u8) + hex_byte(((h / 0x1_0000) % 256) as u8)
        + hex_byte(((h / 0x100) % 256) as u8) + hex_byte((h % 256) as u8)
}

/// The hash of a text.
pub open spec fn hash_of(source: Seq<char>) -> Seq<char> {
    let bytes = encode_utf8(source);
    "fnv1a64:"@ + hex_word(fnv1a(bytes, bytes.len() as int))
}

/// A stable hash of a text. It tells a stale source map; it is no safeguard
/// against intent.
pub fn source_hash(source: &str) -> (r: String)
    ensures
        r@ == hash_of(source@),
{
    let bytes = source.as_bytes();
    let mut hash: u64 = 0xcbf29ce484222325;
    let mut i: usize = 0;
    while i < bytes.len()
        invariant
            i <= bytes@.len(),
            hash == fnv1a(bytes@, i as int),
        decreases bytes.len() - i,
    {
        hash = (hash ^ (bytes[i] as u64)).wrapping_mul(0x100000001b3);
        i += 1;
    }
    let mut out = "fnv1a64:".to_string();
    push_hex_byte(&mut out, ((hash / 0x100_0000_0000_0000) % 256) as u8);
    push_hex_byte(&mut out, ((hash / 0x1_0000_0000_0000) % 256) as u8);
    push_hex_byte(&mut out, ((hash / 0x100_0000_0000) % 256) as u8);
    push_hex_byte(&mut out, ((hash / 0x1_0000_0000) % 256) as u8);
    push_hex_byte(&mut out, ((hash / 0x100_0000) % 256) as u8);
    push_hex_byte(&mut out, ((hash / 0x1_0000) % 256) as u8);
    push_hex_byte(&mut out, ((hash / 0x100) % 256) as u8);
    push_hex_byte(&mut out, (hash % 256) as u8);
    proof {
        assert(out@ =~= "fnv1a64:"@ + hex_word(hash));
    }
    out
}

// ---------------------------------------------------------------------------
// Paths, with `/` between their parts.
// ---------------------------------------------------------------------------

/// The end of the last part among the first `n` characters: separators and parts
/// that are a single dot do not count.
pub open spec fn name_end(path: Seq<char>, n: int) -> int
    decreases n,
{
    if n <= 0 || n > path.len() {
        0
    } else if path[n - 1] == '/' || (path[n - 1] == '.' && (n == 1 || path[n - 2] == '/')) {
        name_end(path, n - 1)
    } else {
        n
    }
}

/// The last part of a path; none where it names no file.
pub open spec fn file_name_of(path: Seq<char>) -> Option<Seq<char>> {
    let end = name_end(path, path.len() as int);
    let name = path.subrange(end_of_last(path, '/', end), end);
    if name.len() == 0 || name == seq!['.', '.'] {
        None
    } else {
        Some(name)
    }
}

/// The name of the bundle's file.
pub open spec fn bundle_file(path: Seq<char>) -> Seq<char> {
    match file_name_of(path) {
        Some(name) => name,
        None => "main.lua"@,
    }
}

/// Whether a part of the path is `..` at a position.
pub open spec fn parent_at(path: Seq<char>, a: int) -> bool {
    &&& 0 <= a
    &&& a + 2 <= path.len()
    &&& path[a] == '.'
    &&& path[a + 1] == '.'
    &&& (a == 0 || path[a - 1] == '/')
    &&& (a + 2 == path.len() || path[a + 2] == '/')
}

/// Whether a path stays below the directory that it is relative to.
pub open spec fn stays_below(path: Seq<char>) -> bool {
    &&& !(path.len() > 0 && path[0] == '/')
    &&& forall|a: int| !(#[trigger] parent_at(path, a))
}

/// A text with every separator as a dot.
pub open spec fn dotted(s: Seq<char>) -> Seq<char> {
    Seq::new(
        s.len(),
        |i: int|
            if s[i] == '/' || s[i] == '\\' {
                '.'
            } else {
                s[i]
            },
    )
}

/// Whether a text ends in `.lua`.
pub open spec fn ends_in_lua(s: Seq<char>) -> bool {
    let n = s.len() as int;
    n >= 4 && s[n - 4] == '.' && s[n - 3] == 'l' && s[n - 2] == 'u' && s[n - 1] == 'a'
}

/// The module name of an output file.
pub open spec fn module_name_of(output: Seq<char>) -> Seq<char> {
    dotted(
        if ends_in_lua(output) {
            output.take(output.len() - 4)
        } else {
            output
        },
    )
}

fn last_part(path: &str) -> (r: Option<String>)
    ensures
        match r {
            Some(name) => file_name_of(path@) == Some(name@),
            None => file_name_of(path@) is None,
        },
{
    let chars = chars_of(path);
    let mut end: usize = chars.len();
    while end > 0 && (chars[end - 1] == '/' || (chars[end - 1] == '.' && (end == 1 || chars[end - 2]
        == '/')))
        invariant
            end <= chars.len(),
            chars@ == path@,
            name_end(path@, end as int) == name_end(path@, path@.len() as int),
        decreases end,
    {
        end -= 1;
    }
    let mut start: usize = end;
    while start > 0 && chars[start - 1] != '/'
        invariant
            start <= end <= chars.len(),
            chars@ == path@,
            end_of_last(path@, '/', start as int) == end_of_last(path@, '/', end as int),
        decreases start,
    {
        start -= 1;
    }
    proof {
        assert(path@.subrange(start as int, end as int).len() == end - start);
    }
    if start == end {
        return None;
    }
    if end - start == 2 && chars[start] == '.' && chars[start + 1] == '.' {
        proof {
            assert(path@.subrange(start as int, end as int) =~= seq!['.', '.']);
        }
        return None;
    }
    let name = text_between(&chars, start, end);
    proof {
        if name@ == seq!['.', '.'] {
            assert(name@[0] == '.' && name@[1] == '.');
        }
    }
    Some(name)
}

fn module_name_from_output(output: &str) -> (r: String)
    ensures
        r@ == module_name_of(output@),
{
    let chars = chars_of(output);
    let n = chars.len();
    let end: usize = if n >= 4 && chars[n - 4] == '.' && chars[n - 3] == 'l' && chars[n - 2] == 'u'
        && chars[n - 1] == 'a' {
        n - 4
    } else {
        n
    };
    let ghost stem = output@.take(end as int);
    let mut out = String::new();
    let mut i: usize = 0;
    proof {
        assert(out@ =~= dotted(stem).take(0));
    }
    while i < end
        invariant
            i <= end <= chars.len(),
            chars@ == output@,
            stem == output@.take(end as int),
            out@ == dotted(stem).take(i as int),
        decreases end - i,
    {
        out.push(
            if chars[i] == '/' || chars[i] == '\\' {
                '.'
            } else {
                chars[i]
            },
        );
        i += 1;
        proof {
            assert(out@ =~= dotted(stem).take(i as int));
        }
    }
    proof {
        assert(dotted(stem).take(end as int) =~= dotted(stem));
        assert(output@.take(output@.len() as int) =~= output@);
    }
    out
}

/// The message for a path that does not stay below its directory.
pub open spec fn path_error(path: Seq<char>) -> Seq<char> {
    "Rua artifact path `"@ + path + "` must be relative and cannot contain `..`"@
}

fn validate_relative_path(path: &str) -> (r: Result<(), String>)
    ensures
        match r {
            Ok(_) => stays_below(path@),
            Err(message) => !stays_below(path@) && message@ == path_error(path@),
        },
{
    let chars = chars_of(path);
    let mut below = !(chars.len() > 0 && chars[0] == '/');
    let mut a: usize = 0;
    while below && a < chars.len()
        invariant
            a <= chars.len(),
            chars@ == path@,
            below ==> !(path@.len() > 0 && path@[0] == '/'),
            below ==> forall|k: int| 0 <= k < a ==> !(#[trigger] parent_at(path@, k)),
            !below ==> !stays_below(path@),
        decreases (if below {
            1int
        } else {
            0int
        }), chars.len() - a,
    {
        if chars.len() - a >= 2 && chars[a] == '.' && chars[a + 1] == '.' && (a == 0 || chars[a - 1]
            == '/') && (chars.len() - a == 2 || chars[a + 2] == '/') {
            proof {
                assert(parent_at(path@, a as int));
            }
            below = false;
        } else {
            a += 1;
        }
    }
    if below {
        Ok(())
    } else {
        Err(
            cat3(
                "Rua artifact path `",
                path,
                "` must be relative and cannot contain `..`",
            ),
        )
    }
}

/// The path of the manifest that stands beside a bundle.
pub fn bundle_sidecar_path(lua_path: &str) -> (r: String)
    ensures
        r@ == lua_path@ + ".rua-map.json"@,
{
    cat2(lua_path, ".rua-map.json")
}

/// The path of the manifest in a directory of modules.
pub open spec fn manifest_in(output_dir: Seq<char>) -> Seq<char> {
    if output_dir.len() == 0 || output_dir.last() == '/' {
        output_dir + "rua-artifact.json"@
    } else {
        output_dir + "/"@ + "rua-artifact.json"@
    }
}

/// The path of the manifest in a directory of modules.
pub fn modules_manifest_path(output_dir: &str) -> (r: String)
    ensures
        r@ == manifest_in(output_dir@),
{
    let chars = chars_of(output_dir);
    if chars.len() == 0 || chars[chars.len() - 1] == '/' {
        cat2(output_dir, "rua-artifact.json")
    } else {
        cat3(output_dir, "/", "rua-artifact.json")
    }
}

// ---------------------------------------------------------------------------
// Manifests.
// ---------------------------------------------------------------------------

/// The manifest of a bundle.
pub open spec fn bundle_record(output: Seq<char>, artifact: GeneratedLua) -> ManifestRecord {
    let name = bundle_file(output);
    ManifestRecord {
        schema_version: ARTIFACT_SCHEMA_VERSION,
        compiler_version: spec_compiler_version(),
        runtime_abi: RUA_RUNTIME_ABI,
        kind: ArtifactKind::Bundle,
        root_output_path: name,
        source_files: texts(artifact.source_files@),
        files: seq![
            ArtifactRecord {
                module_name: module_name_of(name),
                output_path: name,
                is_root: true,
                source_hash: hash_of(artifact.source@),
                source_map: artifact.source_map@,
            },
        ],
    }
}

/// The record of one module.
pub open spec fn module_record(module: GeneratedLuaModule) -> ArtifactRecord {
    ArtifactRecord {
        module_name: module.module_name@,
        output_path: module.output_path@,
        is_root: module.is_root,
        source_hash: hash_of(module.source@),
        source_map: module.source_map@,
    }
}

/// The manifest of modules.
pub open spec fn modules_record(artifact: GeneratedLuaModules) -> ManifestRecord {
    ManifestRecord {
        schema_version: ARTIFACT_SCHEMA_VERSION,
        compiler_version: spec_compiler_version(),
        runtime_abi: RUA_RUNTIME_ABI,
        kind: ArtifactKind::Modules,
        root_output_path: artifact.root_output_path@,
        source_files: texts(artifact.source_files@),
        files: Seq::new(artifact.modules@.len(), |i: int| module_record(artifact.modules@[i])),
    }
}

/// The number of roots among `files[from..]`.
pub open spec fn root_count(files: Seq<ArtifactRecord>, from: int) -> nat
    decreases files.len() - from,
{
    if from < 0 || from >= files.len() {
        0
    } else {
        (if files[from].is_root {
            1nat
        } else {
            0nat
        }) + root_count(files, from + 1)
    }
}

/// The first error of the files `files[from..]`.
pub open spec fn file_error(files: Seq<ArtifactRecord>, from: int) -> Option<Seq<char>>
    decreases files.len() - from,
{
    if from < 0 || from >= files.len() {
        None
    } else if !stays_below(files[from].output_path) {
        Some(path_error(files[from].output_path))
    } else if files[from].source_hash.len() == 0 {
        Some("Rua artifact file `"@ + files[from].output_path + "` has no source hash"@)
    } else {
        file_error(files, from + 1)
    }
}

/// Whether a file among `files[from..]` has a path.
pub open spec fn lists_path(files: Seq<ArtifactRecord>, path: Seq<char>, from: int) -> bool
    decreases files.len() - from,
{
    0 <= from < files.len() && (files[from].output_path == path || lists_path(
        files,
        path,
        from + 1,
    ))
}

/// The first error of a manifest; none where it is valid.
pub open spec fn manifest_error(manifest: ManifestRecord) -> Option<Seq<char>> {
    if manifest.schema_version != ARTIFACT_SCHEMA_VERSION {
        Some(
            "unsupported Rua artifact schema "@ + decimal(manifest.schema_version as nat)
                + "; expected "@ + decimal(ARTIFACT_SCHEMA_VERSION as nat),
        )
    } else if manifest.runtime_abi != RUA_RUNTIME_ABI {
        Some(
            "unsupported Rua runtime ABI "@ + decimal(manifest.runtime_abi as nat) + "; expected "@
                + decimal(RUA_RUNTIME_ABI as nat),
        )
    } else if manifest.root_output_path.len() == 0 || manifest.files.len() == 0 {
        Some("Rua artifact has no root output or files"@)
    } else if root_count(manifest.files, 0) != 1 {
        Some(
            "Rua artifact has "@ + decimal(root_count(manifest.files, 0))
                + " root files; expected exactly one"@,
        )
    } else if file_error(manifest.files, 0) is Some {
        file_error(manifest.files, 0)
    } else if !lists_path(manifest.files, manifest.root_output_path, 0) {
        Some(
            "Rua artifact root `"@ + manifest.root_output_path + "` is not listed in files"@,
        )
    } else {
        None
    }
}

fn copy_map(list: &Vec<LuaSourceMapping>) -> (r: Vec<LuaSourceMapping>)
    ensures
        r@ == list@,
{
    let mut out: Vec<LuaSourceMapping> = Vec::new();
    let mut i: usize = 0;
    while i < list.len()
        invariant
            i <= list.len(),
            out@ == list@.take(i as int),
        decreases list.len() - i,
    {
        out.push(list[i]);
        i += 1;
        proof {
            assert(out@ =~= list@.take(i as int));
        }
    }
    proof {
        assert(out@ =~= list@);
    }
    out
}

impl RuaArtifactManifest {
    /// The manifest of a bundle.
    pub fn from_bundle(output_path: &str, artifact: &GeneratedLua) -> (r: Self)
        ensures
            r.record() == bundle_record(output_path@, *artifact),
    {
        let name = match last_part(output_path) {
            Some(name) => name,
            None => "main.lua".to_string(),
        };
        let file = ArtifactFile {
            module_name: module_name_from_output(name.as_str()),
            output_path: name.clone(),
            is_root: true,
            source_hash: source_hash(artifact.source.as_str()),
            source_map: copy_map(&artifact.source_map),
        };
        let ghost one = file.record();
        let mut files: Vec<ArtifactFile> = Vec::new();
        files.push(file);
        proof {
            assert(file_records(files@) =~= seq![one]);
        }
        RuaArtifactManifest {
            schema_version: ARTIFACT_SCHEMA_VERSION,
            compiler_version: compiler_version().to_string(),
            runtime_abi: RUA_RUNTIME_ABI,
            kind: ArtifactKind::Bundle,
            root_output_path: name,
            source_files: copy_texts(&artifact.source_files),
            files,
        }
    }

    /// The manifest of modules.
    pub fn from_modules(artifact: &GeneratedLuaModules) -> (r: Self)
        ensures
            r.record() == modules_record(*artifact),
    {
        let modules = &artifact.modules;
        let mut files: Vec<ArtifactFile> = Vec::new();
        let mut i: usize = 0;
        while i < modules.len()
            invariant
                i <= modules.len(),
                files@.len() == i,
                forall|k: int|
                    0 <= k < i ==> (#[trigger] files@[k]).record() == module_record(modules@[k]),
            decreases modules.len() - i,
        {
            let module = &modules[i];
            files.push(
                ArtifactFile {
                    module_name: module.module_name.clone(),
                    output_path: module.output_path.clone(),
                    is_root: module.is_root,
                    source_hash: source_hash(module.source.as_str()),
                    source_map: copy_map(&module.source_map),
                },
            );
            i += 1;
        }
        proof {
            assert(file_records(files@) =~= modules_record(*artifact).files);
        }
        RuaArtifactManifest {
            schema_version: ARTIFACT_SCHEMA_VERSION,
            compiler_version: compiler_version().to_string(),
            runtime_abi: RUA_RUNTIME_ABI,
            kind: ArtifactKind::Modules,
            root_output_path: artifact.root_output_path.clone(),
            source_files: copy_texts(&artifact.source_files),
            files,
        }
    }

    fn count_roots(&self) -> (r: usize)
        ensures
            r == root_count(self.record().files, 0),
    {
        let ghost model = file_records(self.files@);
        let mut roots: usize = 0;
        let mut i: usize = 0;
        while i < self.files.len()
            invariant
                i <= self.files.len(),
                roots <= i,
                model == file_records(self.files@),
                roots + root_count(model, i as int) == root_count(model, 0),
            decreases self.files.len() - i,
        {
            proof {
                assert(model[i as int] == self.files@[i as int].record());
            }
            if self.files[i].is_root {
                roots += 1;
            }
            i += 1;
        }
        roots
    }

    fn check_files(&self) -> (r: Result<(), String>)
        ensures
            match r {
                Ok(_) => file_error(self.record().files, 0) is None,
                Err(message) => file_error(self.record().files, 0) == Some(message@),
            },
    {
        let ghost model = file_records(self.files@);
        let mut i: usize = 0;
        while i < self.files.len()
            invariant
                i <= self.files.len(),
                model == file_records(self.files@),
                file_error(model, i as int) == file_error(model, 0),
            decreases self.files.len() - i,
        {
            let file = &self.files[i];
            proof {
                assert(model[i as int] == file.record());
            }
            if let Err(message) = validate_relative_path(file.output_path.as_str()) {
                return Err(message);
            }
            if chars_of(file.source_hash.as_str()).len() == 0 {
                return Err(
                    cat3(
                        "Rua artifact file `",
                        file.output_path.as_str(),
                        "` has no source hash",
                    ),
                );
            }
            i += 1;
        }
        Ok(())
    }

    fn lists_root(&self) -> (r: bool)
        ensures
            r == lists_path(self.record().files, self.root_output_path@, 0),
    {
        let ghost model = file_records(self.files@);
        let mut i: usize = 0;
        while i < self.files.len()
            invariant
                i <= self.files.len(),
                model == file_records(self.files@),
                lists_path(model, self.root_output_path@, i as int) == lists_path(
                    model,
                    self.root_output_path@,
                    0,
                ),
            decreases self.files.len() - i,
        {
            proof {
                assert(model[i as int] == self.files@[i as int].record());
            }
            if same_text(self.files[i].output_path.as_str(), self.root_output_path.as_str()) {
                return true;
            }
            i += 1;
        }
        false
    }

    /// Whether the manifest can be used: the versions fit, there is exactly one
    /// root, it is listed, every path stays below the directory of the manifest,
    /// and every file has a hash.
    pub fn validate(&self) -> (r: Result<(), String>)
        ensures
            match r {
                Ok(_) => manifest_error(self.record()) is None,
                Err(message) => manifest_error(self.record()) == Some(message@),
            },
    {
        if self.schema_version != ARTIFACT_SCHEMA_VERSION {
            return Err(
                cat4(
                    "unsupported Rua artifact schema ",
                    decimal_text(self.schema_version as u64).as_str(),
                    "; expected ",
                    decimal_text(ARTIFACT_SCHEMA_VERSION as u64).as_str(),
                ),
            );
        }
        if self.runtime_abi != RUA_RUNTIME_ABI {
            return Err(
                cat4(
                    "unsupported Rua runtime ABI ",
                    decimal_text(self.runtime_abi as u64).as_str(),
                    "; expected ",
                    decimal_text(RUA_RUNTIME_ABI as u64).as_str(),
                ),
            );
        }
        proof {
            assert(file_records(self.files@).len() == self.files@.len());
        }
        if chars_of(self.root_output_path.as_str()).len() == 0 || self.files.len() == 0 {
            return Err("Rua artifact has no root output or files".to_string());
        }
        let roots = self.count_roots();
        if roots != 1 {
            return Err(
                cat3(
                    "Rua artifact has ",
                    decimal_text(roots as u64).as_str(),
                    " root files; expected exactly one",
                ),
            );
        }
        if let Err(message) = self.check_files() {
            return Err(message);
        }
        if !self.lists_root() {
            return Err(
                cat3(
                    "Rua artifact root `",
                    self.root_output_path.as_str(),
                    "` is not listed in files",
                ),
            );
        }
        Ok(())
    }
}

impl<'a> RuaArtifact<'a> {
    /// The manifest of an artifact that is written to a path.
    pub open spec fn spec_manifest_for(self, output: Seq<char>) -> ManifestRecord {
        match self {
            RuaArtifact::Bundle(artifact) => bundle_record(output, artifact),
            RuaArtifact::Modules(artifact) => modules_record(artifact),
        }
    }

    /// The manifest of an artifact that is written to `main.lua`.
    pub fn manifest(&self) -> (r: RuaArtifactManifest)
        ensures
            r.record() == self.spec_manifest_for("main.lua"@),
    {
        self.manifest_for("main.lua")
    }

    /// The manifest of an artifact that is written to a path.
    pub fn manifest_for(&self, output: &str) -> (r: RuaArtifactManifest)
        ensures
            r.record() == self.spec_manifest_for(output@),
    {
        match self {
            RuaArtifact::Bundle(artifact) => RuaArtifactManifest::from_bundle(output, artifact),
            RuaArtifact::Modules(artifact) => RuaArtifactManifest::from_modules(artifact),
        }
    }
}

// ---------------------------------------------------------------------------
// Laws.
// ---------------------------------------------------------------------------

proof fn lemma_last_slash(path: Seq<char>, n: int)
    requires
        0 <= n <= path.len(),
    ensures
        0 <= end_of_last(path, '/', n) <= n,
        forall|k: int| end_of_last(path, '/', n) <= k < n ==> path[k] != '/',
    decreases n,
{
    if n > 0 && path[n - 1] != '/' {
        lemma_last_slash(path, n - 1);
    }
}

proof fn lemma_name_end(path: Seq<char>, n: int)
    requires
        0 <= n <= path.len(),
    ensures
        0 <= name_end(path, n) <= n,
    decreases n,
{
    if n > 0 {
        lemma_name_end(path, n - 1);
    }
}

/// The name of a bundle's file stays below its directory and is not empty.
pub proof fn law_bundle_file_stays_below(path: Seq<char>)
    ensures
        bundle_file(path).len() > 0,
        stays_below(bundle_file(path)),
{
    let end = name_end(path, path.len() as int);
    lemma_name_end(path, path.len() as int);
    lemma_last_slash(path, end);
    let start = end_of_last(path, '/', end);
    let name = path.subrange(start, end);
    reveal_strlit("main.lua");
    if file_name_of(path) is Some {
        assert forall|k: int| 0 <= k < name.len() implies name[k] != '/' by {
            assert(name[k] == path[start + k]);
        }
        assert forall|a: int| !(#[trigger] parent_at(name, a)) by {
            if parent_at(name, a) {
                if a > 0 {
                    assert(name[a - 1] == '/');
                }
                if a + 2 < name.len() {
                    assert(name[a + 2] == '/');
                }
                assert(name =~= seq!['.', '.']);
            }
        }
    } else {
        assert forall|a: int| !(#[trigger] parent_at("main.lua"@, a)) by {
        }
    }
}

/// A manifest made for a bundle is valid, wherever the bundle is written.
pub proof fn law_bundle_manifest_is_valid(output: Seq<char>, artifact: GeneratedLua)
    ensures
        manifest_error(bundle_record(output, artifact)) is None,
{
    let manifest = bundle_record(output, artifact);
    law_bundle_file_stays_below(output);
    reveal_strlit("fnv1a64:");
    assert(manifest.files.len() == 1);
    assert(root_count(manifest.files, 1) == 0);
    assert(root_count(manifest.files, 0) == 1);
    assert(file_error(manifest.files, 1) is None);
    assert(file_error(manifest.files, 0) is None);
    assert(lists_path(manifest.files, manifest.root_output_path, 0));
}

proof fn lemma_file_error(files: Seq<ArtifactRecord>, from: int, k: int)
    requires
        0 <= from <= k < files.len(),
        !stays_below(files[k].output_path) || files[k].source_hash.len() == 0,
    ensures
        file_error(files, from) is Some,
    decreases k - from,
{
    if from < k {
        lemma_file_error(files, from + 1, k);
    }
}

/// A manifest with a path that leaves the directory of the manifest is rejected.
pub proof fn law_traversal_is_rejected(manifest: ManifestRecord, k: int)
    requires
        0 <= k < manifest.files.len(),
        !stays_below(manifest.files[k].output_path),
    ensures
        manifest_error(manifest) is Some,
{
    lemma_file_error(manifest.files, 0, k);
}

proof fn lemma_files_fine(files: Seq<ArtifactRecord>, from: int, k: int)
    requires
        0 <= from <= k < files.len(),
        file_error(files, from) is None,
    ensures
        stays_below(files[k].output_path),
        files[k].source_hash.len() > 0,
    decreases k - from,
{
    if from < k {
        lemma_files_fine(files, from + 1, k);
    }
}

/// In a valid manifest every file has a hash and a path that stays below the
/// directory of the manifest, and the root is one of the files.
pub proof fn law_valid_manifest(manifest: ManifestRecord)
    requires
        manifest_error(manifest) is None,
    ensures
        forall|k: int|
            0 <= k < manifest.files.len() ==> stays_below(
                (#[trigger] manifest.files[k]).output_path,
            ) && manifest.files[k].source_hash.len() > 0,
        root_count(manifest.files, 0) == 1,
        lists_path(manifest.files, manifest.root_output_path, 0),
{
    assert forall|k: int| 0 <= k < manifest.files.len() implies stays_below(
        (#[trigger] manifest.files[k]).output_path,
    ) && manifest.files[k].source_hash.len() > 0 by {
        lemma_files_fine(manifest.files, 0, k);
    }
}

} // verus!
