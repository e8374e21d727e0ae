//! The command line: what the arguments of a command ask for.

use vstd::prelude::*;

use crate::table::Table;
use crate::text::{cat2, cat3, chars_of, same_text, text_between, texts};

verus! {

/// What a build writes.
#[derive(Clone, Copy, Debug, PartialEq, Eq, Structural)]
pub enum EmitMode {
    Bundle,
    Modules,
}

/// What the arguments of a command ask for.
#[derive(Debug)]
pub struct CommandOptions {
    pub input: String,
    pub output: Option<String>,
    pub output_dir: Option<String>,
    pub emit: EmitMode,
    pub config: Option<String>,
    pub std_path: Option<String>,
    pub library: Vec<String>,
    pub library_mounts: Table<String, String>,
    pub lua_path: Vec<String>,
}

/// The request so far, over mathematical texts.
pub struct Request {
    pub input: Option<Seq<char>>,
    pub output: Option<Seq<char>>,
    pub output_dir: Option<Seq<char>>,
    pub emit: EmitMode,
    pub config: Option<Seq<char>>,
    pub std_path: Option<Seq<char>>,
    pub library: Seq<Seq<char>>,
    pub library_mounts: Map<Seq<char>, Seq<char>>,
    pub lua_path: Seq<Seq<char>>,
}

/// A request that asks for nothing.
pub open spec fn no_request() -> Request {
    Request {
        input: None,
        output: None,
        output_dir: None,
        emit: EmitMode::Bundle,
        config: None,
        std_path: None,
        library: Seq::empty(),
        library_mounts: Map::empty(),
        lua_path: Seq::empty(),
    }
}

/// Whether a character can start a module name.
pub open spec fn starts_name(c: char) -> bool {
    c == '_' || 'a' <= c <= 'z' || 'A' <= c <= 'Z'
}

/// Whether a character can stand in a module name.
pub open spec fn continues_name(c: char) -> bool {
    starts_name(c) || '0' <= c <= '9'
}

/// Whether a text is a module name.
pub open spec fn is_module_name(name: Seq<char>) -> bool {
    name.len() > 0 && starts_name(name[0]) && forall|i: int|
        1 <= i < name.len() ==> continues_name(#[trigger] name[i])
}

/// The position of the first equals sign from `from` on.
pub open spec fn first_equals(s: Seq<char>, from: int) -> int
    decreases s.len() - from,
{
    if from < 0 || from >= s.len() || s[from] == '=' {
        from
    } else {
        first_equals(s, from + 1)
    }
}

/// The name and the path of a library mount.
pub open spec fn mount_of(value: Seq<char>) -> Result<(Seq<char>, Seq<char>), Seq<char>> {
    let k = first_equals(value, 0);
    if k >= value.len() {
        Err("library mount must use `<name>=<path>`"@)
    } else {
        let name = value.take(k);
        let path = value.skip(k + 1);
        if !is_module_name(name) {
            Err("invalid library mount module name `"@ + name + "`"@)
        } else if path.len() == 0 {
            Err("library mount `"@ + name + "` has an empty path"@)
        } else {
            Ok((name, path))
        }
    }
}

/// The request with the flag `args[i]` and its value, where the text is a flag
/// that takes one.
pub open spec fn flagged(
    args: Seq<Seq<char>>,
    i: int,
    request: Request,
    command: Seq<char>,
    allow_output: bool,
) -> Option<Result<Request, Seq<char>>> {
    let flag = args[i];
    let given = i + 1 < args.len();
    let value = args[i + 1];
    if allow_output && (flag == "-o"@ || flag == "--out"@) {
        Some(
            if given {
                Ok(Request { output: Some(value), ..request })
            } else {
                Err(command + ": `-o` requires a path"@)
            },
        )
    } else if allow_output && flag == "--out-dir"@ {
        Some(
            if given {
                Ok(Request { output_dir: Some(value), ..request })
            } else {
                Err(command + ": `--out-dir` requires a path"@)
            },
        )
    } else if allow_output && flag == "--emit"@ {
        Some(
            if !given {
                Err(command + ": `--emit` requires a mode"@)
            } else if value == "bundle"@ {
                Ok(Request { emit: EmitMode::Bundle, ..request })
            } else if value == "modules"@ {
                Ok(Request { emit: EmitMode::Modules, ..request })
            } else {
                Err(
                    command + ": unknown emit mode `"@ + value
                        + "` (expected `bundle` or `modules`)"@,
                )
            },
        )
    } else if flag == "-c"@ || flag == "--config"@ {
        Some(
            if given {
                Ok(Request { config: Some(value), ..request })
            } else {
                Err(command + ": `--config` requires a path"@)
            },
        )
    } else if flag == "--std-path"@ || flag == "--builtins-dir"@ {
        Some(
            if given {
                Ok(Request { std_path: Some(value), ..request })
            } else {
                Err("`--std-path` requires a path"@)
            },
        )
    } else if flag == "--library"@ {
        Some(
            if given {
                Ok(Request { library: request.library.push(value), ..request })
            } else {
                Err("`--library` requires a path"@)
            },
        )
    } else if flag == "--library-mount"@ {
        Some(
            if !given {
                Err("`--library-mount` requires `<name>=<path>`"@)
            } else {
                match mount_of(value) {
                    Ok((name, path)) => Ok(
                        Request {
                            library_mounts: request.library_mounts.insert(name, path),
                            ..request
                        },
                    ),
                    Err(message) => Err(message),
                }
            },
        )
    } else if allow_output && flag == "--lua-path"@ {
        Some(
            if given {
                Ok(Request { lua_path: request.lua_path.push(value), ..request })
            } else {
                Err("`--lua-path` requires a directory"@)
            },
        )
    } else {
        None
    }
}

/// The request with the arguments `args[i..]`.
pub open spec fn requested(
    args: Seq<Seq<char>>,
    i: int,
    request: Request,
    command: Seq<char>,
    allow_output: bool,
) -> Result<Request, Seq<char>>
    decreases args.len() - i,
{
    if i < 0 || i >= args.len() {
        Ok(request)
    } else {
        match flagged(args, i, request, command, allow_output) {
            Some(Ok(next)) => requested(args, i + 2, next, command, allow_output),
            Some(Err(message)) => Err(message),
            None => if args[i].len() > 0 && args[i][0] == '-' {
                Err(command + ": unknown flag `"@ + args[i] + "`"@)
            } else if request.input is Some {
                Err(command + ": unexpected argument `"@ + args[i] + "`"@)
            } else {
                requested(
                    args,
                    i + 1,
                    Request { input: Some(args[i]), ..request },
                    command,
                    allow_output,
                )
            },
        }
    }
}

/// The complete request, or why it is none.
pub open spec fn completed(request: Request, command: Seq<char>) -> Result<Request, Seq<char>> {
    if request.emit == EmitMode::Bundle && request.output_dir is Some {
        Err(command + ": `--out-dir` requires `--emit modules`"@)
    } else if request.emit == EmitMode::Modules && request.output is Some {
        Err(command + ": `-o`/`--out` cannot be used with `--emit modules`"@)
    } else if request.emit == EmitMode::Modules && request.output_dir is None {
        Err(command + ": `--emit modules` requires `--out-dir <dir>`"@)
    } else if request.input is None {
        Err(command + ": missing <file.rua>"@)
    } else {
        Ok(request)
    }
}

/// What the arguments of a command ask for, or why they ask for nothing.
pub open spec fn command_request(
    args: Seq<Seq<char>>,
    command: Seq<char>,
    allow_output: bool,
) -> Result<Request, Seq<char>> {
    match requested(args, 0, no_request(), command, allow_output) {
        Ok(request) => completed(request, command),
        Err(message) => Err(message),
    }
}

/// An optional text.
pub open spec fn optional(value: Option<String>) -> Option<Seq<char>> {
    match value {
        Some(text) => Some(text@),
        None => None,
    }
}

/// Mounts over mathematical texts.
pub open spec fn mounts_model(table: Table<String, String>) -> Map<Seq<char>, Seq<char>> {
    Map::new(|k: Seq<char>| table.at(k) is Some, |k: Seq<char>| (table.at(k)->0)@)
}

#[derive(Debug)]
struct Draft {
    input: Option<String>,
    output: Option<String>,
    output_dir: Option<String>,
    emit: EmitMode,
    config: Option<String>,
    std_path: Option<String>,
    library: Vec<String>,
    library_mounts: Table<String, String>,
    lua_path: Vec<String>,
}

impl Draft {
    spec fn view(&self) -> Request {
        Request {
            input: optional(self.input),
            output: optional(self.output),
            output_dir: optional(self.output_dir),
            emit: self.emit,
            config: optional(self.config),
            std_path: optional(self.std_path),
            library: texts(self.library@),
            library_mounts: mounts_model(self.library_mounts),
            lua_path: texts(self.lua_path@),
        }
    }
}

impl CommandOptions {
    /// The request over mathematical texts.
    pub open spec fn view(&self) -> Request {
        Request {
            input: Some(self.input@),
            output: optional(self.output),
            output_dir: optional(self.output_dir),
            emit: self.emit,
            config: optional(self.config),
            std_path: optional(self.std_path),
            library: texts(self.library@),
            library_mounts: mounts_model(self.library_mounts),
            lua_path: texts(self.lua_path@),
        }
    }
}

fn name_start(c: char) -> (r: bool)
    ensures
        r == starts_name(c),
{
    c == '_' || ('a' <= c && c <= 'z') || ('A' <= c && c <= 'Z')
}

/// Checks a module name.
pub fn validate_module_name(name: &str) -> (r: Result<(), String>)
    ensures
        match r {
            Ok(_) => is_module_name(name@),
            Err(message) => !is_module_name(name@) && message@
                == "invalid library mount module name `"@ + name@ + "`"@,
        },
{
    let chars = chars_of(name);
    let mut valid = chars.len() > 0 && name_start(chars[0]);
    let mut i: usize = 1;
    while valid && i < chars.len()
        invariant
            chars@ == name@,
            i >= 1,
            valid ==> name@.len() > 0 && starts_name(name@[0]) && forall|k: int|
                1 <= k < i && k < name@.len() ==> continues_name(#[trigger] name@[k]),
            !valid ==> !is_module_name(name@),
        decreases (if valid {
            1int
        } else {
            0int
        }), chars.len() - i,
    {
        if !(name_start(chars[i]) || ('0' <= chars[i] && chars[i] <= '9')) {
            proof {
                assert(!continues_name(name@[i as int]));
            }
            valid = false;
        } else {
            i += 1;
        }
    }
    if valid {
        Ok(())
    } else {
        Err(cat3("invalid library mount module name `", name, "`"))
    }
}

/// The name and the path of a library mount.
pub fn parse_library_mount(value: &str) -> (r: Result<(String, String), String>)
    ensures
        match r {
            Ok((name, path)) => mount_of(value@) == Ok::<(Seq<char>, Seq<char>), Seq<char>>(
                (name@, path@),
            ),
            Err(message) => mount_of(value@) == Err::<(Seq<char>, Seq<char>), Seq<char>>(message@),
        },
{
    let chars = chars_of(value);
    let mut k: usize = 0;
    while k < chars.len() && chars[k] != '='
        invariant
            k <= chars.len(),
            chars@ == value@,
            first_equals(value@, k as int) == first_equals(value@, 0),
        decreases chars.len() - k,
    {
        k += 1;
    }
    if k >= chars.len() {
        return Err("library mount must use `<name>=<path>`".to_string());
    }
    let name = text_between(&chars, 0, k);
    let path = text_between(&chars, k + 1, chars.len());
    proof {
        assert(name@ =~= value@.take(k as int));
        assert(path@ =~= value@.skip(k + 1));
    }
    if let Err(message) = validate_module_name(name.as_str()) {
        return Err(message);
    }
    if k + 1 == chars.len() {
        return Err(cat3("library mount `", name.as_str(), "` has an empty path"));
    }
    Ok((name, path))
}

/// What became of an argument.
enum Flag {
    Taken,
    Wrong(String),
    Other,
}

fn push_text(list: &mut Vec<String>, value: &str)
    ensures
        texts(final(list)@) == texts(old(list)@).push(value@),
{
    let ghost had = texts(list@);
    list.push(value.to_string());
    proof {
        assert(texts(list@) =~= had.push(value@));
    }
}

fn take_flag(
    args: &Vec<String>,
    i: usize,
    draft: &mut Draft,
    command: &str,
    allow_output: bool,
) -> (r: Flag)
    requires
        i < args.len(),
    ensures
        match r {
            Flag::Taken => i + 1 < args.len() && flagged(
                texts(args@),
                i as int,
                old(draft)@,
                command@,
                allow_output,
            ) == Some(Ok::<Request, Seq<char>>(final(draft)@)),
            Flag::Wrong(message) => flagged(
                texts(args@),
                i as int,
                old(draft)@,
                command@,
                allow_output,
            ) == Some(Err::<Request, Seq<char>>(message@)),
            Flag::Other => *final(draft) == *old(draft) && flagged(
                texts(args@),
                i as int,
                old(draft)@,
                command@,
                allow_output,
            ) is None,
        },
{
    let ghost all = texts(args@);
    let flag = args[i].as_str();
    let given = i + 1 < args.len();
    let value = if given {
        args[i + 1].as_str()
    } else {
        ""
    };
    proof {
        assert(all[i as int] == flag@);
        if given {
            assert(all[i + 1] == value@);
        }
    }
    if allow_output && (same_text(flag, "-o") || same_text(flag, "--out")) {
        if !given {
            return Flag::Wrong(cat2(command, ": `-o` requires a path"));
        }
        draft.output = Some(value.to_string());
        return Flag::Taken;
    }
    if allow_output && same_text(flag, "--out-dir") {
        if !given {
            return Flag::Wrong(cat2(command, ": `--out-dir` requires a path"));
        }
        draft.output_dir = Some(value.to_string());
        return Flag::Taken;
    }
    if allow_output && same_text(flag, "--emit") {
        if !given {
            return Flag::Wrong(cat2(command, ": `--emit` requires a mode"));
        }
        if same_text(value, "bundle") {
            draft.emit = EmitMode::Bundle;
        } else if same_text(value, "modules") {
            draft.emit = EmitMode::Modules;
        } else {
            let head = cat3(command, ": unknown emit mode `", value);
            return Flag::Wrong(cat2(head.as_str(), "` (expected `bundle` or `modules`)"));
        }
        return Flag::Taken;
    }
    if same_text(flag, "-c") || same_text(flag, "--config") {
        if !given {
            return Flag::Wrong(cat2(command, ": `--config` requires a path"));
        }
        draft.config = Some(value.to_string());
        return Flag::Taken;
    }
    take_search_flag(args, i, draft, command, allow_output, Ghost(all))
}

fn take_search_flag(
    args: &Vec<String>,
    i: usize,
    draft: &mut Draft,
    command: &str,
    allow_output: bool,
    Ghost(all): Ghost<Seq<Seq<char>>>,
) -> (r: Flag)
    requires
        i < args.len(),
        all == texts(args@),
        !(allow_output && (all[i as int] == "-o"@ || all[i as int] == "--out"@ || all[i as int]
            == "--out-dir"@ || all[i as int] == "--emit"@)),
        all[i as int] != "-c"@ && all[i as int] != "--config"@,
    ensures
        match r {
            Flag::Taken => i + 1 < args.len() && flagged(
                all,
                i as int,
                old(draft)@,
                command@,
                allow_output,
            ) == Some(Ok::<Request, Seq<char>>(final(draft)@)),
            Flag::Wrong(message) => flagged(all, i as int, old(draft)@, command@, allow_output)
                == Some(Err::<Request, Seq<char>>(message@)),
            Flag::Other => *final(draft) == *old(draft) && flagged(
                all,
                i as int,
                old(draft)@,
                command@,
                allow_output,
            ) is None,
        },
{
    let flag = args[i].as_str();
    let given = i + 1 < args.len();
    let value = if given {
        args[i + 1].as_str()
    } else {
        ""
    };
    proof {
        assert(all[i as int] == flag@);
        if given {
            assert(all[i + 1] == value@);
        }
    }
    if same_text(flag, "--std-path") || same_text(flag, "--builtins-dir") {
        if !given {
            return Flag::Wrong("`--std-path` requires a path".to_string());
        }
        draft.std_path = Some(value.to_string());
        return Flag::Taken;
    }
    if same_text(flag, "--library") {
        if !given {
            return Flag::Wrong("`--library` requires a path".to_string());
        }
        push_text(&mut draft.library, value);
        return Flag::Taken;
    }
    if same_text(flag, "--library-mount") {
        if !given {
            return Flag::Wrong("`--library-mount` requires `<name>=<path>`".to_string());
        }
        match parse_library_mount(value) {
            Ok((name, path)) => {
                let ghost had = draft.library_mounts;
                let ghost key = name@;
                let ghost place = path;
                let _ = draft.library_mounts.insert(name, path);
                proof {
                    crate::table::lemma_insert_at(had, draft.library_mounts, key, place);
                    assert(mounts_model(draft.library_mounts) =~= mounts_model(had).insert(
                        key,
                        place@,
                    ));
                }
                return Flag::Taken;
            },
            Err(message) => {
                return Flag::Wrong(message);
            },
        }
    }
    if allow_output && same_text(flag, "--lua-path") {
        if !given {
            return Flag::Wrong("`--lua-path` requires a directory".to_string());
        }
        push_text(&mut draft.lua_path, value);
        return Flag::Taken;
    }
    Flag::Other
}

fn complete(draft: Draft, command: &str) -> (r: Result<CommandOptions, String>)
    ensures
        match r {
            Ok(options) => completed(draft@, command@) == Ok::<Request, Seq<char>>(options@),
            Err(message) => completed(draft@, command@) == Err::<Request, Seq<char>>(message@),
        },
{
    if draft.emit == EmitMode::Bundle && draft.output_dir.is_some() {
        return Err(cat2(command, ": `--out-dir` requires `--emit modules`"));
    }
    if draft.emit == EmitMode::Modules && draft.output.is_some() {
        return Err(cat2(command, ": `-o`/`--out` cannot be used with `--emit modules`"));
    }
    if draft.emit == EmitMode::Modules && draft.output_dir.is_none() {
        return Err(cat2(command, ": `--emit modules` requires `--out-dir <dir>`"));
    }
    match draft.input {
        Some(input) => Ok(
            CommandOptions {
                input,
                output: draft.output,
                output_dir: draft.output_dir,
                emit: draft.emit,
                config: draft.config,
                std_path: draft.std_path,
                library: draft.library,
                library_mounts: draft.library_mounts,
                lua_path: draft.lua_path,
            },
        ),
        None => Err(cat2(command, ": missing <file.rua>")),
    }
}

/// Parses the arguments of a command.
pub fn parse_command_args(args: &Vec<String>, command: &str, allow_output: bool) -> (r: Result<
    CommandOptions,
    String,
>)
    requires
        args.len() < usize::MAX,
    ensures
        match r {
            Ok(options) => command_request(texts(args@), command@, allow_output) == Ok::<
                Request,
                Seq<char>,
            >(options@),
            Err(message) => command_request(texts(args@), command@, allow_output) == Err::<
                Request,
                Seq<char>,
            >(message@),
        },
{
    let ghost all = texts(args@);
    let mut draft = Draft {
        input: None,
        output: None,
        output_dir: None,
        emit: EmitMode::Bundle,
        config: None,
        std_path: None,
        library: Vec::new(),
        library_mounts: Table::new(),
        lua_path: Vec::new(),
    };
    proof {
        assert(draft@.library =~= Seq::empty());
        assert(draft@.lua_path =~= Seq::empty());
        assert(draft@.library_mounts =~= Map::empty());
    }
    let mut i: usize = 0;
    while i < args.len()
        invariant
            i <= args.len() < usize::MAX,
            all == texts(args@),
            requested(all, i as int, draft@, command@, allow_output) == requested(
                all,
                0,
                no_request(),
                command@,
                allow_output,
            ),
        decreases args.len() - i,
    {
        let ghost here = draft@;
        match take_flag(args, i, &mut draft, command, allow_output) {
            Flag::Taken => {
                i += 2;
            },
            Flag::Wrong(message) => {
                return Err(message);
            },
            Flag::Other => {
                let other = args[i].as_str();
                proof {
                    assert(all[i as int] == other@);
                }
                let chars = chars_of(other);
                if chars.len() > 0 && chars[0] == '-' {
                    let head = cat2(command, ": unknown flag `");
                    return Err(cat3(head.as_str(), other, "`"));
                }
                if draft.input.is_some() {
                    let head = cat2(command, ": unexpected argument `");
                    return Err(cat3(head.as_str(), other, "`"));
                }
                draft.input = Some(other.to_string());
                i += 1;
            },
        }
    }
    complete(draft, command)
}

} // verus!
