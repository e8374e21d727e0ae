//! Diagnostics: machine-readable causes and their one-line rendering.

use vstd::prelude::*;

use crate::text::{cat3, cat5, chars_of, decimal, decimal_text, join, joined, texts};

verus! {

/// The cause of a diagnostic.
#[derive(Clone, Copy, Debug, PartialEq, Eq, Structural)]
pub enum DiagnosticCode {
    AnnotationDuplicate,
    AnnotationInvalidArguments,
    AnnotationInvalidSchema,
    AnnotationInvalidTarget,
    AnnotationRuntimePrivate,
    AnnotationUnresolved,
    HostBuiltinInvalid,
    HostProjectInvalid,
    HostSourceRead,
    NameAmbiguousImport,
    NameDuplicateDefinition,
    NameInvalidDeclaration,
    NameInvalidModulePath,
    NameModuleCycle,
    NameModuleNotFound,
    NamePrivateAccess,
    NameUnknownMember,
    NameUnresolved,
    ParseResourceLimit,
    ParseUnexpectedToken,
    ParseUnterminatedComment,
    ParseUnterminatedString,
    TypeArgumentCount,
    TypeImmutableAssignment,
    TypeInvalidFfiAdapter,
    TypeMismatch,
    TypeUnknownField,
    TypeUnsatisfiedTraitBound,
}

#[derive(Clone, Copy, Debug, PartialEq, Eq, Structural)]
pub enum DiagnosticSeverity {
    Error,
    Warning,
}

/// A byte range of one file.
#[derive(Clone, Copy, Debug, PartialEq, Eq, Structural)]
pub struct TextRange {
    pub start: u32,
    pub len: u32,
}

/// A cause with its place and its named arguments.
#[derive(Debug)]
pub struct StructuredDiagnostic {
    pub code: DiagnosticCode,
    pub file: Option<u32>,
    pub range: Option<TextRange>,
    pub arguments: Vec<(String, String)>,
}

/// Named arguments over mathematical texts.
pub open spec fn arguments_model(list: Seq<(String, String)>) -> Seq<(Seq<char>, Seq<char>)> {
    Seq::new(list.len(), |i: int| (list[i].0@, list[i].1@))
}

pub struct DiagRecord {
    pub code: DiagnosticCode,
    pub file: Option<u32>,
    pub range: Option<TextRange>,
    pub arguments: Seq<(Seq<char>, Seq<char>)>,
}

impl StructuredDiagnostic {
    /// The diagnostic over mathematical texts.
    pub open spec fn record(self) -> DiagRecord {
        DiagRecord {
            code: self.code,
            file: self.file,
            range: self.range,
            arguments: arguments_model(self.arguments@),
        }
    }

    /// A cause at a place, without arguments.
    pub fn new(code: DiagnosticCode, file: Option<u32>, range: Option<TextRange>) -> (r: Self)
        ensures
            r.record() == (DiagRecord { code, file, range, arguments: Seq::empty() }),
    {
        let r = StructuredDiagnostic { code, file, range, arguments: Vec::new() };
        proof {
            assert(arguments_model(r.arguments@) =~= Seq::empty());
        }
        r
    }

    /// The cause with one more argument.
    pub fn with_argument(self, name: &str, value: &str) -> (r: Self)
        ensures
            r.record() == (DiagRecord {
                arguments: self.record().arguments.push((name@, value@)),
                ..self.record()
            }),
    {
        let mut r = self;
        let ghost before = arguments_model(r.arguments@);
        r.arguments.push((name.to_string(), value.to_string()));
        proof {
            assert(arguments_model(r.arguments@) =~= before.push((name@, value@)));
        }
        r
    }
}

/// A diagnostic with its message and the line it points to.
#[derive(Debug)]
pub struct Diag {
    pub diagnostic: StructuredDiagnostic,
    /// The line, counted from one; zero where there is none.
    pub line: usize,
    pub msg: String,
}

pub struct DiagModel {
    pub diagnostic: DiagRecord,
    pub line: usize,
    pub msg: Seq<char>,
}

/// A diagnostic at a source range.
pub open spec fn diag_at(
    code: DiagnosticCode,
    file: u32,
    start: usize,
    len: usize,
    line: usize,
    msg: Seq<char>,
) -> DiagModel {
    DiagModel {
        diagnostic: DiagRecord {
            code,
            file: Some(file),
            range: Some(TextRange { start: start as u32, len: len as u32 }),
            arguments: seq![("message"@, msg), ("line"@, decimal(line as nat))],
        },
        line,
        msg,
    }
}

/// A diagnostic without a place.
pub open spec fn bare_diag(code: DiagnosticCode, msg: Seq<char>) -> DiagModel {
    DiagModel {
        diagnostic: DiagRecord {
            code,
            file: None,
            range: None,
            arguments: seq![("message"@, msg)],
        },
        line: 0,
        msg,
    }
}

/// The path of the file that a diagnostic points to; empty where it is unknown.
pub open spec fn diag_path(diag: DiagModel, files: Seq<Seq<char>>) -> Seq<char> {
    let index = match diag.diagnostic.file {
        Some(file) => file as int,
        None => 0,
    };
    if index < files.len() {
        files[index]
    } else {
        Seq::empty()
    }
}

/// A diagnostic as one line: the path, the line and the message, as far as they
/// are known.
pub open spec fn rendered(diag: DiagModel, files: Seq<Seq<char>>) -> Seq<char> {
    let path = diag_path(diag, files);
    if path.len() == 0 && diag.line == 0 {
        diag.msg
    } else if path.len() == 0 {
        decimal(diag.line as nat) + ": "@ + diag.msg
    } else if diag.line == 0 {
        path + ": "@ + diag.msg
    } else {
        path + ":"@ + decimal(diag.line as nat) + ": "@ + diag.msg
    }
}

/// The diagnostics over mathematical texts.
pub open spec fn diags_model(list: Seq<Diag>) -> Seq<DiagModel> {
    Seq::new(list.len(), |i: int| list[i].model())
}

/// The lines of diagnostics.
pub open spec fn rendered_lines(diags: Seq<DiagModel>, files: Seq<Seq<char>>) -> Seq<Seq<char>> {
    Seq::new(diags.len(), |i: int| rendered(diags[i], files))
}

impl Diag {
    /// The diagnostic over mathematical texts.
    pub open spec fn model(self) -> DiagModel {
        DiagModel { diagnostic: self.diagnostic.record(), line: self.line, msg: self.msg@ }
    }

    /// A diagnostic at a source range.
    pub fn new(
        code: DiagnosticCode,
        file: u32,
        start: usize,
        len: usize,
        line: usize,
        msg: String,
    ) -> (r: Self)
        ensures
            r.model() == diag_at(code, file, start, len, line, msg@),
    {
        let range = TextRange { start: start as u32, len: len as u32 };
        let diagnostic = StructuredDiagnostic::new(code, Some(file), Some(range)).with_argument(
            "message",
            msg.as_str(),
        ).with_argument("line", decimal_text(line as u64).as_str());
        let r = Diag { diagnostic, line, msg };
        proof {
            assert(r.model().diagnostic.arguments =~= seq![
                ("message"@, msg@),
                ("line"@, decimal(line as nat)),
            ]);
        }
        r
    }

    /// A diagnostic without a place.
    pub fn bare(code: DiagnosticCode, msg: String) -> (r: Self)
        ensures
            r.model() == bare_diag(code, msg@),
    {
        let diagnostic = StructuredDiagnostic::new(code, None, None).with_argument(
            "message",
            msg.as_str(),
        );
        let r = Diag { diagnostic, line: 0, msg };
        proof {
            assert(r.model().diagnostic.arguments =~= seq![("message"@, msg@)]);
        }
        r
    }

    /// A cause with a message.
    pub fn from_structured(diagnostic: StructuredDiagnostic, line: usize, message: String) -> (r: Self)
        ensures
            r.diagnostic == diagnostic,
            r.line == line,
            r.msg@ == message@,
    {
        Diag { diagnostic, line, msg: message }
    }

    /// The file that the diagnostic points to.
    pub fn file_index(&self) -> (r: Option<u32>)
        ensures
            r == self.diagnostic.file,
    {
        self.diagnostic.file
    }

    /// The first byte that the diagnostic points to.
    pub fn start(&self) -> (r: usize)
        ensures
            r == match self.diagnostic.range {
                Some(range) => range.start as usize,
                None => 0,
            },
    {
        match self.diagnostic.range {
            Some(range) => range.start as usize,
            None => 0,
        }
    }

    /// The number of bytes that the diagnostic points to.
    pub fn len(&self) -> (r: usize)
        ensures
            r == match self.diagnostic.range {
                Some(range) => range.len as usize,
                None => 0,
            },
    {
        match self.diagnostic.range {
            Some(range) => range.len as usize,
            None => 0,
        }
    }

    /// Whether the diagnostic points to no byte.
    pub fn is_empty(&self) -> (r: bool)
        ensures
            r == match self.diagnostic.range {
                Some(range) => range.len == 0,
                None => true,
            },
    {
        self.len() == 0
    }

    /// The diagnostic as one line.
    pub fn render(&self, files: &Vec<String>) -> (r: String)
        ensures
            r@ == rendered(self.model(), texts(files@)),
    {
        let ghost model = texts(files@);
        let index: usize = match self.diagnostic.file {
            Some(file) => file as usize,
            None => 0,
        };
        let known = index < files.len();
        proof {
            if known {
                assert(model[index as int] == files@[index as int]@);
            }
        }
        let path = if known {
            files[index].as_str()
        } else {
            ""
        };
        proof {
            reveal_strlit("");
            assert(""@ =~= Seq::empty());
        }
        let empty = chars_of(path).len() == 0;
        let line = decimal_text(self.line as u64);
        if empty && self.line == 0 {
            self.msg.clone()
        } else if empty {
            cat3(line.as_str(), ": ", self.msg.as_str())
        } else if self.line == 0 {
            cat3(path, ": ", self.msg.as_str())
        } else {
            cat5(path, ":", line.as_str(), ": ", self.msg.as_str())
        }
    }
}

/// All diagnostics, one on each line.
pub fn render_all(diags: &Vec<Diag>, files: &Vec<String>) -> (r: String)
    ensures
        r@ == joined(rendered_lines(diags_model(diags@), texts(files@)), "\n"@),
{
    let ghost model = rendered_lines(diags_model(diags@), texts(files@));
    let mut lines: Vec<String> = Vec::new();
    let mut i: usize = 0;
    while i < diags.len()
        invariant
            i <= diags.len(),
            model == rendered_lines(diags_model(diags@), texts(files@)),
            lines@.len() == i,
            forall|k: int| 0 <= k < i ==> (#[trigger] lines@[k])@ == model[k],
        decreases diags.len() - i,
    {
        lines.push(diags[i].render(files));
        i += 1;
    }
    proof {
        assert(texts(lines@) =~= model);
    }
    join(&lines, "\n")
}

} // verus!
