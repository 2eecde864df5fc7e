//! The mathematical model of registers and of the registry: what each
//! operation yields and how it changes the state, over sequences and maps.

use crate::editor::{ClipboardError, ClipboardType, ClipboardView, EditorView, SCRATCH_BUFFER_NAME};
use crate::text::{decimal, first_line, joined, saved_matches};
use vstd::prelude::*;

verus! {

/// Why a register refused a write or a push.
#[derive(Clone, Copy, Debug, PartialEq, Eq, Structural)]
pub enum RegisterError {
    /// The register of this name takes no values.
    NotWritable(char),
    /// The clipboard channel behind the register could not be reached.
    Clipboard(ClipboardError),
}

/// A register as a mathematical value.
#[verifier::ext_equal]
pub enum RegisterModel {
    /// Holds the values given to it, the most recently pushed first.
    Simple { name: char, values: Seq<Seq<char>> },
    /// Takes every value and holds none.
    Blackhole,
    /// Yields the numbers of the selections, counted from one.
    SelectionIndex,
    /// Yields the text of each selection.
    SelectionContents,
    /// Yields the path of the document.
    DocumentPath,
    /// Mirrors the system clipboard; `saved` is what was last handed to it.
    SystemClipboard { saved: Seq<Seq<char>> },
    /// Mirrors the primary selection; `saved` is what was last handed to it.
    PrimaryClipboard { saved: Seq<Seq<char>> },
}

/// What a write or a push leaves behind: the register, the editor and the
/// answer to the caller.
#[verifier::ext_equal]
pub struct Written {
    pub register: RegisterModel,
    pub editor: EditorView,
    pub result: Result<(), RegisterError>,
}

/// The values that a read of a clipboard register yields: none where the
/// channel cannot be reached, the saved values where the channel's text is
/// still what they were joined to, and else the channel's text as one value.
pub open spec fn clipboard_values(
    saved: Seq<Seq<char>>,
    line_ending: Seq<char>,
    contents: Option<Seq<char>>,
) -> Seq<Seq<char>> {
    match contents {
        None => Seq::empty(),
        Some(text) => if saved_matches(saved, line_ending, text) {
            saved
        } else {
            seq![text]
        },
    }
}

/// A clipboard register after `saved` was stored in it and handed, joined by
/// the line ending, to its channel.
pub open spec fn clipboard_written(
    register: RegisterModel,
    clipboard_type: ClipboardType,
    editor: EditorView,
) -> Written {
    let saved = register.values();
    let text = joined(saved, editor.line_ending);
    Written {
        register,
        editor: EditorView { clipboard: editor.clipboard.set(clipboard_type, text), ..editor },
        result: if editor.clipboard.channel(clipboard_type).contents is Some {
            Ok(())
        } else {
            Err(RegisterError::Clipboard(ClipboardError { clipboard_type }))
        },
    }
}

impl Written {
    /// Whether a call left `register` and `editor` behind and answered `result`.
    pub open spec fn is(
        self,
        register: RegisterModel,
        editor: EditorView,
        result: Result<(), RegisterError>,
    ) -> bool {
        self.register == register && self.editor == editor && self.result == result
    }
}

impl RegisterModel {
    /// The name under which the register is kept.
    pub open spec fn name(self) -> char {
        match self {
            RegisterModel::Simple { name, .. } => name,
            RegisterModel::Blackhole => '_',
            RegisterModel::SelectionIndex => '#',
            RegisterModel::SelectionContents => '.',
            RegisterModel::DocumentPath => '%',
            RegisterModel::SystemClipboard { .. } => '*',
            RegisterModel::PrimaryClipboard { .. } => '+',
        }
    }

    /// The values that the register holds itself.
    pub open spec fn values(self) -> Seq<Seq<char>> {
        match self {
            RegisterModel::Simple { values, .. } => values,
            RegisterModel::SystemClipboard { saved } => saved,
            RegisterModel::PrimaryClipboard { saved } => saved,
            _ => Seq::empty(),
        }
    }

    /// The clipboard channel that the register mirrors, if it mirrors one.
    pub open spec fn clipboard_type(self) -> Option<ClipboardType> {
        match self {
            RegisterModel::SystemClipboard { .. } => Some(ClipboardType::Clipboard),
            RegisterModel::PrimaryClipboard { .. } => Some(ClipboardType::Selection),
            _ => None,
        }
    }

    /// Whether the register takes values.
    pub open spec fn writable(self) -> bool {
        !(self is SelectionIndex || self is SelectionContents || self is DocumentPath)
    }

    /// The one-line summary of the register.
    pub open spec fn preview(self) -> Seq<char> {
        match self {
            RegisterModel::Simple { values, .. } => if values.len() > 0 && values[0].len() > 0 {
                first_line(values[0])
            } else {
                "<empty>"@
            },
            RegisterModel::Blackhole => "<empty>"@,
            RegisterModel::SelectionIndex => "<selection indices>"@,
            RegisterModel::SelectionContents => "<selection contents>"@,
            RegisterModel::DocumentPath => "<document path>"@,
            RegisterModel::SystemClipboard { .. } => "<system clipboard>"@,
            RegisterModel::PrimaryClipboard { .. } => "<primary clipboard>"@,
        }
    }

    /// The values that a read yields, in order.
    pub open spec fn read(self, editor: EditorView) -> Seq<Seq<char>> {
        match self {
            RegisterModel::Simple { values, .. } => values,
            RegisterModel::Blackhole => Seq::empty(),
            RegisterModel::SelectionIndex => Seq::new(
                editor.selections.len(),
                |i: int| decimal((i + 1) as nat),
            ),
            RegisterModel::SelectionContents => editor.selections,
            RegisterModel::DocumentPath => seq![
                match editor.path {
                    Some(path) => path,
                    None => SCRATCH_BUFFER_NAME@,
                },
            ],
            RegisterModel::SystemClipboard { saved } => clipboard_values(
                saved,
                editor.line_ending,
                editor.clipboard.channel(ClipboardType::Clipboard).contents,
            ),
            RegisterModel::PrimaryClipboard { saved } => clipboard_values(
                saved,
                editor.line_ending,
                editor.clipboard.channel(ClipboardType::Selection).contents,
            ),
        }
    }

    /// What replacing the register's values by `values` leaves behind.
    pub open spec fn write(self, editor: EditorView, values: Seq<Seq<char>>) -> Written {
        match self {
            RegisterModel::Simple { name, .. } => Written {
                register: RegisterModel::Simple { name, values },
                editor,
                result: Ok(()),
            },
            RegisterModel::Blackhole => Written { register: self, editor, result: Ok(()) },
            RegisterModel::SystemClipboard { .. } => clipboard_written(
                RegisterModel::SystemClipboard { saved: values },
                ClipboardType::Clipboard,
                editor,
            ),
            RegisterModel::PrimaryClipboard { .. } => clipboard_written(
                RegisterModel::PrimaryClipboard { saved: values },
                ClipboardType::Selection,
                editor,
            ),
            _ => Written {
                register: self,
                editor,
                result: Err(RegisterError::NotWritable(self.name())),
            },
        }
    }

    /// What adding `value` to the register leaves behind: a register in
    /// memory yields it first from then on, a clipboard register last.
    pub open spec fn push(self, editor: EditorView, value: Seq<char>) -> Written {
        match self {
            RegisterModel::Simple { name, values } => Written {
                register: RegisterModel::Simple { name, values: seq![value] + values },
                editor,
                result: Ok(()),
            },
            RegisterModel::Blackhole => Written { register: self, editor, result: Ok(()) },
            RegisterModel::SystemClipboard { saved } => clipboard_written(
                RegisterModel::SystemClipboard { saved: saved.push(value) },
                ClipboardType::Clipboard,
                editor,
            ),
            RegisterModel::PrimaryClipboard { saved } => clipboard_written(
                RegisterModel::PrimaryClipboard { saved: saved.push(value) },
                ClipboardType::Selection,
                editor,
            ),
            _ => Written {
                register: self,
                editor,
                result: Err(RegisterError::NotWritable(self.name())),
            },
        }
    }
}

/// Whether `name` is one of the reserved names, whose registers always exist.
pub open spec fn is_special(name: char) -> bool {
    name == '_' || name == '#' || name == '.' || name == '%' || name == '*' || name == '+'
}

/// The registry as a mathematical value: the registers by name.
#[verifier::ext_equal]
pub struct RegistersModel {
    pub registers: Map<char, RegisterModel>,
}

/// What a write or a push to the registry leaves behind.
#[verifier::ext_equal]
pub struct RegistersWritten {
    pub registers: RegistersModel,
    pub editor: EditorView,
    pub result: Result<(), RegisterError>,
}

/// What a removal from the registry leaves behind, and the register it took.
#[verifier::ext_equal]
pub struct RegistersRemoved {
    pub registers: RegistersModel,
    pub removed: Option<RegisterModel>,
}

impl RegistersWritten {
    /// Whether a call left `registers` and `editor` behind and answered `result`.
    pub open spec fn is(
        self,
        registers: RegistersModel,
        editor: EditorView,
        result: Result<(), RegisterError>,
    ) -> bool {
        self.registers == registers && self.editor == editor && self.result == result
    }
}

impl RegistersModel {
    /// The registry at its start: the reserved registers and no others, the
    /// clipboard registers with nothing saved.
    pub open spec fn initial() -> Self {
        RegistersModel {
            registers: Map::empty().insert('_', RegisterModel::Blackhole).insert(
                '#',
                RegisterModel::SelectionIndex,
            ).insert('.', RegisterModel::SelectionContents).insert(
                '%',
                RegisterModel::DocumentPath,
            ).insert('*', RegisterModel::SystemClipboard { saved: Seq::empty() }).insert(
                '+',
                RegisterModel::PrimaryClipboard { saved: Seq::empty() },
            ),
        }
    }

    /// What holds of every registry: each register is kept under its own
    /// name, and each reserved name holds the register of its kind.
    pub open spec fn valid(self) -> bool {
        &&& forall|name: char| #[trigger]
            self.registers.contains_key(name) ==> self.registers[name].name() == name
        &&& self.registers.contains_key('_') && self.registers['_'] is Blackhole
        &&& self.registers.contains_key('#') && self.registers['#'] is SelectionIndex
        &&& self.registers.contains_key('.') && self.registers['.'] is SelectionContents
        &&& self.registers.contains_key('%') && self.registers['%'] is DocumentPath
        &&& self.registers.contains_key('*') && self.registers['*'] is SystemClipboard
        &&& self.registers.contains_key('+') && self.registers['+'] is PrimaryClipboard
    }

    /// The register of that name, if there is one.
    pub open spec fn get(self, name: char) -> Option<RegisterModel> {
        if self.registers.contains_key(name) {
            Some(self.registers[name])
        } else {
            None
        }
    }

    /// The values that a read of the register of that name yields.
    pub open spec fn read(self, name: char, editor: EditorView) -> Option<Seq<Seq<char>>> {
        match self.get(name) {
            Some(register) => Some(register.read(editor)),
            None => None,
        }
    }

    /// What a write leaves behind: the register of that name takes it, and
    /// where there is none, a register in memory that holds `values` is made.
    pub open spec fn write(self, name: char, editor: EditorView, values: Seq<Seq<char>>) -> RegistersWritten {
        match self.get(name) {
            Some(register) => {
                let written = register.write(editor, values);
                RegistersWritten {
                    registers: RegistersModel {
                        registers: self.registers.insert(name, written.register),
                    },
                    editor: written.editor,
                    result: written.result,
                }
            },
            None => RegistersWritten {
                registers: RegistersModel {
                    registers: self.registers.insert(
                        name,
                        RegisterModel::Simple { name, values },
                    ),
                },
                editor,
                result: Ok(()),
            },
        }
    }

    /// What a push leaves behind: the register of that name takes it, and
    /// where there is none, the push is a write of the one value.
    pub open spec fn push(self, name: char, editor: EditorView, value: Seq<char>) -> RegistersWritten {
        match self.get(name) {
            Some(register) => {
                let written = register.push(editor, value);
                RegistersWritten {
                    registers: RegistersModel {
                        registers: self.registers.insert(name, written.register),
                    },
                    editor: written.editor,
                    result: written.result,
                }
            },
            None => self.write(name, editor, seq![value]),
        }
    }

    /// The first of the values that a read yields.
    pub open spec fn first(self, name: char, editor: EditorView) -> Option<Seq<char>> {
        match self.read(name, editor) {
            Some(values) => if values.len() > 0 {
                Some(values.first())
            } else {
                None
            },
            None => None,
        }
    }

    /// The last of the values that a read yields.
    pub open spec fn last(self, name: char, editor: EditorView) -> Option<Seq<char>> {
        match self.read(name, editor) {
            Some(values) => if values.len() > 0 {
                Some(values.last())
            } else {
                None
            },
            None => None,
        }
    }

    /// The registry without the registers whose names are not reserved.
    pub open spec fn clear(self) -> Self {
        RegistersModel { registers: self.registers.restrict(Set::new(|name: char| is_special(name))) }
    }

    /// What a removal leaves behind: nothing is taken under a reserved name.
    pub open spec fn remove(self, name: char) -> RegistersRemoved {
        if is_special(name) {
            RegistersRemoved { registers: self, removed: None }
        } else {
            RegistersRemoved {
                registers: RegistersModel { registers: self.registers.remove(name) },
                removed: self.get(name),
            }
        }
    }
}

} // verus!
