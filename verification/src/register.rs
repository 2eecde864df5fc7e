//! The registers: what every register offers, and the kinds there are.

use crate::clipboard::{read_from_clipboard, save_to_clipboard};
use crate::editor::{ClipboardType, Editor, SCRATCH_BUFFER_NAME};
use crate::model::{RegisterError, RegisterModel};
use crate::text::{copied, copied_reversed, decimal, decimal_string, first_line_of, reversed};
use vstd::prelude::*;
use vstd::string::*;

verus! {

/// What every register offers. A register that does not say otherwise takes
/// no values: `write` and `push` then fail and name the register.
pub trait Register {
    /// The register as a mathematical value.
    spec fn model(&self) -> RegisterModel;

    /// The name under which the register is kept.
    fn name(&self) -> (name: char)
        ensures
            name == self.model().name(),
    ;

    /// A one-line summary of what the register holds.
    fn preview(&self) -> (text: &str)
        ensures
            text@ == self.model().preview(),
    ;

    /// The values of the register, in order.
    fn read(&self, editor: &Editor) -> (values: Vec<String>)
        ensures
            values.deep_view() == self.model().read(editor@),
    ;

    /// Replaces the values of the register by `values`.
    fn write(&mut self, editor: &mut Editor, values: Vec<String>) -> (res: Result<
        (),
        RegisterError,
    >)
        ensures
            !old(self).model().writable() ==> old(self).model().write(
                old(editor)@,
                values.deep_view(),
            ).is(final(self).model(), final(editor)@, res),
    {
        Err(RegisterError::NotWritable(self.name()))
    }

    /// Adds `value` to the values of the register.
    fn push(&mut self, editor: &mut Editor, value: String) -> (res: Result<(), RegisterError>)
        ensures
            !old(self).model().writable() ==> old(self).model().push(old(editor)@, value@).is(
                final(self).model(),
                final(editor)@,
                res,
            ),
    {
        Err(RegisterError::NotWritable(self.name()))
    }
}

/// A register in memory: it holds the values given to it and yields them
/// when read.
#[derive(Debug)]
pub struct SimpleRegister {
    name: char,
    /// The values, the most recently pushed last.
    values: Vec<String>,
}

impl SimpleRegister {
    /// A register that holds `values`, the first of them first.
    pub fn new_with_values(name: char, values: Vec<String>) -> (register: Self)
        ensures
            register.model() == (RegisterModel::Simple { name, values: values.deep_view() }),
    {
        let register = SimpleRegister { name, values: reversed(values) };
        proof {
            assert(values.deep_view().reverse().reverse() == values.deep_view());
        }
        register
    }
}

impl Register for SimpleRegister {
    closed spec fn model(&self) -> RegisterModel {
        RegisterModel::Simple { name: self.name, values: self.values.deep_view().reverse() }
    }

    fn name(&self) -> (name: char) {
        self.name
    }

    fn preview(&self) -> (text: &str) {
        proof {
            reveal_strlit("<empty>");
        }
        let count = self.values.len();
        if count == 0 {
            return "<empty>";
        }
        let first = self.values[count - 1].as_str();
        assert(first@ == self.model().values()[0]);
        if first.is_empty() {
            "<empty>"
        } else {
            first_line_of(first)
        }
    }

    fn read(&self, editor: &Editor) -> (values: Vec<String>) {
        copied_reversed(self.values.as_slice())
    }

    fn write(&mut self, editor: &mut Editor, values: Vec<String>) -> (res: Result<
        (),
        RegisterError,
    >)
        ensures
            old(self).model().write(old(editor)@, values.deep_view()).is(
                final(self).model(),
                final(editor)@,
                res,
            ),
    {
        self.values = reversed(values);
        proof {
            assert(values.deep_view().reverse().reverse() == values.deep_view());
        }
        Ok(())
    }

    fn push(&mut self, editor: &mut Editor, value: String) -> (res: Result<(), RegisterError>)
        ensures
            old(self).model().push(old(editor)@, value@).is(
                final(self).model(),
                final(editor)@,
                res,
            ),
    {
        let ghost before = self.values;
        self.values.push(value);
        proof {
            assert(self.values@ == before@.push(value));
            assert(self.values.deep_view().reverse() == seq![value@]
                + before.deep_view().reverse());
        }
        Ok(())
    }
}

/// The register that discards what it is given and always yields nothing.
#[derive(Debug)]
pub struct BlackholeRegister {}

impl Default for BlackholeRegister {
    fn default() -> (register: Self)
        ensures
            register.model() == (RegisterModel::Blackhole),
    {
        BlackholeRegister {}
    }
}

impl Register for BlackholeRegister {
    open spec fn model(&self) -> RegisterModel {
        RegisterModel::Blackhole
    }

    fn name(&self) -> (name: char) {
        '_'
    }

    fn preview(&self) -> (text: &str) {
        "<empty>"
    }

    fn read(&self, editor: &Editor) -> (values: Vec<String>) {
        let values: Vec<String> = Vec::new();
        assert(values.deep_view() == Seq::<Seq<char>>::empty());
        values
    }

    fn write(&mut self, editor: &mut Editor, values: Vec<String>) -> (res: Result<
        (),
        RegisterError,
    >)
        ensures
            old(self).model().write(old(editor)@, values.deep_view()).is(
                final(self).model(),
                final(editor)@,
                res,
            ),
    {
        Ok(())
    }

    fn push(&mut self, editor: &mut Editor, value: String) -> (res: Result<(), RegisterError>)
        ensures
            old(self).model().push(old(editor)@, value@).is(
                final(self).model(),
                final(editor)@,
                res,
            ),
    {
        Ok(())
    }
}

/// The register that yields the number of each selection, counted from one.
#[derive(Debug)]
pub struct SelectionIndexRegister {}

impl Default for SelectionIndexRegister {
    fn default() -> (register: Self)
        ensures
            register.model() == (RegisterModel::SelectionIndex),
    {
        SelectionIndexRegister {}
    }
}

impl Register for SelectionIndexRegister {
    open spec fn model(&self) -> RegisterModel {
        RegisterModel::SelectionIndex
    }

    fn name(&self) -> (name: char) {
        '#'
    }

    fn preview(&self) -> (text: &str) {
        "<selection indices>"
    }

    fn read(&self, editor: &Editor) -> (values: Vec<String>) {
        let selections = editor.selections.len();
        let mut values: Vec<String> = Vec::new();
        let mut i: usize = 0;
        while i < selections
            invariant
                i <= selections,
                values@.len() == i,
                forall|j: int| 0 <= j < i ==> values@[j]@ == decimal((j + 1) as nat),
            decreases selections - i,
        {
            values.push(decimal_string(i + 1));
            i += 1;
        }
        assert(values.deep_view() == self.model().read(editor@));
        values
    }
}

/// The register that yields the text of each selection.
#[derive(Debug)]
pub struct SelectionContentsRegister {}

impl Default for SelectionContentsRegister {
    fn default() -> (register: Self)
        ensures
            register.model() == (RegisterModel::SelectionContents),
    {
        SelectionContentsRegister {}
    }
}

impl Register for SelectionContentsRegister {
    open spec fn model(&self) -> RegisterModel {
        RegisterModel::SelectionContents
    }

    fn name(&self) -> (name: char) {
        '.'
    }

    fn preview(&self) -> (text: &str) {
        "<selection contents>"
    }

    fn read(&self, editor: &Editor) -> (values: Vec<String>) {
        copied(editor.selections.as_slice())
    }
}

/// The register that yields the path of the document, or the name of the
/// scratch buffer where the document has no path.
#[derive(Debug)]
pub struct DocumentPathRegister {}

impl Default for DocumentPathRegister {
    fn default() -> (register: Self)
        ensures
            register.model() == (RegisterModel::DocumentPath),
    {
        DocumentPathRegister {}
    }
}

impl Register for DocumentPathRegister {
    open spec fn model(&self) -> RegisterModel {
        RegisterModel::DocumentPath
    }

    fn name(&self) -> (name: char) {
        '%'
    }

    fn preview(&self) -> (text: &str) {
        "<document path>"
    }

    fn read(&self, editor: &Editor) -> (values: Vec<String>) {
        let path = match &editor.path {
            Some(path) => path.clone(),
            None => SCRATCH_BUFFER_NAME.to_owned(),
        };
        let mut values: Vec<String> = Vec::new();
        values.push(path);
        assert(values.deep_view() == self.model().read(editor@));
        values
    }
}

/// The register that mirrors the system clipboard.
#[derive(Debug)]
pub struct SystemClipboardRegister {
    /// The values last handed to the clipboard.
    values: Vec<String>,
}

impl Default for SystemClipboardRegister {
    fn default() -> (register: Self)
        ensures
            register.model() == (RegisterModel::SystemClipboard { saved: Seq::empty() }),
    {
        let register = SystemClipboardRegister { values: Vec::new() };
        assert(register.values.deep_view() == Seq::<Seq<char>>::empty());
        register
    }
}

impl Register for SystemClipboardRegister {
    closed spec fn model(&self) -> RegisterModel {
        RegisterModel::SystemClipboard { saved: self.values.deep_view() }
    }

    fn name(&self) -> (name: char) {
        '*'
    }

    fn preview(&self) -> (text: &str) {
        "<system clipboard>"
    }

    fn read(&self, editor: &Editor) -> (values: Vec<String>) {
        read_from_clipboard(self.values.as_slice(), editor, ClipboardType::Clipboard)
    }

    fn write(&mut self, editor: &mut Editor, values: Vec<String>) -> (res: Result<
        (),
        RegisterError,
    >)
        ensures
            old(self).model().write(old(editor)@, values.deep_view()).is(
                final(self).model(),
                final(editor)@,
                res,
            ),
    {
        self.values = values;
        save_to_clipboard(self.values.as_slice(), editor, ClipboardType::Clipboard)
    }

    fn push(&mut self, editor: &mut Editor, value: String) -> (res: Result<(), RegisterError>)
        ensures
            old(self).model().push(old(editor)@, value@).is(
                final(self).model(),
                final(editor)@,
                res,
            ),
    {
        let ghost before = self.values;
        self.values.push(value);
        proof {
            assert(self.values.deep_view() == before.deep_view().push(value@));
        }
        save_to_clipboard(self.values.as_slice(), editor, ClipboardType::Clipboard)
    }
}

/// The register that mirrors the primary selection.
#[derive(Debug)]
pub struct PrimaryClipboardRegister {
    /// The values last handed to the clipboard.
    values: Vec<String>,
}

impl Default for PrimaryClipboardRegister {
    fn default() -> (register: Self)
        ensures
            register.model() == (RegisterModel::PrimaryClipboard { saved: Seq::empty() }),
    {
        let register = PrimaryClipboardRegister { values: Vec::new() };
        assert(register.values.deep_view() == Seq::<Seq<char>>::empty());
        register
    }
}

impl Register for PrimaryClipboardRegister {
    closed spec fn model(&self) -> RegisterModel {
        RegisterModel::PrimaryClipboard { saved: self.values.deep_view() }
    }

    fn name(&self) -> (name: char) {
        '+'
    }

    fn preview(&self) -> (text: &str) {
        "<primary clipboard>"
    }

    fn read(&self, editor: &Editor) -> (values: Vec<String>) {
        read_from_clipboard(self.values.as_slice(), editor, ClipboardType::Selection)
    }

    fn write(&mut self, editor: &mut Editor, values: Vec<String>) -> (res: Result<
        (),
        RegisterError,
    >)
        ensures
            old(self).model().write(old(editor)@, values.deep_view()).is(
                final(self).model(),
                final(editor)@,
                res,
            ),
    {
        self.values = values;
        save_to_clipboard(self.values.as_slice(), editor, ClipboardType::Selection)
    }

    fn push(&mut self, editor: &mut Editor, value: String) -> (res: Result<(), RegisterError>)
        ensures
            old(self).model().push(old(editor)@, value@).is(
                final(self).model(),
                final(editor)@,
                res,
            ),
    {
        let ghost before = self.values;
        self.values.push(value);
        proof {
            assert(self.values.deep_view() == before.deep_view().push(value@));
        }
        save_to_clipboard(self.values.as_slice(), editor, ClipboardType::Selection)
    }
}

/// A register of any kind.
#[derive(Debug)]
pub enum AnyRegister {
    Simple(SimpleRegister),
    Blackhole(BlackholeRegister),
    SelectionIndex(SelectionIndexRegister),
    SelectionContents(SelectionContentsRegister),
    DocumentPath(DocumentPathRegister),
    SystemClipboard(SystemClipboardRegister),
    PrimaryClipboard(PrimaryClipboardRegister),
}

impl AnyRegister {
    /// The clipboard channel that the register mirrors, if it mirrors one:
    /// the channel whose text a read of the register looks at.
    pub fn clipboard_type(&self) -> (clipboard_type: Option<ClipboardType>)
        ensures
            clipboard_type == self.model().clipboard_type(),
    {
        match self {
            AnyRegister::SystemClipboard(_) => Some(ClipboardType::Clipboard),
            AnyRegister::PrimaryClipboard(_) => Some(ClipboardType::Selection),
            _ => None,
        }
    }
}

impl Register for AnyRegister {
    open spec fn model(&self) -> RegisterModel {
        match self {
            AnyRegister::Simple(register) => register.model(),
            AnyRegister::Blackhole(register) => register.model(),
            AnyRegister::SelectionIndex(register) => register.model(),
            AnyRegister::SelectionContents(register) => register.model(),
            AnyRegister::DocumentPath(register) => register.model(),
            AnyRegister::SystemClipboard(register) => register.model(),
            AnyRegister::PrimaryClipboard(register) => register.model(),
        }
    }

    fn name(&self) -> (name: char) {
        match self {
            AnyRegister::Simple(register) => register.name(),
            AnyRegister::Blackhole(register) => register.name(),
            AnyRegister::SelectionIndex(register) => register.name(),
            AnyRegister::SelectionContents(register) => register.name(),
            AnyRegister::DocumentPath(register) => register.name(),
            AnyRegister::SystemClipboard(register) => register.name(),
            AnyRegister::PrimaryClipboard(register) => register.name(),
        }
    }

    fn preview(&self) -> (text: &str) {
        match self {
            AnyRegister::Simple(register) => register.preview(),
            AnyRegister::Blackhole(register) => register.preview(),
            AnyRegister::SelectionIndex(register) => register.preview(),
            AnyRegister::SelectionContents(register) => register.preview(),
            AnyRegister::DocumentPath(register) => register.preview(),
            AnyRegister::SystemClipboard(register) => register.preview(),
            AnyRegister::PrimaryClipboard(register) => register.preview(),
        }
    }

    fn read(&self, editor: &Editor) -> (values: Vec<String>) {
        match self {
            AnyRegister::Simple(register) => register.read(editor),
            AnyRegister::Blackhole(register) => register.read(editor),
            AnyRegister::SelectionIndex(register) => register.read(editor),
            AnyRegister::SelectionContents(register) => register.read(editor),
            AnyRegister::DocumentPath(register) => register.read(editor),
            AnyRegister::SystemClipboard(register) => register.read(editor),
            AnyRegister::PrimaryClipboard(register) => register.read(editor),
        }
    }

    fn write(&mut self, editor: &mut Editor, values: Vec<String>) -> (res: Result<
        (),
        RegisterError,
    >)
        ensures
            old(self).model().write(old(editor)@, values.deep_view()).is(
                final(self).model(),
                final(editor)@,
                res,
            ),
    {
        match self {
            AnyRegister::Simple(register) => register.write(editor, values),
            AnyRegister::Blackhole(register) => register.write(editor, values),
            AnyRegister::SelectionIndex(register) => register.write(editor, values),
            AnyRegister::SelectionContents(register) => register.write(editor, values),
            AnyRegister::DocumentPath(register) => register.write(editor, values),
            AnyRegister::SystemClipboard(register) => register.write(editor, values),
            AnyRegister::PrimaryClipboard(register) => register.write(editor, values),
        }
    }

    fn push(&mut self, editor: &mut Editor, value: String) -> (res: Result<(), RegisterError>)
        ensures
            old(self).model().push(old(editor)@, value@).is(
                final(self).model(),
                final(editor)@,
                res,
            ),
    {
        match self {
            AnyRegister::Simple(register) => register.push(editor, value),
            AnyRegister::Blackhole(register) => register.push(editor, value),
            AnyRegister::SelectionIndex(register) => register.push(editor, value),
            AnyRegister::SelectionContents(register) => register.push(editor, value),
            AnyRegister::DocumentPath(register) => register.push(editor, value),
            AnyRegister::SystemClipboard(register) => register.push(editor, value),
            AnyRegister::PrimaryClipboard(register) => register.push(editor, value),
        }
    }
}

} // verus!
