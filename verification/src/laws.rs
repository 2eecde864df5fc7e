//! What holds of the registry whatever it holds: the laws that tie its
//! operations together, stated over its mathematical model.

use crate::editor::{ClipboardType, EditorView};
use crate::model::{is_special, RegisterError, RegistersModel, RegistersWritten};
use crate::text::{joined, saved_matches};
use vstd::prelude::*;

verus! {

/// A register under a name that is not reserved is a register in memory.
pub proof fn lemma_plain_names_hold_simple_registers(registers: RegistersModel, name: char)
    requires
        registers.valid(),
        !is_special(name),
        registers.get(name) is Some,
    ensures
        registers.registers[name] is Simple,
        registers.registers[name]->Simple_name == name,
{
    assert(registers.registers.contains_key(name));
}

/// A write and a push leave a valid registry behind.
pub proof fn lemma_valid_is_kept(
    registers: RegistersModel,
    name: char,
    editor: EditorView,
    values: Seq<Seq<char>>,
    value: Seq<char>,
)
    requires
        registers.valid(),
    ensures
        registers.write(name, editor, values).registers.valid(),
        registers.push(name, editor, value).registers.valid(),
{
    let written = registers.write(name, editor, values).registers;
    let pushed = registers.push(name, editor, value).registers;
    assert forall|other: char| #[trigger] written.registers.contains_key(other) implies written.registers[other].name()
        == other by {
        if other != name {
            assert(registers.registers.contains_key(other));
        } else if registers.registers.contains_key(name) {
        }
    }
    assert forall|other: char| #[trigger] pushed.registers.contains_key(other) implies pushed.registers[other].name()
        == other by {
        if other != name {
            assert(registers.registers.contains_key(other));
        } else if registers.registers.contains_key(name) {
        }
    }
}

/// After a write under a name that is not reserved, a read under that name
/// yields the values written, in the order given, whatever the editor holds
/// by then. The write succeeds and leaves the editor as it was.
pub proof fn lemma_write_then_read(
    registers: RegistersModel,
    name: char,
    editor: EditorView,
    values: Seq<Seq<char>>,
    later: EditorView,
)
    requires
        registers.valid(),
        !is_special(name),
    ensures
        registers.write(name, editor, values).result == Ok::<(), RegisterError>(()),
        registers.write(name, editor, values).editor == editor,
        registers.write(name, editor, values).registers.read(name, later) == Some(values),
{
    if registers.get(name) is Some {
        lemma_plain_names_hold_simple_registers(registers, name);
    }
}

/// Under a name that is not reserved and holds no register yet, a push of
/// one value does what a write of that value alone does.
pub proof fn lemma_push_to_unused_name(
    registers: RegistersModel,
    name: char,
    editor: EditorView,
    value: Seq<char>,
)
    requires
        registers.valid(),
        !is_special(name),
        registers.get(name) is None,
    ensures
        registers.push(name, editor, value) == registers.write(name, editor, seq![value]),
{
}

/// A push under a name that is not reserved puts its value before the values
/// that a read yielded until then.
pub proof fn lemma_push_comes_first(
    registers: RegistersModel,
    name: char,
    editor: EditorView,
    value: Seq<char>,
    later: EditorView,
)
    requires
        registers.valid(),
        !is_special(name),
    ensures
        registers.push(name, editor, value).result == Ok::<(), RegisterError>(()),
        registers.push(name, editor, value).registers.read(name, later) == Some(
            seq![value] + match registers.read(name, later) {
                Some(values) => values,
                None => Seq::empty(),
            },
        ),
{
    if registers.get(name) is Some {
        lemma_plain_names_hold_simple_registers(registers, name);
    } else {
        assert(seq![value] + Seq::<Seq<char>>::empty() == seq![value]);
    }
}

/// After a write of no values and pushes of `a` and then `b` under a name
/// that is not reserved, a read yields `b` and then `a`.
pub proof fn lemma_pushes_come_out_latest_first(
    registers: RegistersModel,
    name: char,
    editor: EditorView,
    a: Seq<char>,
    b: Seq<char>,
    later: EditorView,
)
    requires
        registers.valid(),
        !is_special(name),
    ensures
        ({
            let emptied = registers.write(name, editor, Seq::empty());
            let first = emptied.registers.push(name, emptied.editor, a);
            let second = first.registers.push(name, first.editor, b);
            second.registers.read(name, later) == Some(seq![b, a])
        }),
{
    let emptied = registers.write(name, editor, Seq::empty());
    let first = emptied.registers.push(name, emptied.editor, a);
    lemma_write_then_read(registers, name, editor, Seq::empty(), later);
    lemma_valid_is_kept(registers, name, editor, Seq::empty(), a);
    lemma_push_comes_first(emptied.registers, name, emptied.editor, a, later);
    lemma_valid_is_kept(emptied.registers, name, emptied.editor, Seq::empty(), a);
    lemma_push_comes_first(first.registers, name, first.editor, b, later);
    assert(seq![b] + (seq![a] + Seq::<Seq<char>>::empty()) == seq![b, a]);
}

/// Clearing leaves no register under a name that is not reserved, and leaves
/// every reserved register in place and as it was.
pub proof fn lemma_clear(registers: RegistersModel, name: char)
    requires
        registers.valid(),
    ensures
        registers.clear().valid(),
        !is_special(name) ==> registers.clear().get(name) is None,
        is_special(name) ==> registers.clear().get(name) is Some && registers.clear().get(name)
            == registers.get(name),
{
    let cleared = registers.clear();
    assert forall|other: char| #[trigger] cleared.registers.contains_key(other) implies cleared.registers[other].name()
        == other by {
        assert(registers.registers.contains_key(other));
    }
}

/// A removal under a reserved name takes nothing and leaves the registry as
/// it was.
pub proof fn lemma_remove_reserved(registers: RegistersModel, name: char)
    requires
        registers.valid(),
        is_special(name),
    ensures
        registers.remove(name).removed is None,
        registers.remove(name).registers == registers,
{
}

/// A removal under a name that is not reserved takes the register that stood
/// there; afterwards none stands there, and the other registers stand as
/// they did.
pub proof fn lemma_remove(registers: RegistersModel, name: char, other: char)
    requires
        registers.valid(),
        !is_special(name),
    ensures
        registers.remove(name).removed == registers.get(name),
        registers.remove(name).registers.get(name) is None,
        registers.remove(name).registers.valid(),
        other != name ==> registers.remove(name).registers.get(other) == registers.get(other),
{
    let removed = registers.remove(name).registers;
    assert forall|kept: char| #[trigger] removed.registers.contains_key(kept) implies removed.registers[kept].name()
        == kept by {
        assert(registers.registers.contains_key(kept));
    }
}

/// A value handed to a register: by a write, in place of what it holds, or
/// by a push, before what it holds.
pub enum Deposit {
    Write(Seq<Seq<char>>),
    Push(Seq<char>),
}

/// What handing `deposits`, one after another, to the register of a name
/// leaves behind. The result is that of the first deposit that failed, if
/// one did.
pub open spec fn deposit_all(
    registers: RegistersModel,
    editor: EditorView,
    name: char,
    deposits: Seq<Deposit>,
) -> RegistersWritten
    decreases deposits.len(),
{
    if deposits.len() == 0 {
        RegistersWritten { registers, editor, result: Ok(()) }
    } else {
        let before = deposit_all(registers, editor, name, deposits.drop_last());
        let step = match deposits.last() {
            Deposit::Write(values) => before.registers.write(name, before.editor, values),
            Deposit::Push(value) => before.registers.push(name, before.editor, value),
        };
        RegistersWritten {
            registers: step.registers,
            editor: step.editor,
            result: if before.result is Ok {
                step.result
            } else {
                before.result
            },
        }
    }
}

/// Whatever is written or pushed to the register that discards, every write
/// and push succeeds, registry and editor stay as they were, and a read
/// yields no value.
pub proof fn lemma_blackhole_discards(
    registers: RegistersModel,
    editor: EditorView,
    deposits: Seq<Deposit>,
    later: EditorView,
)
    requires
        registers.valid(),
    ensures
        deposit_all(registers, editor, '_', deposits) == (RegistersWritten {
            registers,
            editor,
            result: Ok(()),
        }),
        registers.read('_', later) == Some(Seq::<Seq<char>>::empty()),
    decreases deposits.len(),
{
    if deposits.len() > 0 {
        lemma_blackhole_discards(registers, editor, deposits.drop_last(), later);
        assert(registers.registers.insert('_', registers.registers['_']) == registers.registers);
    }
}

/// The name of the register that mirrors a clipboard channel.
pub open spec fn clipboard_register(clipboard_type: ClipboardType) -> char {
    match clipboard_type {
        ClipboardType::Clipboard => '*',
        ClipboardType::Selection => '+',
    }
}

/// A write of at least one value to a clipboard register whose channel can
/// be reached succeeds and leaves the values, joined by the line ending, on
/// the channel; a read that finds the channel unchanged yields the values,
/// one by one.
pub proof fn lemma_clipboard_round_trip(
    registers: RegistersModel,
    clipboard_type: ClipboardType,
    editor: EditorView,
    values: Seq<Seq<char>>,
)
    requires
        registers.valid(),
        values.len() > 0,
        editor.clipboard.channel(clipboard_type).contents is Some,
    ensures
        ({
            let name = clipboard_register(clipboard_type);
            let written = registers.write(name, editor, values);
            &&& written.result == Ok::<(), RegisterError>(())
            &&& written.editor.clipboard.channel(clipboard_type).contents == Some(
                joined(values, editor.line_ending),
            )
            &&& written.registers.read(name, written.editor) == Some(values)
        }),
{
    let text = joined(values, editor.line_ending);
    assert(text.is_prefix_of(text));
}

/// Saved values match every text that starts with them joined, whatever
/// follows them in the text; and no text matches where nothing is saved.
pub proof fn lemma_saved_match_any_continuation(
    saved: Seq<Seq<char>>,
    sep: Seq<char>,
    rest: Seq<char>,
)
    ensures
        saved.len() > 0 ==> saved_matches(saved, sep, joined(saved, sep) + rest),
        saved.len() == 0 ==> !saved_matches(saved, sep, rest),
{
    let text = joined(saved, sep);
    assert((text + rest).subrange(0, text.len() as int) == text);
}

} // verus!
