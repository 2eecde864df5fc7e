//! The registry: the registers of an editor, by name.

use crate::editor::Editor;
use crate::model::{is_special, RegisterError, RegisterModel, RegistersModel};
use crate::register::{
    AnyRegister, BlackholeRegister, DocumentPathRegister, PrimaryClipboardRegister, Register,
    SelectionContentsRegister, SelectionIndexRegister, SimpleRegister, SystemClipboardRegister,
};
use std::collections::HashMap;
use vstd::prelude::*;
use vstd::std_specs::hash::spec_hash_map_iter;
use vstd::std_specs::iter::IteratorSpec;

verus! {

/// The reserved names. Their registers always exist: they are never removed
/// and never cleared.
pub const SPECIAL_REGISTERS: [char; 6] = ['_', '#', '.', '%', '*', '+'];

/// The reserved names are those of `SPECIAL_REGISTERS`.
pub proof fn lemma_special_registers(name: char)
    ensures
        is_special(name) <==> SPECIAL_REGISTERS@.contains(name),
{
    let names = SPECIAL_REGISTERS@;
    assert(names[0] == '_' && names[1] == '#' && names[2] == '.' && names[3] == '%' && names[4]
        == '*' && names[5] == '+');
}

/// Whether `name` is one of the reserved names.
pub fn is_special_register(name: char) -> (special: bool)
    ensures
        special == is_special(name),
{
    name == '_' || name == '#' || name == '.' || name == '%' || name == '*' || name == '+'
}

/// The number under which the register of a name is kept.
spec fn key_of(name: char) -> u32 {
    name as u32
}

/// Two names are kept under one number only where they are one name.
proof fn lemma_key_of()
    ensures
        forall|a: char, b: char|
            #![trigger key_of(a), key_of(b)]
            key_of(a) == key_of(b) ==> a == b,
{
    assert forall|a: char, b: char| #![trigger key_of(a), key_of(b)] key_of(a) == key_of(b) implies a
        == b by {
        vstd::utf8::char_u32_cast(a, key_of(a));
        vstd::utf8::char_u32_cast(b, key_of(b));
    }
}

/// The registers of an editor, by name.
#[derive(Debug)]
pub struct Registers {
    /// The registers, each under the number of its name.
    inner: HashMap<u32, AnyRegister>,
}

impl View for Registers {
    type V = RegistersModel;

    closed spec fn view(&self) -> RegistersModel {
        RegistersModel {
            registers: Map::new(
                |name: char| self.inner@.contains_key(key_of(name)),
                |name: char| self.inner@[key_of(name)].model(),
            ),
        }
    }
}

impl Registers {
    /// What holds of every registry that this library hands out.
    pub closed spec fn wf(&self) -> bool {
        &&& self@.valid()
        &&& forall|key: u32| #[trigger]
            self.inner@.contains_key(key) ==> key_of(self.inner@[key].model().name()) == key
    }

    /// A well-formed registry is a valid one.
    pub proof fn lemma_valid(&self)
        requires
            self.wf(),
        ensures
            self@.valid(),
    {
    }

    /// The register of that name, if there is one.
    pub fn get(&self, name: char) -> (register: Option<&AnyRegister>)
        ensures
            match register {
                Some(register) => self@.get(name) == Some(register.model()),
                None => self@.get(name) is None,
            },
    {
        self.inner.get(&(name as u32))
    }

    /// The values of the register of that name, in order.
    pub fn read(&self, name: char, editor: &Editor) -> (values: Option<Vec<String>>)
        ensures
            match values {
                Some(values) => self@.read(name, editor@) == Some(values.deep_view()),
                None => self@.read(name, editor@) is None,
            },
    {
        match self.get(name) {
            Some(register) => Some(register.read(editor)),
            None => None,
        }
    }

    /// Replaces the values of the register of that name by `values`. Where
    /// there is no such register, one that holds `values` is made.
    pub fn write(&mut self, name: char, editor: &mut Editor, values: Vec<String>) -> (res: Result<
        (),
        RegisterError,
    >)
        requires
            old(self).wf(),
        ensures
            final(self).wf(),
            old(self)@.write(name, old(editor)@, values.deep_view()).is(
                final(self)@,
                final(editor)@,
                res,
            ),
    {
        let key = name as u32;
        match self.inner.remove(&key) {
            Some(register) => {
                let mut register = register;
                let res = register.write(editor, values);
                self.inner.insert(key, register);
                proof {
                    lemma_key_of();
                    assert(self@.registers == old(self)@.registers.insert(
                        name,
                        register.model(),
                    ));
                }
                res
            },
            None => {
                let register = SimpleRegister::new_with_values(name, values);
                self.inner.insert(key, AnyRegister::Simple(register));
                proof {
                    lemma_key_of();
                    assert(self@.registers == old(self)@.registers.insert(
                        name,
                        register.model(),
                    ));
                }
                Ok(())
            },
        }
    }

    /// Adds `value` to the register of that name. Where there is no such
    /// register, one that holds `value` is made.
    pub fn push(&mut self, name: char, editor: &mut Editor, value: String) -> (res: Result<
        (),
        RegisterError,
    >)
        requires
            old(self).wf(),
        ensures
            final(self).wf(),
            old(self)@.push(name, old(editor)@, value@).is(final(self)@, final(editor)@, res),
    {
        let key = name as u32;
        match self.inner.remove(&key) {
            Some(register) => {
                let mut register = register;
                let res = register.push(editor, value);
                self.inner.insert(key, register);
                proof {
                    lemma_key_of();
                    assert(self@.registers == old(self)@.registers.insert(
                        name,
                        register.model(),
                    ));
                }
                res
            },
            None => {
                let mut values: Vec<String> = Vec::new();
                values.push(value);
                proof {
                    assert(values.deep_view() == seq![value@]);
                    assert(self.inner@ == old(self).inner@);
                }
                self.write(name, editor, values)
            },
        }
    }

    /// The first of the values of the register of that name.
    pub fn first(&self, name: char, editor: &Editor) -> (value: Option<String>)
        ensures
            match value {
                Some(value) => self@.first(name, editor@) == Some(value@),
                None => self@.first(name, editor@) is None,
            },
    {
        match self.read(name, editor) {
            Some(values) => {
                let mut values = values;
                if values.len() > 0 {
                    assert(values.deep_view().first() == values@[0]@);
                    Some(values.swap_remove(0))
                } else {
                    None
                }
            },
            None => None,
        }
    }

    /// The last of the values of the register of that name.
    pub fn last(&self, name: char, editor: &Editor) -> (value: Option<String>)
        ensures
            match value {
                Some(value) => self@.last(name, editor@) == Some(value@),
                None => self@.last(name, editor@) is None,
            },
    {
        match self.read(name, editor) {
            Some(values) => {
                let mut values = values;
                proof {
                    if values@.len() > 0 {
                        assert(values.deep_view().last() == values@.last()@);
                    }
                }
                values.pop()
            },
            None => None,
        }
    }

    /// The name and the preview of every register, each register once, in
    /// no particular order.
    pub fn iter_preview(&self) -> (previews: Vec<(char, &str)>)
        requires
            self.wf(),
        ensures
            forall|i: int|
                0 <= i < previews@.len() ==> self@.registers.contains_key(
                    (#[trigger] previews@[i]).0,
                ) && previews@[i].1@ == self@.registers[previews@[i].0].preview(),
            forall|i: int, j: int|
                0 <= i < j < previews@.len() ==> (#[trigger] previews@[i]).0
                    != (#[trigger] previews@[j]).0,
            forall|name: char| #[trigger]
                self@.registers.contains_key(name) ==> exists|i: int|
                    0 <= i < previews@.len() && (#[trigger] previews@[i]).0 == name,
    {
        let mut previews: Vec<(char, &str)> = Vec::new();
        let ghost all = spec_hash_map_iter(&self.inner).remaining();
        proof {
            assert forall|key: u32| #[trigger] self.inner@.contains_key(key) implies exists|i: int|
                0 <= i < all.len() && *(#[trigger] all[i]).0 == key by {
                let i = all.index_of((&key, &self.inner@[key]));
                assert(all[i] == (&key, &self.inner@[key]));
            }
        }
        for entry in entries: self.inner.iter()
            invariant
                self.wf(),
                entries.seq() == all,
                forall|i: int|
                    0 <= i < all.len() ==> self.inner@.contains_key(*(#[trigger] all[i]).0)
                        && self.inner@[*all[i].0] == *all[i].1,
                previews@.len() == entries.index(),
                forall|i: int|
                    0 <= i < previews@.len() ==> key_of((#[trigger] previews@[i]).0) == *all[i].0
                        && previews@[i].1@ == all[i].1.model().preview(),
        {
            let (key, register) = entry;
            previews.push((register.name(), register.preview()));
        }
        assert(previews@.len() == all.len());
        assert(all.no_duplicates());
        proof {
            lemma_key_of();
            assert forall|i: int, j: int| 0 <= i < j < previews@.len() implies (
            #[trigger] previews@[i]).0 != (#[trigger] previews@[j]).0 by {
                if previews@[i].0 == previews@[j].0 {
                    assert(all[i] == all[j]);
                }
            }
            assert forall|name: char| #[trigger] self@.registers.contains_key(name) implies exists|
                i: int,
            |
                0 <= i < previews@.len() && (#[trigger] previews@[i]).0 == name by {
                let i = choose|i: int| 0 <= i < all.len() && *(#[trigger] all[i]).0 == key_of(name);
                assert(key_of(previews@[i].0) == key_of(name));
            }
        }
        previews
    }

    /// Removes every register whose name is not reserved.
    pub fn clear(&mut self)
        requires
            old(self).wf(),
        ensures
            final(self).wf(),
            final(self)@ == old(self)@.clear(),
    {
        let mut kept: HashMap<u32, AnyRegister> = HashMap::new();
        keep(&mut self.inner, &mut kept, '_');
        keep(&mut self.inner, &mut kept, '#');
        keep(&mut self.inner, &mut kept, '.');
        keep(&mut self.inner, &mut kept, '%');
        keep(&mut self.inner, &mut kept, '*');
        keep(&mut self.inner, &mut kept, '+');
        self.inner = kept;
        proof {
            lemma_key_of();
            assert(self@.registers == old(self)@.clear().registers);
        }
    }

    /// Takes the register of that name out of the registry. A reserved
    /// register stays where it is.
    pub fn remove(&mut self, name: char) -> (removed: Option<AnyRegister>)
        requires
            old(self).wf(),
        ensures
            final(self).wf(),
            final(self)@ == old(self)@.remove(name).registers,
            match removed {
                Some(register) => old(self)@.remove(name).removed == Some(register.model()),
                None => old(self)@.remove(name).removed is None,
            },
    {
        if is_special_register(name) {
            None
        } else {
            let removed = self.inner.remove(&(name as u32));
            proof {
                lemma_key_of();
                assert(self@.registers == old(self)@.registers.remove(name));
            }
            removed
        }
    }
}

/// Moves the register of that name, if there is one, from `from` to `to`.
fn keep(from: &mut HashMap<u32, AnyRegister>, to: &mut HashMap<u32, AnyRegister>, name: char)
    ensures
        final(from)@ == old(from)@.remove(key_of(name)),
        final(to)@ == if old(from)@.contains_key(key_of(name)) {
            old(to)@.insert(key_of(name), old(from)@[key_of(name)])
        } else {
            old(to)@
        },
{
    let key = name as u32;
    match from.remove(&key) {
        Some(register) => {
            to.insert(key, register);
        },
        None => {},
    }
}

impl Default for Registers {
    /// The registry with the reserved registers and no others.
    fn default() -> (registers: Self)
        ensures
            registers.wf(),
            registers@ == RegistersModel::initial(),
    {
        let mut inner: HashMap<u32, AnyRegister> = HashMap::new();
        inner.insert('_' as u32, AnyRegister::Blackhole(BlackholeRegister::default()));
        inner.insert('#' as u32, AnyRegister::SelectionIndex(SelectionIndexRegister::default()));
        inner.insert(
            '.' as u32,
            AnyRegister::SelectionContents(SelectionContentsRegister::default()),
        );
        inner.insert('%' as u32, AnyRegister::DocumentPath(DocumentPathRegister::default()));
        inner.insert('*' as u32, AnyRegister::SystemClipboard(SystemClipboardRegister::default()));
        inner.insert(
            '+' as u32,
            AnyRegister::PrimaryClipboard(PrimaryClipboardRegister::default()),
        );
        let registers = Registers { inner };
        proof {
            lemma_key_of();
            assert(inner@.dom() =~= set![
                key_of('_'),
                key_of('#'),
                key_of('.'),
                key_of('%'),
                key_of('*'),
                key_of('+'),
            ]);
            assert(registers@.registers == RegistersModel::initial().registers);
        }
        registers
    }
}

} // verus!
