//! The binary form of a resolved program.
//!
//! A program is stored as a message with one repeated field, tag 1, that
//! holds its commands. A command is a message with a text, tag 1, and one
//! repeated field, tag 2, that holds its children. Every field is
//! delimited by its length: a key, the length of the value as a
//! variable-length integer, and the value. A text is stored in UTF-8, and
//! an empty text is left out.

use crate::parser::ast::{Command as AstCommand, Program as AstProgram, Tree, forest};
use crate::parser::errors::{ErrorView, ParseError};
use crate::parser::wire::{
    WireKind, decode_key, decode_varint, encode_key, encode_varint, parsed_key, parsed_varint,
    skip_field, skipped, skipped_group, str_from_utf8, varint, varint_from,
};
use crate::parser::roundtrip::lemma_program_read_back;
use vstd::prelude::*;
use vstd::utf8::{decode_utf8, encode_utf8, valid_utf8};

verus! {

/// A field whose value is delimited by its length.
pub open spec fn field(tag: nat, value: Seq<u8>) -> Seq<u8> {
    varint(tag * 8 + 2) + varint(value.len()) + value
}

/// The tag of the field that holds the commands of a message: 1 in a
/// program, 2 in a command.
pub open spec fn child_tag(top: bool) -> nat {
    if top {
        1
    } else {
        2
    }
}

/// The bytes of a command: its text, unless it is empty, and then its
/// children in order.
pub open spec fn command_bytes(tree: Tree) -> Seq<u8>
    decreases tree,
{
    if tree.text.len() == 0 {
        commands_bytes(tree.children, 2)
    } else {
        field(1, encode_utf8(tree.text)) + commands_bytes(tree.children, 2)
    }
}

/// The bytes of a sequence of commands, each a field with the given tag.
pub open spec fn commands_bytes(trees: Seq<Tree>, tag: nat) -> Seq<u8>
    decreases trees,
{
    if trees.len() == 0 {
        Seq::empty()
    } else {
        commands_bytes(trees.drop_last(), tag) + field(tag, command_bytes(trees.last()))
    }
}

/// The bytes of a program.
pub open spec fn program_bytes(trees: Seq<Tree>) -> Seq<u8> {
    commands_bytes(trees, 1)
}

/// The command without text and without children.
pub open spec fn empty_tree() -> Tree {
    Tree { text: Seq::empty(), children: Seq::empty() }
}

/// What a field holds: a command, a text, or something that this schema
/// does not know.
pub enum FieldView {
    Child(Seq<u8>),
    Text(Seq<u8>),
    Other,
}

/// Why bytes are not a program.
#[derive(Clone, Copy, Debug, PartialEq, Eq, Structural)]
pub enum DecodeFault {
    /// The bytes do not go on with a field key.
    Key,
    /// A command or a text is not delimited by its length.
    WireType,
    /// The length of a command or a text is no variable-length integer.
    Length,
    /// A command or a text is longer than the bytes that are left.
    Underflow,
    /// A text is no valid UTF-8.
    Text,
    /// A field that this schema does not know cannot be skipped.
    Unknown,
}

/// The message that tells a reader of a fault.
pub open spec fn fault_text(fault: DecodeFault) -> Seq<char> {
    match fault {
        DecodeFault::Key => "failed to decode program: invalid field key"@,
        DecodeFault::WireType => "failed to decode program: invalid wire type"@,
        DecodeFault::Length => "failed to decode program: invalid length"@,
        DecodeFault::Underflow => "failed to decode program: buffer underflow"@,
        DecodeFault::Text => "failed to decode program: text is not UTF-8 encoded"@,
        DecodeFault::Unknown => "failed to decode program: malformed unknown field"@,
    }
}

/// The error that reports a fault.
pub open spec fn fault_error(fault: DecodeFault) -> ErrorView {
    ErrorView::Codec { message: fault_text(fault) }
}

/// The field at the start of bytes, and its length. `top` says whether the
/// bytes belong to a program or to a command.
///
/// A field starts with a key. A field with the tag of the children holds a
/// command; in a command, a field with tag 1 holds the text. Both must be
/// delimited by their length, and their value must lie within the bytes. A
/// field with any other tag is skipped, whatever its kind. Where the bytes
/// do not start with such a field, the result is the first fault met.
pub open spec fn first_field(bytes: Seq<u8>, top: bool) -> Result<(FieldView, nat), DecodeFault> {
    match parsed_key(bytes) {
        None => Err(DecodeFault::Key),
        Some((tag, kind, key_length)) => {
            let rest = bytes.skip(key_length as int);
            if tag == child_tag(top) || (!top && tag == 1) {
                if kind != WireKind::LengthDelimited {
                    Err(DecodeFault::WireType)
                } else {
                    match parsed_varint(rest) {
                        None => Err(DecodeFault::Length),
                        Some((size, size_length)) => if size > rest.len() - size_length {
                            Err(DecodeFault::Underflow)
                        } else {
                            let value = rest.subrange(
                                size_length as int,
                                (size_length + size) as int,
                            );
                            let length = key_length + size_length + size;
                            if tag == child_tag(top) {
                                Ok((FieldView::Child(value), length))
                            } else {
                                Ok((FieldView::Text(value), length))
                            }
                        },
                    }
                }
            } else {
                match skipped(kind, rest, skipped_group(tag as u32, rest)) {
                    Some(length) if length <= rest.len() => Ok(
                        (FieldView::Other, key_length + length),
                    ),
                    _ => Err(DecodeFault::Unknown),
                }
            }
        },
    }
}

/// A message read so far, with one more child.
pub open spec fn with_child(so_far: Tree, child: Tree) -> Tree {
    Tree { text: so_far.text, children: so_far.children.push(child) }
}

/// A message read so far, with another text.
pub open spec fn with_text(so_far: Tree, text: Seq<char>) -> Tree {
    Tree { text, children: so_far.children }
}

/// What the fields in `bytes` add to a message read so far. `top` says
/// whether the message is a program or a command, and `so_far` holds what
/// was read of it: for a program only its children count.
///
/// The fields are read in order. A command is read in full before the
/// field behind it, and is added behind the children read so far. A text
/// must be valid UTF-8; where a command holds several, the last one
/// stands. Where the bytes are not a sequence of fields, the result is the
/// first fault met.
pub open spec fn parsed_message(bytes: Seq<u8>, top: bool, so_far: Tree) -> Result<
    Tree,
    DecodeFault,
>
    decreases bytes.len(),
{
    if bytes.len() == 0 {
        Ok(so_far)
    } else {
        match first_field(bytes, top) {
            Err(fault) => Err(fault),
            Ok((field, length)) => {
                proof {
                    lemma_first_field_bounds(bytes, top);
                }
                let behind = bytes.skip(length as int);
                match field {
                    FieldView::Child(value) => match parsed_message(value, false, empty_tree()) {
                        Err(fault) => Err(fault),
                        Ok(child) => parsed_message(behind, top, with_child(so_far, child)),
                    },
                    FieldView::Text(value) => if valid_utf8(value) {
                        parsed_message(behind, top, with_text(so_far, decode_utf8(value)))
                    } else {
                        Err(DecodeFault::Text)
                    },
                    FieldView::Other => parsed_message(behind, top, so_far),
                }
            },
        }
    }
}

/// The program that bytes hold, or the first fault that shows that they
/// hold none.
pub open spec fn parsed_program(bytes: Seq<u8>) -> Result<Seq<Tree>, DecodeFault> {
    match parsed_message(bytes, true, empty_tree()) {
        Ok(root) => Ok(root.children),
        Err(fault) => Err(fault),
    }
}

/// A variable-length integer that is read ends behind where it starts, and
/// within the bytes.
pub proof fn lemma_varint_from_bounds(bytes: Seq<u8>, count: nat)
    ensures
        match varint_from(bytes, count) {
            Some((_, end)) => count < end <= bytes.len() && end <= 10,
            None => true,
        },
    decreases 10 - count,
{
    if count < 10 && count < bytes.len() && bytes[count as int] >= 128 {
        lemma_varint_from_bounds(bytes, count + 1);
    }
}

/// A field that is read is not empty and lies within the bytes, and so
/// does the value of a command or a text, which ends where the field ends.
pub proof fn lemma_first_field_bounds(bytes: Seq<u8>, top: bool)
    ensures
        match first_field(bytes, top) {
            Ok((field, length)) => 1 <= length <= bytes.len() && match field {
                FieldView::Child(value) => value.len() < length && value == bytes.subrange(
                    length - value.len(),
                    length as int,
                ),
                FieldView::Text(value) => value.len() < length && value == bytes.subrange(
                    length - value.len(),
                    length as int,
                ),
                FieldView::Other => true,
            },
            Err(_) => true,
        },
{
    lemma_varint_from_bounds(bytes, 0);
    match parsed_key(bytes) {
        None => {},
        Some((_, _, key_length)) => {
            lemma_varint_from_bounds(bytes.skip(key_length as int), 0);
        },
    }
}

/// Appends the bytes of commands to `out`, each as a field with the given
/// tag.
fn encode_commands(commands: &Vec<AstCommand>, tag: u32, out: &mut Vec<u8>)
    requires
        tag == 1 || tag == 2,
    ensures
        final(out)@ == old(out)@ + commands_bytes(forest(commands@), tag as nat),
    decreases commands,
{
    let ghost all = forest(commands@);
    let mut i: usize = 0;
    while i < commands.len()
        invariant
            i <= commands.len(),
            tag == 1 || tag == 2,
            all == forest(commands@),
            out@ == old(out)@ + commands_bytes(all.take(i as int), tag as nat),
        decreases commands.len() - i,
    {
        proof {
            assert(all.take(i + 1).drop_last() =~= all.take(i as int));
        }
        let mut value: Vec<u8> = Vec::new();
        encode_command(&commands[i], &mut value);
        encode_key(tag, out);
        encode_varint(value.len() as u64, out);
        out.append(&mut value);
        i += 1;
    }
    assert(all.take(commands.len() as int) =~= all);
}

/// Appends the bytes of a command to `out`.
pub fn encode_command(command: &AstCommand, out: &mut Vec<u8>)
    ensures
        final(out)@ == old(out)@ + command_bytes(command@),
    decreases command,
{
    if !command.text.as_str().is_empty() {
        let mut value = command.text.as_str().as_bytes_vec();
        encode_key(1, out);
        encode_varint(value.len() as u64, out);
        out.append(&mut value);
    }
    encode_commands(&command.children, 2, out);
}

/// Writes a program as bytes. Reading the bytes gives the program back.
pub fn encode_program(program: &AstProgram) -> (bytes: Vec<u8>)
    ensures
        bytes@ == program_bytes(program@),
        parsed_program(bytes@) == Ok::<Seq<Tree>, DecodeFault>(program@),
{
    let mut bytes: Vec<u8> = Vec::new();
    encode_commands(&program.commands, 1, &mut bytes);
    proof {
        assert(bytes.len() <= usize::MAX <= u64::MAX);
        lemma_program_read_back(program@);
    }
    bytes
}

/// The error that reports a fault.
fn failure(fault: DecodeFault) -> (error: ParseError)
    ensures
        error@ == fault_error(fault),
{
    let text = match fault {
        DecodeFault::Key => "failed to decode program: invalid field key",
        DecodeFault::WireType => "failed to decode program: invalid wire type",
        DecodeFault::Length => "failed to decode program: invalid length",
        DecodeFault::Underflow => "failed to decode program: buffer underflow",
        DecodeFault::Text => "failed to decode program: text is not UTF-8 encoded",
        DecodeFault::Unknown => "failed to decode program: malformed unknown field",
    };
    ParseError::Codec { message: text.to_owned() }
}

/// What kind of value a field holds.
enum FieldKind {
    Child,
    Text,
    Other,
}

/// A field that was found in bytes: its kind, and where its value starts
/// and ends. The next field starts where the value ends.
struct Field {
    kind: FieldKind,
    start: usize,
    end: usize,
}

/// Reads the field that starts at `pos`.
fn read_field(bytes: &[u8], pos: usize, top: bool) -> (result: Result<Field, ParseError>)
    requires
        pos < bytes.len(),
    ensures
        match first_field(bytes@.skip(pos as int), top) {
            Ok((field, length)) => result is Ok && ({
                let found = result->Ok_0;
                &&& pos <= found.start <= found.end <= bytes.len()
                &&& found.end == pos + length
                &&& match field {
                    FieldView::Child(value) => found.kind is Child && value == bytes@.subrange(
                        found.start as int,
                        found.end as int,
                    ),
                    FieldView::Text(value) => found.kind is Text && value == bytes@.subrange(
                        found.start as int,
                        found.end as int,
                    ),
                    FieldView::Other => found.kind is Other,
                }
            }),
            Err(fault) => result is Err && result->Err_0@ == fault_error(fault),
        },
{
    let ghost here = bytes@.skip(pos as int);
    let key_bytes = &bytes[pos..bytes.len()];
    proof {
        lemma_varint_from_bounds(here, 0);
    }
    let (tag, kind, after_key) = match decode_key(key_bytes) {
        Ok(key) => key,
        Err(_) => {
            return Err(failure(DecodeFault::Key));
        },
    };
    let value_start = bytes.len() - after_key;
    let ghost rest = here.skip(here.len() - after_key);
    let rest_bytes = &bytes[value_start..bytes.len()];
    assert(rest_bytes@ =~= rest);
    let is_child = (top && tag == 1) || (!top && tag == 2);
    if is_child || (!top && tag == 1) {
        if kind != WireKind::LengthDelimited {
            return Err(failure(DecodeFault::WireType));
        }
        proof {
            lemma_varint_from_bounds(rest, 0);
        }
        let (size, after_size) = match decode_varint(rest_bytes) {
            Ok(size) => size,
            Err(_) => {
                return Err(failure(DecodeFault::Length));
            },
        };
        if size > after_size as u64 {
            return Err(failure(DecodeFault::Underflow));
        }
        let start = bytes.len() - after_size;
        let end = start + size as usize;
        if is_child {
            Ok(Field { kind: FieldKind::Child, start, end })
        } else {
            Ok(Field { kind: FieldKind::Text, start, end })
        }
    } else {
        let after_value = match skip_field(kind, tag, rest_bytes) {
            Ok(after_value) => after_value,
            Err(_) => {
                return Err(failure(DecodeFault::Unknown));
            },
        };
        let end = bytes.len() - after_value;
        Ok(Field { kind: FieldKind::Other, start: end, end })
    }
}

/// Reads the fields of a message. For a program (`top`) the result holds
/// the commands as its children.
fn decode_message(bytes: &[u8], top: bool) -> (result: Result<AstCommand, ParseError>)
    ensures
        match parsed_message(bytes@, top, empty_tree()) {
            Ok(tree) => result is Ok && result->Ok_0@ == tree,
            Err(fault) => result is Err && result->Err_0@ == fault_error(fault),
        },
    decreases bytes@.len(),
{
    let mut text = String::new();
    let mut children: Vec<AstCommand> = Vec::new();
    let mut pos: usize = 0;
    assert(bytes@.skip(0) =~= bytes@);
    assert(forest(children@) =~= Seq::empty());
    while pos < bytes.len()
        invariant
            pos <= bytes.len(),
            parsed_message(bytes@, top, empty_tree()) == parsed_message(
                bytes@.skip(pos as int),
                top,
                Tree { text: text@, children: forest(children@) },
            ),
        decreases bytes.len() - pos,
    {
        let ghost here = bytes@.skip(pos as int);
        proof {
            lemma_first_field_bounds(here, top);
        }
        let field = match read_field(bytes, pos, top) {
            Ok(field) => field,
            Err(error) => {
                return Err(error);
            },
        };
        assert(bytes@.skip(field.end as int) =~= here.skip(field.end - pos));
        match field.kind {
            FieldKind::Child => {
                let value = &bytes[field.start..field.end];
                match decode_message(value, false) {
                    Ok(child) => {
                        assert(forest(children@.push(child)) =~= forest(children@).push(child@));
                        children.push(child);
                    },
                    Err(error) => {
                        return Err(error);
                    },
                }
            },
            FieldKind::Text => {
                let value = &bytes[field.start..field.end];
                match str_from_utf8(value) {
                    Some(decoded) => {
                        text = decoded.to_owned();
                    },
                    None => {
                        return Err(failure(DecodeFault::Text));
                    },
                }
            },
            FieldKind::Other => {},
        }
        pos = field.end;
    }
    Ok(AstCommand { text, children })
}

/// Reads a program from its bytes. It succeeds exactly where the bytes
/// hold a program; truncated or damaged bytes give an error that tells of
/// the first fault met.
pub fn decode_program(bytes: &[u8]) -> (result: Result<AstProgram, ParseError>)
    ensures
        match parsed_program(bytes@) {
            Ok(trees) => result is Ok && result->Ok_0@ == trees,
            Err(fault) => result is Err && result->Err_0@ == fault_error(fault),
        },
{
    match decode_message(bytes, true) {
        Ok(root) => Ok(AstProgram { commands: root.children }),
        Err(error) => Err(error),
    }
}

} // verus!
