//! Proof that the binary form loses nothing: reading the bytes of a program
//! gives the program back.

use crate::parser::ast::Tree;
use crate::parser::codec::{
    DecodeFault, FieldView, child_tag, command_bytes, commands_bytes, empty_tree, field, first_field,
    parsed_message, parsed_program, program_bytes, with_text,
};
use crate::parser::wire::{WireKind, parsed_key, parsed_varint, varint, varint_from};
use vstd::prelude::*;
use vstd::utf8::encode_utf8;

verus! {

/// The numbers that a variable-length integer can still hold when `count`
/// of its bytes are written: all below this bound.
pub open spec fn varint_limit(count: nat) -> nat
    decreases 9 - count,
{
    if count >= 9 {
        2
    } else {
        128 * varint_limit(count + 1)
    }
}

/// A variable-length integer has at least one byte.
pub proof fn lemma_varint_length(value: nat)
    ensures
        varint(value).len() >= 1,
    decreases value,
{
    if value >= 128 {
        lemma_varint_length(value / 128);
    }
}

/// Reading a number that was written behind `prefix` gives the number back,
/// whatever follows it.
pub proof fn lemma_varint_from_written(prefix: Seq<u8>, value: nat, behind: Seq<u8>)
    requires
        prefix.len() <= 9,
        value < varint_limit(prefix.len()),
    ensures
        varint_from(prefix + varint(value) + behind, prefix.len()) == Some(
            (value, prefix.len() + varint(value).len()),
        ),
    decreases value,
{
    let bytes = prefix + varint(value) + behind;
    if value >= 128 {
        let first = (value % 128 + 128) as u8;
        assert(bytes =~= prefix.push(first) + varint(value / 128) + behind);
        lemma_varint_from_written(prefix.push(first), value / 128, behind);
    }
}

/// Reading a number below two to the 64th that was written gives the
/// number back, whatever follows it.
pub proof fn lemma_varint_written(value: nat, behind: Seq<u8>)
    requires
        value <= u64::MAX,
    ensures
        parsed_varint(varint(value) + behind) == Some((value, varint(value).len())),
{
    reveal_with_fuel(varint_limit, 10);
    lemma_varint_from_written(Seq::empty(), value, behind);
}

/// Reading a field that was written gives its value back, whatever follows
/// it: the value of a command where the tag is that of the children, the
/// value of a text where the tag is 1 in a command.
pub proof fn lemma_field_written(tag: nat, value: Seq<u8>, behind: Seq<u8>, top: bool)
    requires
        tag == 1 || tag == 2,
        tag == child_tag(top) || !top,
        value.len() <= u64::MAX,
    ensures
        first_field(field(tag, value) + behind, top) == Ok::<(FieldView, nat), DecodeFault>(
            (
                if tag == child_tag(top) {
                    FieldView::Child(value)
                } else {
                    FieldView::Text(value)
                },
                field(tag, value).len(),
            ),
        ),
{
    let bytes = field(tag, value) + behind;
    let key = (tag * 8 + 2) as nat;
    let after_key = varint(value.len()) + value + behind;
    lemma_varint_written(key, after_key);
    let rest = bytes.skip(1);
    assert(rest =~= varint(value.len()) + (value + behind));
    lemma_varint_written(value.len(), value + behind);
    let size_length = varint(value.len()).len();
    assert(rest.subrange(size_length as int, (size_length + value.len()) as int) =~= value);
}

/// Whether every length that the bytes of a command hold fits in 64 bits.
pub open spec fn storable(tree: Tree) -> bool
    decreases tree,
{
    &&& encode_utf8(tree.text).len() <= u64::MAX
    &&& all_storable(tree.children)
}

/// Whether every length that the bytes of commands hold fits in 64 bits.
pub open spec fn all_storable(trees: Seq<Tree>) -> bool
    decreases trees,
{
    trees.len() == 0 || (all_storable(trees.drop_last()) && storable(trees.last())
        && command_bytes(trees.last()).len() <= u64::MAX)
}

/// Commands whose bytes fit in 64 bits hold no length that does not.
pub proof fn lemma_short_is_storable(tree: Tree)
    requires
        command_bytes(tree).len() <= u64::MAX,
    ensures
        storable(tree),
    decreases tree,
{
    lemma_short_all_storable(tree.children, 2);
}

/// Commands whose bytes together fit in 64 bits hold no length that does
/// not.
pub proof fn lemma_short_all_storable(trees: Seq<Tree>, tag: nat)
    requires
        commands_bytes(trees, tag).len() <= u64::MAX,
    ensures
        all_storable(trees),
    decreases trees,
{
    if trees.len() > 0 {
        lemma_short_all_storable(trees.drop_last(), tag);
        lemma_short_is_storable(trees.last());
    }
}

/// Reading the bytes of a command gives the command back.
pub proof fn lemma_command_read_back(tree: Tree)
    requires
        storable(tree),
    ensures
        parsed_message(command_bytes(tree), false, empty_tree()) == Ok::<Tree, DecodeFault>(tree),
    decreases tree, 1nat,
{
    let children_bytes = commands_bytes(tree.children, 2);
    let nothing = Seq::<u8>::empty();
    if tree.text.len() == 0 {
        lemma_commands_read_back(tree.children, false, nothing, empty_tree());
        assert(tree.text =~= Seq::<char>::empty());
    } else {
        let value = encode_utf8(tree.text);
        let bytes = command_bytes(tree);
        lemma_field_written(1, value, children_bytes, false);
        vstd::utf8::encode_utf8_valid_utf8(tree.text);
        vstd::utf8::encode_utf8_decode_utf8(tree.text);
        lemma_varint_length((1 * 8 + 2) as nat);
        assert(bytes.skip(field(1, value).len() as int) =~= children_bytes);
        let started = with_text(empty_tree(), tree.text);
        lemma_commands_read_back(tree.children, false, nothing, started);
    }
}

/// Reading the bytes of commands adds the commands to the message read so
/// far, and goes on with what follows them.
pub proof fn lemma_commands_read_back(trees: Seq<Tree>, top: bool, behind: Seq<u8>, so_far: Tree)
    requires
        all_storable(trees),
    ensures
        parsed_message(commands_bytes(trees, child_tag(top)) + behind, top, so_far)
            == parsed_message(
            behind,
            top,
            Tree { text: so_far.text, children: so_far.children + trees },
        ),
    decreases trees, 0nat,
{
    let tag = child_tag(top);
    if trees.len() > 0 {
        let front = trees.drop_last();
        let last = trees.last();
        let value = command_bytes(last);
        let last_field = field(tag, value);
        assert(commands_bytes(trees, tag) + behind =~= commands_bytes(front, tag) + (last_field
            + behind));
        lemma_commands_read_back(front, top, last_field + behind, so_far);
        lemma_field_written(tag, value, behind, top);
        lemma_command_read_back(last);
        lemma_varint_length((tag * 8 + 2) as nat);
        assert((last_field + behind).skip(last_field.len() as int) =~= behind);
        assert((so_far.children + front).push(last) =~= so_far.children + trees);
    }
}

/// The round trip: reading the bytes of a program gives the program back,
/// command for command and child for child. The bound is met by every
/// program whose bytes fit into memory.
pub proof fn lemma_program_read_back(trees: Seq<Tree>)
    requires
        program_bytes(trees).len() <= u64::MAX,
    ensures
        parsed_program(program_bytes(trees)) == Ok::<Seq<Tree>, DecodeFault>(trees),
{
    lemma_short_all_storable(trees, 1);
    let nothing = Seq::<u8>::empty();
    lemma_commands_read_back(trees, true, nothing, empty_tree());
}

} // verus!
