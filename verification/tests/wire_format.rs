use klang::parser::ast::{Command, Program};
use klang::parser::codec::{decode_program, encode_program};
use prost::bytes::{Buf, BufMut};
use prost::encoding::{message, skip_field, string, DecodeContext, WireType};
use prost::{DecodeError, Message};

#[derive(Clone, Debug, Default, PartialEq)]
struct StoredCommand {
    text: String,
    children: Vec<StoredCommand>,
}

#[derive(Clone, Debug, Default, PartialEq)]
struct StoredProgram {
    commands: Vec<StoredCommand>,
}

impl Message for StoredCommand {
    fn encode_raw(&self, buf: &mut impl BufMut) {
        if !self.text.is_empty() {
            string::encode(1, &self.text, buf);
        }
        message::encode_repeated(2, &self.children, buf);
    }

    fn merge_field(
        &mut self,
        tag: u32,
        wire_type: WireType,
        buf: &mut impl Buf,
        ctx: DecodeContext,
    ) -> Result<(), DecodeError> {
        match tag {
            1 => string::merge(wire_type, &mut self.text, buf, ctx),
            2 => message::merge_repeated(wire_type, &mut self.children, buf, ctx),
            _ => skip_field(wire_type, tag, buf, ctx),
        }
    }

    fn encoded_len(&self) -> usize {
        let text = if self.text.is_empty() { 0 } else { string::encoded_len(1, &self.text) };
        text + message::encoded_len_repeated(2, &self.children)
    }

    fn clear(&mut self) {
        self.text.clear();
        self.children.clear();
    }
}

impl Message for StoredProgram {
    fn encode_raw(&self, buf: &mut impl BufMut) {
        message::encode_repeated(1, &self.commands, buf);
    }

    fn merge_field(
        &mut self,
        tag: u32,
        wire_type: WireType,
        buf: &mut impl Buf,
        ctx: DecodeContext,
    ) -> Result<(), DecodeError> {
        match tag {
            1 => message::merge_repeated(wire_type, &mut self.commands, buf, ctx),
            _ => skip_field(wire_type, tag, buf, ctx),
        }
    }

    fn encoded_len(&self) -> usize {
        message::encoded_len_repeated(1, &self.commands)
    }

    fn clear(&mut self) {
        self.commands.clear();
    }
}

fn stored(command: &Command) -> StoredCommand {
    StoredCommand { text: command.text.clone(), children: command.children.iter().map(stored).collect() }
}

fn stored_program(program: &Program) -> StoredProgram {
    StoredProgram { commands: program.commands.iter().map(stored).collect() }
}

struct Dice(u64);

impl Dice {
    fn roll(&mut self, sides: u64) -> u64 {
        self.0 = self.0.wrapping_mul(6364136223846793005).wrapping_add(1442695040888963407);
        (self.0 >> 33) % sides
    }
}

fn grown(dice: &mut Dice, depth: u64) -> Command {
    let texts = ["", "a", "say hello", "caf\u{e9}", "x y z w", "\u{1f600}"];
    let mut text = texts[dice.roll(texts.len() as u64) as usize].to_string();
    if dice.roll(10) == 0 {
        text = "long ".repeat(40 + dice.roll(40) as usize);
    }
    let width = if depth == 0 { 0 } else { dice.roll(4) };
    Command { text, children: (0..width).map(|_| grown(dice, depth - 1)).collect() }
}

#[test]
fn bytes_are_those_of_the_message_schema() {
    let mut dice = Dice(7);
    for _ in 0..200 {
        let width = dice.roll(4);
        let program = Program { commands: (0..width).map(|_| grown(&mut dice, 4)).collect() };
        let expected = stored_program(&program);
        let bytes = encode_program(&program);
        assert_eq!(bytes, expected.encode_to_vec());
        assert_eq!(StoredProgram::decode(bytes.as_slice()).unwrap(), expected);
        assert_eq!(stored_program(&decode_program(&bytes).unwrap()), expected);
    }
}

#[test]
fn arbitrary_bytes_are_read_alike() {
    let alphabet: [u8; 16] =
        [0x0a, 0x12, 0x00, 0x01, 0x02, 0x03, 0x08, 0x10, 0x1a, 0x0d, 0x09, 0x0b, 0x0c, 0x61, 0x80, 0xff];
    let mut dice = Dice(11);
    let mut accepted = 0;
    for _ in 0..20000 {
        let length = dice.roll(12) as usize;
        let bytes: Vec<u8> = (0..length).map(|_| alphabet[dice.roll(16) as usize]).collect();
        let ours = decode_program(&bytes);
        let theirs = StoredProgram::decode(bytes.as_slice());
        match (ours, theirs) {
            (Ok(program), Ok(expected)) => {
                accepted += 1;
                assert_eq!(stored_program(&program), expected, "bytes {:?}", bytes);
            }
            (Err(_), Err(_)) => {}
            (ours, theirs) => panic!("bytes {:?}: {:?} against {:?}", bytes, ours, theirs),
        }
    }
    assert!(accepted > 100);
}
