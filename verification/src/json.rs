//! Text components as packets carry them: as a tag, or as JSON in older versions.
use vstd::prelude::*;
use crate::codec::encodes;
use crate::elements::{get_nbt, write_nbt, TextComponent};
use crate::errors::{message, msg, ReadingError, WritingError};
use crate::format::{put_nbt, put_text, read_nbt, Sink};
use crate::nbt_tag::{NbtTag, Tag};
use crate::text::{chars_of, push_char};
use crate::version::{version_rank, JavaMinecraftVersion};
use crate::wire::{done, fail, get_str, read_text, write_string, Outcome, MAX_TEXT_BYTES};

verus! {

/// The digit of a hexadecimal number.
pub open spec fn hex_digit(v: int) -> char {
    seq!['0', '1', '2', '3', '4', '5', '6', '7', '8', '9', 'a', 'b', 'c', 'd', 'e', 'f'][v]
}

/// A character inside a JSON string.
pub open spec fn escaped(c: char) -> Seq<char> {
    if c == '"' {
        seq!['\\', '"']
    } else if c == '\\' {
        seq!['\\', '\\']
    } else if c as int == 8 {
        seq!['\\', 'b']
    } else if c as int == 9 {
        seq!['\\', 't']
    } else if c as int == 10 {
        seq!['\\', 'n']
    } else if c as int == 12 {
        seq!['\\', 'f']
    } else if c as int == 13 {
        seq!['\\', 'r']
    } else if (c as int) < 32 {
        seq!['\\', 'u', '0', '0', hex_digit(c as int / 16), hex_digit(c as int % 16)]
    } else {
        seq![c]
    }
}

/// The first `n` characters inside a JSON string.
pub open spec fn escaped_text(t: Seq<char>, n: nat) -> Seq<char>
    decreases n,
{
    if n == 0 || n > t.len() {
        Seq::empty()
    } else {
        escaped_text(t, (n - 1) as nat) + escaped(t[n - 1])
    }
}

/// A JSON string.
pub open spec fn quoted(t: Seq<char>) -> Seq<char> {
    seq!['"'] + escaped_text(t, t.len()) + seq!['"']
}

/// The JSON form of a literal text.
pub open spec fn literal_json(t: Seq<char>) -> Seq<char> {
    seq!['{'] + quoted("text"@) + seq![':'] + quoted(t) + seq!['}']
}

/// A text component in the two forms in which it is sent: a tag from version 1.20.3 on, JSON before.
#[derive(Debug)]
pub struct SentText {
    pub component: TextComponent,
    pub json: String,
}

/// A text component in the form in which it came.
#[derive(Debug)]
pub enum TextForm {
    Tag(NbtTag),
    Json(String),
}

/// What the form of a text component is.
pub enum FormView {
    Tag(Tag),
    Json(Seq<char>),
}

impl TextForm {
    pub open spec fn view(&self) -> FormView {
        match self {
            TextForm::Tag(t) => FormView::Tag(t@),
            TextForm::Json(t) => FormView::Json(t@),
        }
    }
}

/// The form of a text component that a version has.
pub open spec fn form_for(t: SentText, version: JavaMinecraftVersion) -> FormView {
    if version_rank(version) >= version_rank(JavaMinecraftVersion::V_1_20_3) {
        FormView::Tag(t.component@)
    } else {
        FormView::Json(t.json@)
    }
}

/// Appending a text component as a version has it: a tag, or JSON.
pub open spec fn put_component(out: Seq<u8>, t: SentText, version: JavaMinecraftVersion) -> Sink {
    match form_for(t, version) {
        FormView::Tag(t) => put_nbt(out, t),
        FormView::Json(j) => put_text(out, j, MAX_TEXT_BYTES as nat),
    }
}

/// Reading a text component as a version has it: a tag, or JSON.
pub open spec fn read_component(version: JavaMinecraftVersion, s: Seq<u8>) -> Outcome<FormView> {
    if version_rank(version) >= version_rank(JavaMinecraftVersion::V_1_20_3) {
        match read_nbt(s) {
            Outcome { value: Err(e), rest } => fail(e, rest),
            Outcome { value: Ok(None), rest } => fail(msg("Missing text component NBT"), rest),
            Outcome { value: Ok(Some(t)), rest } => done(FormView::Tag(t), rest),
        }
    } else {
        match read_text(s, MAX_TEXT_BYTES as nat) {
            Outcome { value: Err(e), rest } => fail(e, rest),
            Outcome { value: Ok(t), rest } => done(FormView::Json(t), rest),
        }
    }
}

fn push_hex(out: &mut String, v: u32)
    requires
        v < 16,
    ensures
        final(out)@ == old(out)@.push(hex_digit(v as int)),
{
    let c: char = match v {
        0 => '0',
        1 => '1',
        2 => '2',
        3 => '3',
        4 => '4',
        5 => '5',
        6 => '6',
        7 => '7',
        8 => '8',
        9 => '9',
        10 => 'a',
        11 => 'b',
        12 => 'c',
        13 => 'd',
        14 => 'e',
        _ => 'f',
    };
    push_char(out, c);
}

fn push_escaped(out: &mut String, c: char)
    ensures
        final(out)@ == old(out)@ + escaped(c),
{
    let ghost before = out@;
    let v: u32 = c as u32;
    if c == '"' {
        push_char(out, '\\');
        push_char(out, '"');
    } else if c == '\\' {
        push_char(out, '\\');
        push_char(out, '\\');
    } else if v == 8 {
        push_char(out, '\\');
        push_char(out, 'b');
    } else if v == 9 {
        push_char(out, '\\');
        push_char(out, 't');
    } else if v == 10 {
        push_char(out, '\\');
        push_char(out, 'n');
    } else if v == 12 {
        push_char(out, '\\');
        push_char(out, 'f');
    } else if v == 13 {
        push_char(out, '\\');
        push_char(out, 'r');
    } else if v < 32 {
        push_char(out, '\\');
        push_char(out, 'u');
        push_char(out, '0');
        push_char(out, '0');
        push_hex(out, v / 16);
        push_hex(out, v % 16);
    } else {
        push_char(out, c);
    }
    assert(out@ =~= before + escaped(c));
}

fn push_quoted(out: &mut String, t: &str)
    ensures
        final(out)@ == old(out)@ + quoted(t@),
{
    let ghost before = out@;
    let chars = chars_of(t);
    push_char(out, '"');
    let ghost head = out@;
    assert(out@ =~= head + escaped_text(t@, 0));
    let mut i: usize = 0;
    while i < chars.len()
        invariant
            i <= chars.len(),
            chars@ == t@,
            out@ == head + escaped_text(t@, i as nat),
        decreases chars.len() - i,
    {
        push_escaped(out, chars[i]);
        assert(out@ =~= head + escaped_text(t@, (i + 1) as nat));
        i += 1;
    }
    push_char(out, '"');
    assert(out@ =~= before + quoted(t@));
}

impl SentText {
    /// A component with its JSON form.
    pub fn new(component: TextComponent, json: String) -> (r: Self)
        ensures
            r.component == component && r.json == json,
    {
        SentText { component, json }
    }

    /// A literal text.
    pub fn text(content: String) -> (r: Self)
        ensures
            r.component@ == Tag::String(content@),
            r.json@ == literal_json(content@),
    {
        let mut json = String::new();
        push_char(&mut json, '{');
        push_quoted(&mut json, "text");
        push_char(&mut json, ':');
        push_quoted(&mut json, content.as_str());
        push_char(&mut json, '}');
        assert(json@ =~= literal_json(content@));
        SentText { component: TextComponent::text(content), json }
    }

    /// Appends the component as a version has it.
    pub fn write_for_version(&self, out: &mut Vec<u8>, version: &JavaMinecraftVersion) -> (r: Result<(), WritingError>)
        ensures
            encodes(put_component(old(out)@, *self, *version), r, final(out)@),
    {
        if version.at_least(JavaMinecraftVersion::V_1_20_3) {
            write_nbt(&self.component.tag, out)
        } else {
            write_string(out, self.json.as_str())
        }
    }

    /// The bytes of the component in a version; none where it is too long, or its tag cannot be written.
    pub fn encode_for_version(&self, version: &JavaMinecraftVersion) -> (r: Option<Vec<u8>>)
        ensures
            match r {
                Some(b) => put_component(Seq::empty(), *self, *version) == (Sink { result: Ok(()), out: b@ }),
                None => put_component(Seq::empty(), *self, *version).result is Err,
            },
    {
        let mut out: Vec<u8> = Vec::new();
        assert(out@ =~= Seq::<u8>::empty());
        match self.write_for_version(&mut out, version) {
            Ok(_) => Some(out),
            Err(_) => None,
        }
    }
}

impl TextForm {
    /// Reads a text component as a version has it.
    pub fn read(seq: &mut &[u8], version: &JavaMinecraftVersion) -> (r: Result<TextForm, ReadingError>)
        ensures
            match r {
                Ok(t) => read_component(*version, old(seq)@) == done(t@, final(seq)@),
                Err(e) => read_component(*version, old(seq)@) == fail::<FormView>(e@, final(seq)@),
            },
    {
        if version.at_least(JavaMinecraftVersion::V_1_20_3) {
            match get_nbt(seq)? {
                Some(tag) => Ok(TextForm::Tag(tag)),
                None => Err(message("Missing text component NBT")),
            }
        } else {
            Ok(TextForm::Json(get_str(seq)?))
        }
    }
}

} // verus!
