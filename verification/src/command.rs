//! Arguments of commands: stacks of items and sounds.
use std::sync::Arc;
use vstd::prelude::*;
use crate::components::ComponentValue;
use crate::data_component::{component_name, component_of_name, DataComponent};
use crate::format::{ComponentVal, PatchVal, StackVal};
use crate::identifier::{bare_name, identifier_of, parse_identifier, strip_namespace};
use crate::item_stack::{advanced, group_advanced, next_uid, entry_val, group_stack_vals, patch_val, Item, ItemStack, ItemStackIdGenerator};
use crate::nbt_tag::NbtTag;
use crate::nested_stored::{find_last, read_data};
use crate::persist::data_from_tag;
use crate::registry::{find_key, Registries};
use crate::same::last_place;
use crate::text::{chars_of, concat, has_colon, same_text, text_of};

verus! {

broadcast use {group_advanced, group_stack_vals};

/// Whether `char::is_alphanumeric` holds of a character.
pub uninterp spec fn alphanumeric(c: char) -> bool;

/// Whether a character is a letter or a digit of ASCII.
pub open spec fn ascii_alphanumeric(c: char) -> bool {
    ('a' <= c && c <= 'z') || ('A' <= c && c <= 'Z') || ('0' <= c && c <= '9')
}

/// Calls `char::is_alphanumeric` of std, whose result depends on the character alone. Among the
/// characters of ASCII it holds of the letters and the digits.
#[verifier::external_body]
fn is_alphanumeric(c: char) -> (r: bool)
    ensures
        r == alphanumeric(c),
        (c as int) < 128 ==> r == ascii_alphanumeric(c),
{
    c.is_alphanumeric()
}

/// Whether a character is white space.
pub open spec fn white_space(c: char) -> bool {
    let v = c as int;
    (9 <= v && v <= 13) || v == 0x20 || v == 0x85 || v == 0xa0 || v == 0x1680 || (0x2000 <= v && v <= 0x200a) || v == 0x2028 || v
        == 0x2029 || v == 0x202f || v == 0x205f || v == 0x3000
}

/// Whether a character may stand in the name of an item.
pub open spec fn item_char(c: char) -> bool {
    alphanumeric(c) || c == '_' || c == ':' || c == '/' || c == '.' || c == '-'
}

/// Whether a character may stand in the name of a component.
pub open spec fn component_char(c: char) -> bool {
    alphanumeric(c) || c == '_' || c == ':' || c == '.' || c == '-'
}

/// How many bytes a character takes in UTF-8.
pub open spec fn width(c: char) -> int {
    let v = c as int;
    if v < 0x80 {
        1
    } else if v < 0x800 {
        2
    } else if v < 0x1_0000 {
        3
    } else {
        4
    }
}

/// How many bytes the first `n` characters take.
pub open spec fn bytes_before(t: Seq<char>, n: int) -> int
    decreases n,
{
    if n <= 0 || n > t.len() {
        0
    } else {
        bytes_before(t, n - 1) + width(t[n - 1])
    }
}

/// A text that is read character by character.
#[derive(Debug)]
pub struct StringReader {
    pub chars: Vec<char>,
    pub cursor: usize,
}

/// What went wrong in an argument.
#[derive(Clone, Copy, Debug, PartialEq, Eq, Structural)]
pub enum CommandErrorType {
    UnknownItem,
    ComponentExpected,
    ComponentMalformed,
    ComponentRepeated,
    ComponentUnknown,
    ExpectedSymbol,
    InvalidValue,
    InvalidIdentifier,
    UnknownArgument,
}

/// Why something went wrong, where that is told besides what did.
pub open spec fn reason_of(error_type: CommandErrorType) -> Option<&'static str> {
    match error_type {
        CommandErrorType::ComponentMalformed => Some("invalid component value"),
        _ => None,
    }
}

/// An error in an argument: what went wrong, before which byte where that is told, the text that the
/// message names, and why it went wrong where that is told.
#[derive(Debug)]
pub struct CommandSyntaxError {
    pub error_type: CommandErrorType,
    pub cursor: Option<usize>,
    pub argument: String,
    pub reason: Option<&'static str>,
}

/// What an error in an argument is.
pub struct SyntaxError {
    pub error_type: CommandErrorType,
    pub cursor: Option<int>,
    pub argument: Seq<char>,
    pub reason: Option<&'static str>,
}

impl CommandSyntaxError {
    pub open spec fn view(&self) -> SyntaxError {
        SyntaxError {
            error_type: self.error_type,
            cursor: match self.cursor {
                Some(c) => Some(c as int),
                None => None,
            },
            argument: self.argument@,
            reason: self.reason,
        }
    }
}

/// A value that stands in the text from one character up to another, or what could not be read as
/// one.
#[derive(Debug)]
pub struct GivenValue {
    pub start: usize,
    pub end: usize,
    pub tag: Option<NbtTag>,
}

/// What became of an argument: a stack, or the place of a value that has to be read first.
#[derive(Debug)]
pub enum ItemArgument {
    Stack(ItemStack),
    NeedsValue(usize),
}

/// What became of an argument.
pub enum ItemOutcome {
    Stack { item: Item, patch: PatchVal },
    NeedsValue(int),
}

/// What became of an argument, and where reading stopped.
pub struct ItemParse {
    pub result: Result<ItemOutcome, SyntaxError>,
    pub cursor: int,
}

/// The end of the run of characters from the `i`th on that satisfy a condition.
pub open spec fn run_end(t: Seq<char>, i: int, f: spec_fn(char) -> bool) -> int
    decreases t.len() - i,
{
    if 0 <= i < t.len() && f(t[i]) {
        run_end(t, i + 1, f)
    } else {
        i
    }
}

/// Where the white space from the `i`th character on ends.
pub open spec fn skip_space(t: Seq<char>, i: int) -> int {
    run_end(t, i, |c: char| white_space(c))
}

/// Whether the `i`th character is `c`.
pub open spec fn at(t: Seq<char>, i: int, c: char) -> bool {
    0 <= i < t.len() && t[i] == c
}

/// A name with a namespace.
pub open spec fn with_namespace(t: Seq<char>) -> Seq<char> {
    if t.contains(':') {
        t
    } else {
        "minecraft:"@ + t
    }
}

/// The first value that stands at a place, from the `i`th on.
pub open spec fn given(values: Seq<GivenValue>, start: int, i: int) -> Option<GivenValue>
    decreases values.len() - i,
{
    if i < 0 || i >= values.len() {
        None
    } else if values[i].start == start {
        Some(values[i])
    } else {
        given(values, start, i + 1)
    }
}

/// A failed parse.
pub open spec fn broken(t: Seq<char>, error_type: CommandErrorType, at: int, argument: Seq<char>, cursor: int) -> ItemParse {
    ItemParse {
        result: Err(SyntaxError { error_type, cursor: Some(bytes_before(t, at)), argument, reason: reason_of(error_type) }),
        cursor,
    }
}

/// A parse that gave a stack.
pub open spec fn parsed(item: Item, patch: PatchVal, cursor: int) -> ItemParse {
    ItemParse { result: Ok(ItemOutcome::Stack { item, patch }), cursor }
}

/// Parsing what stands behind a component: the next one, or the end.
pub open spec fn parse_next(
    regs: Registries,
    t: Seq<char>,
    values: Seq<GivenValue>,
    item: Item,
    i: int,
    patch: PatchVal,
) -> ItemParse
    decreases t.len() - i, 0nat,
{
    let d = skip_space(t, i);
    if d < i || i < 0 {
        broken(t, CommandErrorType::ExpectedSymbol, d, "]"@, d)
    } else if at(t, d, ',') {
        parse_components(regs, t, values, item, d + 1, patch)
    } else if at(t, d, ']') {
        parsed(item, patch, d + 1)
    } else {
        broken(t, CommandErrorType::ExpectedSymbol, d, "]"@, d)
    }
}

/// Parsing components from the `i`th character on, behind those in `patch`.
pub open spec fn parse_components(
    regs: Registries,
    t: Seq<char>,
    values: Seq<GivenValue>,
    item: Item,
    i: int,
    patch: PatchVal,
) -> ItemParse
    decreases t.len() - i, 1nat,
{
    let a = skip_space(t, i);
    if at(t, a, ']') {
        parsed(item, patch, a + 1)
    } else if a >= t.len() {
        broken(t, CommandErrorType::ComponentExpected, a, Seq::empty(), a)
    } else {
        let removed = at(t, a, '!');
        let start = if removed {
            a + 1
        } else {
            a
        };
        let end = run_end(t, start, |c: char| component_char(c));
        let key = t.subrange(start, end);
        match component_of_name(key) {
            None => broken(t, CommandErrorType::ComponentUnknown, start, with_namespace(key), start),
            Some(k) => if last_place(patch, k, patch.len()) is Some {
                ItemParse {
                    result: Err(
                        SyntaxError { error_type: CommandErrorType::ComponentRepeated, cursor: None, argument: component_name(k), reason: None },
                    ),
                    cursor: start,
                }
            } else {
                let b = skip_space(t, end);
                if removed {
                    if at(t, b, '=') {
                        broken(t, CommandErrorType::ExpectedSymbol, b, "]"@, b)
                    } else if b < i || b > t.len() {
                        broken(t, CommandErrorType::ExpectedSymbol, b, "]"@, b)
                    } else {
                        parse_next(regs, t, values, item, b, patch.push((k, None)))
                    }
                } else if !at(t, b, '=') {
                    broken(t, CommandErrorType::ExpectedSymbol, b, "="@, b)
                } else {
                    parse_value(regs, t, values, item, k, skip_space(t, b + 1), i, patch)
                }
            },
        }
    }
}

/// Parsing the value of a component that stands from the `v`th character on.
pub open spec fn parse_value(
    regs: Registries,
    t: Seq<char>,
    values: Seq<GivenValue>,
    item: Item,
    k: DataComponent,
    v: int,
    i: int,
    patch: PatchVal,
) -> ItemParse
    decreases t.len() - i, 0nat,
{
    match given(values, v, 0) {
        None => ItemParse { result: Ok(ItemOutcome::NeedsValue(v)), cursor: v },
        Some(g) => match g.tag {
            None => broken(t, CommandErrorType::InvalidValue, g.end as int, Seq::empty(), g.end as int),
            Some(tag) => match data_from_tag(k, regs, tag@) {
                None => broken(t, CommandErrorType::ComponentMalformed, v, component_name(k), v),
                Some(val) => if g.end <= i || g.end > t.len() {
                    broken(t, CommandErrorType::InvalidValue, g.end as int, Seq::empty(), g.end as int)
                } else {
                    parse_next(regs, t, values, item, g.end as int, patch.push((k, Some(ComponentVal { kind: k, val }))))
                },
            },
        },
    }
}

/// Parsing a stack from the `i`th character on: the name of an item, and components in brackets.
pub open spec fn parse_item(regs: Registries, t: Seq<char>, values: Seq<GivenValue>, i: int) -> ItemParse {
    let end = run_end(t, i, |c: char| item_char(c));
    let raw = t.subrange(i, end);
    match find_key(regs, bare_name(raw)) {
        None => broken(t, CommandErrorType::UnknownItem, end, with_namespace(raw), end),
        Some(item) => if at(t, end, '[') {
            parse_components(regs, t, values, item, end + 1, Seq::empty())
        } else {
            parsed(item, Seq::empty(), end)
        },
    }
}

/// Whether the result of a parse and the place where it stopped are those of `o`, and a stack has the
/// number `uid`.
pub open spec fn is_parse(o: ItemParse, r: Result<ItemArgument, CommandSyntaxError>, cursor: int, uid: int) -> bool {
    o.cursor == cursor && match r {
        Ok(ItemArgument::Stack(s)) => o.result is Ok && o.result->Ok_0 is Stack && s@ == (StackVal {
            item: o.result->Ok_0->item,
            count: 1,
            patch: o.result->Ok_0->patch,
        }) && s.uid == uid,
        Ok(ItemArgument::NeedsValue(v)) => o.result == Ok::<ItemOutcome, SyntaxError>(ItemOutcome::NeedsValue(v as int)),
        Err(e) => o.result == Err::<ItemOutcome, SyntaxError>(e@),
    }
}

fn is_white_space(c: char) -> (r: bool)
    ensures
        r == white_space(c),
{
    let v: u32 = c as u32;
    (9 <= v && v <= 13) || v == 0x20 || v == 0x85 || v == 0xa0 || v == 0x1680 || (0x2000 <= v && v <= 0x200a) || v == 0x2028 || v
        == 0x2029 || v == 0x202f || v == 0x205f || v == 0x3000
}

/// Whether a character may stand in the name of a component type.
pub fn is_component_char(c: char) -> (r: bool)
    ensures
        (c as int) < 128 ==> alphanumeric(c) == ascii_alphanumeric(c),
        r == component_char(c),
{
    is_alphanumeric(c) || c == '_' || c == ':' || c == '.' || c == '-'
}

fn is_item_char(c: char) -> (r: bool)
    ensures
        r == item_char(c),
{
    is_component_char(c) || c == '/'
}

/// A name with a namespace.
fn canonical_component_name(name: String) -> (r: String)
    ensures
        r@ == with_namespace(name@),
{
    if has_colon(name.as_str()) {
        name
    } else {
        concat("minecraft:", name.as_str())
    }
}

/// How many bytes a character takes in UTF-8.
fn char_width(c: char) -> (r: usize)
    ensures
        r == width(c),
{
    let v: u32 = c as u32;
    if v < 0x80 {
        1
    } else if v < 0x800 {
        2
    } else if v < 0x1_0000 {
        3
    } else {
        4
    }
}

impl StringReader {
    pub open spec fn valid(&self) -> bool {
        self.cursor <= self.chars@.len() && 4 * self.chars@.len() <= usize::MAX
    }

    /// A reader at the start of a text.
    pub fn new(text: &str) -> (r: Self)
        ensures
            r.chars@ == text@,
            r.cursor == 0,
    {
        StringReader { chars: chars_of(text), cursor: 0 }
    }

    /// Whether the next character is `c`.
    fn next_is(&self, c: char) -> (r: bool)
        ensures
            r == at(self.chars@, self.cursor as int, c),
    {
        self.cursor < self.chars.len() && self.chars[self.cursor] == c
    }

    /// Skips white space.
    fn skip_whitespace(&mut self)
        requires
            old(self).valid(),
        ensures
            final(self).valid(),
            final(self).chars == old(self).chars,
            final(self).cursor == skip_space(old(self).chars@, old(self).cursor as int),
            final(self).cursor >= old(self).cursor,
    {
        let ghost end = skip_space(self.chars@, self.cursor as int);
        while self.cursor < self.chars.len() && is_white_space(self.chars[self.cursor])
            invariant
                self.valid(),
                self.chars == old(self).chars,
                self.cursor >= old(self).cursor,
                end == skip_space(self.chars@, old(self).cursor as int),
                end == skip_space(self.chars@, self.cursor as int),
            decreases self.chars.len() - self.cursor,
        {
            self.cursor = self.cursor + 1;
        }
    }

    /// Reads the name of an item or of a component.
    fn read_name(&mut self, item: bool) -> (r: String)
        requires
            old(self).valid(),
        ensures
            final(self).valid(),
            final(self).chars == old(self).chars,
            item ==> final(self).cursor == run_end(old(self).chars@, old(self).cursor as int, |c: char| item_char(c)),
            !item ==> final(self).cursor == run_end(old(self).chars@, old(self).cursor as int, |c: char| component_char(c)),
            final(self).cursor >= old(self).cursor,
            r@ == old(self).chars@.subrange(old(self).cursor as int, final(self).cursor as int),
    {
        let start: usize = self.cursor;
        if item {
            while self.cursor < self.chars.len() && is_item_char(self.chars[self.cursor])
                invariant
                    self.valid(),
                    self.chars == old(self).chars,
                    self.cursor >= start,
                    start == old(self).cursor,
                    run_end(self.chars@, start as int, |c: char| item_char(c)) == run_end(
                        self.chars@,
                        self.cursor as int,
                        |c: char| item_char(c),
                    ),
                decreases self.chars.len() - self.cursor,
            {
                self.cursor = self.cursor + 1;
            }
        } else {
            while self.cursor < self.chars.len() && is_component_char(self.chars[self.cursor])
                invariant
                    self.valid(),
                    self.chars == old(self).chars,
                    self.cursor >= start,
                    start == old(self).cursor,
                    run_end(self.chars@, start as int, |c: char| component_char(c)) == run_end(
                        self.chars@,
                        self.cursor as int,
                        |c: char| component_char(c),
                    ),
                decreases self.chars.len() - self.cursor,
            {
                self.cursor = self.cursor + 1;
            }
        }
        text_of(&self.chars, start, self.cursor)
    }

    /// How many bytes stand before a character.
    fn byte_offset(&self, n: usize) -> (r: usize)
        requires
            self.valid(),
            n <= self.chars@.len(),
        ensures
            r == bytes_before(self.chars@, n as int),
    {
        let mut sum: usize = 0;
        let mut i: usize = 0;
        while i < n
            invariant
                i <= n <= self.chars@.len(),
                self.valid(),
                sum == bytes_before(self.chars@, i as int),
                sum <= 4 * i,
            decreases n - i,
        {
            let w: usize = char_width(self.chars[i]);
            sum = sum + w;
            i += 1;
        }
        sum
    }

    /// An error before a character.
    fn error(&self, error_type: CommandErrorType, at: usize, argument: String) -> (r: CommandSyntaxError)
        requires
            self.valid(),
            at <= self.chars@.len(),
        ensures
            r@ == (SyntaxError {
                error_type,
                cursor: Some(bytes_before(self.chars@, at as int)),
                argument: argument@,
                reason: reason_of(error_type),
            }),
    {
        let reason: Option<&'static str> = match error_type {
            CommandErrorType::ComponentMalformed => Some("invalid component value"),
            _ => None,
        };
        CommandSyntaxError { error_type, cursor: Some(self.byte_offset(at)), argument, reason }
    }

    /// The error that a symbol is missing here.
    fn expected_component_symbol(&self, symbol: &'static str) -> (r: CommandSyntaxError)
        requires
            self.valid(),
        ensures
            r@ == (SyntaxError {
                error_type: CommandErrorType::ExpectedSymbol,
                cursor: Some(bytes_before(self.chars@, self.cursor as int)),
                argument: symbol@,
                reason: None,
            }),
    {
        self.error(CommandErrorType::ExpectedSymbol, self.cursor, symbol.to_owned())
    }
}

/// Whether the values stand inside a text.
pub open spec fn values_fit(values: Seq<GivenValue>, n: nat) -> bool {
    forall|i: int| 0 <= i < values.len() ==> (#[trigger] values[i]).start <= values[i].end && values[i].end <= n
}

/// The place of the first value that stands at a place.
fn find_value(values: &Vec<GivenValue>, start: usize) -> (r: Option<usize>)
    ensures
        match r {
            Some(i) => i < values@.len() && given(values@, start as int, 0) == Some(values@[i as int]) && values@[i as int].start == start,
            None => given(values@, start as int, 0) is None,
        },
{
    let mut i: usize = 0;
    while i < values.len()
        invariant
            i <= values.len(),
            given(values@, start as int, 0) == given(values@, start as int, i as int),
        decreases values.len() - i,
    {
        if values[i].start == start {
            return Some(i);
        }
        i += 1;
    }
    None
}

/// The argument type of a stack of items.
#[derive(Clone, Copy, Debug)]
pub struct ItemStackArgumentType;

/// The parser that a client uses for an argument.
#[derive(Clone, Copy, Debug, PartialEq, Eq, Structural)]
pub enum JavaClientArgumentType {
    ItemStack,
    ResourceLocation,
}

/// Suggestions that a client makes by itself.
#[derive(Clone, Copy, Debug, PartialEq, Eq, Structural)]
pub enum SuggestionProviders {
    AvailableSounds,
}

/// The arguments of a command that are stacks, by their names.
#[derive(Debug)]
pub struct CommandContext {
    pub stacks: Vec<(String, ItemStack)>,
}

/// The first stack with a name, from the `i`th on.
pub open spec fn stack_named(l: Seq<(String, ItemStack)>, name: Seq<char>, i: int) -> Option<ItemStack>
    decreases l.len() - i,
{
    if i < 0 || i >= l.len() {
        None
    } else if l[i].0@ == name {
        Some(l[i].1)
    } else {
        stack_named(l, name, i + 1)
    }
}

impl ItemStackArgumentType {
    /// The parser that a client uses.
    pub fn client_side_parser(&self) -> (r: JavaClientArgumentType)
        ensures
            r == JavaClientArgumentType::ItemStack,
    {
        JavaClientArgumentType::ItemStack
    }

    /// Parses a stack. The values of components are those that are given; where one is missing, the
    /// place where it has to be read is told.
    pub fn parse(
        &self,
        reader: &mut StringReader,
        values: &Vec<GivenValue>,
        regs: &Registries,
        ids: &mut ItemStackIdGenerator,
    ) -> (r: Result<ItemArgument, CommandSyntaxError>)
        requires
            old(reader).valid(),
            values_fit(values@, old(reader).chars@.len()),
        ensures
            advanced(old(ids).counter, final(ids).counter),
            final(reader).chars == old(reader).chars,
            is_parse(
                parse_item(*regs, old(reader).chars@, values@, old(reader).cursor as int),
                r,
                final(reader).cursor as int,
                next_uid(old(ids).counter),
            ),
    {
        let raw = reader.read_name(true);
        let item = match regs.item_by_key(strip_namespace(raw.as_str()).as_str()) {
            Some(item) => item,
            None => {
                return Err(
                    reader.error(CommandErrorType::UnknownItem, reader.cursor, canonical_component_name(raw)),
                );
            },
        };
        let uid: i32 = ids.next_id();
        let mut patch: Vec<(DataComponent, Option<Arc<ComponentValue>>)> = Vec::new();
        assert(patch_val(patch@) =~= Seq::empty());
        let mut open: bool = reader.next_is('[');
        if open {
            reader.cursor = reader.cursor + 1;
        }
        let ghost t = reader.chars@;
        let ghost o = parse_item(*regs, t, values@, old(reader).cursor as int);
        while open
            invariant
                advanced(old(ids).counter, ids.counter),
                reader.valid(),
                reader.chars == old(reader).chars,
                t == reader.chars@,
                values_fit(values@, t.len()),
                o == parse_item(*regs, t, values@, old(reader).cursor as int),
                open ==> o == parse_components(*regs, t, values@, *item, reader.cursor as int, patch_val(patch@)),
                !open ==> o == parsed(*item, patch_val(patch@), reader.cursor as int),
            decreases t.len() - reader.cursor + if open { 1int } else { 0int },
        {
            let ghost i = reader.cursor as int;
            reader.skip_whitespace();
            if reader.next_is(']') {
                reader.cursor = reader.cursor + 1;
                open = false;
            } else {
                if reader.cursor >= reader.chars.len() {
                    return Err(
                        reader.error(CommandErrorType::ComponentExpected, reader.cursor, crate::elements::empty_text()),
                    );
                }
                let removed: bool = reader.next_is('!');
                if removed {
                    reader.cursor = reader.cursor + 1;
                }
                let start: usize = reader.cursor;
                let key = reader.read_name(false);
                let id = match DataComponent::try_from_name(key.as_str()) {
                    Some(id) => id,
                    None => {
                        reader.cursor = start;
                        return Err(
                            reader.error(CommandErrorType::ComponentUnknown, start, canonical_component_name(key)),
                        );
                    },
                };
                if find_last(&patch, id, patch.len()).is_some() {
                    reader.cursor = start;
                    return Err(
                        CommandSyntaxError {
                            error_type: CommandErrorType::ComponentRepeated,
                            cursor: None,
                            argument: id.to_name().to_owned(),
                            reason: None,
                        },
                    );
                }
                reader.skip_whitespace();
                let ghost before = patch_val(patch@);
                if removed {
                    if reader.next_is('=') {
                        return Err(reader.expected_component_symbol("]"));
                    }
                    patch.push((id, None));
                    assert(patch_val(patch@) =~= before.push((id, None)));
                } else {
                    if !reader.next_is('=') {
                        return Err(reader.expected_component_symbol("="));
                    }
                    reader.cursor = reader.cursor + 1;
                    reader.skip_whitespace();
                    assert(o == parse_value(*regs, t, values@, *item, id, reader.cursor as int, i, before));
                    let place: usize = match find_value(values, reader.cursor) {
                        Some(place) => place,
                        None => {
                            return Ok(ItemArgument::NeedsValue(reader.cursor));
                        },
                    };
                    let tag = match &values[place].tag {
                        Some(tag) => tag,
                        None => {
                            reader.cursor = values[place].end;
                            return Err(
                                reader.error(CommandErrorType::InvalidValue, reader.cursor, crate::elements::empty_text()),
                            );
                        },
                    };
                    match read_data(id, tag, regs, ids) {
                        Some(value) => {
                            let e: (DataComponent, Option<Arc<ComponentValue>>) = (id, Some(Arc::new(value)));
                            let ghost x = entry_val(e);
                            patch.push(e);
                            assert(patch_val(patch@) =~= before.push(x));
                        },
                        None => {
                            return Err(
                                reader.error(
                                    CommandErrorType::ComponentMalformed,
                                    reader.cursor,
                                    id.to_name().to_owned(),
                                ),
                            );
                        },
                    }
                    reader.cursor = values[place].end;
                }
                assert(o == parse_next(*regs, t, values@, *item, reader.cursor as int, patch_val(patch@)));
                reader.skip_whitespace();
                if reader.next_is(',') {
                    reader.cursor = reader.cursor + 1;
                } else if reader.next_is(']') {
                    reader.cursor = reader.cursor + 1;
                    open = false;
                } else {
                    return Err(reader.expected_component_symbol("]"));
                }
            }
        }
        Ok(ItemArgument::Stack(ItemStack { item_count: 1, item, patch, uid }))
    }

    /// The stack that a command was given under a name.
    pub fn get(context: &CommandContext, name: &str) -> (r: Result<ItemStack, CommandSyntaxError>)
        ensures
            match stack_named(context.stacks@, name@, 0) {
                Some(s) => r is Ok && r->Ok_0@ == s@ && r->Ok_0.uid == s.uid,
                None => r is Err && r->Err_0@ == (SyntaxError {
                    error_type: CommandErrorType::UnknownArgument,
                    cursor: None,
                    argument: name@,
                    reason: None,
                }),
            },
    {
        let mut i: usize = 0;
        while i < context.stacks.len()
            invariant
                i <= context.stacks.len(),
                stack_named(context.stacks@, name@, 0) == stack_named(context.stacks@, name@, i as int),
            decreases context.stacks.len() - i,
        {
            if same_text(context.stacks[i].0.as_str(), name) {
                return Ok(context.stacks[i].1.copy());
            }
            i += 1;
        }
        Err(
            CommandSyntaxError {
                error_type: CommandErrorType::UnknownArgument,
                cursor: None,
                argument: name.to_owned(),
                reason: None,
            },
        )
    }
}

/// The argument type of a sound.
#[derive(Clone, Copy, Debug)]
pub struct SoundArgumentType;

/// Whether a character may stand in an identifier.
pub open spec fn identifier_char(c: char) -> bool {
    c == ':' || crate::identifier::path_char(c)
}

/// The names of the first `n` sounds that begin with a text.
pub open spec fn matching(sounds: Seq<String>, start: Seq<char>, n: nat) -> Seq<Seq<char>>
    decreases n,
{
    if n == 0 || n > sounds.len() {
        Seq::empty()
    } else {
        let name = "minecraft:"@ + sounds[n - 1]@;
        if start.is_prefix_of(name) {
            matching(sounds, start, (n - 1) as nat).push(name)
        } else {
            matching(sounds, start, (n - 1) as nat)
        }
    }
}

/// What texts are.
pub open spec fn texts(v: Seq<String>) -> Seq<Seq<char>> {
    Seq::new(v.len(), |i: int| v[i]@)
}

impl SoundArgumentType {
    /// The parser that a client uses.
    pub fn client_side_parser(&self) -> (r: JavaClientArgumentType)
        ensures
            r == JavaClientArgumentType::ResourceLocation,
    {
        JavaClientArgumentType::ResourceLocation
    }

    /// The suggestions that a client makes by itself.
    pub fn override_suggestion_providers(&self) -> (r: Option<SuggestionProviders>)
        ensures
            r == Some(SuggestionProviders::AvailableSounds),
    {
        Some(SuggestionProviders::AvailableSounds)
    }

    /// Parses an identifier.
    pub fn parse(&self, reader: &mut StringReader) -> (r: Result<String, CommandSyntaxError>)
        requires
            old(reader).valid(),
        ensures
            final(reader).chars == old(reader).chars,
            ({
                let t = old(reader).chars@;
                let i = old(reader).cursor as int;
                let end = run_end(t, i, |c: char| identifier_char(c));
                match identifier_of(t.subrange(i, end)) {
                    Some(id) => r is Ok && r->Ok_0@ == id && final(reader).cursor == end,
                    None => r is Err && r->Err_0@ == (SyntaxError {
                        error_type: CommandErrorType::InvalidIdentifier,
                        cursor: Some(bytes_before(t, i)),
                        argument: t.subrange(i, end),
                        reason: None,
                    }) && final(reader).cursor == i,
                }
            }),
    {
        let start: usize = reader.cursor;
        let ghost end = run_end(reader.chars@, start as int, |c: char| identifier_char(c));
        while reader.cursor < reader.chars.len() && is_identifier_char(reader.chars[reader.cursor])
            invariant
                reader.valid(),
                reader.chars == old(reader).chars,
                start == old(reader).cursor,
                reader.cursor >= start,
                end == run_end(reader.chars@, start as int, |c: char| identifier_char(c)),
                end == run_end(reader.chars@, reader.cursor as int, |c: char| identifier_char(c)),
            decreases reader.chars.len() - reader.cursor,
        {
            reader.cursor = reader.cursor + 1;
        }
        let raw = text_of(&reader.chars, start, reader.cursor);
        match parse_identifier(raw.as_str()) {
            Some(id) => Ok(id),
            None => {
                reader.cursor = start;
                Err(reader.error(CommandErrorType::InvalidIdentifier, start, raw))
            },
        }
    }

    /// The names of the sounds that begin with a text.
    pub fn list_suggestions(&self, remaining: &str, regs: &Registries) -> (r: Vec<String>)
        ensures
            texts(r@) == matching(regs.sounds@, remaining@, regs.sounds@.len()),
    {
        let mut out: Vec<String> = Vec::new();
        assert(texts(out@) =~= matching(regs.sounds@, remaining@, 0));
        let mut i: usize = 0;
        while i < regs.sounds.len()
            invariant
                i <= regs.sounds.len(),
                texts(out@) == matching(regs.sounds@, remaining@, i as nat),
            decreases regs.sounds.len() - i,
        {
            let name = concat("minecraft:", regs.sounds[i].as_str());
            if crate::identifier::strip_prefix(name.as_str(), remaining).is_some() {
                let ghost before = texts(out@);
                let ghost x = name@;
                out.push(name);
                assert(texts(out@) =~= before.push(x));
            }
            i += 1;
        }
        out
    }

    /// Texts that can be parsed.
    pub fn examples(&self) -> (r: Vec<String>)
        ensures
            texts(r@) == seq!["minecraft:ambient.cave"@],
    {
        let r: Vec<String> = vec!["minecraft:ambient.cave".to_owned()];
        assert(texts(r@) =~= seq!["minecraft:ambient.cave"@]);
        r
    }
}

fn is_identifier_char(c: char) -> (r: bool)
    ensures
        r == identifier_char(c),
{
    c == ':' || c == '/' || c == '_' || c == '-' || c == '.' || ('a' <= c && c <= 'z') || ('0' <= c && c <= '9')
}

} // verus!
