//! A character-by-character BBCode tokenizer that emits Instructions.
use super::instruction::{Instruction, InstructionV};
use crate::text::{push_char, push_str};
use vstd::prelude::*;

verus! {

/// Tokenizer modes.
#[derive(Debug, PartialEq, Eq, Structural, Clone, Copy)]
pub enum ReadMode {
    Text,
    Escape,
    Tag,
    TagPrimaryArg,
    Parabreak,
}

impl Default for ReadMode {
    fn default() -> (m: Self)
        ensures
            m == ReadMode::Text,
    {
        ReadMode::Text
    }
}

/// The state of the tokenizer: its mode, the instruction being read, and the
/// instructions emitted.
pub struct TokenizerState {
    pub mode: ReadMode,
    pub cur: InstructionV,
    pub insts: Seq<InstructionV>,
}

/// A character that is written as an entity.
pub open spec fn is_special(c: char) -> bool {
    c == '>' || c == '<' || c == '&' || c == '"' || c == '\''
}

/// The entity a character is written as (without a closing `;`).
pub open spec fn entity(c: char) -> Seq<char> {
    if c == '<' { "&lt"@ }
    else if c == '>' { "&gt"@ }
    else if c == '&' { "&amp"@ }
    else if c == '"' { "&quot"@ }
    else if c == '\'' { "&#x27"@ }
    else { "&#x2F"@ }
}

/// Emits the instruction being read, if any.
pub open spec fn emit_cur(st: TokenizerState) -> TokenizerState {
    if st.cur is Null {
        st
    } else {
        TokenizerState { cur: InstructionV::Null, insts: st.insts.push(st.cur), ..st }
    }
}

/// Emits `i` and forgets the instruction being read.
pub open spec fn emit_new(st: TokenizerState, i: InstructionV) -> TokenizerState {
    TokenizerState { cur: InstructionV::Null, insts: st.insts.push(i), ..st }
}

/// Adds `t` to the text being read, or starts text with it.
pub open spec fn add_text(cur: InstructionV, t: Seq<char>) -> InstructionV {
    match cur {
        InstructionV::Text(s) => InstructionV::Text(s + t),
        _ => InstructionV::Text(t),
    }
}

/// Adds `t` to the name of the tag being read, or starts a tag with it.
pub open spec fn add_tag(cur: InstructionV, t: Seq<char>) -> InstructionV {
    match cur {
        InstructionV::Tag(s, a) => InstructionV::Tag(s + t, a),
        _ => InstructionV::Tag(t, None),
    }
}

/// A character read as text.
pub open spec fn step_text(st: TokenizerState, c: char) -> TokenizerState {
    if c == '\\' {
        TokenizerState { mode: ReadMode::Escape, ..st }
    } else if c == '[' {
        TokenizerState { mode: ReadMode::Tag, ..emit_cur(st) }
    } else if c == '\r' {
        st
    } else if c == '\n' {
        TokenizerState { mode: ReadMode::Parabreak, ..emit_cur(st) }
    } else if is_special(c) {
        TokenizerState { cur: add_text(st.cur, entity(c)), ..st }
    } else {
        TokenizerState { cur: add_text(st.cur, seq![c]), ..st }
    }
}

/// A character read after a line ending: a tab makes a paragraph break,
/// carriage returns and spaces are skipped, anything else makes a line break
/// and is read as text.
pub open spec fn step_parabreak(st: TokenizerState, c: char) -> TokenizerState {
    if c == '\t' {
        TokenizerState { mode: ReadMode::Text, ..emit_new(st, InstructionV::Parabreak("\n\t"@)) }
    } else if c == '\r' || c == ' ' {
        st
    } else {
        step_text(TokenizerState { mode: ReadMode::Text, ..emit_new(st, InstructionV::Linebreak) }, c)
    }
}

/// A character read after a backslash. An escaped special character replaces
/// the text being read with its entity (or extends the tag being read).
pub open spec fn step_escape(st: TokenizerState, c: char) -> TokenizerState {
    let st = TokenizerState { mode: ReadMode::Text, ..st };
    if is_special(c) || c == '\\' {
        TokenizerState {
            cur: match st.cur {
                InstructionV::Tag(s, a) => InstructionV::Tag(s + entity(c), a),
                _ => InstructionV::Text(entity(c)),
            },
            ..st
        }
    } else {
        TokenizerState { cur: add_text(st.cur, seq![c]), ..st }
    }
}

/// A character read inside a tag's name.
pub open spec fn step_tag(st: TokenizerState, c: char) -> TokenizerState {
    if c == ']' {
        TokenizerState { mode: ReadMode::Text, ..emit_cur(st) }
    } else if c == '=' {
        TokenizerState { mode: ReadMode::TagPrimaryArg, ..st }
    } else if is_special(c) || c == '\\' {
        TokenizerState { cur: add_tag(st.cur, entity(c)), ..st }
    } else {
        TokenizerState { cur: add_tag(st.cur, seq![c]), ..st }
    }
}

/// A character read inside a tag's argument; `None` when no tag is being read
/// (a tag that starts with `=`), where the tokenizer cannot go on.
pub open spec fn step_tag_arg(st: TokenizerState, c: char) -> Option<TokenizerState> {
    if c == ']' {
        Some(TokenizerState { mode: ReadMode::Text, ..emit_cur(st) })
    } else {
        let t = if is_special(c) || c == '\\' { entity(c) } else { seq![c] };
        match st.cur {
            InstructionV::Tag(s, a) => Some(TokenizerState {
                cur: InstructionV::Tag(s, Some(match a { Some(p) => p + t, None => t })),
                ..st
            }),
            _ => None,
        }
    }
}

/// One character read in the current mode.
pub open spec fn step(st: TokenizerState, c: char) -> Option<TokenizerState> {
    match st.mode {
        ReadMode::Text => Some(step_text(st, c)),
        ReadMode::Escape => Some(step_escape(st, c)),
        ReadMode::Tag => Some(step_tag(st, c)),
        ReadMode::TagPrimaryArg => step_tag_arg(st, c),
        ReadMode::Parabreak => Some(step_parabreak(st, c)),
    }
}

/// The state after reading `s`; `None` when the tokenizer cannot go on.
pub open spec fn run(st: TokenizerState, s: Seq<char>) -> Option<TokenizerState>
    decreases s.len(),
{
    if s.len() == 0 {
        Some(st)
    } else {
        match run(st, s.drop_last()) {
            Some(t) => step(t, s.last()),
            None => None,
        }
    }
}

/// A tokenizer that can read `s` can read each prefix of it.
proof fn lemma_run_prefix(st: TokenizerState, s: Seq<char>, i: int)
    requires
        run(st, s) is Some,
        0 <= i <= s.len(),
    ensures
        run(st, s.take(i)) is Some,
    decreases s.len() - i,
{
    if i < s.len() {
        lemma_run_prefix(st, s, i + 1);
        assert(s.take(i + 1).drop_last() =~= s.take(i));
    } else {
        assert(s.take(i) =~= s);
    }
}

/// The state of a fresh tokenizer.
pub open spec fn initial() -> TokenizerState {
    TokenizerState { mode: ReadMode::Text, cur: InstructionV::Null, insts: Seq::empty() }
}

/// The instructions read from `s` by a fresh tokenizer.
pub open spec fn instructions_of(s: Seq<char>) -> Option<Seq<InstructionV>> {
    match run(initial(), s) {
        Some(st) => Some(emit_cur(st).insts),
        None => None,
    }
}

/// The text holds none of `<`, `>`, `"` and `'`.
pub open spec fn markup_free(t: Seq<char>) -> bool {
    forall|k: int| 0 <= k < t.len() ==> !(t[k] == '<' || t[k] == '>' || t[k] == '"' || t[k] == '\'')
}

/// No text, tag name or argument of the instruction holds `<`, `>`, `"` or `'`.
pub open spec fn inst_markup_free(i: InstructionV) -> bool {
    match i {
        InstructionV::Null => true,
        InstructionV::Tag(t, a) => markup_free(t) && match a {
            Some(x) => markup_free(x),
            None => true,
        },
        InstructionV::TagClose(t) => markup_free(t),
        InstructionV::Text(t) => markup_free(t),
        InstructionV::Linebreak => true,
        InstructionV::Parabreak(p) => markup_free(p),
    }
}

/// The instruction being read is free of markup characters, and so is every
/// instruction emitted, none of which is `Null`.
pub open spec fn state_markup_free(st: TokenizerState) -> bool {
    &&& inst_markup_free(st.cur)
    &&& forall|k: int| 0 <= k < st.insts.len() ==> !(#[trigger] st.insts[k] is Null) && inst_markup_free(st.insts[k])
}

proof fn lemma_markup_free_concat(a: Seq<char>, b: Seq<char>)
    requires
        markup_free(a),
        markup_free(b),
    ensures
        markup_free(a + b),
{
    assert forall|k: int| 0 <= k < (a + b).len() implies !((a + b)[k] == '<' || (a + b)[k] == '>'
        || (a + b)[k] == '"' || (a + b)[k] == '\'') by {
        if k < a.len() {
            assert((a + b)[k] == a[k]);
        } else {
            assert((a + b)[k] == b[k - a.len()]);
        }
    }
}

proof fn lemma_entity_markup_free(c: char)
    ensures
        markup_free(entity(c)),
{
    reveal_strlit("&lt");
    reveal_strlit("&gt");
    reveal_strlit("&amp");
    reveal_strlit("&quot");
    reveal_strlit("&#x27");
    reveal_strlit("&#x2F");
}

proof fn lemma_step_markup_free(st: TokenizerState, c: char)
    requires
        state_markup_free(st),
    ensures
        step(st, c) matches Some(t) ==> state_markup_free(t),
{
    reveal_strlit("\n\t");
    lemma_entity_markup_free(c);
    let piece = if is_special(c) || c == '\\' { entity(c) } else { seq![c] };
    assert(markup_free(piece));
    match st.cur {
        InstructionV::Text(t) => {
            lemma_markup_free_concat(t, piece);
        },
        InstructionV::Tag(t, a) => {
            lemma_markup_free_concat(t, piece);
            if let Some(x) = a {
                lemma_markup_free_concat(x, piece);
            }
        },
        _ => {},
    }
    let pushed = emit_cur(st);
    assert(state_markup_free(pushed));
    let lb = TokenizerState { mode: ReadMode::Text, ..emit_new(st, InstructionV::Linebreak) };
    assert(state_markup_free(lb));
    assert(state_markup_free(TokenizerState { mode: ReadMode::Text, ..emit_new(st, InstructionV::Parabreak("\n\t"@)) }));
}

proof fn lemma_run_markup_free(st: TokenizerState, s: Seq<char>)
    requires
        state_markup_free(st),
    ensures
        run(st, s) matches Some(t) ==> state_markup_free(t),
    decreases s.len(),
{
    if s.len() > 0 {
        lemma_run_markup_free(st, s.drop_last());
        if let Some(t) = run(st, s.drop_last()) {
            lemma_step_markup_free(t, s.last());
        }
    }
}

/// Every instruction the tokenizer emits is a real one (never `Null`), and no
/// text, tag name or argument in it holds `<`, `>`, `"` or `'`: those characters
/// come out as entities.
pub proof fn lemma_instructions_markup_free(s: Seq<char>)
    ensures
        instructions_of(s) matches Some(insts) ==> forall|k: int| 0 <= k < insts.len()
            ==> !(#[trigger] insts[k] is Null) && inst_markup_free(insts[k]),
{
    assert(state_markup_free(initial()));
    lemma_run_markup_free(initial(), s);
    if let Some(t) = run(initial(), s) {
        assert(state_markup_free(emit_cur(t)));
    }
}

/// What decides whether the tokenizer can go on: its mode, and whether a tag
/// is being read.
pub open spec fn abs_step(mode: ReadMode, tag: bool, c: char) -> Option<(ReadMode, bool)> {
    match mode {
        ReadMode::Text => Some(abs_text(tag, c)),
        ReadMode::Escape => Some((ReadMode::Text, if is_special(c) || c == '\\' { tag } else { false })),
        ReadMode::Tag => Some(if c == ']' {
            (ReadMode::Text, false)
        } else if c == '=' {
            (ReadMode::TagPrimaryArg, tag)
        } else {
            (ReadMode::Tag, true)
        }),
        ReadMode::TagPrimaryArg => if c == ']' {
            Some((ReadMode::Text, false))
        } else if tag {
            Some((ReadMode::TagPrimaryArg, true))
        } else {
            None
        },
        ReadMode::Parabreak => Some(if c == '\t' {
            (ReadMode::Text, false)
        } else if c == '\r' || c == ' ' {
            (ReadMode::Parabreak, tag)
        } else {
            abs_text(false, c)
        }),
    }
}

/// `abs_step` in text mode.
pub open spec fn abs_text(tag: bool, c: char) -> (ReadMode, bool) {
    if c == '\\' {
        (ReadMode::Escape, tag)
    } else if c == '[' {
        (ReadMode::Tag, false)
    } else if c == '\r' {
        (ReadMode::Text, tag)
    } else if c == '\n' {
        (ReadMode::Parabreak, false)
    } else {
        (ReadMode::Text, false)
    }
}

/// `abs_step` over a text.
pub open spec fn abs_run(mode: ReadMode, tag: bool, s: Seq<char>) -> Option<(ReadMode, bool)>
    decreases s.len(),
{
    if s.len() == 0 {
        Some((mode, tag))
    } else {
        match abs_run(mode, tag, s.drop_last()) {
            Some((m, t)) => abs_step(m, t, s.last()),
            None => None,
        }
    }
}

proof fn lemma_abs_step(st: TokenizerState, c: char)
    ensures
        step(st, c) is Some <==> abs_step(st.mode, st.cur is Tag, c) is Some,
        step(st, c) matches Some(t) ==> abs_step(st.mode, st.cur is Tag, c) == Some((t.mode, t.cur is Tag)),
{
}

proof fn lemma_abs_run(st: TokenizerState, s: Seq<char>)
    ensures
        run(st, s) is Some <==> abs_run(st.mode, st.cur is Tag, s) is Some,
        run(st, s) matches Some(t) ==> abs_run(st.mode, st.cur is Tag, s) == Some((t.mode, t.cur is Tag)),
    decreases s.len(),
{
    if s.len() > 0 {
        lemma_abs_run(st, s.drop_last());
        if let Some(t) = run(st, s.drop_last()) {
            lemma_abs_step(t, s.last());
        }
    }
}

/// Once the tokenizer cannot go on, it cannot go on with more text.
proof fn lemma_none_stays(mode: ReadMode, tag: bool, s: Seq<char>, i: int)
    requires
        0 <= i <= s.len(),
        abs_run(mode, tag, s.take(i)) is None,
    ensures
        abs_run(mode, tag, s) is None,
    decreases s.len() - i,
{
    if i < s.len() {
        assert(s.take(i + 1).drop_last() =~= s.take(i));
        lemma_none_stays(mode, tag, s, i + 1);
    } else {
        assert(s.take(i) =~= s);
    }
}

/// Struct for BBCode tokenization.
pub struct BBCodeTokenizer {
    mode: ReadMode,
    current_instruction: Instruction,
    instructions: Vec<Instruction>,
}

impl View for BBCodeTokenizer {
    type V = TokenizerState;

    closed spec fn view(&self) -> TokenizerState {
        TokenizerState {
            mode: self.mode,
            cur: self.current_instruction@,
            insts: self.instructions@.map_values(|i: Instruction| i@),
        }
    }
}

impl Default for BBCodeTokenizer {
    fn default() -> (t: Self)
        ensures
            t@ == initial(),
    {
        let t = BBCodeTokenizer { mode: ReadMode::Text, current_instruction: Instruction::Null, instructions: Vec::new() };
        assert(t@.insts =~= Seq::<InstructionV>::empty());
        t
    }
}

/// Adds `t` to the text instruction, or makes a text instruction of it.
fn with_text(cur: Instruction, t: &str) -> (r: Instruction)
    ensures
        r@ == add_text(cur@, t@),
{
    match cur {
        Instruction::Text(mut contents) => {
            push_str(&mut contents, t);
            Instruction::Text(contents)
        },
        _ => Instruction::Text(t.to_owned()),
    }
}

/// Adds a character to the text instruction, or makes a text instruction of it.
fn with_text_char(cur: Instruction, c: char) -> (r: Instruction)
    ensures
        r@ == add_text(cur@, seq![c]),
{
    match cur {
        Instruction::Text(mut contents) => {
            let ghost before = contents@;
            push_char(&mut contents, c);
            assert(contents@ =~= before + seq![c]);
            Instruction::Text(contents)
        },
        _ => {
            let mut s = String::new();
            push_char(&mut s, c);
            assert(s@ =~= seq![c]);
            Instruction::Text(s)
        },
    }
}

/// Adds `t` to the tag instruction's name, or makes a tag instruction of it.
fn with_tag(cur: Instruction, t: &str) -> (r: Instruction)
    ensures
        r@ == add_tag(cur@, t@),
{
    match cur {
        Instruction::Tag(mut contents, arg) => {
            push_str(&mut contents, t);
            Instruction::Tag(contents, arg)
        },
        _ => Instruction::Tag(t.to_owned(), None),
    }
}

/// The characters of one character.
fn char_string(c: char) -> (s: String)
    ensures
        s@ == seq![c],
{
    let mut s = String::new();
    push_char(&mut s, c);
    assert(s@ =~= seq![c]);
    s
}

impl BBCodeTokenizer {
    /// Creates a new BBCodeTokenizer
    pub fn new() -> (t: Self)
        ensures
            t@ == initial(),
    {
        Self::default()
    }

    /// The instruction being read, taken out.
    fn take_cur(&mut self) -> (cur: Instruction)
        ensures
            cur@ == old(self)@.cur,
            final(self)@ == (TokenizerState { cur: InstructionV::Null, ..old(self)@ }),
    {
        let mut cur = Instruction::Null;
        std::mem::swap(&mut cur, &mut self.current_instruction);
        cur
    }

    /// Whether the tokenizer can read all of `bbcode`: it cannot go on at a tag
    /// that starts with `=` and has more before its `]`.
    pub fn can_tokenize(&self, bbcode: &str) -> (b: bool)
        ensures
            b == run(self@, bbcode@) is Some,
    {
        let chars = crate::text::to_chars(bbcode);
        let mut mode = self.mode;
        let mut tag = matches!(self.current_instruction, Instruction::Tag(..));
        let mut i: usize = 0;
        proof {
            lemma_abs_run(self@, bbcode@);
            assert(chars@.take(0) =~= Seq::<char>::empty());
        }
        while i < chars.len()
            invariant
                chars@ == bbcode@,
                i <= chars@.len(),
                abs_run(self@.mode, self@.cur is Tag, chars@.take(i as int)) == Some((mode, tag)),
                run(self@, bbcode@) is Some <==> abs_run(self@.mode, self@.cur is Tag, bbcode@) is Some,
            decreases chars@.len() - i,
        {
            let c = chars[i];
            proof {
                assert(chars@.take(i + 1).drop_last() =~= chars@.take(i as int));
                assert(chars@.take(i + 1).last() == c);
            }
            let special = c == '>' || c == '<' || c == '&' || c == '"' || c == '\'' || c == '\\';
            let text_next = if c == '\\' {
                (ReadMode::Escape, tag)
            } else if c == '[' {
                (ReadMode::Tag, false)
            } else if c == '\r' {
                (ReadMode::Text, tag)
            } else if c == '\n' {
                (ReadMode::Parabreak, false)
            } else {
                (ReadMode::Text, false)
            };
            let next = match mode {
                ReadMode::Text => text_next,
                ReadMode::Escape => (ReadMode::Text, if special { tag } else { false }),
                ReadMode::Tag => {
                    if c == ']' {
                        (ReadMode::Text, false)
                    } else if c == '=' {
                        (ReadMode::TagPrimaryArg, tag)
                    } else {
                        (ReadMode::Tag, true)
                    }
                },
                ReadMode::TagPrimaryArg => {
                    if c == ']' {
                        (ReadMode::Text, false)
                    } else if tag {
                        (ReadMode::TagPrimaryArg, true)
                    } else {
                        proof {
                            assert(abs_run(self@.mode, self@.cur is Tag, chars@.take(i + 1)) is None);
                            lemma_none_stays(self@.mode, self@.cur is Tag, chars@, i + 1);
                            assert(chars@.take(chars@.len() as int) =~= chars@);
                        }
                        return false;
                    }
                },
                ReadMode::Parabreak => {
                    if c == '\t' {
                        (ReadMode::Text, false)
                    } else if c == '\r' || c == ' ' {
                        (ReadMode::Parabreak, tag)
                    } else if c == '\\' {
                        (ReadMode::Escape, false)
                    } else if c == '[' {
                        (ReadMode::Tag, false)
                    } else if c == '\n' {
                        (ReadMode::Parabreak, false)
                    } else {
                        (ReadMode::Text, false)
                    }
                },
            };
            mode = next.0;
            tag = next.1;
            i = i + 1;
        }
        assert(chars@.take(chars@.len() as int) =~= chars@);
        true
    }

    /// Reads and tokenizes BBCode into individual Instructions.
    pub fn tokenize(&mut self, bbcode: &str) -> (r: &Vec<Instruction>)
        requires
            run(old(self)@, bbcode@) is Some,
        ensures
            final(self)@ == emit_cur(run(old(self)@, bbcode@)->0),
            r@.map_values(|i: Instruction| i@) == final(self)@.insts,
    {
        let chars = crate::text::to_chars(bbcode);
        let ghost start = self@;
        let mut i: usize = 0;
        while i < chars.len()
            invariant
                chars@ == bbcode@,
                i <= chars@.len(),
                run(start, chars@) is Some,
                run(start, chars@.take(i as int)) == Some(self@),
            decreases chars@.len() - i,
        {
            let character = chars[i];
            proof {
                lemma_run_prefix(start, chars@, i + 1);
                assert(chars@.take(i + 1).drop_last() =~= chars@.take(i as int));
                assert(chars@.take(i + 1).last() == character);
            }
            match self.mode {
                ReadMode::Text => self.parse_text(character),
                ReadMode::Escape => self.parse_escape(character),
                ReadMode::Tag => self.parse_tag(character),
                ReadMode::TagPrimaryArg => self.parse_tag_primary_arg(character),
                ReadMode::Parabreak => self.parse_parabreak(character),
            }
            i = i + 1;
        }
        assert(chars@.take(i as int) =~= chars@);
        self.set_cur_instruction();
        &self.instructions
    }

    /// Reads a character as text.
    fn parse_text(&mut self, character: char)
        ensures
            final(self)@ == step_text(old(self)@, character),
    {
        match character {
            '\\' => self.mode = ReadMode::Escape,
            '[' => {
                self.set_cur_instruction();
                self.mode = ReadMode::Tag;
            },
            '\r' => {},
            '\n' => {
                self.set_cur_instruction();
                self.mode = ReadMode::Parabreak;
            },
            '>' | '<' | '&' | '"' | '\'' => {
                let cur = self.take_cur();
                self.current_instruction = with_text(cur, Self::sanitize(character));
            },
            _ => {
                let cur = self.take_cur();
                self.current_instruction = with_text_char(cur, character);
            },
        }
    }

    /// Reads a character after a line ending.
    fn parse_parabreak(&mut self, character: char)
        ensures
            final(self)@ == step_parabreak(old(self)@, character),
    {
        match character {
            '\t' => {
                self.set_new_instruction(Instruction::Parabreak("\n\t".to_owned()));
                self.mode = ReadMode::Text;
            },
            // Consume carriage returns.
            '\r' => {},
            // Consume whitespace.
            ' ' => {},
            _ => {
                self.set_new_instruction(Instruction::Linebreak);
                self.mode = ReadMode::Text;
                self.parse_text(character);
            },
        }
    }

    /// Reads an escaped character.
    fn parse_escape(&mut self, character: char)
        ensures
            final(self)@ == step_escape(old(self)@, character),
    {
        self.mode = ReadMode::Text;
        match character {
            '>' | '<' | '&' | '"' | '\'' | '\\' => {
                let cur = self.take_cur();
                let san_char = Self::sanitize(character);
                self.current_instruction = match cur {
                    Instruction::Tag(mut contents, arg) => {
                        push_str(&mut contents, san_char);
                        Instruction::Tag(contents, arg)
                    },
                    _ => Instruction::Text(san_char.to_owned()),
                };
            },
            _ => {
                let cur = self.take_cur();
                self.current_instruction = with_text_char(cur, character);
            },
        }
    }

    /// Reads a character of a tag's name.
    fn parse_tag(&mut self, character: char)
        ensures
            final(self)@ == step_tag(old(self)@, character),
    {
        match character {
            ']' => {
                self.set_cur_instruction();
                self.mode = ReadMode::Text;
            },
            '=' => {
                self.mode = ReadMode::TagPrimaryArg;
            },
            '>' | '<' | '&' | '"' | '\'' | '\\' => {
                let cur = self.take_cur();
                self.current_instruction = with_tag(cur, Self::sanitize(character));
            },
            _ => {
                let cur = self.take_cur();
                let s = char_string(character);
                self.current_instruction = with_tag(cur, s.as_str());
            },
        }
    }

    /// Reads a character of a tag's argument.
    fn parse_tag_primary_arg(&mut self, character: char)
        requires
            step_tag_arg(old(self)@, character) is Some,
        ensures
            final(self)@ == step_tag_arg(old(self)@, character)->0,
    {
        match character {
            ']' => {
                self.set_cur_instruction();
                self.mode = ReadMode::Text;
            },
            _ => {
                let piece = match character {
                    '>' | '<' | '&' | '"' | '\'' | '\\' => Self::sanitize(character).to_owned(),
                    _ => char_string(character),
                };
                let cur = self.take_cur();
                self.current_instruction = match cur {
                    Instruction::Tag(contents, args) => match args {
                        Some(mut primarg) => {
                            push_str(&mut primarg, piece.as_str());
                            Instruction::Tag(contents, Some(primarg))
                        },
                        None => Instruction::Tag(contents, Some(piece)),
                    },
                    // Excluded by the precondition: an argument always follows a name.
                    other => other,
                };
            },
        }
    }

    /// Adds current instruction to instruction vector and resets current instruction.
    fn set_cur_instruction(&mut self)
        ensures
            final(self)@ == emit_cur(old(self)@),
    {
        if !matches!(self.current_instruction, Instruction::Null) {
            let cur = self.take_cur();
            let ghost before = self.instructions@;
            self.instructions.push(cur);
            assert(self.instructions@.map_values(|i: Instruction| i@)
                =~= before.map_values(|i: Instruction| i@).push(cur@));
        }
    }

    /// Adds a given instruction to instruction vector and resets current instruction.
    fn set_new_instruction(&mut self, instruction: Instruction)
        ensures
            final(self)@ == emit_new(old(self)@, instruction@),
    {
        let ghost before = self.instructions@;
        self.instructions.push(instruction);
        self.current_instruction = Instruction::Null;
        assert(self.instructions@.map_values(|i: Instruction| i@)
            =~= before.map_values(|i: Instruction| i@).push(instruction@));
    }

    /// The entity of a special character, as the tokenizer writes it.
    fn sanitize(character: char) -> (s: &'static str)
        requires
            is_special(character) || character == '\\',
        ensures
            s@ == entity(character),
    {
        match character {
            '<' => "&lt",
            '>' => "&gt",
            '&' => "&amp",
            '"' => "&quot",
            '\'' => "&#x27",
            _ => "&#x2F",
        }
    }
}

} // verus!
