//! The command language of the debugger's prompt.
//!
//! A command is a mnemonic, followed for most commands by an expression.
//! Expressions are numbers (decimal, or hexadecimal after `0x`), symbols
//! (`module!name`, or `@register`), and sums of these. Blanks may stand
//! between any two tokens.

use vstd::prelude::*;
use crate::text;

verus! {

/// One command of the prompt.
#[derive(Debug, PartialEq, Eq)]
pub enum CommandExpr {
    StepInto(()),
    Go(()),
    SetBreakpoint((), Box<EvalExpr>),
    ListBreakpoints(()),
    ClearBreakpoint((), Box<EvalExpr>),
    DisplaySpecificRegister((), String),
    DisplayRegisters(()),
    StackWalk(()),
    DisplayBytes((), Box<EvalExpr>),
    Evaluate((), Box<EvalExpr>),
    ListNearest((), Box<EvalExpr>),
    Unassemble((), Box<EvalExpr>),
    UnassembleContinue(()),
    ListSource((), Box<EvalExpr>),
    SrcPath((), String),
    Quit(()),
}

/// An expression that stands for an address or a number.
#[derive(Debug, PartialEq, Eq)]
pub enum EvalExpr {
    Number(u64),
    Symbol(String),
    Add(Box<EvalExpr>, (), Box<EvalExpr>),
}

/// An expression as a value of the specification.
pub enum ExprModel {
    Number(u64),
    Symbol(Seq<char>),
    Add(Box<ExprModel>, Box<ExprModel>),
}

/// A command as a value of the specification.
pub enum CommandModel {
    StepInto,
    Go,
    SetBreakpoint(ExprModel),
    ListBreakpoints,
    ClearBreakpoint(ExprModel),
    DisplaySpecificRegister(Seq<char>),
    DisplayRegisters,
    StackWalk,
    DisplayBytes(ExprModel),
    Evaluate(ExprModel),
    ListNearest(ExprModel),
    Unassemble(ExprModel),
    UnassembleContinue,
    ListSource(ExprModel),
    SrcPath(Seq<char>),
    Quit,
}

impl View for EvalExpr {
    type V = ExprModel;

    open spec fn view(&self) -> ExprModel
        decreases self,
    {
        match self {
            EvalExpr::Number(n) => ExprModel::Number(*n),
            EvalExpr::Symbol(s) => ExprModel::Symbol(s@),
            EvalExpr::Add(a, _, b) => ExprModel::Add(Box::new((**a)@), Box::new((**b)@)),
        }
    }
}

impl View for CommandExpr {
    type V = CommandModel;

    open spec fn view(&self) -> CommandModel {
        match self {
            CommandExpr::StepInto(_) => CommandModel::StepInto,
            CommandExpr::Go(_) => CommandModel::Go,
            CommandExpr::SetBreakpoint(_, e) => CommandModel::SetBreakpoint((**e)@),
            CommandExpr::ListBreakpoints(_) => CommandModel::ListBreakpoints,
            CommandExpr::ClearBreakpoint(_, e) => CommandModel::ClearBreakpoint((**e)@),
            CommandExpr::DisplaySpecificRegister(_, s) => CommandModel::DisplaySpecificRegister(s@),
            CommandExpr::DisplayRegisters(_) => CommandModel::DisplayRegisters,
            CommandExpr::StackWalk(_) => CommandModel::StackWalk,
            CommandExpr::DisplayBytes(_, e) => CommandModel::DisplayBytes((**e)@),
            CommandExpr::Evaluate(_, e) => CommandModel::Evaluate((**e)@),
            CommandExpr::ListNearest(_, e) => CommandModel::ListNearest((**e)@),
            CommandExpr::Unassemble(_, e) => CommandModel::Unassemble((**e)@),
            CommandExpr::UnassembleContinue(_) => CommandModel::UnassembleContinue,
            CommandExpr::ListSource(_, e) => CommandModel::ListSource((**e)@),
            CommandExpr::SrcPath(_, s) => CommandModel::SrcPath(s@),
            CommandExpr::Quit(_) => CommandModel::Quit,
        }
    }
}

/// What went wrong in a line that is no command.
#[derive(Debug, PartialEq, Eq)]
pub enum ParseErrorReason {
    /// The line ends where this token had to follow.
    MissingToken(String),
    /// This text stands where it cannot.
    UnexpectedToken(String),
    /// A token of the right form that cannot be read: a number too large for 64 bits.
    FailedNode,
}

/// A parse error and the part of the line it is about; `start` and `end`
/// count characters.
#[derive(Debug, PartialEq, Eq)]
pub struct ParseError {
    pub reason: ParseErrorReason,
    pub start: usize,
    pub end: usize,
}

/// The kind and place of a parse error.
#[derive(PartialEq, Eq)]
pub enum FaultKind {
    Missing,
    Unexpected,
    Failed,
}

/// A parse error as a value of the specification.
pub struct ParseFault {
    pub kind: FaultKind,
    pub start: int,
    pub end: int,
}

/// Whether `c` is a blank: a space, a tab or a line break.
pub open spec fn is_space(c: char) -> bool {
    c == ' ' || ('\t' <= c && c <= '\r')
}

/// Whether `c` is a decimal digit.
pub open spec fn is_digit(c: char) -> bool {
    '0' <= c && c <= '9'
}

/// Whether `c` is a hexadecimal digit.
pub open spec fn is_hex_digit(c: char) -> bool {
    is_digit(c) || ('a' <= c && c <= 'f') || ('A' <= c && c <= 'F')
}

/// Whether `c` is an ASCII letter.
pub open spec fn is_letter(c: char) -> bool {
    ('a' <= c && c <= 'z') || ('A' <= c && c <= 'Z')
}

/// The characters of symbols: letters, digits, and `_ @ # .`.
pub open spec fn is_symbol_char(c: char) -> bool {
    is_letter(c) || is_digit(c) || c == '_' || c == '@' || c == '#' || c == '.'
}

/// The classes of characters that tokens are made of.
#[derive(Clone, Copy, PartialEq, Eq, Structural)]
pub enum CharClass {
    Space,
    Letter,
    SymbolChar,
    NonSpace,
}

/// Whether `c` belongs to the class.
pub open spec fn in_class(c: char, class: CharClass) -> bool {
    match class {
        CharClass::Space => is_space(c),
        CharClass::Letter => is_letter(c),
        CharClass::SymbolChar => is_symbol_char(c),
        CharClass::NonSpace => !is_space(c),
    }
}

/// The end of the run of characters of one class that starts at `i`.
pub open spec fn run_end(s: Seq<char>, class: CharClass, i: int) -> int
    decreases s.len() - i,
{
    if 0 <= i < s.len() && in_class(s[i], class) {
        run_end(s, class, i + 1)
    } else {
        i
    }
}

/// The first position at or after `i` that holds no blank.
pub open spec fn skip_spaces(s: Seq<char>, i: int) -> int {
    run_end(s, CharClass::Space, i)
}

/// The value of a digit in base 16 (and so in base 10).
pub open spec fn digit_value(c: char) -> int {
    if is_digit(c) {
        c as int - 48
    } else if 'a' <= c && c <= 'f' {
        c as int - 87
    } else {
        c as int - 55
    }
}

/// Whether `s` is a decimal number: one or more digits.
pub open spec fn is_decimal(s: Seq<char>) -> bool {
    s.len() > 0 && forall|i: int| 0 <= i < s.len() ==> is_digit(#[trigger] s[i])
}

/// Whether `s` is a hexadecimal number: `0x` and one or more hexadecimal digits.
pub open spec fn is_hexadecimal(s: Seq<char>) -> bool {
    s.len() > 2 && s[0] == '0' && s[1] == 'x' && forall|i: int|
        2 <= i < s.len() ==> is_hex_digit(#[trigger] s[i])
}

/// Whether `s` is a number of one of the two forms.
pub open spec fn is_number(s: Seq<char>) -> bool {
    is_decimal(s) || is_hexadecimal(s)
}

/// The value of a string of digits in a base.
pub open spec fn radix_value(s: Seq<char>, radix: int) -> int
    decreases s.len(),
{
    if s.len() == 0 {
        0
    } else {
        radix_value(s.drop_last(), radix) * radix + digit_value(s.last())
    }
}

/// The value of a number.
pub open spec fn number_value(s: Seq<char>) -> int {
    if is_decimal(s) {
        radix_value(s, 10)
    } else {
        radix_value(s.skip(2), 16)
    }
}

/// The end of the term that starts at `i`: a run of symbol characters,
/// and a second one where a `!` joins the two.
pub open spec fn term_end(s: Seq<char>, i: int) -> int {
    let first = run_end(s, CharClass::SymbolChar, i);
    if first > i && first < s.len() && s[first] == '!' && run_end(
        s,
        CharClass::SymbolChar,
        first + 1,
    ) > first + 1 {
        run_end(s, CharClass::SymbolChar, first + 1)
    } else {
        first
    }
}

/// The term that starts at `i`, and where it ends.
pub open spec fn term_at(s: Seq<char>, i: int) -> Result<(ExprModel, int), ParseFault> {
    let end = term_end(s, i);
    if i >= s.len() {
        Err(ParseFault { kind: FaultKind::Missing, start: i, end: i })
    } else if end <= i {
        Err(ParseFault { kind: FaultKind::Unexpected, start: i, end: i + 1 })
    } else if is_number(s.subrange(i, end)) {
        if number_value(s.subrange(i, end)) <= u64::MAX {
            Ok((ExprModel::Number(number_value(s.subrange(i, end)) as u64), end))
        } else {
            Err(ParseFault { kind: FaultKind::Failed, start: i, end })
        }
    } else {
        Ok((ExprModel::Symbol(s.subrange(i, end)), end))
    }
}

/// The sum that `lhs` and the `+ term` groups from `i` on make, and
/// where it ends. Sums group to the left.
pub open spec fn sum_from(s: Seq<char>, lhs: ExprModel, i: int) -> Result<
    (ExprModel, int),
    ParseFault,
>
    decreases s.len() - i,
{
    let p = skip_spaces(s, i);
    if 0 <= i <= p < s.len() && s[p] == '+' {
        match term_at(s, skip_spaces(s, p + 1)) {
            Err(f) => Err(f),
            Ok((rhs, end)) => if p < end <= s.len() {
                sum_from(s, ExprModel::Add(Box::new(lhs), Box::new(rhs)), end)
            } else {
                Err(ParseFault { kind: FaultKind::Unexpected, start: p, end: p + 1 })
            },
        }
    } else {
        Ok((lhs, i))
    }
}

/// The expression that starts at or after `i`, and where it ends.
pub open spec fn expr_at(s: Seq<char>, i: int) -> Result<(ExprModel, int), ParseFault> {
    match term_at(s, skip_spaces(s, i)) {
        Err(f) => Err(f),
        Ok((first, end)) => sum_from(s, first, end),
    }
}

/// Whether `word` stands in `s` at position `i`.
pub open spec fn has_word(s: Seq<char>, i: int, word: Seq<char>) -> bool {
    0 <= i && i + word.len() <= s.len() && s.subrange(i, i + word.len()) == word
}

/// The fault for text that follows a complete command, if there is any.
pub open spec fn trailing_fault(s: Seq<char>, i: int) -> Option<ParseFault> {
    if skip_spaces(s, i) < s.len() {
        Some(ParseFault { kind: FaultKind::Unexpected, start: skip_spaces(s, i), end: s.len() as int })
    } else {
        None
    }
}

/// A command without operand, which must end the line.
pub open spec fn plain_command(s: Seq<char>, i: int, command: CommandModel) -> Result<
    CommandModel,
    ParseFault,
> {
    match trailing_fault(s, i) {
        Some(f) => Err(f),
        None => Ok(command),
    }
}

/// A command with an expression as operand, which must end the line.
pub open spec fn expr_command(s: Seq<char>, i: int, which: ExprCommand) -> Result<
    CommandModel,
    ParseFault,
> {
    match expr_at(s, i) {
        Err(f) => Err(f),
        Ok((e, end)) => match trailing_fault(s, end) {
            Some(f) => Err(f),
            None => Ok(make_command(which, e)),
        },
    }
}

/// The command `r`: all registers, or the one whose name follows.
pub open spec fn register_command(s: Seq<char>, i: int) -> Result<CommandModel, ParseFault> {
    let p = skip_spaces(s, i);
    if p >= s.len() {
        Ok(CommandModel::DisplayRegisters)
    } else {
        let end = run_end(s, CharClass::Letter, p);
        if end <= p {
            Err(ParseFault { kind: FaultKind::Unexpected, start: p, end: s.len() as int })
        } else {
            plain_command(s, end, CommandModel::DisplaySpecificRegister(s.subrange(p, end)))
        }
    }
}

/// The command whose one-letter mnemonic stands at `p`.
pub open spec fn letter_command(s: Seq<char>, p: int) -> Result<CommandModel, ParseFault> {
    if s[p] == 't' {
        plain_command(s, p + 1, CommandModel::StepInto)
    } else if s[p] == 'g' {
        plain_command(s, p + 1, CommandModel::Go)
    } else if s[p] == 'r' {
        register_command(s, p + 1)
    } else if s[p] == 'k' {
        plain_command(s, p + 1, CommandModel::StackWalk)
    } else if s[p] == 'q' {
        plain_command(s, p + 1, CommandModel::Quit)
    } else if s[p] == '?' {
        expr_command(s, p + 1, ExprCommand::Evaluate)
    } else if s[p] == 'u' {
        if skip_spaces(s, p + 1) >= s.len() {
            Ok(CommandModel::UnassembleContinue)
        } else {
            expr_command(s, p + 1, ExprCommand::Unassemble)
        }
    } else {
        Err(
            ParseFault {
                kind: FaultKind::Unexpected,
                start: p,
                end: run_end(s, CharClass::NonSpace, p),
            },
        )
    }
}

/// The command whose mnemonic of one or two letters stands at `p`.
pub open spec fn short_command(s: Seq<char>, p: int) -> Result<CommandModel, ParseFault> {
    if has_word(s, p, seq!['b', 'p']) {
        expr_command(s, p + 2, ExprCommand::SetBreakpoint)
    } else if has_word(s, p, seq!['b', 'l']) {
        plain_command(s, p + 2, CommandModel::ListBreakpoints)
    } else if has_word(s, p, seq!['b', 'c']) {
        expr_command(s, p + 2, ExprCommand::ClearBreakpoint)
    } else if has_word(s, p, seq!['d', 'b']) {
        expr_command(s, p + 2, ExprCommand::DisplayBytes)
    } else if has_word(s, p, seq!['l', 'n']) {
        expr_command(s, p + 2, ExprCommand::ListNearest)
    } else {
        letter_command(s, p)
    }
}

/// The command that a line spells. The mnemonics are `t g bp bl bc r k
/// db ? ln u lsa srcpath q`; the longest that fits is taken.
pub open spec fn command_of(s: Seq<char>) -> Result<CommandModel, ParseFault> {
    let p = skip_spaces(s, 0);
    if p >= s.len() {
        Err(ParseFault { kind: FaultKind::Missing, start: p, end: p })
    } else if has_word(s, p, seq!['s', 'r', 'c', 'p', 'a', 't', 'h']) {
        Ok(CommandModel::SrcPath(s.subrange(skip_spaces(s, p + 7), s.len() as int)))
    } else if has_word(s, p, seq!['l', 's', 'a']) {
        expr_command(s, p + 3, ExprCommand::ListSource)
    } else {
        short_command(s, p)
    }
}

/// Whether `c` belongs to the class.
fn char_in_class(c: char, class: CharClass) -> (r: bool)
    ensures
        r == in_class(c, class),
{
    let letter = (c >= 'a' && c <= 'z') || (c >= 'A' && c <= 'Z');
    let space = c == ' ' || (c >= '\t' && c <= '\r');
    match class {
        CharClass::Space => space,
        CharClass::Letter => letter,
        CharClass::SymbolChar => letter || (c >= '0' && c <= '9') || c == '_' || c == '@' || c
            == '#' || c == '.',
        CharClass::NonSpace => !space,
    }
}

/// The end of the run of characters of one class that starts at `from`.
fn scan_run(chars: &Vec<char>, class: CharClass, from: usize) -> (end: usize)
    requires
        from <= chars.len(),
    ensures
        end == run_end(chars@, class, from as int),
        from <= end <= chars.len(),
{
    let mut i: usize = from;
    while i < chars.len() && char_in_class(chars[i], class)
        invariant
            from <= i <= chars.len(),
            run_end(chars@, class, from as int) == run_end(chars@, class, i as int),
        decreases chars.len() - i,
    {
        i = i + 1;
    }
    i
}

/// The value of `c` as a digit of the base, if it is one.
fn digit_of(c: char, radix: u64) -> (r: Option<u64>)
    requires
        radix == 10 || radix == 16,
    ensures
        radix == 10 ==> (r is Some <==> is_digit(c)),
        radix == 16 ==> (r is Some <==> is_hex_digit(c)),
        r matches Some(v) ==> v == digit_value(c) && v < radix,
{
    if c >= '0' && c <= '9' {
        Some((c as u32 - 48) as u64)
    } else if radix == 16 && c >= 'a' && c <= 'f' {
        Some((c as u32 - 87) as u64)
    } else if radix == 16 && c >= 'A' && c <= 'F' {
        Some((c as u32 - 55) as u64)
    } else {
        None
    }
}

/// Whether `chars[from..to]` are all digits of the base, and if so
/// their value, where it fits in 64 bits.
fn digits_value(chars: &Vec<char>, from: usize, to: usize, radix: u64) -> (r: Option<Option<u64>>)
    requires
        from <= to <= chars.len(),
        radix == 10 || radix == 16,
    ensures
        radix == 10 ==> (r is Some <==> forall|i: int|
            from <= i < to ==> is_digit(#[trigger] chars@[i])),
        radix == 16 ==> (r is Some <==> forall|i: int|
            from <= i < to ==> is_hex_digit(#[trigger] chars@[i])),
        r matches Some(Some(v)) ==> v == radix_value(
            chars@.subrange(from as int, to as int),
            radix as int,
        ),
        r matches Some(None) ==> radix_value(chars@.subrange(from as int, to as int), radix as int)
            > u64::MAX,
{
    let ghost s = chars@.subrange(from as int, to as int);
    let mut acc: Option<u64> = Some(0);
    let mut i: usize = from;
    while i < to
        invariant
            from <= i <= to <= chars.len(),
            radix == 10 || radix == 16,
            s == chars@.subrange(from as int, to as int),
            radix == 10 ==> forall|j: int| from <= j < i ==> is_digit(#[trigger] chars@[j]),
            forall|j: int| from <= j < i ==> is_hex_digit(#[trigger] chars@[j]),
            0 <= radix_value(s.take(i - from), radix as int),
            match acc {
                Some(v) => v == radix_value(s.take(i - from), radix as int),
                None => radix_value(s.take(i - from), radix as int) > u64::MAX,
            },
        decreases to - i,
    {
        let d = match digit_of(chars[i], radix) {
            Some(d) => d,
            None => {
                assert(!is_digit(chars@[i as int]) || radix == 16);
                return None;
            },
        };
        proof {
            assert(s.take(i + 1 - from).drop_last() =~= s.take(i - from));
            assert(s.take(i + 1 - from).last() == chars@[i as int]);
            let v = radix_value(s.take(i - from), radix as int);
            assert(v * radix >= v) by (nonlinear_arith)
                requires
                    v >= 0,
                    radix >= 1,
            ;
        }
        acc = match acc {
            Some(v) => match v.checked_mul(radix) {
                Some(m) => m.checked_add(d),
                None => None,
            },
            None => None,
        };
        i = i + 1;
    }
    proof {
        assert(s.take(to - from) =~= s);
    }
    Some(acc)
}

/// What a token is as a number: nothing if it is no number, else its
/// value where that fits in 64 bits.
fn number_of(chars: &Vec<char>, from: usize, to: usize) -> (r: Option<Option<u64>>)
    requires
        from <= to <= chars.len(),
    ensures
        r is Some <==> is_number(chars@.subrange(from as int, to as int)),
        r matches Some(Some(v)) ==> v == number_value(chars@.subrange(from as int, to as int)),
        r matches Some(None) ==> number_value(chars@.subrange(from as int, to as int)) > u64::MAX,
{
    let ghost s = chars@.subrange(from as int, to as int);
    if to == from {
        return None;
    }
    match digits_value(chars, from, to, 10) {
        Some(v) => {
            assert(is_decimal(s)) by {
                assert forall|i: int| 0 <= i < s.len() implies is_digit(#[trigger] s[i]) by {
                    assert(s[i] == chars@[from + i]);
                }
            }
            return Some(v);
        },
        None => {
            assert(!is_decimal(s)) by {
                if is_decimal(s) {
                    assert forall|i: int| from <= i < to implies is_digit(
                        #[trigger] chars@[i],
                    ) by {
                        assert(s[i - from] == chars@[i]);
                    }
                }
            }
        },
    }
    if to - from > 2 && chars[from] == '0' && chars[from + 1] == 'x' {
        assert(s[0] == chars@[from as int] && s[1] == chars@[from + 1]);
        assert(s.skip(2) =~= chars@.subrange(from + 2, to as int));
        match digits_value(chars, from + 2, to, 16) {
            Some(v) => {
                assert(is_hexadecimal(s)) by {
                    assert forall|i: int| 2 <= i < s.len() implies is_hex_digit(
                        #[trigger] s[i],
                    ) by {
                        assert(s[i] == chars@[from + i]);
                    }
                }
                Some(v)
            },
            None => {
                assert(!is_hexadecimal(s)) by {
                    if is_hexadecimal(s) {
                        assert forall|i: int| from + 2 <= i < to implies is_hex_digit(
                            #[trigger] chars@[i],
                        ) by {
                            assert(s[i - from] == chars@[i]);
                        }
                    }
                }
                None
            },
        }
    } else {
        assert(!is_hexadecimal(s)) by {
            if s.len() > 2 {
                assert(s[0] == chars@[from as int] && s[1] == chars@[from + 1]);
            }
        }
        None
    }
}

/// The value of a number, if `text` is one and it fits in 64 bits.
pub fn try_parse_int(text: &str) -> (r: Option<u64>)
    ensures
        r matches Some(v) ==> is_number(text@) && v == number_value(text@),
        r is None ==> !is_number(text@) || number_value(text@) > u64::MAX,
{
    let chars = text::chars_of(text);
    assert(chars@.subrange(0, chars.len() as int) =~= text@);
    match number_of(&chars, 0, chars.len()) {
        Some(Some(v)) => Some(v),
        _ => None,
    }
}

/// The value of the number `text`: decimal digits, or `0x` and
/// hexadecimal digits.
pub fn parse_int(text: &str) -> (v: u64)
    requires
        is_number(text@),
        number_value(text@) <= u64::MAX,
    ensures
        v == number_value(text@),
{
    match try_parse_int(text) {
        Some(v) => v,
        None => 0,
    }
}

/// The symbol that `text` spells: `text` itself.
pub fn parse_sym(text: &str) -> (s: String)
    ensures
        s@ == text@,
{
    let mut s = String::new();
    text::push_str(&mut s, text);
    assert(s@ =~= text@);
    s
}

/// The error for a fault of the given kind at `chars[start..end]`.
fn fault(kind: FaultKind, chars: &Vec<char>, start: usize, end: usize) -> (e: ParseError)
    requires
        start <= end <= chars.len(),
    ensures
        e.matches_fault(ParseFault { kind, start: start as int, end: end as int }, chars@),
        e.start == start,
        e.end == end,
{
    let reason = match kind {
        FaultKind::Missing => ParseErrorReason::MissingToken(parse_sym("expression")),
        FaultKind::Unexpected => ParseErrorReason::UnexpectedToken(
            text::string_of(chars, start, end),
        ),
        FaultKind::Failed => ParseErrorReason::FailedNode,
    };
    ParseError { reason, start, end }
}

impl ParseError {
    /// Whether this error reports the fault `f` in the line `s`: the
    /// same kind and place, and for an unexpected token its text.
    pub open spec fn matches_fault(&self, f: ParseFault, s: Seq<char>) -> bool {
        &&& self.start == f.start
        &&& self.end == f.end
        &&& match self.reason {
            ParseErrorReason::MissingToken(t) => f.kind == FaultKind::Missing,
            ParseErrorReason::UnexpectedToken(t) => f.kind == FaultKind::Unexpected && t@
                == s.subrange(f.start, f.end),
            ParseErrorReason::FailedNode => f.kind == FaultKind::Failed,
        }
    }
}

/// Reads the term that starts at `i`.
fn parse_term(chars: &Vec<char>, i: usize) -> (r: Result<(EvalExpr, usize), ParseError>)
    requires
        i <= chars.len(),
    ensures
        match term_at(chars@, i as int) {
            Ok((e, end)) => r is Ok && r->Ok_0.0@ == e && r->Ok_0.1 == end && i < end
                <= chars.len(),
            Err(f) => r is Err && r->Err_0.matches_fault(f, chars@),
        },
        r matches Err(e) ==> e.start <= e.end <= chars.len(),
{
    if i >= chars.len() {
        return Err(fault(FaultKind::Missing, chars, i, i));
    }
    let first = scan_run(chars, CharClass::SymbolChar, i);
    let mut end = first;
    if first > i && first < chars.len() && chars[first] == '!' {
        let second = scan_run(chars, CharClass::SymbolChar, first + 1);
        if second > first + 1 {
            end = second;
        }
    }
    if end <= i {
        return Err(fault(FaultKind::Unexpected, chars, i, i + 1));
    }
    match number_of(chars, i, end) {
        Some(Some(v)) => Ok((EvalExpr::Number(v), end)),
        Some(None) => Err(fault(FaultKind::Failed, chars, i, end)),
        None => Ok((EvalExpr::Symbol(text::string_of(chars, i, end)), end)),
    }
}

/// Reads the expression that starts at or after `i`.
fn parse_expr(chars: &Vec<char>, i: usize) -> (r: Result<(EvalExpr, usize), ParseError>)
    requires
        i <= chars.len(),
    ensures
        match expr_at(chars@, i as int) {
            Ok((e, end)) => r is Ok && r->Ok_0.0@ == e && r->Ok_0.1 == end && end <= chars.len(),
            Err(f) => r is Err && r->Err_0.matches_fault(f, chars@),
        },
        r matches Err(e) ==> e.start <= e.end <= chars.len(),
{
    let start = scan_run(chars, CharClass::Space, i);
    let (first, first_end) = match parse_term(chars, start) {
        Ok(t) => t,
        Err(e) => { return Err(e); },
    };
    let mut lhs = first;
    let mut at: usize = first_end;
    loop
        invariant
            at <= chars.len(),
            expr_at(chars@, i as int) == sum_from(chars@, lhs@, at as int),
        decreases chars.len() - at,
    {
        let p = scan_run(chars, CharClass::Space, at);
        if p < chars.len() && chars[p] == '+' {
            let q = scan_run(chars, CharClass::Space, p + 1);
            match parse_term(chars, q) {
                Ok((rhs, end)) => {
                    lhs = EvalExpr::Add(Box::new(lhs), (), Box::new(rhs));
                    at = end;
                },
                Err(e) => { return Err(e); },
            }
        } else {
            return Ok((lhs, at));
        }
    }
}

/// Whether `word` stands at position `i`.
fn word_at(chars: &Vec<char>, i: usize, word: &str) -> (r: bool)
    requires
        i <= chars.len(),
    ensures
        r == has_word(chars@, i as int, word@),
{
    let w = text::chars_of(word);
    if w.len() > chars.len() - i {
        return false;
    }
    let mut k: usize = 0;
    while k < w.len()
        invariant
            k <= w.len(),
            i + w.len() <= chars.len(),
            w@ == word@,
            forall|j: int| 0 <= j < k ==> chars@[i + j] == w@[j],
        decreases w.len() - k,
    {
        if chars[i + k] != w[k] {
            assert(chars@.subrange(i as int, i + w.len())[k as int] != w@[k as int]);
            return false;
        }
        k = k + 1;
    }
    assert(chars@.subrange(i as int, i + w.len()) =~= w@);
    true
}

/// Ends a command at `i`: nothing but blanks may follow.
fn finish(chars: &Vec<char>, i: usize, command: CommandExpr) -> (r: Result<CommandExpr, ParseError>)
    requires
        i <= chars.len(),
    ensures
        match plain_command(chars@, i as int, command@) {
            Ok(c) => r is Ok && r->Ok_0@ == c,
            Err(f) => r is Err && r->Err_0.matches_fault(f, chars@),
        },
        r matches Err(e) ==> e.start <= e.end <= chars.len(),
{
    let p = scan_run(chars, CharClass::Space, i);
    if p < chars.len() {
        Err(fault(FaultKind::Unexpected, chars, p, chars.len()))
    } else {
        Ok(command)
    }
}

/// The commands that take an expression.
#[derive(Clone, Copy, PartialEq, Eq, Structural)]
pub enum ExprCommand {
    SetBreakpoint,
    ClearBreakpoint,
    DisplayBytes,
    Evaluate,
    ListNearest,
    Unassemble,
    ListSource,
}

/// The command of the given kind with the operand `e`.
pub open spec fn make_command(which: ExprCommand, e: ExprModel) -> CommandModel {
    match which {
        ExprCommand::SetBreakpoint => CommandModel::SetBreakpoint(e),
        ExprCommand::ClearBreakpoint => CommandModel::ClearBreakpoint(e),
        ExprCommand::DisplayBytes => CommandModel::DisplayBytes(e),
        ExprCommand::Evaluate => CommandModel::Evaluate(e),
        ExprCommand::ListNearest => CommandModel::ListNearest(e),
        ExprCommand::Unassemble => CommandModel::Unassemble(e),
        ExprCommand::ListSource => CommandModel::ListSource(e),
    }
}

/// Reads the operand of a command and ends the command after it.
fn with_expr(chars: &Vec<char>, i: usize, which: ExprCommand) -> (r: Result<
    CommandExpr,
    ParseError,
>)
    requires
        i <= chars.len(),
    ensures
        match expr_command(chars@, i as int, which) {
            Ok(c) => r is Ok && r->Ok_0@ == c,
            Err(f) => r is Err && r->Err_0.matches_fault(f, chars@),
        },
        r matches Err(e) ==> e.start <= e.end <= chars.len(),
{
    let (e, end) = match parse_expr(chars, i) {
        Ok(t) => t,
        Err(err) => { return Err(err); },
    };
    let b = Box::new(e);
    let command = match which {
        ExprCommand::SetBreakpoint => CommandExpr::SetBreakpoint((), b),
        ExprCommand::ClearBreakpoint => CommandExpr::ClearBreakpoint((), b),
        ExprCommand::DisplayBytes => CommandExpr::DisplayBytes((), b),
        ExprCommand::Evaluate => CommandExpr::Evaluate((), b),
        ExprCommand::ListNearest => CommandExpr::ListNearest((), b),
        ExprCommand::Unassemble => CommandExpr::Unassemble((), b),
        ExprCommand::ListSource => CommandExpr::ListSource((), b),
    };
    finish(chars, end, command)
}

/// Reads the command whose one-letter mnemonic stands at `p`.
fn parse_letter(chars: &Vec<char>, p: usize) -> (r: Result<CommandExpr, ParseError>)
    requires
        p < chars.len(),
    ensures
        match letter_command(chars@, p as int) {
            Ok(c) => r is Ok && r->Ok_0@ == c,
            Err(f) => r is Err && r->Err_0.matches_fault(f, chars@),
        },
        r matches Err(e) ==> e.start <= e.end <= chars.len(),
{
    let c = chars[p];
    if c == 't' {
        finish(chars, p + 1, CommandExpr::StepInto(()))
    } else if c == 'g' {
        finish(chars, p + 1, CommandExpr::Go(()))
    } else if c == 'r' {
        let q = scan_run(chars, CharClass::Space, p + 1);
        if q >= chars.len() {
            Ok(CommandExpr::DisplayRegisters(()))
        } else {
            let end = scan_run(chars, CharClass::Letter, q);
            if end <= q {
                Err(fault(FaultKind::Unexpected, chars, q, chars.len()))
            } else {
                finish(
                    chars,
                    end,
                    CommandExpr::DisplaySpecificRegister((), text::string_of(chars, q, end)),
                )
            }
        }
    } else if c == 'k' {
        finish(chars, p + 1, CommandExpr::StackWalk(()))
    } else if c == 'q' {
        finish(chars, p + 1, CommandExpr::Quit(()))
    } else if c == '?' {
        with_expr(chars, p + 1, ExprCommand::Evaluate)
    } else if c == 'u' {
        let q = scan_run(chars, CharClass::Space, p + 1);
        if q >= chars.len() {
            Ok(CommandExpr::UnassembleContinue(()))
        } else {
            with_expr(chars, p + 1, ExprCommand::Unassemble)
        }
    } else {
        let end = scan_run(chars, CharClass::NonSpace, p);
        Err(fault(FaultKind::Unexpected, chars, p, end))
    }
}

/// Reads the command whose mnemonic of one or two letters stands at `p`.
fn parse_short(chars: &Vec<char>, p: usize) -> (r: Result<CommandExpr, ParseError>)
    requires
        p < chars.len(),
    ensures
        match short_command(chars@, p as int) {
            Ok(c) => r is Ok && r->Ok_0@ == c,
            Err(f) => r is Err && r->Err_0.matches_fault(f, chars@),
        },
        r matches Err(e) ==> e.start <= e.end <= chars.len(),
{
    proof {
        reveal_strlit("bp");
        reveal_strlit("bl");
        reveal_strlit("bc");
        reveal_strlit("db");
        reveal_strlit("ln");
        assert("bp"@ =~= seq!['b', 'p']);
        assert("bl"@ =~= seq!['b', 'l']);
        assert("bc"@ =~= seq!['b', 'c']);
        assert("db"@ =~= seq!['d', 'b']);
        assert("ln"@ =~= seq!['l', 'n']);
    }
    if word_at(chars, p, "bp") {
        with_expr(chars, p + 2, ExprCommand::SetBreakpoint)
    } else if word_at(chars, p, "bl") {
        finish(chars, p + 2, CommandExpr::ListBreakpoints(()))
    } else if word_at(chars, p, "bc") {
        with_expr(chars, p + 2, ExprCommand::ClearBreakpoint)
    } else if word_at(chars, p, "db") {
        with_expr(chars, p + 2, ExprCommand::DisplayBytes)
    } else if word_at(chars, p, "ln") {
        with_expr(chars, p + 2, ExprCommand::ListNearest)
    } else {
        parse_letter(chars, p)
    }
}

/// Reads a command from its characters.
pub fn parse_chars(chars: &Vec<char>) -> (r: Result<CommandExpr, ParseError>)
    ensures
        match command_of(chars@) {
            Ok(c) => r is Ok && r->Ok_0@ == c,
            Err(f) => r is Err && r->Err_0.matches_fault(f, chars@),
        },
        r matches Err(e) ==> e.start <= e.end <= chars.len(),
{
    let p = scan_run(chars, CharClass::Space, 0);
    proof {
        reveal_strlit("srcpath");
        reveal_strlit("lsa");
        assert("srcpath"@ =~= seq!['s', 'r', 'c', 'p', 'a', 't', 'h']);
        assert("lsa"@ =~= seq!['l', 's', 'a']);
    }
    if p >= chars.len() {
        return Err(fault(FaultKind::Missing, chars, p, p));
    }
    if word_at(chars, p, "srcpath") {
        let q = scan_run(chars, CharClass::Space, p + 7);
        Ok(CommandExpr::SrcPath((), text::string_of(chars, q, chars.len())))
    } else if word_at(chars, p, "lsa") {
        with_expr(chars, p + 3, ExprCommand::ListSource)
    } else {
        parse_short(chars, p)
    }
}

/// Reads one line as a command.
pub fn parse_command(input: &str) -> (r: Result<CommandExpr, ParseError>)
    ensures
        match command_of(input@) {
            Ok(c) => r is Ok && r->Ok_0@ == c,
            Err(f) => r is Err && r->Err_0.matches_fault(f, input@),
        },
        r matches Err(e) ==> e.start <= e.end <= input@.len(),
{
    let chars = text::chars_of(input);
    parse_chars(&chars)
}

/// How grave a diagnostic is.
#[derive(Clone, Copy, Debug, PartialEq, Eq, Structural)]
pub enum Level {
    Bug,
    Error,
    Warning,
    Note,
    Help,
}

/// Whether a span is what a diagnostic is about, or only context.
#[derive(Clone, Copy, Debug, PartialEq, Eq, Structural)]
pub enum SpanStyle {
    Primary,
    Secondary,
}

/// A part of the line, in characters, with the words shown beside it.
#[derive(Debug, PartialEq, Eq)]
pub struct SpanLabel {
    pub start: usize,
    pub end: usize,
    pub style: SpanStyle,
    pub label: Option<String>,
}

/// A message about a line that is no command.
#[derive(Debug, PartialEq, Eq)]
pub struct Diagnostic {
    pub level: Level,
    pub message: String,
    pub code: Option<String>,
    pub spans: Vec<SpanLabel>,
}

/// `head`, and `token` in double quotes.
pub open spec fn quoted(head: Seq<char>, token: Seq<char>) -> Seq<char> {
    head + seq!['"'] + token + seq!['"']
}

/// The message of the diagnostic for a parse error.
pub open spec fn diagnostic_message(reason: ParseErrorReason) -> Seq<char> {
    match reason {
        ParseErrorReason::MissingToken(tok) => quoted("Missing token: "@, tok@),
        ParseErrorReason::UnexpectedToken(tok) => quoted("Unexpected token: "@, tok@),
        ParseErrorReason::FailedNode => "Failed to parse node"@,
    }
}

/// The words shown beside the place of a parse error.
pub open spec fn diagnostic_label(reason: ParseErrorReason) -> Seq<char> {
    match reason {
        ParseErrorReason::MissingToken(tok) => quoted("missing "@, tok@),
        ParseErrorReason::UnexpectedToken(tok) => quoted("unexpected "@, tok@),
        ParseErrorReason::FailedNode => "failed"@,
    }
}

/// Whether `d` is the diagnostic for `error`: an error with code `S000`
/// and one primary span, that of the parse error.
pub open spec fn is_diagnostic_of(d: Diagnostic, error: ParseError) -> bool {
    &&& d.level == Level::Error
    &&& d.message@ == diagnostic_message(error.reason)
    &&& d.code is Some
    &&& d.code->Some_0@ == "S000"@
    &&& d.spans@.len() == 1
    &&& d.spans@[0].start == error.start
    &&& d.spans@[0].end == error.end
    &&& d.spans@[0].style == SpanStyle::Primary
    &&& d.spans@[0].label is Some
    &&& d.spans@[0].label->Some_0@ == diagnostic_label(error.reason)
}

/// `head`, and `token` in double quotes.
fn quote(head: &str, token: &str) -> (s: String)
    ensures
        s@ == quoted(head@, token@),
{
    let mut s = String::new();
    text::push_str(&mut s, head);
    text::push_char(&mut s, '"');
    text::push_str(&mut s, token);
    text::push_char(&mut s, '"');
    proof {
        assert(s@ =~= quoted(head@, token@));
    }
    s
}

/// Appends to `diagnostics` the diagnostic that reports `error`.
pub fn convert_parse_error_to_diagnostics(error: &ParseError, diagnostics: &mut Vec<Diagnostic>)
    ensures
        final(diagnostics)@.len() == old(diagnostics)@.len() + 1,
        final(diagnostics)@.take(old(diagnostics)@.len() as int) == old(diagnostics)@,
        is_diagnostic_of(final(diagnostics)@.last(), *error),
{
    let (message, label) = match &error.reason {
        ParseErrorReason::MissingToken(tok) => (
            quote("Missing token: ", tok.as_str()),
            quote("missing ", tok.as_str()),
        ),
        ParseErrorReason::UnexpectedToken(tok) => (
            quote("Unexpected token: ", tok.as_str()),
            quote("unexpected ", tok.as_str()),
        ),
        ParseErrorReason::FailedNode => (parse_sym("Failed to parse node"), parse_sym("failed")),
    };
    let mut spans: Vec<SpanLabel> = Vec::new();
    spans.push(
        SpanLabel {
            start: error.start,
            end: error.end,
            style: SpanStyle::Primary,
            label: Some(label),
        },
    );
    let d = Diagnostic { level: Level::Error, message, code: Some(parse_sym("S000")), spans };
    diagnostics.push(d);
    proof {
        assert(final(diagnostics)@.take(old(diagnostics)@.len() as int) =~= old(diagnostics)@);
    }
}

} // verus!
