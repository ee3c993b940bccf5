//! Lexical conventions for reading and writing record data, and the
//! fixed-precedence option overrides that build an output convention.

use vstd::prelude::*;

verus! {

/// How records are terminated on output, and which bytes end a record on
/// input. `Newline` is the default (`\n` on output; `\r`, `\n` or `\r\n` on
/// input). `Crlf` emits `\r\n`. `Byte(b)` uses the single byte `b` alone.
#[derive(Clone, Copy, PartialEq, Eq, Structural, Debug)]
pub enum Terminator {
    Newline,
    Crlf,
    Byte(u8),
}

/// When a field is wrapped in quote characters: only when its content
/// requires it, or always.
#[derive(Clone, Copy, PartialEq, Eq, Structural, Debug)]
pub enum QuoteStyle {
    Minimal,
    Always,
}

/// How a literal quote character inside a quoted field is represented:
/// by doubling it, or by prefixing it with a distinct escape byte.
/// Exactly one discipline is active at a time.
#[derive(Clone, Copy, PartialEq, Eq, Structural, Debug)]
pub enum EscapeMode {
    Double,
    Prefix(u8),
}

/// The convention a record stream is written under.
#[derive(Clone, Copy, PartialEq, Eq, Structural, Debug)]
pub struct OutputConvention {
    pub delimiter: u8,
    pub terminator: Terminator,
    pub quote: u8,
    pub style: QuoteStyle,
    pub escape: EscapeMode,
}

/// The convention a record stream is parsed under.
#[derive(Clone, Copy, PartialEq, Eq, Structural, Debug)]
pub struct InputConvention {
    pub delimiter: u8,
    pub quote: u8,
    pub escape: EscapeMode,
    pub terminator: Terminator,
}

/// The ASCII unit separator, substituted for the field delimiter in ASCII mode.
pub const ASCII_FIELD_SEPARATOR: u8 = 0x1f;

/// The ASCII record separator, substituted for the record terminator in ASCII mode.
pub const ASCII_RECORD_SEPARATOR: u8 = 0x1e;

/// The default quote character.
pub const DEFAULT_QUOTE: u8 = 0x22;

/// The default field delimiter.
pub const DEFAULT_DELIMITER: u8 = 0x2c;

impl OutputConvention {
    /// The base convention: the given delimiter, CRLF or newline termination,
    /// double-quote escaping with the default quote, minimal quoting.
    pub fn standard(delimiter: u8, crlf: bool) -> (c: OutputConvention)
        ensures
            c.delimiter == delimiter,
            c.terminator == (if crlf { Terminator::Crlf } else { Terminator::Newline }),
            c.quote == DEFAULT_QUOTE,
            c.style == QuoteStyle::Minimal,
            c.escape == EscapeMode::Double,
    {
        OutputConvention {
            delimiter,
            terminator: if crlf { Terminator::Crlf } else { Terminator::Newline },
            quote: DEFAULT_QUOTE,
            style: QuoteStyle::Minimal,
            escape: EscapeMode::Double,
        }
    }

    /// Override the delimiter with the ASCII unit separator and the
    /// terminator with the ASCII record separator.
    pub fn with_ascii(self) -> (c: OutputConvention)
        ensures
            c.delimiter == ASCII_FIELD_SEPARATOR,
            c.terminator == Terminator::Byte(ASCII_RECORD_SEPARATOR),
            c.quote == self.quote,
            c.style == self.style,
            c.escape == self.escape,
    {
        OutputConvention {
            delimiter: ASCII_FIELD_SEPARATOR,
            terminator: Terminator::Byte(ASCII_RECORD_SEPARATOR),
            ..self
        }
    }

    /// Override the quote style to quote every field.
    pub fn with_quote_always(self) -> (c: OutputConvention)
        ensures
            c.style == QuoteStyle::Always,
            c.delimiter == self.delimiter,
            c.terminator == self.terminator,
            c.quote == self.quote,
            c.escape == self.escape,
    {
        OutputConvention { style: QuoteStyle::Always, ..self }
    }

    /// Switch to the escape-byte discipline, disabling quote-doubling.
    pub fn with_escape(self, escape: u8) -> (c: OutputConvention)
        ensures
            c.escape == EscapeMode::Prefix(escape),
            c.delimiter == self.delimiter,
            c.terminator == self.terminator,
            c.quote == self.quote,
            c.style == self.style,
    {
        OutputConvention { escape: EscapeMode::Prefix(escape), ..self }
    }

    /// Override the quote character.
    pub fn with_quote(self, quote: u8) -> (c: OutputConvention)
        ensures
            c.quote == quote,
            c.delimiter == self.delimiter,
            c.terminator == self.terminator,
            c.style == self.style,
            c.escape == self.escape,
    {
        OutputConvention { quote, ..self }
    }
}

/// Build the output convention from the recognized options, applying the
/// overrides in their fixed precedence: base delimiter and CRLF choice,
/// then ASCII mode, then always-quote, then the escape discipline, then
/// the explicit quote character.
pub fn build_output_convention(
    delimiter: u8,
    crlf: bool,
    ascii: bool,
    quote_always: bool,
    escape: Option<u8>,
    quote: u8,
) -> (c: OutputConvention)
    ensures
        c.delimiter == (if ascii { ASCII_FIELD_SEPARATOR } else { delimiter }),
        c.terminator == (if ascii {
            Terminator::Byte(ASCII_RECORD_SEPARATOR)
        } else if crlf {
            Terminator::Crlf
        } else {
            Terminator::Newline
        }),
        c.style == (if quote_always { QuoteStyle::Always } else { QuoteStyle::Minimal }),
        c.escape == (match escape {
            Option::Some(e) => EscapeMode::Prefix(e),
            Option::None => EscapeMode::Double,
        }),
        c.quote == quote,
{
    let mut c = OutputConvention::standard(delimiter, crlf);
    if ascii {
        c = c.with_ascii();
    }
    if quote_always {
        c = c.with_quote_always();
    }
    match escape {
        Option::Some(e) => {
            c = c.with_escape(e);
        },
        Option::None => {},
    }
    c.with_quote(quote)
}

impl InputConvention {
    /// The convention records are read under: the given delimiter, the
    /// default quote, quote-doubling, and any of `\r`, `\n`, `\r\n` as
    /// record terminator.
    pub fn standard(delimiter: u8) -> (c: InputConvention)
        ensures
            c.delimiter == delimiter,
            c.quote == DEFAULT_QUOTE,
            c.escape == EscapeMode::Double,
            c.terminator == Terminator::Newline,
    {
        InputConvention {
            delimiter,
            quote: DEFAULT_QUOTE,
            escape: EscapeMode::Double,
            terminator: Terminator::Newline,
        }
    }
}

/// The input convention under which output written under `c` is read back.
pub open spec fn read_convention_of(c: OutputConvention) -> InputConvention {
    InputConvention {
        delimiter: c.delimiter,
        quote: c.quote,
        escape: c.escape,
        terminator: c.terminator,
    }
}

/// Exec counterpart of [`read_convention_of`].
pub fn input_convention_of(c: &OutputConvention) -> (r: InputConvention)
    ensures
        r == read_convention_of(*c),
{
    InputConvention {
        delimiter: c.delimiter,
        quote: c.quote,
        escape: c.escape,
        terminator: c.terminator,
    }
}

} // verus!
