//! Serialization of records under an output convention: which fields are
//! quoted, how embedded quote and escape bytes are represented, and how
//! records are terminated.

use vstd::prelude::*;

use crate::convention::{EscapeMode, OutputConvention, QuoteStyle, Terminator};

verus! {

/// The bytes emitted after each record.
pub open spec fn terminator_bytes(t: Terminator) -> Seq<u8> {
    match t {
        Terminator::Newline => seq![10u8],
        Terminator::Crlf => seq![13u8, 10u8],
        Terminator::Byte(b) => seq![b],
    }
}

/// Whether `b` ends a record when read back under terminator choice `t`.
/// Under `Newline` and `Crlf`, any of `\r`, `\n` (and so `\r\n`) does;
/// under `Byte(x)`, only `x` does.
pub open spec fn is_terminator_byte(b: u8, t: Terminator) -> bool {
    match t {
        Terminator::Byte(x) => b == x,
        Terminator::Newline => b == 13 || b == 10,
        Terminator::Crlf => b == 13 || b == 10,
    }
}

/// The escape byte when the escape-byte discipline is active.
pub open spec fn escape_byte_of(c: OutputConvention) -> u8 {
    match c.escape {
        EscapeMode::Prefix(e) => e,
        EscapeMode::Double => 0,
    }
}

/// Whether byte `b` forces the field that contains it to be quoted:
/// the delimiter, the quote, a terminator byte, or (under the escape-byte
/// discipline) the escape byte itself.
pub open spec fn is_special_byte(b: u8, c: OutputConvention) -> bool {
    ||| b == c.delimiter
    ||| b == c.quote
    ||| is_terminator_byte(b, c.terminator)
    ||| (c.escape is Prefix && b == escape_byte_of(c))
}

/// Whether a field with content `f` must be quoted under minimal quoting.
pub open spec fn field_must_quote(f: Seq<u8>, c: OutputConvention) -> bool {
    exists|i: int| 0 <= i < f.len() && is_special_byte(f[i], c)
}

/// Whether a field with content `f` is quoted: always under the `Always`
/// style, otherwise exactly when its content requires it.
pub open spec fn field_is_quoted(f: Seq<u8>, c: OutputConvention) -> bool {
    c.style == QuoteStyle::Always || field_must_quote(f, c)
}

/// The representation of one content byte inside a quoted field: a quote is
/// doubled or prefixed with the escape byte, the escape byte is prefixed
/// with itself, every other byte stands alone.
pub open spec fn encode_byte(b: u8, c: OutputConvention) -> Seq<u8> {
    if b == c.quote {
        match c.escape {
            EscapeMode::Double => seq![c.quote, c.quote],
            EscapeMode::Prefix(e) => seq![e, c.quote],
        }
    } else {
        match c.escape {
            EscapeMode::Prefix(e) => if b == e {
                seq![e, e]
            } else {
                seq![b]
            },
            EscapeMode::Double => seq![b],
        }
    }
}

/// The representation of a quoted field's content.
pub open spec fn encode_content(f: Seq<u8>, c: OutputConvention) -> Seq<u8>
    decreases f.len(),
{
    if f.len() == 0 {
        Seq::<u8>::empty()
    } else {
        encode_content(f.drop_last(), c) + encode_byte(f.last(), c)
    }
}

/// The serialization of one field: its content wrapped in quotes and
/// escaped if the field is quoted, its raw content otherwise.
pub open spec fn encode_field(f: Seq<u8>, c: OutputConvention) -> Seq<u8> {
    if field_is_quoted(f, c) {
        seq![c.quote] + encode_content(f, c) + seq![c.quote]
    } else {
        f
    }
}

/// The serialization of a record's fields, joined by the delimiter.
pub open spec fn encode_fields(fields: Seq<Seq<u8>>, c: OutputConvention) -> Seq<u8>
    decreases fields.len(),
{
    if fields.len() == 0 {
        Seq::<u8>::empty()
    } else if fields.len() == 1 {
        encode_field(fields[0], c)
    } else {
        encode_fields(fields.drop_last(), c) + seq![c.delimiter] + encode_field(fields.last(), c)
    }
}

/// The serialization of one record: its fields followed by the terminator.
pub open spec fn encode_record(fields: Seq<Seq<u8>>, c: OutputConvention) -> Seq<u8> {
    encode_fields(fields, c) + terminator_bytes(c.terminator)
}

/// The serialization of a record stream, record by record, in order.
pub open spec fn encode_records(recs: Seq<Seq<Seq<u8>>>, c: OutputConvention) -> Seq<u8>
    decreases recs.len(),
{
    if recs.len() == 0 {
        Seq::<u8>::empty()
    } else {
        encode_records(recs.drop_last(), c) + encode_record(recs.last(), c)
    }
}

/// Exec counterpart of [`is_terminator_byte`].
pub fn check_terminator_byte(b: u8, t: &Terminator) -> (r: bool)
    ensures
        r == is_terminator_byte(b, *t),
{
    match t {
        Terminator::Byte(x) => b == *x,
        Terminator::Newline => b == 13 || b == 10,
        Terminator::Crlf => b == 13 || b == 10,
    }
}

/// Exec counterpart of [`is_special_byte`].
fn check_special_byte(b: u8, c: &OutputConvention) -> (r: bool)
    ensures
        r == is_special_byte(b, *c),
{
    if b == c.delimiter || b == c.quote || check_terminator_byte(b, &c.terminator) {
        true
    } else {
        match c.escape {
            EscapeMode::Prefix(e) => b == e,
            EscapeMode::Double => false,
        }
    }
}

/// Append the serialization of one field to `out`.
pub fn write_field(out: &mut Vec<u8>, field: &Vec<u8>, c: &OutputConvention)
    ensures
        final(out)@ == old(out)@ + encode_field(field@, *c),
{
    let ghost out0: Seq<u8> = out@;
    let mut quote_it: bool = matches!(c.style, QuoteStyle::Always);
    if !quote_it {
        let mut j: usize = 0;
        while j < field.len() && !quote_it
            invariant
                j <= field.len(),
                quote_it ==> field_must_quote(field@, *c),
                !quote_it ==> forall|i: int| 0 <= i < j ==> !is_special_byte(field@[i], *c),
            decreases field.len() - j,
        {
            if check_special_byte(field[j], c) {
                quote_it = true;
                assert(field_must_quote(field@, *c));
            }
            j += 1;
        }
    }
    assert(quote_it == field_is_quoted(field@, *c));
    if quote_it {
        out.push(c.quote);
        let mut j: usize = 0;
        while j < field.len()
            invariant
                j <= field.len(),
                out@ == out0 + seq![c.quote] + encode_content(field@.take(j as int), *c),
            decreases field.len() - j,
        {
            let b = field[j];
            proof {
                assert(field@.take(j + 1).drop_last() =~= field@.take(j as int));
                assert(field@.take(j + 1).last() == field@[j as int]);
            }
            let escaped: bool = match c.escape {
                EscapeMode::Double => b == c.quote,
                EscapeMode::Prefix(e) => b == c.quote || b == e,
            };
            if escaped {
                match c.escape {
                    EscapeMode::Double => out.push(c.quote),
                    EscapeMode::Prefix(e) => out.push(e),
                }
            }
            out.push(b);
            proof {
                assert(out@ =~= out0 + seq![c.quote] + encode_content(field@.take(j + 1), *c));
            }
            j += 1;
        }
        proof {
            assert(field@.take(field@.len() as int) =~= field@);
        }
        out.push(c.quote);
        proof {
            assert(out@ =~= out0 + encode_field(field@, *c));
        }
    } else {
        let mut j: usize = 0;
        while j < field.len()
            invariant
                j <= field.len(),
                out@ == out0 + field@.take(j as int),
            decreases field.len() - j,
        {
            out.push(field[j]);
            proof {
                assert(out@ =~= out0 + field@.take(j + 1));
            }
            j += 1;
        }
        proof {
            assert(field@.take(field@.len() as int) =~= field@);
            assert(out@ =~= out0 + encode_field(field@, *c));
        }
    }
}

/// Append the serialization of one record, terminator included, to `out`.
pub fn write_record(out: &mut Vec<u8>, fields: &Vec<Vec<u8>>, c: &OutputConvention)
    ensures
        final(out)@ == old(out)@ + encode_record(fields.deep_view(), *c),
{
    let ghost out0: Seq<u8> = out@;
    let mut j: usize = 0;
    while j < fields.len()
        invariant
            j <= fields.len(),
            out@ == out0 + encode_fields(fields.deep_view().take(j as int), *c),
        decreases fields.len() - j,
    {
        proof {
            assert(fields.deep_view().take(j + 1).drop_last() =~= fields.deep_view().take(
                j as int,
            ));
            assert(fields.deep_view()[j as int] =~= fields@[j as int]@);
        }
        if j > 0 {
            out.push(c.delimiter);
        }
        write_field(out, &fields[j], c);
        proof {
            assert(out@ =~= out0 + encode_fields(fields.deep_view().take(j + 1), *c));
        }
        j += 1;
    }
    proof {
        assert(fields.deep_view().take(fields@.len() as int) =~= fields.deep_view());
    }
    match c.terminator {
        Terminator::Newline => out.push(10),
        Terminator::Crlf => {
            out.push(13);
            out.push(10);
        },
        Terminator::Byte(b) => out.push(b),
    }
    proof {
        assert(out@ =~= out0 + encode_record(fields.deep_view(), *c));
    }
}

} // verus!
